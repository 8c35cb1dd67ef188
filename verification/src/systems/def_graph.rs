//! The definition graph: specs, their ports, the streams that join them and
//! the aliases under which the root spec shows inner ports.

use crate::systems::connectivity::find_source;
use crate::systems::connectivity::find_targets;
use crate::systems::connectivity::lemma_source_pair_agrees;
use crate::systems::connectivity::lemma_target_pairs_agrees;
use crate::systems::connectivity::pairs_below;
use crate::systems::def_graph_model::alias_named;
use crate::systems::def_graph_model::key_kind;
use crate::systems::def_graph_model::kind_fits;
use crate::systems::def_graph_model::lemma_key_heads;
use crate::systems::def_graph_model::lemma_key_kind;
use crate::systems::def_graph_model::node_key;
use crate::systems::def_graph_model::node_type_name;
use crate::systems::def_graph_model::of_kind;
use crate::systems::def_graph_model::port_tagged;
use crate::systems::def_graph_model::root_named;
use crate::systems::def_graph_model::spec_named;
use crate::systems::def_graph_model::spec_or_root;
use crate::systems::def_graph_model::DefGraphNodeView;
use crate::systems::def_graph_model::DefGraphPartsView;
use crate::systems::def_graph_model::DefGraphView;
use crate::systems::def_graph_utils::opt_info;
use crate::systems::def_graph_utils::unique_spec_identifier;
use crate::systems::def_graph_utils::unique_stream_identifier;
use crate::systems::def_graph_utils::FromSpecAndTag;
use crate::systems::def_graph_utils::SpecTagInfo;
use crate::systems::def_graph_utils::ToSpecAndTag;
use crate::systems::error::GraphError;
use crate::systems::select::all_below;
use crate::systems::select::chosen;
use crate::systems::select::count_up;
use crate::systems::select::decides;
use crate::systems::select::first_match;
use crate::systems::select::found_first;
use crate::systems::select::lemma_chosen_agrees;
use crate::systems::select::lemma_first_match_agrees;
use crate::systems::select::numbers_below;
use crate::systems::select::picked;
use crate::systems::select::seek;
use crate::systems::select::seek_by;
use crate::systems::select::select;
use crate::systems::select::select_by;
use crate::systems::str_map::chars_of;
use crate::systems::str_map::entries_map;
use crate::systems::str_map::entries_with;
use crate::systems::str_map::lemma_entries_with;
use crate::systems::str_map::lemma_present_key;
use crate::systems::str_map::StrMap;
use crate::systems::text::copy_opt_text;
use crate::systems::text::has_prefix;
use crate::systems::text::join3;
use crate::systems::text::opt_chars;
use crate::systems::text::opt_text_is;
use crate::systems::text::same_opt_text;
use crate::systems::text::same_text;
use crate::systems::topology::edges_within;
use crate::systems::topology::neighbors_of;
use crate::systems::topology::Wiring;
use petgraph::Direction;
use vstd::prelude::*;
use vstd::string::StringExecFns;

verus! {

/// The six kinds of node in a definition graph.
#[derive(Debug, PartialEq, Eq, Clone, Copy, Structural)]
pub enum NodeType {
    RootSpec,
    Spec,
    StreamDef,
    Inlet,
    Outlet,
    Alias,
}

impl NodeType {
    /// The name of the kind.
    pub fn as_str(&self) -> (r: &'static str)
        ensures
            r@ == node_type_name(*self),
    {
        match self {
            NodeType::RootSpec => "RootSpec",
            NodeType::Spec => "Spec",
            NodeType::StreamDef => "StreamDef",
            NodeType::Inlet => "Inlet",
            NodeType::Outlet => "Outlet",
            NodeType::Alias => "Alias",
        }
    }
}

/// The name of a kind as an owned string.
fn node_type_to_string(node_type: &NodeType) -> (r: String)
    ensures
        r@ == node_type_name(*node_type),
{
    String::from_str(node_type.as_str())
}

/// The kind that the key `key` belongs to, if it belongs to one.
fn key_kind_of(key: &str) -> (r: Option<NodeType>)
    ensures
        r == key_kind(key@),
{
    proof {
        lemma_key_heads();
    }
    if has_prefix(key, "RootSpec_") {
        Some(NodeType::RootSpec)
    } else if has_prefix(key, "Spec_") {
        Some(NodeType::Spec)
    } else if has_prefix(key, "StreamDef_") {
        Some(NodeType::StreamDef)
    } else if has_prefix(key, "Inlet_") {
        Some(NodeType::Inlet)
    } else if has_prefix(key, "Outlet_") {
        Some(NodeType::Outlet)
    } else if has_prefix(key, "Alias_") {
        Some(NodeType::Alias)
    } else {
        None
    }
}

/// What a node of a definition graph carries.
#[derive(Debug, PartialEq)]
pub struct DefGraphNode {
    pub node_type: NodeType,
    pub spec_name: Option<String>,
    pub unique_spec_label: Option<String>,
    pub tag: Option<String>,
    pub has_transform: Option<bool>,
    pub stream_def_id: Option<String>,
    pub alias: Option<String>,
    pub direction: Option<String>,
    pub label: String,
}

impl View for DefGraphNode {
    type V = DefGraphNodeView;

    open spec fn view(&self) -> DefGraphNodeView {
        DefGraphNodeView {
            node_type: self.node_type,
            spec_name: opt_chars(self.spec_name),
            unique_spec_label: opt_chars(self.unique_spec_label),
            tag: opt_chars(self.tag),
            has_transform: self.has_transform,
            stream_def_id: opt_chars(self.stream_def_id),
            alias: opt_chars(self.alias),
            direction: opt_chars(self.direction),
            label: self.label@,
        }
    }
}

impl Clone for DefGraphNode {
    fn clone(&self) -> (r: Self)
        ensures
            r@ == self@,
    {
        DefGraphNode {
            node_type: self.node_type,
            spec_name: copy_opt_text(&self.spec_name),
            unique_spec_label: copy_opt_text(&self.unique_spec_label),
            tag: copy_opt_text(&self.tag),
            has_transform: self.has_transform,
            stream_def_id: copy_opt_text(&self.stream_def_id),
            alias: copy_opt_text(&self.alias),
            direction: copy_opt_text(&self.direction),
            label: self.label.clone(),
        }
    }
}

impl DefGraphNode {
    /// A payload of the given kind that carries its label and nothing else.
    pub fn new(node_type: NodeType, label: String) -> (r: Self)
        ensures
            r@ == DefGraphNodeView::blank(node_type, label@),
    {
        DefGraphNode {
            node_type,
            spec_name: None,
            unique_spec_label: None,
            tag: None,
            has_transform: None,
            stream_def_id: None,
            alias: None,
            direction: None,
            label,
        }
    }

    /// The payload with the given spec name.
    pub fn with_spec_name(self, spec_name: String) -> (r: Self)
        ensures
            r@ == (DefGraphNodeView { spec_name: Some(spec_name@), ..self@ }),
    {
        let mut node = self;
        node.spec_name = Some(spec_name);
        node
    }

    /// The payload with the given label of its spec instance, or with none.
    pub fn with_unique_spec_label(self, unique_spec_label: Option<String>) -> (r: Self)
        ensures
            r@ == (DefGraphNodeView { unique_spec_label: opt_chars(unique_spec_label), ..self@ }),
    {
        let mut node = self;
        node.unique_spec_label = unique_spec_label;
        node
    }

    /// The payload with the given tag.
    pub fn with_tag(self, tag: String) -> (r: Self)
        ensures
            r@ == (DefGraphNodeView { tag: Some(tag@), ..self@ }),
    {
        let mut node = self;
        node.tag = Some(tag);
        node
    }

    /// The payload with the given transform flag.
    pub fn with_has_transform(self, has_transform: bool) -> (r: Self)
        ensures
            r@ == (DefGraphNodeView { has_transform: Some(has_transform), ..self@ }),
    {
        let mut node = self;
        node.has_transform = Some(has_transform);
        node
    }

    /// The payload with the given stream identifier.
    pub fn with_stream_def_id(self, stream_def_id: String) -> (r: Self)
        ensures
            r@ == (DefGraphNodeView { stream_def_id: Some(stream_def_id@), ..self@ }),
    {
        let mut node = self;
        node.stream_def_id = Some(stream_def_id);
        node
    }

    /// The payload with the given alias.
    pub fn with_alias(self, alias: String) -> (r: Self)
        ensures
            r@ == (DefGraphNodeView { alias: Some(alias@), ..self@ }),
    {
        let mut node = self;
        node.alias = Some(alias);
        node
    }

    /// The payload with the given direction.
    pub fn with_direction(self, direction: String) -> (r: Self)
        ensures
            r@ == (DefGraphNodeView { direction: Some(direction@), ..self@ }),
    {
        let mut node = self;
        node.direction = Some(direction);
        node
    }
}

/// The views of a list of payloads.
pub open spec fn payload_views(nodes: Seq<DefGraphNode>) -> Seq<DefGraphNodeView> {
    Seq::new(nodes.len(), |i: int| nodes[i]@)
}

/// The predicate on stored payloads that asks `q` of the payload's view.
pub open spec fn through_view(q: spec_fn(DefGraphNodeView) -> bool) -> spec_fn(DefGraphNode) -> bool {
    |n: DefGraphNode| q(n@)
}

/// The characters of an optional string slice.
pub open spec fn opt_str_chars(o: Option<&str>) -> Option<Seq<char>> {
    match o {
        Some(s) => Some(s@),
        None => None,
    }
}

/// The characters of each string of a list.
pub open spec fn texts(items: Seq<String>) -> Seq<Seq<char>> {
    Seq::new(items.len(), |i: int| items[i]@)
}

/// A spec by its name and the tags of its inputs and outputs.
#[derive(Debug)]
pub struct SpecBase {
    pub name: String,
    pub input_tags: Vec<String>,
    pub output_tags: Vec<String>,
}

/// A definition graph taken apart: what a serialized graph holds.
#[derive(Debug, PartialEq)]
pub struct DefGraphParts {
    /// The payloads, in the order of the node handles.
    pub nodes: Vec<DefGraphNode>,
    /// The edges as (source, target) pairs of node handles.
    pub edges: Vec<(u32, u32)>,
    /// The node keys, each with the handle kept under it.
    pub node_indices: Vec<(String, u32)>,
    /// The ports for which a stream identifier is remembered, each with the
    /// identifier.
    pub stream_ids: Vec<(String, String)>,
}

impl View for DefGraphParts {
    type V = DefGraphPartsView;

    open spec fn view(&self) -> DefGraphPartsView {
        DefGraphPartsView {
            nodes: payload_views(self.nodes@),
            edges: self.edges@,
            node_indices: Seq::new(
                self.node_indices@.len(),
                |i: int| (self.node_indices@[i].0@, self.node_indices@[i].1),
            ),
            stream_ids: Seq::new(
                self.stream_ids@.len(),
                |i: int| (self.stream_ids@[i].0@, self.stream_ids@[i].1@),
            ),
        }
    }
}

/// A definition graph.
#[derive(Debug)]
pub struct DefGraph {
    wiring: Wiring,
    nodes: Vec<DefGraphNode>,
    node_indices: StrMap<u32>,
    stream_node_id_by_spec_identifier_type_and_tag: StrMap<String>,
}

impl View for DefGraph {
    type V = DefGraphView;

    closed spec fn view(&self) -> DefGraphView {
        DefGraphView {
            nodes: payload_views(self.nodes@),
            edges: self.wiring.edges(),
            index: self.node_indices.as_map(),
            memo: self.stream_node_id_by_spec_identifier_type_and_tag.as_map().map_values(
                chars_of(),
            ),
        }
    }
}

impl DefGraph {
    /// The payloads as they are stored, in the order of the node handles.
    pub closed spec fn payloads(&self) -> Seq<DefGraphNode> {
        self.nodes@
    }

    /// The invariant of the representation: the wiring has one node per
    /// payload and is well formed itself.
    pub closed spec fn inv(&self) -> bool {
        &&& self.wiring.wf()
        &&& self.wiring.node_count() == self.nodes@.len()
        &&& self.node_indices.distinct()
    }

    /// The validity of a definition graph.
    pub open spec fn wf(&self) -> bool {
        &&& self.inv()
        &&& self@.wf()
        &&& self@.nodes == payload_views(self.payloads())
    }

    /// The graph of the root spec `root_spec_name`: the root node, an inlet
    /// with its stream for each input tag, and an outlet with its stream for
    /// each output tag.
    pub fn new(root_spec_name: String, input_tags: Vec<String>, output_tags: Vec<String>) -> (g:
        Self)
        requires
            1 + 2 * (input_tags@.len() + output_tags@.len()) <= u32::MAX,
        ensures
            g.wf(),
            g@ == DefGraphView::created(root_spec_name@, texts(input_tags@), texts(output_tags@)),
    {
        let root_spec_id = unique_spec_identifier(root_spec_name.clone(), None);
        let mut wiring = Wiring::new();
        let mut nodes: Vec<DefGraphNode> = Vec::new();
        let mut node_indices: StrMap<u32> = StrMap::new();
        let root = wiring.add_node();
        nodes.push(
            DefGraphNode::new(NodeType::RootSpec, root_spec_id.clone()).with_spec_name(
                root_spec_name.clone(),
            ),
        );
        node_indices.insert(join3("RootSpec", "_", root_spec_id.as_str()), root);
        let mut graph = DefGraph {
            wiring,
            nodes,
            node_indices,
            stream_node_id_by_spec_identifier_type_and_tag: StrMap::new(),
        };
        let ghost name = root_spec_name@;
        let ghost inputs = texts(input_tags@);
        let ghost outputs = texts(output_tags@);
        proof {
            let start = DefGraphView::initial(name);
            lemma_key_kind(NodeType::RootSpec, name);
            assert(graph@.nodes =~= start.nodes);
            assert(graph@.index =~= start.index);
            assert(graph@.memo =~= start.memo);
            assert(inputs.take(0) =~= Seq::<Seq<char>>::empty());
        }
        let mut i: usize = 0;
        while i < input_tags.len()
            invariant
                i <= input_tags.len(),
                1 + 2 * (input_tags@.len() + output_tags@.len()) <= u32::MAX,
                name == root_spec_name@,
                root_spec_id@ == name,
                root == 0,
                inputs == texts(input_tags@),
                graph.wf(),
                graph@ == DefGraphView::initial(name).with_inputs(name, inputs.take(i as int)),
                graph@.nodes.len() == 1 + 2 * i,
                graph@.edges.len() <= 2 * i,
            decreases input_tags.len() - i,
        {
            let tag = &input_tags[i];
            let ghost before = graph@;
            let inlet = graph.push_node(
                DefGraphNode::new(
                    NodeType::Inlet,
                    join3(root_spec_id.as_str(), "/", tag.as_str()),
                ).with_tag(tag.clone()).with_has_transform(false),
            );
            let stream_def_id = unique_stream_identifier(
                Some(
                    SpecTagInfo {
                        spec_name: root_spec_name.clone(),
                        tag: tag.clone(),
                        unique_spec_label: None,
                    },
                ),
                None,
            );
            let stream = graph.push_node(
                DefGraphNode::new(NodeType::StreamDef, stream_def_id.clone()).with_stream_def_id(
                    stream_def_id,
                ),
            );
            graph.link(stream, inlet);
            graph.link(inlet, root);
            proof {
                assert(inputs.take(i + 1).drop_last() =~= inputs.take(i as int));
                assert(inputs.take(i + 1).last() == tag@);
                assert(graph@ == before.with_input(name, tag@));
            }
            i += 1;
        }
        proof {
            assert(inputs.take(i as int) =~= inputs);
            assert(outputs.take(0) =~= Seq::<Seq<char>>::empty());
        }
        let ghost wired = graph@;
        let mut j: usize = 0;
        while j < output_tags.len()
            invariant
                j <= output_tags.len(),
                i == input_tags.len(),
                1 + 2 * (input_tags@.len() + output_tags@.len()) <= u32::MAX,
                name == root_spec_name@,
                root_spec_id@ == name,
                root == 0,
                outputs == texts(output_tags@),
                graph.wf(),
                graph@ == wired.with_outputs(name, outputs.take(j as int)),
                graph@.nodes.len() == 1 + 2 * (i + j),
                graph@.edges.len() <= 2 * (i + j),
            decreases output_tags.len() - j,
        {
            let tag = &output_tags[j];
            let ghost before = graph@;
            let outlet = graph.push_node(
                DefGraphNode::new(
                    NodeType::Outlet,
                    join3(root_spec_id.as_str(), "/", tag.as_str()),
                ).with_tag(tag.clone()),
            );
            let stream_def_id = unique_stream_identifier(
                Some(
                    SpecTagInfo {
                        spec_name: root_spec_name.clone(),
                        tag: tag.clone(),
                        unique_spec_label: None,
                    },
                ),
                None,
            );
            let stream = graph.push_node(
                DefGraphNode::new(NodeType::StreamDef, stream_def_id.clone()).with_stream_def_id(
                    stream_def_id.clone(),
                ),
            );
            graph.link(root, outlet);
            graph.link(outlet, stream);
            graph.note_stream(join3(root_spec_name.as_str(), "/", tag.as_str()), stream_def_id);
            proof {
                assert(outputs.take(j + 1).drop_last() =~= outputs.take(j as int));
                assert(outputs.take(j + 1).last() == tag@);
                assert(graph@ == before.with_output(name, tag@));
            }
            j += 1;
        }
        proof {
            assert(outputs.take(j as int) =~= outputs);
        }
        graph
    }

    /// The graph of the root spec `root`, as `new` makes it of the spec's
    /// name and tags.
    pub fn of_root(root: SpecBase) -> (g: Self)
        requires
            1 + 2 * (root.input_tags@.len() + root.output_tags@.len()) <= u32::MAX,
        ensures
            g.wf(),
            g@ == DefGraphView::created(
                root.name@,
                texts(root.input_tags@),
                texts(root.output_tags@),
            ),
    {
        DefGraph::new(root.name, root.input_tags, root.output_tags)
    }

    /// Adds a node that no key leads to, and returns its handle.
    fn push_node(&mut self, data: DefGraphNode) -> (r: u32)
        requires
            old(self).wf(),
            old(self)@.nodes.len() < u32::MAX,
        ensures
            final(self).wf(),
            r == old(self)@.nodes.len(),
            final(self)@ == old(self)@.add_node(data@),
            final(self).payloads() == old(self).payloads().push(data),
    {
        let index = self.wiring.add_node();
        self.nodes.push(data);
        proof {
            assert(self@.nodes =~= old(self)@.add_node(data@).nodes);
        }
        index
    }

    /// Adds the edge between two nodes of the graph unless it is there.
    fn link(&mut self, from_index: u32, to_index: u32)
        requires
            old(self).wf(),
            old(self)@.edges.len() < u32::MAX,
            from_index < old(self)@.nodes.len(),
            to_index < old(self)@.nodes.len(),
        ensures
            final(self).wf(),
            final(self)@ == old(self)@.ensure_edge(from_index, to_index),
            final(self).payloads() == old(self).payloads(),
    {
        self.wiring.connect(from_index, to_index);
        proof {
            assert(self@.edges.len() <= u32::MAX);
            assert(self@.index == old(self)@.index);
        }
    }

    /// Remembers the stream identifier `id` for the port `port`.
    fn note_stream(&mut self, port: String, id: String)
        requires
            old(self).wf(),
        ensures
            final(self).wf(),
            final(self)@ == old(self)@.remember(port@, id@),
            final(self).payloads() == old(self).payloads(),
    {
        self.stream_node_id_by_spec_identifier_type_and_tag.insert(port, id);
        proof {
            assert(self@.memo =~= old(self)@.remember(port@, id@).memo);
        }
    }

    /// The stream identifier that is remembered for the port `port`.
    fn recall_stream(&self, port: &str) -> (r: Option<String>)
        requires
            self.wf(),
        ensures
            r is Some <==> self@.memo.contains_key(port@),
            r is Some ==> r->0@ == self@.memo[port@],
    {
        match self.stream_node_id_by_spec_identifier_type_and_tag.get(port) {
            Some(id) => Some(id.clone()),
            None => None,
        }
    }

    /// Asks for the node with identifier `id` and the kind of `data`. Where
    /// the graph has it already, the node and its payload stay as they are;
    /// else the node is added with `data` as its payload. Returns the handle.
    pub fn ensure_node(&mut self, id: &str, data: DefGraphNode) -> (r: u32)
        requires
            old(self).wf(),
            old(self)@.nodes.len() < u32::MAX,
        ensures
            final(self).wf(),
            (final(self)@, r) == old(self)@.ensure_node(id@, data@),
            final(self).payloads() == if old(self)@.index.contains_key(node_key(data.node_type, id@)) {
                old(self).payloads()
            } else {
                old(self).payloads().push(data)
            },
    {
        let kind = node_type_to_string(&data.node_type);
        let key = join3(kind.as_str(), "_", id);
        let found = match self.node_indices.get(key.as_str()) {
            Some(index) => Some(*index),
            None => None,
        };
        match found {
            Some(index) => index,
            None => {
                let index = self.wiring.add_node();
                self.nodes.push(data);
                self.node_indices.insert(key, index);
                proof {
                    let expected = old(self)@.ensure_node(id@, data@).0;
                    lemma_key_kind(data.node_type, id@);
                    assert(self@.nodes =~= expected.nodes);
                    assert(self@.index =~= expected.index);
                    assert(self@.memo =~= expected.memo);
                }
                index
            },
        }
    }

    /// Adds the edge from `from_index` to `to_index` unless the graph has it
    /// already. Refuses a handle that is no node of the graph.
    pub fn ensure_edge(&mut self, from_index: u32, to_index: u32) -> (r: Result<(), GraphError>)
        requires
            old(self).wf(),
            old(self)@.edges.len() < u32::MAX,
        ensures
            final(self).wf(),
            final(self).payloads() == old(self).payloads(),
            r is Ok <==> from_index < old(self)@.nodes.len() && to_index < old(self)@.nodes.len(),
            r is Ok ==> final(self)@ == old(self)@.ensure_edge(from_index, to_index),
            r is Err ==> r == Err::<(), GraphError>(GraphError::NodeNotFound) && final(self)@ == old(self)@,
    {
        if (from_index as usize) < self.nodes.len() && (to_index as usize) < self.nodes.len() {
            self.link(from_index, to_index);
            Ok(())
        } else {
            Err(GraphError::NodeNotFound)
        }
    }

    /// Asks for the spec of `s`, its inlet and the inlet's stream, and wires
    /// stream to inlet to spec. The stream is the one remembered for the
    /// inlet, if any. The label of `s` is not looked at. Returns the handles
    /// of the inlet and of the stream.
    pub fn ensure_inlet_and_stream(&mut self, s: SpecTagInfo, has_transform: bool) -> (r: (u32, u32))
        requires
            old(self).wf(),
            old(self)@.nodes.len() + 3 <= u32::MAX,
            old(self)@.edges.len() + 2 <= u32::MAX,
        ensures
            final(self).wf(),
            (final(self)@, r) == old(self)@.ensure_inlet_and_stream(
                s.spec_name@,
                s.tag@,
                has_transform,
            ),
    {
        let spec_name = s.spec_name;
        let tag = s.tag;
        let spec_id = unique_spec_identifier(spec_name.clone(), None);
        let stream_def_id = match self.recall_stream(
            join3(spec_name.as_str(), "::in/", tag.as_str()).as_str(),
        ) {
            Some(id) => id,
            None => unique_stream_identifier(
                None,
                Some(
                    SpecTagInfo {
                        spec_name: spec_name.clone(),
                        tag: tag.clone(),
                        unique_spec_label: None,
                    },
                ),
            ),
        };
        let spec_node_id = self.ensure_node(
            spec_id.as_str(),
            DefGraphNode::new(NodeType::Spec, spec_id.clone()).with_spec_name(spec_id.clone()),
        );
        let port_id = join3(spec_id.as_str(), "/", tag.as_str());
        let inlet_node_id = self.ensure_node(
            port_id.as_str(),
            DefGraphNode::new(NodeType::Inlet, port_id.clone()).with_tag(
                tag.clone(),
            ).with_has_transform(has_transform),
        );
        let stream_node_id = self.ensure_node(
            stream_def_id.as_str(),
            DefGraphNode::new(NodeType::StreamDef, stream_def_id.clone()).with_stream_def_id(
                stream_def_id.clone(),
            ),
        );
        self.link(stream_node_id, inlet_node_id);
        self.link(inlet_node_id, spec_node_id);
        (inlet_node_id, stream_node_id)
    }

    /// Asks for the spec of `s`, its outlet and the outlet's stream, and
    /// wires spec to outlet to stream. The stream is the one remembered for
    /// the outlet, if any. The label of `s` is not looked at. Returns the
    /// handles of the outlet and of the stream.
    pub fn ensure_outlet_and_stream(&mut self, s: SpecTagInfo) -> (r: (u32, u32))
        requires
            old(self).wf(),
            old(self)@.nodes.len() + 3 <= u32::MAX,
            old(self)@.edges.len() + 2 <= u32::MAX,
        ensures
            final(self).wf(),
            (final(self)@, r) == old(self)@.ensure_outlet_and_stream(s.spec_name@, s.tag@),
    {
        let spec_name = s.spec_name;
        let tag = s.tag;
        let spec_id = unique_spec_identifier(spec_name.clone(), None);
        let stream_def_id = match self.recall_stream(
            join3(spec_name.as_str(), "::out/", tag.as_str()).as_str(),
        ) {
            Some(id) => id,
            None => unique_stream_identifier(
                Some(
                    SpecTagInfo {
                        spec_name: spec_name.clone(),
                        tag: tag.clone(),
                        unique_spec_label: None,
                    },
                ),
                None,
            ),
        };
        let spec_node_id = self.ensure_node(
            spec_id.as_str(),
            DefGraphNode::new(NodeType::Spec, spec_id.clone()).with_spec_name(spec_id.clone()),
        );
        let port_id = join3(spec_id.as_str(), "/", tag.as_str());
        let outlet_node_id = self.ensure_node(
            port_id.as_str(),
            DefGraphNode::new(NodeType::Outlet, port_id.clone()).with_tag(tag.clone()),
        );
        let stream_node_id = self.ensure_node(
            stream_def_id.as_str(),
            DefGraphNode::new(NodeType::StreamDef, stream_def_id.clone()).with_stream_def_id(
                stream_def_id.clone(),
            ),
        );
        self.link(spec_node_id, outlet_node_id);
        self.link(outlet_node_id, stream_node_id);
        (outlet_node_id, stream_node_id)
    }

    /// The stream definitions that the outlet kept under `outlet_key` leads to.
    fn outlet_streams(&self, outlet_key: &str) -> (r: Vec<u32>)
        requires
            self.wf(),
        ensures
            r@ == self@.streams_of_outlet(outlet_key@),
            all_below(r@, self@.nodes.len()),
    {
        let found = match self.node_indices.get(outlet_key) {
            Some(index) => Some(*index),
            None => None,
        };
        match found {
            Some(outlet) => {
                let cands = self.wiring.outbound(outlet);
                let test = |n: &DefGraphNode| -> (b: bool)
                    ensures
                        b == (n@.node_type == NodeType::StreamDef),
                    { n.node_type == NodeType::StreamDef };
                self.select_among(&cands, test, Ghost(of_kind(NodeType::StreamDef)))
            },
            None => Vec::new(),
        }
    }

    /// Connects the outlet of `from` to the inlet of `to` through a stream.
    ///
    /// Both specs and both ports are asked for. An outlet that leads to one
    /// stream already keeps it, so that one outlet can feed several inlets;
    /// an outlet that leads to none gets a stream named after both ports. The
    /// stream's identifier is remembered for both ports. Returns the handles
    /// of the producing spec, the consuming spec, the stream, the outlet and
    /// the inlet.
    ///
    /// Refused, with the graph left as it was: an outlet that leads to more
    /// than one stream (`AmbiguousStreamFanout`), and an outlet whose one
    /// stream carries no identifier (`InternalConsistency`).
    pub fn add_connected_dual_specs(&mut self, from: &FromSpecAndTag, to: &ToSpecAndTag) -> (r:
        Result<(u32, u32, u32, u32, u32), GraphError>)
        requires
            old(self).wf(),
            old(self)@.nodes.len() + 5 <= u32::MAX,
            old(self)@.edges.len() + 4 <= u32::MAX,
        ensures
            final(self).wf(),
            match old(self)@.connect(from@, to@) {
                Ok((g, handles)) => final(self)@ == g && r == Ok::<
                    (u32, u32, u32, u32, u32),
                    GraphError,
                >(handles),
                Err(e) => final(self)@ == old(self)@ && r == Err::<
                    (u32, u32, u32, u32, u32),
                    GraphError,
                >(e),
            },
    {
        let from_spec_id = unique_spec_identifier(
            from.spec_name.clone(),
            copy_opt_text(&from.unique_spec_label),
        );
        let to_spec_id = unique_spec_identifier(
            to.spec_name.clone(),
            copy_opt_text(&to.unique_spec_label),
        );
        let outlet_id = join3(from_spec_id.as_str(), "/", from.output.as_str());
        let outlet_key = join3("Outlet", "_", outlet_id.as_str());
        let existing = self.outlet_streams(outlet_key.as_str());
        if existing.len() > 1 {
            return Err(GraphError::AmbiguousStreamFanout);
        }
        let reused: Option<(u32, String)> = if existing.len() == 1 {
            match &self.nodes[existing[0] as usize].stream_def_id {
                Some(id) => Some((existing[0], id.clone())),
                None => {
                    return Err(GraphError::InternalConsistency);
                },
            }
        } else {
            None
        };
        let from_spec_node_id = self.ensure_node(
            from_spec_id.as_str(),
            DefGraphNode::new(NodeType::Spec, from_spec_id.clone()).with_spec_name(
                from.spec_name.clone(),
            ).with_unique_spec_label(copy_opt_text(&from.unique_spec_label)),
        );
        let from_outlet_node_id = self.ensure_node(
            outlet_id.as_str(),
            DefGraphNode::new(NodeType::Outlet, outlet_id.clone()).with_tag(from.output.clone()),
        );
        let (stream_node_id, stream_def_id) = match reused {
            Some((stream, id)) => (stream, id),
            None => {
                let id = unique_stream_identifier(
                    Some(
                        SpecTagInfo {
                            spec_name: from.spec_name.clone(),
                            tag: from.output.clone(),
                            unique_spec_label: copy_opt_text(&from.unique_spec_label),
                        },
                    ),
                    Some(
                        SpecTagInfo {
                            spec_name: to.spec_name.clone(),
                            tag: to.input.clone(),
                            unique_spec_label: copy_opt_text(&to.unique_spec_label),
                        },
                    ),
                );
                let stream = self.ensure_node(
                    id.as_str(),
                    DefGraphNode::new(NodeType::StreamDef, id.clone()).with_stream_def_id(
                        id.clone(),
                    ),
                );
                self.link(from_spec_node_id, from_outlet_node_id);
                self.link(from_outlet_node_id, stream);
                (stream, id)
            },
        };
        let inlet_id = join3(to_spec_id.as_str(), "/", to.input.as_str());
        let to_inlet_node_id = self.ensure_node(
            inlet_id.as_str(),
            DefGraphNode::new(NodeType::Inlet, inlet_id.clone()).with_tag(
                to.input.clone(),
            ).with_has_transform(to.has_transform),
        );
        let to_spec_node_id = self.ensure_node(
            to_spec_id.as_str(),
            DefGraphNode::new(NodeType::Spec, to_spec_id.clone()).with_spec_name(
                to.spec_name.clone(),
            ).with_unique_spec_label(copy_opt_text(&to.unique_spec_label)),
        );
        self.link(stream_node_id, to_inlet_node_id);
        self.link(to_inlet_node_id, to_spec_node_id);
        self.note_stream(
            join3(to.spec_name.as_str(), "::in/", to.input.as_str()),
            stream_def_id.clone(),
        );
        self.note_stream(
            join3(from.spec_name.as_str(), "::out/", from.output.as_str()),
            stream_def_id,
        );
        Ok((from_spec_node_id, to_spec_node_id, stream_node_id, from_outlet_node_id, to_inlet_node_id))
    }

    /// Gives the port `tag` of the spec `spec_name` the name `alias` at the
    /// root spec `root_spec_name`. `type_` is `in` for an inlet and `out` for
    /// an outlet.
    ///
    /// Refused, with the graph left as it was: a spec that the graph does not
    /// hold (`SpecNotFound`), a root spec that it does not hold
    /// (`RootSpecNotFound`), a direction other than `in` and `out`
    /// (`InvalidDirection`), and a port that the spec does not have
    /// (`PortNotFound`), in this order.
    pub fn assign_alias(
        &mut self,
        alias: &str,
        spec_name: &str,
        root_spec_name: &str,
        unique_spec_label: Option<&str>,
        type_: &str,
        tag: &str,
    ) -> (r: Result<(), GraphError>)
        requires
            old(self).wf(),
            old(self)@.nodes.len() + 1 <= u32::MAX,
            old(self)@.edges.len() + 2 <= u32::MAX,
        ensures
            final(self).wf(),
            match old(self)@.assign_alias(
                alias@,
                spec_name@,
                root_spec_name@,
                opt_str_chars(unique_spec_label),
                type_@,
                tag@,
            ) {
                Ok(g) => final(self)@ == g && r is Ok,
                Err(e) => final(self)@ == old(self)@ && r == Err::<(), GraphError>(e),
            },
    {
        let label: Option<String> = match unique_spec_label {
            Some(l) => Some(String::from_str(l)),
            None => None,
        };
        let spec_node_id = match self.seek_spec(spec_name, &label) {
            Some(id) => id,
            None => {
                return Err(GraphError::SpecNotFound);
            },
        };
        let root_spec_node_id = match self.seek_root(root_spec_name) {
            Some(id) => id,
            None => {
                return Err(GraphError::RootSpecNotFound);
            },
        };
        let inward = same_text(type_, "in");
        if !inward && !same_text(type_, "out") {
            return Err(GraphError::InvalidDirection);
        }
        let port = if inward {
            let cands = self.wiring.inbound(spec_node_id);
            self.seek_port(&cands, NodeType::Inlet, tag)
        } else {
            let cands = self.wiring.outbound(spec_node_id);
            self.seek_port(&cands, NodeType::Outlet, tag)
        };
        let port_node_id = match port {
            Some(id) => id,
            None => {
                return Err(GraphError::PortNotFound);
            },
        };
        let alias_id = join3(root_spec_name, "/", alias);
        let alias_node_id = self.ensure_node(
            alias_id.as_str(),
            DefGraphNode::new(NodeType::Alias, alias_id.clone()).with_alias(
                String::from_str(alias),
            ).with_direction(String::from_str(type_)),
        );
        if inward {
            self.link(port_node_id, alias_node_id);
            self.link(alias_node_id, root_spec_node_id);
        } else {
            self.link(root_spec_node_id, alias_node_id);
            self.link(alias_node_id, port_node_id);
        }
        Ok(())
    }

    /// The first candidate whose payload satisfies `q`, which `f` decides.
    fn seek_among<F: Fn(&DefGraphNode) -> bool>(
        &self,
        cands: &Vec<u32>,
        f: F,
        Ghost(q): Ghost<spec_fn(DefGraphNodeView) -> bool>,
    ) -> (r: Option<u32>)
        requires
            self.wf(),
            all_below(cands@, self@.nodes.len()),
            decides(f, through_view(q)),
        ensures
            r == first_match(cands@, self@.nodes, q),
            r is Some ==> r->0 < self@.nodes.len() && q(self@.nodes[r->0 as int]) && cands@.contains(
                r->0,
            ),
    {
        let r = seek(cands, &self.nodes, &f, Ghost(through_view(q)));
        proof {
            lemma_first_match_agrees(cands@, self.nodes@, through_view(q), self@.nodes, q);
        }
        r
    }

    /// The candidates whose payload satisfies `q`, which `f` decides.
    fn select_among<F: Fn(&DefGraphNode) -> bool>(
        &self,
        cands: &Vec<u32>,
        f: F,
        Ghost(q): Ghost<spec_fn(DefGraphNodeView) -> bool>,
    ) -> (r: Vec<u32>)
        requires
            self.wf(),
            all_below(cands@, self@.nodes.len()),
            decides(f, through_view(q)),
        ensures
            r@ == chosen(cands@, self@.nodes, q),
            all_below(r@, self@.nodes.len()),
    {
        let r = select(cands, &self.nodes, &f, Ghost(through_view(q)));
        proof {
            lemma_chosen_agrees(cands@, self.nodes@, through_view(q), self@.nodes, q);
        }
        r
    }

    /// The first candidate of the kind `t`.
    fn seek_kind(&self, cands: &Vec<u32>, t: NodeType) -> (r: Option<u32>)
        requires
            self.wf(),
            all_below(cands@, self@.nodes.len()),
        ensures
            r == first_match(cands@, self@.nodes, of_kind(t)),
            r is Some ==> r->0 < self@.nodes.len() && self@.nodes[r->0 as int].node_type == t
                && cands@.contains(r->0),
    {
        let test = |n: &DefGraphNode| -> (b: bool)
                ensures
                    b == (n@.node_type == t),
                { n.node_type == t };
        self.seek_among(cands, test, Ghost(of_kind(t)))
    }

    /// The first candidate of the kind `t` that carries the tag `tag`.
    fn seek_port(&self, cands: &Vec<u32>, t: NodeType, tag: &str) -> (r: Option<u32>)
        requires
            self.wf(),
            all_below(cands@, self@.nodes.len()),
        ensures
            r == first_match(cands@, self@.nodes, port_tagged(t, tag@)),
            r is Some ==> r->0 < self@.nodes.len() && cands@.contains(r->0),
    {
        let test = |n: &DefGraphNode| -> (b: bool)
                ensures
                    b == (n@.node_type == t && n@.tag == Some(tag@)),
                { n.node_type == t && opt_text_is(&n.tag, tag) };
        self.seek_among(cands, test, Ghost(port_tagged(t, tag@)))
    }

    /// The first candidate that is an alias with the name `alias`.
    fn seek_alias(&self, cands: &Vec<u32>, alias: &str) -> (r: Option<u32>)
        requires
            self.wf(),
            all_below(cands@, self@.nodes.len()),
        ensures
            r == first_match(cands@, self@.nodes, alias_named(alias@)),
            r is Some ==> r->0 < self@.nodes.len() && cands@.contains(r->0),
    {
        let test = |n: &DefGraphNode| -> (b: bool)
                ensures
                    b == (n@.node_type == NodeType::Alias && n@.alias == Some(alias@)),
                { n.node_type == NodeType::Alias && opt_text_is(&n.alias, alias) };
        self.seek_among(cands, test, Ghost(alias_named(alias@)))
    }

    /// The first spec node with the given name and label.
    fn seek_spec(&self, name: &str, label: &Option<String>) -> (r: Option<u32>)
        requires
            self.wf(),
        ensures
            r == self@.find(spec_named(name@, opt_chars(*label))),
            r is Some ==> r->0 < self@.nodes.len(),
    {
        let all = count_up(self.nodes.len() as u32);
        let test = |n: &DefGraphNode| -> (b: bool)
                ensures
                    b == (n@.node_type == NodeType::Spec && n@.spec_name == Some(name@)
                        && n@.unique_spec_label == opt_chars(*label)),
                {
                    n.node_type == NodeType::Spec && opt_text_is(&n.spec_name, name)
                        && same_opt_text(&n.unique_spec_label, label)
                };
        self.seek_among(&all, test, Ghost(spec_named(name@, opt_chars(*label))))
    }

    /// The first root spec node with the given name.
    fn seek_root(&self, name: &str) -> (r: Option<u32>)
        requires
            self.wf(),
        ensures
            r == self@.find(root_named(name@)),
            r is Some ==> r->0 < self@.nodes.len(),
    {
        let all = count_up(self.nodes.len() as u32);
        let test = |n: &DefGraphNode| -> (b: bool)
                ensures
                    b == (n@.node_type == NodeType::RootSpec && n@.spec_name == Some(name@)),
                { n.node_type == NodeType::RootSpec && opt_text_is(&n.spec_name, name) };
        self.seek_among(&all, test, Ghost(root_named(name@)))
    }

    /// The alias under which the root spec shows the port `tag` of the spec
    /// `spec_name`, if the port has one. `direction` is `in` for an inlet and
    /// `out` for an outlet; any other direction finds nothing.
    pub fn lookup_root_spec_alias(
        &self,
        spec_name: String,
        unique_spec_label: Option<String>,
        tag: String,
        direction: String,
    ) -> (r: Option<String>)
        requires
            self.wf(),
        ensures
            opt_chars(r) == self@.lookup_root_spec_alias(
                spec_name@,
                opt_chars(unique_spec_label),
                tag@,
                direction@,
            ),
    {
        let spec_node_id = match self.seek_spec(spec_name.as_str(), &unique_spec_label) {
            Some(id) => id,
            None => {
                return None;
            },
        };
        let alias_node_id = if same_text(direction.as_str(), "in") {
            let ports = self.wiring.inbound(spec_node_id);
            match self.seek_port(&ports, NodeType::Inlet, tag.as_str()) {
                Some(inlet) => {
                    let next = self.wiring.outbound(inlet);
                    self.seek_kind(&next, NodeType::Alias)
                },
                None => None,
            }
        } else if same_text(direction.as_str(), "out") {
            let ports = self.wiring.outbound(spec_node_id);
            match self.seek_port(&ports, NodeType::Outlet, tag.as_str()) {
                Some(outlet) => {
                    let next = self.wiring.inbound(outlet);
                    self.seek_kind(&next, NodeType::Alias)
                },
                None => None,
            }
        } else {
            None
        };
        match alias_node_id {
            Some(id) => copy_opt_text(&self.nodes[id as usize].alias),
            None => None,
        }
    }

    /// The spec and the tag of the port that the root spec shows under the
    /// name `alias`, if there is such a port. `direction` is `in` for an
    /// inlet and `out` for an outlet; any other direction finds nothing.
    pub fn lookup_spec_and_tag_by_alias(&self, alias: String, direction: &str) -> (r: Option<
        SpecTagInfo,
    >)
        requires
            self.wf(),
        ensures
            opt_info(r) == self@.lookup_spec_and_tag_by_alias(alias@, direction@),
    {
        let root_spec_node_id = match self.get_root_spec_node_id() {
            Some(id) => id,
            None => {
                return None;
            },
        };
        let found: Option<(u32, u32)> = if same_text(direction, "in") {
            let next = self.wiring.inbound(root_spec_node_id);
            match self.seek_alias(&next, alias.as_str()) {
                Some(node) => {
                    let ports = self.wiring.inbound(node);
                    match self.seek_kind(&ports, NodeType::Inlet) {
                        Some(inlet) => {
                            let owners = self.wiring.outbound(inlet);
                            match self.seek_kind(&owners, NodeType::Spec) {
                                Some(spec) => Some((spec, inlet)),
                                None => None,
                            }
                        },
                        None => None,
                    }
                },
                None => None,
            }
        } else if same_text(direction, "out") {
            let next = self.wiring.outbound(root_spec_node_id);
            match self.seek_alias(&next, alias.as_str()) {
                Some(node) => {
                    let ports = self.wiring.outbound(node);
                    match self.seek_kind(&ports, NodeType::Outlet) {
                        Some(outlet) => {
                            let owners = self.wiring.inbound(outlet);
                            match self.seek_kind(&owners, NodeType::Spec) {
                                Some(spec) => Some((spec, outlet)),
                                None => None,
                            }
                        },
                        None => None,
                    }
                },
                None => None,
            }
        } else {
            None
        };
        match found {
            Some((spec, port)) => {
                let owner = &self.nodes[spec as usize];
                match (&self.nodes[port as usize].tag, &owner.spec_name) {
                    (Some(tag), Some(spec_name)) => Some(
                        SpecTagInfo {
                            spec_name: spec_name.clone(),
                            tag: tag.clone(),
                            unique_spec_label: copy_opt_text(&owner.unique_spec_label),
                        },
                    ),
                    _ => None,
                }
            },
            None => None,
        }
    }

    /// The number of nodes.
    pub fn node_count(&self) -> (r: usize)
        requires
            self.wf(),
        ensures
            r == self@.nodes.len(),
    {
        self.nodes.len()
    }

    /// The number of edges.
    pub fn edge_count(&self) -> (r: usize)
        requires
            self.wf(),
        ensures
            r == self@.edges.len(),
    {
        self.wiring.edge_total()
    }

    /// The handles of all nodes, ascending.
    pub fn node_indices(&self) -> (r: Vec<u32>)
        requires
            self.wf(),
        ensures
            r@ == numbers_below(self@.nodes.len()),
    {
        count_up(self.nodes.len() as u32)
    }

    /// The handles that the graph keeps under a key, in no stated order.
    /// These are the nodes that `ensure_node` added, and the root spec.
    pub fn get_all_node_indices(&self) -> (r: Vec<u32>)
        requires
            self.wf(),
        ensures
            r@.to_set() == self@.index.values(),
    {
        self.node_indices.values()
    }

    /// The payload of the node with the handle `index`, if there is one.
    pub fn node_weight(&self, index: u32) -> (r: Option<DefGraphNode>)
        requires
            self.wf(),
        ensures
            r is Some <==> index < self@.nodes.len(),
            r is Some ==> r->0@ == self@.nodes[index as int],
    {
        if (index as usize) < self.nodes.len() {
            Some(self.nodes[index as usize].clone())
        } else {
            None
        }
    }

    /// The payload of the node with the handle `index`, which the graph holds.
    pub fn payload(&self, index: u32) -> (r: &DefGraphNode)
        requires
            self.wf(),
            index < self@.nodes.len(),
        ensures
            r@ == self@.nodes[index as int],
    {
        &self.nodes[index as usize]
    }

    /// The payloads of all nodes, in the order of the handles.
    pub fn nodes(&self) -> (r: Vec<DefGraphNode>)
        requires
            self.wf(),
        ensures
            payload_views(r@) == self@.nodes,
    {
        let mut out: Vec<DefGraphNode> = Vec::new();
        let mut i: usize = 0;
        while i < self.nodes.len()
            invariant
                i <= self.nodes.len(),
                out@.len() == i,
                forall|j: int| 0 <= j < i ==> (#[trigger] out@[j])@ == self.nodes@[j]@,
            decreases self.nodes.len() - i,
        {
            out.push(self.nodes[i].clone());
            i += 1;
        }
        assert(payload_views(out@) =~= self@.nodes);
        out
    }

    /// All edges as (source, target) pairs, in the order of their addition.
    pub fn raw_edges(&self) -> (r: Vec<(u32, u32)>)
        requires
            self.wf(),
        ensures
            r@ == self@.edges,
    {
        self.wiring.edge_list()
    }

    /// Whether an edge leads from `from` to `to`.
    pub fn contains_edge(&self, from: u32, to: u32) -> (r: bool)
        requires
            self.wf(),
        ensures
            r == self@.edges.contains((from, to)),
    {
        self.wiring.has_edge(from, to)
    }

    /// The nodes from which an edge leads to `node_id`, newest edge first.
    pub fn inbound_neighbors(&self, node_id: u32) -> (r: Vec<u32>)
        requires
            self.wf(),
        ensures
            r@ == self@.sources(node_id),
            all_below(r@, self@.nodes.len()),
    {
        self.wiring.inbound(node_id)
    }

    /// The nodes to which an edge leads from `node_id`, newest edge first.
    pub fn outbound_neighbors(&self, node_id: u32) -> (r: Vec<u32>)
        requires
            self.wf(),
        ensures
            r@ == self@.targets(node_id),
            all_below(r@, self@.nodes.len()),
    {
        self.wiring.outbound(node_id)
    }

    /// The inbound neighbours of `index` for which `condition` answers yes,
    /// newest edge first.
    pub fn filter_inbound_neighbors<F: Fn(&DefGraphNode) -> bool>(
        &self,
        index: u32,
        condition: F,
    ) -> (r: Vec<u32>)
        requires
            self.wf(),
            forall|n: &DefGraphNode| call_requires(condition, (n,)),
        ensures
            picked(self@.sources(index), self.payloads(), condition, r@),
            all_below(r@, self@.nodes.len()),
    {
        let cands = self.wiring.inbound(index);
        select_by(&cands, &self.nodes, condition)
    }

    /// The outbound neighbours of `index` for which `condition` answers yes,
    /// newest edge first.
    pub fn filter_outbound_neighbors<F: Fn(&DefGraphNode) -> bool>(
        &self,
        index: u32,
        condition: F,
    ) -> (r: Vec<u32>)
        requires
            self.wf(),
            forall|n: &DefGraphNode| call_requires(condition, (n,)),
        ensures
            picked(self@.targets(index), self.payloads(), condition, r@),
            all_below(r@, self@.nodes.len()),
    {
        let cands = self.wiring.outbound(index);
        select_by(&cands, &self.nodes, condition)
    }

    /// The first inbound neighbour of `node_id` for which `condition` answers
    /// yes, newest edge first.
    pub fn find_inbound_neighbor<F: Fn(&DefGraphNode) -> bool>(
        &self,
        node_id: u32,
        condition: F,
    ) -> (r: Option<u32>)
        requires
            self.wf(),
            forall|n: &DefGraphNode| call_requires(condition, (n,)),
        ensures
            found_first(self@.sources(node_id), self.payloads(), condition, r),
            r is Some ==> r->0 < self@.nodes.len(),
    {
        let cands = self.wiring.inbound(node_id);
        seek_by(&cands, &self.nodes, condition)
    }

    /// The first outbound neighbour of `node_id` for which `condition`
    /// answers yes, newest edge first.
    pub fn find_outbound_neighbor<F: Fn(&DefGraphNode) -> bool>(
        &self,
        node_id: u32,
        condition: F,
    ) -> (r: Option<u32>)
        requires
            self.wf(),
            forall|n: &DefGraphNode| call_requires(condition, (n,)),
        ensures
            found_first(self@.targets(node_id), self.payloads(), condition, r),
            r is Some ==> r->0 < self@.nodes.len(),
    {
        let cands = self.wiring.outbound(node_id);
        seek_by(&cands, &self.nodes, condition)
    }

    /// The first node, in the order of the handles, for which `condition`
    /// answers yes.
    pub fn find_node<F: Fn(&DefGraphNode) -> bool>(&self, condition: F) -> (r: Option<u32>)
        requires
            self.wf(),
            forall|n: &DefGraphNode| call_requires(condition, (n,)),
        ensures
            found_first(numbers_below(self@.nodes.len()), self.payloads(), condition, r),
            r is Some ==> r->0 < self@.nodes.len(),
    {
        let cands = count_up(self.nodes.len() as u32);
        seek_by(&cands, &self.nodes, condition)
    }

    /// The handles of the alias nodes, ascending.
    pub fn get_all_alias_node_ids(&self) -> (r: Vec<u32>)
        requires
            self.wf(),
        ensures
            r@ == self@.all(of_kind(NodeType::Alias)),
    {
        let cands = count_up(self.nodes.len() as u32);
        let test = |n: &DefGraphNode| -> (b: bool)
                ensures
                    b == (n@.node_type == NodeType::Alias),
                { n.node_type == NodeType::Alias };
        self.select_among(&cands, test, Ghost(of_kind(NodeType::Alias)))
    }

    /// The handles of the spec nodes, ascending. The root spec is not among
    /// them.
    pub fn get_spec_node_ids(&self) -> (r: Vec<u32>)
        requires
            self.wf(),
        ensures
            r@ == self@.all(of_kind(NodeType::Spec)),
    {
        let cands = count_up(self.nodes.len() as u32);
        let test = |n: &DefGraphNode| -> (b: bool)
                ensures
                    b == (n@.node_type == NodeType::Spec),
                { n.node_type == NodeType::Spec };
        self.select_among(&cands, test, Ghost(of_kind(NodeType::Spec)))
    }

    /// The handle of the first root spec node.
    pub fn get_root_spec_node_id(&self) -> (r: Option<u32>)
        requires
            self.wf(),
        ensures
            r == self@.find(of_kind(NodeType::RootSpec)),
            r is Some ==> r->0 < self@.nodes.len(),
    {
        let cands = count_up(self.nodes.len() as u32);
        self.seek_kind(&cands, NodeType::RootSpec)
    }

    /// Each port of `ports` with the first node next to it in direction `dir`.
    fn pair_with_streams(&self, ports: &Vec<u32>, dir: Direction) -> (r: Vec<(u32, u32)>)
        requires
            self.wf(),
            self@.ports_have_streams(ports@, dir),
        ensures
            r@ == self@.port_streams(ports@, dir),
    {
        let mut out: Vec<(u32, u32)> = Vec::new();
        let mut i: usize = 0;
        while i < ports.len()
            invariant
                i <= ports.len(),
                self.wf(),
                self@.ports_have_streams(ports@, dir),
                out@ == self@.port_streams(ports@.take(i as int), dir),
            decreases ports.len() - i,
        {
            let port = ports[i];
            let next = match dir {
                Direction::Outgoing => self.wiring.outbound(port),
                Direction::Incoming => self.wiring.inbound(port),
            };
            assert(neighbors_of(self@.edges, ports@[i as int], dir).len() > 0);
            out.push((port, next[0]));
            assert(out@ =~= self@.port_streams(ports@.take(i + 1), dir));
            i += 1;
        }
        assert(ports@.take(i as int) =~= ports@);
        out
    }

    /// The inlets of the node `spec_node_id`, each with the node that feeds
    /// it, newest edge first. Every inlet must have a node that feeds it.
    pub fn get_inbound_node_sets(&self, spec_node_id: u32) -> (r: Vec<(u32, u32)>)
        requires
            self.wf(),
            self@.ports_have_streams(self@.inlets_of(spec_node_id), Direction::Incoming),
        ensures
            r@ == self@.port_streams(self@.inlets_of(spec_node_id), Direction::Incoming),
    {
        let next = self.wiring.inbound(spec_node_id);
        let test = |n: &DefGraphNode| -> (b: bool)
            ensures
                b == (n@.node_type == NodeType::Inlet),
            { n.node_type == NodeType::Inlet };
        let inlets = self.select_among(&next, test, Ghost(of_kind(NodeType::Inlet)));
        self.pair_with_streams(&inlets, Direction::Incoming)
    }

    /// The outlets of the node `spec_node_id`, each with the node that it
    /// feeds, newest edge first. Every outlet must have a node that it feeds.
    pub fn get_outbound_node_sets(&self, spec_node_id: u32) -> (r: Vec<(u32, u32)>)
        requires
            self.wf(),
            self@.ports_have_streams(self@.outlets_of(spec_node_id), Direction::Outgoing),
        ensures
            r@ == self@.port_streams(self@.outlets_of(spec_node_id), Direction::Outgoing),
    {
        let next = self.wiring.outbound(spec_node_id);
        let test = |n: &DefGraphNode| -> (b: bool)
            ensures
                b == (n@.node_type == NodeType::Outlet),
            { n.node_type == NodeType::Outlet };
        let outlets = self.select_among(&next, test, Ghost(of_kind(NodeType::Outlet)));
        self.pair_with_streams(&outlets, Direction::Outgoing)
    }

    /// The spec or root spec that feeds the stream `stream_node_id`, and the
    /// outlet between the two.
    pub fn stream_source(&self, stream_node_id: u32) -> (r: Option<(u32, u32)>)
        requires
            self.wf(),
        ensures
            r == self@.stream_source(stream_node_id),
            match r {
                Some(pair) => pair.0 < self@.nodes.len() && pair.1 < self@.nodes.len(),
                None => true,
            },
    {
        let outlet_test = |n: &DefGraphNode| -> (b: bool)
            ensures
                b == (n@.node_type == NodeType::Outlet),
            { n.node_type == NodeType::Outlet };
        let job_test = |n: &DefGraphNode| -> (b: bool)
            ensures
                b == (n@.node_type == NodeType::Spec || n@.node_type == NodeType::RootSpec),
            { n.node_type == NodeType::Spec || n.node_type == NodeType::RootSpec };
        proof {
            lemma_source_pair_agrees(
                self.wiring.edges(),
                stream_node_id,
                self.nodes@,
                through_view(of_kind(NodeType::Outlet)),
                through_view(spec_or_root()),
                self@.nodes,
                of_kind(NodeType::Outlet),
                spec_or_root(),
            );
        }
        find_source(
            &self.wiring,
            &self.nodes,
            stream_node_id,
            &outlet_test,
            Ghost(through_view(of_kind(NodeType::Outlet))),
            &job_test,
            Ghost(through_view(spec_or_root())),
        )
    }

    /// The inlets that the stream `stream_node_id` feeds, each with every
    /// spec or root spec behind it.
    pub fn stream_targets(&self, stream_node_id: u32) -> (r: Vec<(u32, u32)>)
        requires
            self.wf(),
        ensures
            r@ == self@.stream_targets(stream_node_id),
            pairs_below(r@, self@.nodes.len()),
    {
        let inlet_test = |n: &DefGraphNode| -> (b: bool)
            ensures
                b == (n@.node_type == NodeType::Inlet),
            { n.node_type == NodeType::Inlet };
        let job_test = |n: &DefGraphNode| -> (b: bool)
            ensures
                b == (n@.node_type == NodeType::Spec || n@.node_type == NodeType::RootSpec),
            { n.node_type == NodeType::Spec || n.node_type == NodeType::RootSpec };
        proof {
            lemma_target_pairs_agrees(
                self.wiring.edges(),
                stream_node_id,
                self.nodes@,
                through_view(of_kind(NodeType::Inlet)),
                through_view(spec_or_root()),
                self@.nodes,
                of_kind(NodeType::Inlet),
                spec_or_root(),
            );
        }
        find_targets(
            &self.wiring,
            &self.nodes,
            stream_node_id,
            &inlet_test,
            Ghost(through_view(of_kind(NodeType::Inlet))),
            &job_test,
            Ghost(through_view(spec_or_root())),
        )
    }

    /// The graph taken apart, as it is written out. `from_parts` makes the
    /// same graph of the parts again.
    pub fn to_parts(&self) -> (r: DefGraphParts)
        requires
            self.wf(),
        ensures
            r@.consistent(),
            r@.graph() == self@,
    {
        let nodes = self.nodes();
        let edges = self.wiring.edge_list();
        let mut node_indices: Vec<(String, u32)> = Vec::new();
        let mut i: usize = 0;
        while i < self.node_indices.len()
            invariant
                i <= self.node_indices.spec_entries().len(),
                node_indices@.len() == i,
                forall|j: int|
                    0 <= j < i ==> ((#[trigger] node_indices@[j]).0@, node_indices@[j].1)
                        == self.node_indices.spec_entries()[j],
            decreases self.node_indices.spec_entries().len() - i,
        {
            node_indices.push((self.node_indices.key_at(i).clone(), *self.node_indices.value_at(i)));
            i += 1;
        }
        let memo = &self.stream_node_id_by_spec_identifier_type_and_tag;
        let mut stream_ids: Vec<(String, String)> = Vec::new();
        let mut j: usize = 0;
        while j < memo.len()
            invariant
                j <= memo.spec_entries().len(),
                stream_ids@.len() == j,
                forall|k: int|
                    0 <= k < j ==> (#[trigger] stream_ids@[k]).0@ == memo.spec_entries()[k].0
                        && stream_ids@[k].1@ == memo.spec_entries()[k].1@,
            decreases memo.spec_entries().len() - j,
        {
            stream_ids.push((memo.key_at(j).clone(), memo.value_at(j).clone()));
            j += 1;
        }
        let r = DefGraphParts { nodes, edges, node_indices, stream_ids };
        proof {
            assert(r@.node_indices =~= self.node_indices.spec_entries());
            assert(r@.stream_ids =~= entries_with(memo.spec_entries(), chars_of()));
            lemma_entries_with(memo.spec_entries(), chars_of());
            assert forall|k: int| 0 <= k < r@.node_indices.len() implies (
            #[trigger] r@.node_indices[k]).1 < r@.nodes.len() && kind_fits(
                r@.node_indices[k].0,
                r@.nodes[r@.node_indices[k].1 as int].node_type,
            ) by {
                self.node_indices.lemma_entry_in_map(k);
                let key = self.node_indices.spec_entries()[k].0;
                assert(self@.index.contains_key(key));
                assert(self@.index[key] < self@.nodes.len());
            }
        }
        r
    }

    /// The graph that the parts make up, where they fit together; else
    /// `DeserializationError`.
    pub fn from_parts(parts: DefGraphParts) -> (r: Result<DefGraph, GraphError>)
        ensures
            r is Ok <==> parts@.consistent(),
            r is Ok ==> r->Ok_0.wf() && r->Ok_0@ == parts@.graph(),
            r is Err ==> r->Err_0 == GraphError::DeserializationError,
    {
        let limit: usize = 0xffff_ffff;
        if parts.nodes.len() > limit || parts.edges.len() > limit {
            return Err(GraphError::DeserializationError);
        }
        let count = parts.nodes.len() as u32;
        let mut wiring = Wiring::new();
        let mut n: u32 = 0;
        while n < count
            invariant
                n <= count,
                wiring.wf(),
                wiring.node_count() == n,
                wiring.edges() == Seq::<(u32, u32)>::empty(),
            decreases count - n,
        {
            let _ = wiring.add_node();
            n += 1;
        }
        let mut e: usize = 0;
        while e < parts.edges.len()
            invariant
                e <= parts.edges.len(),
                parts.edges@.len() <= u32::MAX,
                count == parts.nodes@.len(),
                wiring.wf(),
                wiring.node_count() == count,
                wiring.edges() == parts.edges@.take(e as int),
            decreases parts.edges.len() - e,
        {
            let (a, b) = parts.edges[e];
            if a >= count || b >= count {
                proof {
                    assert(parts@.edges[e as int] == (a, b));
                    assert(!edges_within(parts@.edges, parts@.nodes.len()));
                }
                return Err(GraphError::DeserializationError);
            }
            if wiring.has_edge(a, b) {
                proof {
                    let seen = parts.edges@.take(e as int);
                    let k = choose|k: int| 0 <= k < seen.len() && seen[k] == (a, b);
                    assert(parts.edges@[k] == parts.edges@[e as int]);
                }
                return Err(GraphError::DeserializationError);
            }
            wiring.connect(a, b);
            assert(parts.edges@.take(e + 1) =~= parts.edges@.take(e as int).push((a, b)));
            e += 1;
        }
        assert(parts.edges@.take(e as int) =~= parts.edges@);
        let mut node_indices: StrMap<u32> = StrMap::new();
        let mut i: usize = 0;
        assert(parts@.node_indices.take(0) =~= Seq::<(Seq<char>, u32)>::empty());
        while i < parts.node_indices.len()
            invariant
                i <= parts.node_indices.len(),
                count == parts.nodes@.len(),
                node_indices.distinct(),
                node_indices.as_map() == entries_map(parts@.node_indices.take(i as int)),
                forall|k: int|
                    0 <= k < i ==> (#[trigger] parts@.node_indices[k]).1 < count && kind_fits(
                        parts@.node_indices[k].0,
                        parts@.nodes[parts@.node_indices[k].1 as int].node_type,
                    ),
            decreases parts.node_indices.len() - i,
        {
            let handle = parts.node_indices[i].1;
            if handle >= count {
                proof {
                    assert(parts@.node_indices[i as int].1 == handle);
                    assert(!(parts@.node_indices[i as int].1 < parts@.nodes.len()));
                }
                return Err(GraphError::DeserializationError);
            }
            let fits = match key_kind_of(parts.node_indices[i].0.as_str()) {
                Some(kind) => parts.nodes[handle as usize].node_type == kind,
                None => true,
            };
            if !fits {
                proof {
                    assert(parts@.node_indices[i as int].1 == handle);
                    assert(!kind_fits(
                        parts@.node_indices[i as int].0,
                        parts@.nodes[parts@.node_indices[i as int].1 as int].node_type,
                    ));
                }
                return Err(GraphError::DeserializationError);
            }
            node_indices.insert(parts.node_indices[i].0.clone(), handle);
            proof {
                assert(parts@.node_indices.take(i + 1).drop_last() =~= parts@.node_indices.take(
                    i as int,
                ));
                assert(parts@.node_indices.take(i + 1).last() == parts@.node_indices[i as int]);
            }
            i += 1;
        }
        assert(parts@.node_indices.take(i as int) =~= parts@.node_indices);
        let mut memo: StrMap<String> = StrMap::new();
        let ghost remembered: Seq<(Seq<char>, String)> = Seq::new(
            parts.stream_ids@.len(),
            |k: int| (parts.stream_ids@[k].0@, parts.stream_ids@[k].1),
        );
        let mut j: usize = 0;
        assert(remembered.take(0) =~= Seq::<(Seq<char>, String)>::empty());
        while j < parts.stream_ids.len()
            invariant
                j <= parts.stream_ids.len(),
                remembered == Seq::new(
                    parts.stream_ids@.len(),
                    |k: int| (parts.stream_ids@[k].0@, parts.stream_ids@[k].1),
                ),
                memo.as_map() == entries_map(remembered.take(j as int)),
            decreases parts.stream_ids.len() - j,
        {
            let id = parts.stream_ids[j].1.clone();
            memo.insert(parts.stream_ids[j].0.clone(), id);
            proof {
                assert(remembered.take(j + 1).drop_last() =~= remembered.take(j as int));
                assert(remembered.take(j + 1).last() == remembered[j as int]);
            }
            j += 1;
        }
        let graph = DefGraph {
            wiring,
            nodes: parts.nodes,
            node_indices,
            stream_node_id_by_spec_identifier_type_and_tag: memo,
        };
        proof {
            assert(remembered.take(j as int) =~= remembered);
            lemma_entries_with(remembered, chars_of());
            assert(entries_with(remembered, chars_of()) =~= parts@.stream_ids);
            assert forall|k: Seq<char>| graph@.index.contains_key(k) implies (
            #[trigger] graph@.index[k]) < graph@.nodes.len() && kind_fits(
                k,
                graph@.nodes[graph@.index[k] as int].node_type,
            ) by {
                let at = lemma_present_key(parts@.node_indices, k);
                assert(parts@.node_indices[at].1 < count);
            }
        }
        Ok(graph)
    }
}

impl Clone for DefGraph {
    fn clone(&self) -> (r: Self)
        ensures
            self.wf() ==> r.wf() && r@ == self@,
    {
        let wiring = self.wiring.duplicate();
        let mut nodes: Vec<DefGraphNode> = Vec::new();
        let mut i: usize = 0;
        while i < self.nodes.len()
            invariant
                i <= self.nodes.len(),
                nodes@.len() == i,
                forall|j: int| 0 <= j < i ==> (#[trigger] nodes@[j])@ == self.nodes@[j]@,
            decreases self.nodes.len() - i,
        {
            nodes.push(self.nodes[i].clone());
            i += 1;
        }
        let mut node_indices: StrMap<u32> = StrMap::new();
        let ghost keys = self.node_indices.spec_entries();
        let mut k: usize = 0;
        assert(keys.take(0) =~= Seq::<(Seq<char>, u32)>::empty());
        while k < self.node_indices.len()
            invariant
                k <= self.node_indices.spec_entries().len(),
                keys == self.node_indices.spec_entries(),
                node_indices.distinct(),
                node_indices.as_map() == entries_map(keys.take(k as int)),
            decreases self.node_indices.spec_entries().len() - k,
        {
            node_indices.insert(self.node_indices.key_at(k).clone(), *self.node_indices.value_at(k));
            proof {
                assert(keys.take(k + 1).drop_last() =~= keys.take(k as int));
                assert(keys.take(k + 1).last() == keys[k as int]);
            }
            k += 1;
        }
        let memo = &self.stream_node_id_by_spec_identifier_type_and_tag;
        let mut stream_ids: StrMap<String> = StrMap::new();
        let ghost remembered = memo.spec_entries();
        let ghost copied: Seq<(Seq<char>, String)> = Seq::empty();
        let mut j: usize = 0;
        while j < memo.len()
            invariant
                j <= memo.spec_entries().len(),
                remembered == memo.spec_entries(),
                copied.len() == j,
                forall|m: int|
                    0 <= m < j ==> (#[trigger] copied[m]).0 == remembered[m].0 && copied[m].1@
                        == remembered[m].1@,
                stream_ids.as_map() == entries_map(copied),
            decreases memo.spec_entries().len() - j,
        {
            let id = memo.value_at(j).clone();
            stream_ids.insert(memo.key_at(j).clone(), id);
            proof {
                let longer = copied.push((remembered[j as int].0, id));
                assert(longer.drop_last() =~= copied);
                copied = longer;
            }
            j += 1;
        }
        let r = DefGraph {
            wiring,
            nodes,
            node_indices,
            stream_node_id_by_spec_identifier_type_and_tag: stream_ids,
        };
        proof {
            assert(keys.take(k as int) =~= keys);
            assert(r@.nodes =~= self@.nodes);
            lemma_entries_with(copied, chars_of());
            lemma_entries_with(remembered, chars_of());
            assert(entries_with(copied, chars_of()) =~= entries_with(remembered, chars_of()));
        }
        r
    }
}

} // verus!
