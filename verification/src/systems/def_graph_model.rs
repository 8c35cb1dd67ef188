//! The definition graph as mathematics: what its nodes carry, how its keys
//! are made, and what each operation of the graph makes of it.

use crate::systems::connectivity::source_pair;
use crate::systems::connectivity::target_pairs;
use crate::systems::def_graph::NodeType;
use crate::systems::def_graph_utils::spec_identifier;
use crate::systems::def_graph_utils::stream_identifier;
use crate::systems::def_graph_utils::FromSpecAndTagView;
use crate::systems::def_graph_utils::SpecTagInfoView;
use crate::systems::def_graph_utils::ToSpecAndTagView;
use crate::systems::error::GraphError;
use crate::systems::select::chosen;
use crate::systems::select::first_match;
use crate::systems::select::numbers_below;
use crate::systems::str_map::entries_map;
use crate::systems::topology::edges_within;
use crate::systems::topology::neighbors_of;
use crate::systems::topology::with_edge;
use petgraph::Direction;
use vstd::prelude::*;

verus! {

/// The name of a node kind, as it stands at the head of a node's key.
pub open spec fn node_type_name(t: NodeType) -> Seq<char> {
    match t {
        NodeType::RootSpec => "RootSpec"@,
        NodeType::Spec => "Spec"@,
        NodeType::StreamDef => "StreamDef"@,
        NodeType::Inlet => "Inlet"@,
        NodeType::Outlet => "Outlet"@,
        NodeType::Alias => "Alias"@,
    }
}

/// The key under which a node of kind `t` with the identifier `id` is kept:
/// the kind's name, an underscore, and the identifier.
pub open spec fn node_key(t: NodeType, id: Seq<char>) -> Seq<char> {
    node_type_name(t) + "_"@ + id
}

/// The head of every key of the kind `t`: the kind's name and an underscore.
pub open spec fn key_head(t: NodeType) -> Seq<char> {
    node_type_name(t) + "_"@
}

/// The kind that a key belongs to: the one with whose name and underscore
/// the key starts. A key that starts with none of them belongs to no kind.
pub open spec fn key_kind(key: Seq<char>) -> Option<NodeType> {
    if key_head(NodeType::RootSpec).is_prefix_of(key) {
        Some(NodeType::RootSpec)
    } else if key_head(NodeType::Spec).is_prefix_of(key) {
        Some(NodeType::Spec)
    } else if key_head(NodeType::StreamDef).is_prefix_of(key) {
        Some(NodeType::StreamDef)
    } else if key_head(NodeType::Inlet).is_prefix_of(key) {
        Some(NodeType::Inlet)
    } else if key_head(NodeType::Outlet).is_prefix_of(key) {
        Some(NodeType::Outlet)
    } else if key_head(NodeType::Alias).is_prefix_of(key) {
        Some(NodeType::Alias)
    } else {
        None
    }
}

/// Whether a node of the kind `t` may be kept under `key`: the key belongs
/// to that kind or to none.
pub open spec fn kind_fits(key: Seq<char>, t: NodeType) -> bool {
    key_kind(key) is Some ==> key_kind(key) == Some(t)
}

/// The first two characters of the head of each kind's keys.
pub proof fn lemma_key_heads()
    ensures
        key_head(NodeType::RootSpec) == "RootSpec_"@,
        key_head(NodeType::Spec) == "Spec_"@,
        key_head(NodeType::StreamDef) == "StreamDef_"@,
        key_head(NodeType::Inlet) == "Inlet_"@,
        key_head(NodeType::Outlet) == "Outlet_"@,
        key_head(NodeType::Alias) == "Alias_"@,
        forall|t: NodeType| (#[trigger] key_head(t)).len() >= 2,
        key_head(NodeType::RootSpec)[0] == 'R',
        key_head(NodeType::Spec)[0] == 'S',
        key_head(NodeType::Spec)[1] == 'p',
        key_head(NodeType::StreamDef)[0] == 'S',
        key_head(NodeType::StreamDef)[1] == 't',
        key_head(NodeType::Inlet)[0] == 'I',
        key_head(NodeType::Outlet)[0] == 'O',
        key_head(NodeType::Alias)[0] == 'A',
{
    reveal_strlit("_");
    reveal_strlit("RootSpec");
    reveal_strlit("Spec");
    reveal_strlit("StreamDef");
    reveal_strlit("Inlet");
    reveal_strlit("Outlet");
    reveal_strlit("Alias");
    reveal_strlit("RootSpec_");
    reveal_strlit("Spec_");
    reveal_strlit("StreamDef_");
    reveal_strlit("Inlet_");
    reveal_strlit("Outlet_");
    reveal_strlit("Alias_");
    assert(key_head(NodeType::RootSpec) =~= "RootSpec_"@);
    assert(key_head(NodeType::Spec) =~= "Spec_"@);
    assert(key_head(NodeType::StreamDef) =~= "StreamDef_"@);
    assert(key_head(NodeType::Inlet) =~= "Inlet_"@);
    assert(key_head(NodeType::Outlet) =~= "Outlet_"@);
    assert(key_head(NodeType::Alias) =~= "Alias_"@);
    assert forall|t: NodeType| (#[trigger] key_head(t)).len() >= 2 by {
        match t {
            NodeType::RootSpec => {},
            NodeType::Spec => {},
            NodeType::StreamDef => {},
            NodeType::Inlet => {},
            NodeType::Outlet => {},
            NodeType::Alias => {},
        }
    }
}

/// A key that starts with a head starts with the head's first two characters.
proof fn lemma_head_start(head: Seq<char>, key: Seq<char>)
    requires
        head.len() >= 2,
        head.is_prefix_of(key),
    ensures
        key[0] == head[0],
        key[1] == head[1],
{
    assert(key.subrange(0, head.len() as int)[0] == head[0]);
    assert(key.subrange(0, head.len() as int)[1] == head[1]);
}

/// The key of a node of the kind `t` belongs to the kind `t`.
pub proof fn lemma_key_kind(t: NodeType, id: Seq<char>)
    ensures
        key_kind(node_key(t, id)) == Some(t),
        kind_fits(node_key(t, id), t),
{
    let key = node_key(t, id);
    lemma_key_heads();
    assert(key.subrange(0, key_head(t).len() as int) =~= key_head(t));
    assert(key_head(t).is_prefix_of(key));
    lemma_head_start(key_head(t), key);
    if key_head(NodeType::RootSpec).is_prefix_of(key) {
        lemma_head_start(key_head(NodeType::RootSpec), key);
    }
    if key_head(NodeType::Spec).is_prefix_of(key) {
        lemma_head_start(key_head(NodeType::Spec), key);
    }
    if key_head(NodeType::StreamDef).is_prefix_of(key) {
        lemma_head_start(key_head(NodeType::StreamDef), key);
    }
    if key_head(NodeType::Inlet).is_prefix_of(key) {
        lemma_head_start(key_head(NodeType::Inlet), key);
    }
    if key_head(NodeType::Outlet).is_prefix_of(key) {
        lemma_head_start(key_head(NodeType::Outlet), key);
    }
    if key_head(NodeType::Alias).is_prefix_of(key) {
        lemma_head_start(key_head(NodeType::Alias), key);
    }
}

/// A node's payload with its strings as character sequences.
pub struct DefGraphNodeView {
    pub node_type: NodeType,
    pub spec_name: Option<Seq<char>>,
    pub unique_spec_label: Option<Seq<char>>,
    pub tag: Option<Seq<char>>,
    pub has_transform: Option<bool>,
    pub stream_def_id: Option<Seq<char>>,
    pub alias: Option<Seq<char>>,
    pub direction: Option<Seq<char>>,
    pub label: Seq<char>,
}

impl DefGraphNodeView {
    /// A payload of the given kind that carries its label and nothing else.
    pub open spec fn blank(node_type: NodeType, label: Seq<char>) -> DefGraphNodeView {
        DefGraphNodeView {
            node_type,
            spec_name: None,
            unique_spec_label: None,
            tag: None,
            has_transform: None,
            stream_def_id: None,
            alias: None,
            direction: None,
            label,
        }
    }

    /// The payload of the root spec with the given name.
    pub open spec fn root(name: Seq<char>) -> DefGraphNodeView {
        DefGraphNodeView { spec_name: Some(name), ..Self::blank(NodeType::RootSpec, name) }
    }

    /// The payload of a spec instance.
    pub open spec fn spec(
        name: Seq<char>,
        unique_spec_label: Option<Seq<char>>,
        label: Seq<char>,
    ) -> DefGraphNodeView {
        DefGraphNodeView {
            spec_name: Some(name),
            unique_spec_label,
            ..Self::blank(NodeType::Spec, label)
        }
    }

    /// The payload of an inlet.
    pub open spec fn inlet(tag: Seq<char>, has_transform: bool, label: Seq<char>) -> DefGraphNodeView {
        DefGraphNodeView {
            tag: Some(tag),
            has_transform: Some(has_transform),
            ..Self::blank(NodeType::Inlet, label)
        }
    }

    /// The payload of an outlet.
    pub open spec fn outlet(tag: Seq<char>, label: Seq<char>) -> DefGraphNodeView {
        DefGraphNodeView { tag: Some(tag), ..Self::blank(NodeType::Outlet, label) }
    }

    /// The payload of a stream definition, labelled by its identifier.
    pub open spec fn stream(id: Seq<char>) -> DefGraphNodeView {
        DefGraphNodeView { stream_def_id: Some(id), ..Self::blank(NodeType::StreamDef, id) }
    }

    /// The payload of an alias.
    pub open spec fn alias(alias: Seq<char>, direction: Seq<char>, label: Seq<char>) -> DefGraphNodeView {
        DefGraphNodeView {
            alias: Some(alias),
            direction: Some(direction),
            ..Self::blank(NodeType::Alias, label)
        }
    }
}

/// The payloads of the kind `t`.
pub open spec fn of_kind(t: NodeType) -> spec_fn(DefGraphNodeView) -> bool {
    |n: DefGraphNodeView| n.node_type == t
}

/// The payloads of the kind `t` that carry the tag `tag`.
pub open spec fn port_tagged(t: NodeType, tag: Seq<char>) -> spec_fn(DefGraphNodeView) -> bool {
    |n: DefGraphNodeView| n.node_type == t && n.tag == Some(tag)
}

/// The payloads of aliases with the name `alias`.
pub open spec fn alias_named(alias: Seq<char>) -> spec_fn(DefGraphNodeView) -> bool {
    |n: DefGraphNodeView| n.node_type == NodeType::Alias && n.alias == Some(alias)
}

/// The payloads of spec instances with the given name and label.
pub open spec fn spec_named(name: Seq<char>, label: Option<Seq<char>>) -> spec_fn(
    DefGraphNodeView,
) -> bool {
    |n: DefGraphNodeView|
        n.node_type == NodeType::Spec && n.spec_name == Some(name) && n.unique_spec_label == label
}

/// The payloads of root specs with the name `name`.
pub open spec fn root_named(name: Seq<char>) -> spec_fn(DefGraphNodeView) -> bool {
    |n: DefGraphNodeView| n.node_type == NodeType::RootSpec && n.spec_name == Some(name)
}

/// The payloads of specs and of root specs.
pub open spec fn spec_or_root() -> spec_fn(DefGraphNodeView) -> bool {
    |n: DefGraphNodeView| n.node_type == NodeType::Spec || n.node_type == NodeType::RootSpec
}

/// The name under which the stream of the inlet `tag` of the spec
/// `spec_name` is remembered.
pub open spec fn inlet_memo_key(spec_name: Seq<char>, tag: Seq<char>) -> Seq<char> {
    spec_name + "::in/"@ + tag
}

/// The name under which the stream of the outlet `tag` of the spec
/// `spec_name` is remembered.
pub open spec fn outlet_memo_key(spec_name: Seq<char>, tag: Seq<char>) -> Seq<char> {
    spec_name + "::out/"@ + tag
}

/// The identifier of the stream at a boundary port of the root spec.
pub open spec fn boundary_stream_id(root: Seq<char>, tag: Seq<char>) -> Seq<char> {
    stream_identifier(
        Some(SpecTagInfoView { spec_name: root, tag, unique_spec_label: None }),
        None,
    )
}

/// A definition graph as mathematics: the payloads in the order of the node
/// handles, the edges in the order of their addition, the handle kept under
/// each node key, and the stream identifier remembered for each port.
pub struct DefGraphView {
    pub nodes: Seq<DefGraphNodeView>,
    pub edges: Seq<(u32, u32)>,
    pub index: Map<Seq<char>, u32>,
    pub memo: Map<Seq<char>, Seq<char>>,
}

impl DefGraphView {
    /// Handles fit in 32 bits, every edge joins two nodes, no edge occurs
    /// twice, and every key leads to a node of the kind that the key belongs
    /// to.
    pub open spec fn wf(self) -> bool {
        &&& self.nodes.len() <= u32::MAX
        &&& self.edges.len() <= u32::MAX
        &&& edges_within(self.edges, self.nodes.len())
        &&& self.edges.no_duplicates()
        &&& forall|k: Seq<char>|
            self.index.contains_key(k) ==> (#[trigger] self.index[k]) < self.nodes.len()
                && kind_fits(k, self.nodes[self.index[k] as int].node_type)
    }

    /// The nodes from which an edge leads to `a`, newest edge first.
    pub open spec fn sources(self, a: u32) -> Seq<u32> {
        neighbors_of(self.edges, a, Direction::Incoming)
    }

    /// The nodes to which an edge leads from `a`, newest edge first.
    pub open spec fn targets(self, a: u32) -> Seq<u32> {
        neighbors_of(self.edges, a, Direction::Outgoing)
    }

    /// The first node, in the order of the handles, whose payload satisfies `q`.
    pub open spec fn find(self, q: spec_fn(DefGraphNodeView) -> bool) -> Option<u32> {
        first_match(numbers_below(self.nodes.len()), self.nodes, q)
    }

    /// The handles of the nodes whose payload satisfies `q`, ascending.
    pub open spec fn all(self, q: spec_fn(DefGraphNodeView) -> bool) -> Seq<u32> {
        chosen(numbers_below(self.nodes.len()), self.nodes, q)
    }

    /// The first node that an edge leads from to `a` and whose payload
    /// satisfies `q`, newest edge first.
    pub open spec fn first_source(self, a: u32, q: spec_fn(DefGraphNodeView) -> bool) -> Option<u32> {
        first_match(self.sources(a), self.nodes, q)
    }

    /// The first node that an edge leads to from `a` and whose payload
    /// satisfies `q`, newest edge first.
    pub open spec fn first_target(self, a: u32, q: spec_fn(DefGraphNodeView) -> bool) -> Option<u32> {
        first_match(self.targets(a), self.nodes, q)
    }

    /// The graph with one more node, which no key leads to.
    pub open spec fn add_node(self, data: DefGraphNodeView) -> DefGraphView {
        DefGraphView { nodes: self.nodes.push(data), ..self }
    }

    /// The graph after the node with identifier `id` and payload `data` was
    /// asked for, and the node's handle. The first payload under a key stays.
    pub open spec fn ensure_node(self, id: Seq<char>, data: DefGraphNodeView) -> (DefGraphView, u32) {
        let key = node_key(data.node_type, id);
        if self.index.contains_key(key) {
            (self, self.index[key])
        } else {
            (
                DefGraphView {
                    nodes: self.nodes.push(data),
                    index: self.index.insert(key, self.nodes.len() as u32),
                    ..self
                },
                self.nodes.len() as u32,
            )
        }
    }

    /// The graph with the edge from `a` to `b` among its edges.
    pub open spec fn ensure_edge(self, a: u32, b: u32) -> DefGraphView {
        DefGraphView { edges: with_edge(self.edges, a, b), ..self }
    }

    /// The graph that remembers the stream identifier `id` for the port `port`.
    pub open spec fn remember(self, port: Seq<char>, id: Seq<char>) -> DefGraphView {
        DefGraphView { memo: self.memo.insert(port, id), ..self }
    }

    /// The graph that holds the root spec `root` and nothing else. The root
    /// has the handle 0 and is kept under the key of a root spec with its
    /// name.
    pub open spec fn initial(root: Seq<char>) -> DefGraphView {
        DefGraphView {
            nodes: seq![DefGraphNodeView::root(root)],
            edges: Seq::empty(),
            index: Map::empty().insert(node_key(NodeType::RootSpec, root), 0u32),
            memo: Map::empty(),
        }
    }

    /// The graph with one more input of the root spec `root`: an inlet and
    /// the stream that feeds it, wired stream to inlet to root.
    pub open spec fn with_input(self, root: Seq<char>, tag: Seq<char>) -> DefGraphView {
        let inlet = self.nodes.len() as u32;
        let stream = (self.nodes.len() + 1) as u32;
        self.add_node(DefGraphNodeView::inlet(tag, false, root + "/"@ + tag)).add_node(
            DefGraphNodeView::stream(boundary_stream_id(root, tag)),
        ).ensure_edge(stream, inlet).ensure_edge(inlet, 0)
    }

    /// The graph with one more output of the root spec `root`: an outlet and
    /// the stream that it feeds, wired root to outlet to stream. The stream's
    /// identifier is remembered under the root's name, a slash and the tag.
    pub open spec fn with_output(self, root: Seq<char>, tag: Seq<char>) -> DefGraphView {
        let outlet = self.nodes.len() as u32;
        let stream = (self.nodes.len() + 1) as u32;
        self.add_node(DefGraphNodeView::outlet(tag, root + "/"@ + tag)).add_node(
            DefGraphNodeView::stream(boundary_stream_id(root, tag)),
        ).ensure_edge(0, outlet).ensure_edge(outlet, stream).remember(
            root + "/"@ + tag,
            boundary_stream_id(root, tag),
        )
    }

    /// The graph with one more input per tag, in the order of the tags.
    pub open spec fn with_inputs(self, root: Seq<char>, tags: Seq<Seq<char>>) -> DefGraphView
        decreases tags.len(),
    {
        if tags.len() == 0 {
            self
        } else {
            self.with_inputs(root, tags.drop_last()).with_input(root, tags.last())
        }
    }

    /// The graph with one more output per tag, in the order of the tags.
    pub open spec fn with_outputs(self, root: Seq<char>, tags: Seq<Seq<char>>) -> DefGraphView
        decreases tags.len(),
    {
        if tags.len() == 0 {
            self
        } else {
            self.with_outputs(root, tags.drop_last()).with_output(root, tags.last())
        }
    }

    /// The graph of a root spec with the given inputs and outputs.
    pub open spec fn created(
        root: Seq<char>,
        inputs: Seq<Seq<char>>,
        outputs: Seq<Seq<char>>,
    ) -> DefGraphView {
        Self::initial(root).with_inputs(root, inputs).with_outputs(root, outputs)
    }

    /// The stream identifier for the inlet `tag` of the spec `spec_name`:
    /// the one remembered for that port, or else the identifier of a stream
    /// that ends there and starts nowhere.
    pub open spec fn inlet_stream_id(self, spec_name: Seq<char>, tag: Seq<char>) -> Seq<char> {
        if self.memo.contains_key(inlet_memo_key(spec_name, tag)) {
            self.memo[inlet_memo_key(spec_name, tag)]
        } else {
            stream_identifier(
                None,
                Some(SpecTagInfoView { spec_name, tag, unique_spec_label: None }),
            )
        }
    }

    /// The stream identifier for the outlet `tag` of the spec `spec_name`:
    /// the one remembered for that port, or else the identifier of a stream
    /// that starts there and ends nowhere.
    pub open spec fn outlet_stream_id(self, spec_name: Seq<char>, tag: Seq<char>) -> Seq<char> {
        if self.memo.contains_key(outlet_memo_key(spec_name, tag)) {
            self.memo[outlet_memo_key(spec_name, tag)]
        } else {
            stream_identifier(
                Some(SpecTagInfoView { spec_name, tag, unique_spec_label: None }),
                None,
            )
        }
    }

    /// The graph after the spec `spec_name`, its inlet `tag` and the stream
    /// of that inlet were asked for and wired stream to inlet to spec, and
    /// the handles of the inlet and of the stream.
    pub open spec fn ensure_inlet_and_stream(
        self,
        spec_name: Seq<char>,
        tag: Seq<char>,
        has_transform: bool,
    ) -> (DefGraphView, (u32, u32)) {
        let (g1, spec) = self.ensure_node(
            spec_name,
            DefGraphNodeView::spec(spec_name, None, spec_name),
        );
        let (g2, inlet) = g1.ensure_node(
            spec_name + "/"@ + tag,
            DefGraphNodeView::inlet(tag, has_transform, spec_name + "/"@ + tag),
        );
        let id = self.inlet_stream_id(spec_name, tag);
        let (g3, stream) = g2.ensure_node(id, DefGraphNodeView::stream(id));
        (g3.ensure_edge(stream, inlet).ensure_edge(inlet, spec), (inlet, stream))
    }

    /// The graph after the spec `spec_name`, its outlet `tag` and the stream
    /// of that outlet were asked for and wired spec to outlet to stream, and
    /// the handles of the outlet and of the stream.
    pub open spec fn ensure_outlet_and_stream(self, spec_name: Seq<char>, tag: Seq<char>) -> (
        DefGraphView,
        (u32, u32),
    ) {
        let (g1, spec) = self.ensure_node(
            spec_name,
            DefGraphNodeView::spec(spec_name, None, spec_name),
        );
        let (g2, outlet) = g1.ensure_node(
            spec_name + "/"@ + tag,
            DefGraphNodeView::outlet(tag, spec_name + "/"@ + tag),
        );
        let id = self.outlet_stream_id(spec_name, tag);
        let (g3, stream) = g2.ensure_node(id, DefGraphNodeView::stream(id));
        (g3.ensure_edge(spec, outlet).ensure_edge(outlet, stream), (outlet, stream))
    }

    /// The stream definitions that the outlet kept under `outlet_key` leads
    /// to, newest edge first. None where no node is kept under that key.
    pub open spec fn streams_of_outlet(self, outlet_key: Seq<char>) -> Seq<u32> {
        if self.index.contains_key(outlet_key) {
            chosen(self.targets(self.index[outlet_key]), self.nodes, of_kind(NodeType::StreamDef))
        } else {
            Seq::empty()
        }
    }

    /// What connecting the outlet of `from` to the inlet of `to` gives: the
    /// new graph and the handles of the producing spec, the consuming spec,
    /// the stream, the outlet and the inlet; or the reason for which the
    /// connection is refused.
    ///
    /// An outlet that leads to one stream already keeps that stream, and the
    /// inlet is added to those that the stream feeds. An outlet that leads to
    /// no stream gets one, named after both ports. An outlet that leads to
    /// several streams is refused, and so is a stream without an identifier.
    pub open spec fn connect(self, from: FromSpecAndTagView, to: ToSpecAndTagView) -> Result<
        (DefGraphView, (u32, u32, u32, u32, u32)),
        GraphError,
    > {
        let from_id = spec_identifier(from.spec_name, from.unique_spec_label);
        let to_id = spec_identifier(to.spec_name, to.unique_spec_label);
        let existing = self.streams_of_outlet(node_key(NodeType::Outlet, from_id + "/"@ + from.output));
        if existing.len() > 1 {
            Err(GraphError::AmbiguousStreamFanout)
        } else if existing.len() == 1 && self.nodes[existing[0] as int].stream_def_id is None {
            Err(GraphError::InternalConsistency)
        } else {
            let (g1, from_spec) = self.ensure_node(
                from_id,
                DefGraphNodeView::spec(from.spec_name, from.unique_spec_label, from_id),
            );
            let (g2, from_outlet) = g1.ensure_node(
                from_id + "/"@ + from.output,
                DefGraphNodeView::outlet(from.output, from_id + "/"@ + from.output),
            );
            let id = if existing.len() == 1 {
                self.nodes[existing[0] as int].stream_def_id->0
            } else {
                stream_identifier(Some(from.port()), Some(to.port()))
            };
            let (g3, stream) = if existing.len() == 1 {
                (g2, existing[0])
            } else {
                let (g, s) = g2.ensure_node(id, DefGraphNodeView::stream(id));
                (g.ensure_edge(from_spec, from_outlet).ensure_edge(from_outlet, s), s)
            };
            let (g4, to_inlet) = g3.ensure_node(
                to_id + "/"@ + to.input,
                DefGraphNodeView::inlet(to.input, to.has_transform, to_id + "/"@ + to.input),
            );
            let (g5, to_spec) = g4.ensure_node(
                to_id,
                DefGraphNodeView::spec(to.spec_name, to.unique_spec_label, to_id),
            );
            Ok(
                (
                    g5.ensure_edge(stream, to_inlet).ensure_edge(to_inlet, to_spec).remember(
                        inlet_memo_key(to.spec_name, to.input),
                        id,
                    ).remember(outlet_memo_key(from.spec_name, from.output), id),
                    (from_spec, to_spec, stream, from_outlet, to_inlet),
                ),
            )
        }
    }

    /// What giving the port `tag` of a spec the name `alias` at the root spec
    /// gives: the new graph, or the reason for which the alias is refused.
    ///
    /// The alias node is kept under the root's name, a slash and the alias.
    /// For the direction `in` it stands between the inlet and the root, for
    /// `out` between the root and the outlet.
    pub open spec fn assign_alias(
        self,
        alias: Seq<char>,
        spec_name: Seq<char>,
        root_spec_name: Seq<char>,
        unique_spec_label: Option<Seq<char>>,
        direction: Seq<char>,
        tag: Seq<char>,
    ) -> Result<DefGraphView, GraphError> {
        let spec = self.find(spec_named(spec_name, unique_spec_label));
        let root = self.find(root_named(root_spec_name));
        let port = if direction == "in"@ {
            self.first_source(spec->0, port_tagged(NodeType::Inlet, tag))
        } else {
            self.first_target(spec->0, port_tagged(NodeType::Outlet, tag))
        };
        let (g, node) = self.ensure_node(
            root_spec_name + "/"@ + alias,
            DefGraphNodeView::alias(alias, direction, root_spec_name + "/"@ + alias),
        );
        if spec is None {
            Err(GraphError::SpecNotFound)
        } else if root is None {
            Err(GraphError::RootSpecNotFound)
        } else if direction != "in"@ && direction != "out"@ {
            Err(GraphError::InvalidDirection)
        } else if port is None {
            Err(GraphError::PortNotFound)
        } else if direction == "in"@ {
            Ok(g.ensure_edge(port->0, node).ensure_edge(node, root->0))
        } else {
            Ok(g.ensure_edge(root->0, node).ensure_edge(node, port->0))
        }
    }

    /// The spec and the tag of a port, where the port carries a tag and the
    /// spec a name.
    pub open spec fn port_of(self, spec: u32, port: u32) -> Option<SpecTagInfoView> {
        if self.nodes[port as int].tag is Some && self.nodes[spec as int].spec_name is Some {
            Some(
                SpecTagInfoView {
                    spec_name: self.nodes[spec as int].spec_name->0,
                    tag: self.nodes[port as int].tag->0,
                    unique_spec_label: self.nodes[spec as int].unique_spec_label,
                },
            )
        } else {
            None
        }
    }

    /// The alias under which the root spec shows the port `tag` of the given
    /// spec: from the spec to its port, and from the port to the first alias
    /// next to it.
    pub open spec fn lookup_root_spec_alias(
        self,
        spec_name: Seq<char>,
        unique_spec_label: Option<Seq<char>>,
        tag: Seq<char>,
        direction: Seq<char>,
    ) -> Option<Seq<char>> {
        let spec = self.find(spec_named(spec_name, unique_spec_label));
        if spec is None {
            None
        } else if direction == "in"@ {
            let inlet = self.first_source(spec->0, port_tagged(NodeType::Inlet, tag));
            let alias = self.first_target(inlet->0, of_kind(NodeType::Alias));
            if inlet is None || alias is None {
                None
            } else {
                self.nodes[alias->0 as int].alias
            }
        } else if direction == "out"@ {
            let outlet = self.first_target(spec->0, port_tagged(NodeType::Outlet, tag));
            let alias = self.first_source(outlet->0, of_kind(NodeType::Alias));
            if outlet is None || alias is None {
                None
            } else {
                self.nodes[alias->0 as int].alias
            }
        } else {
            None
        }
    }

    /// The port that the root spec shows under the name `alias`: from the
    /// first root spec to the alias node next to it, on to the port behind
    /// the alias and to the spec that owns the port.
    pub open spec fn lookup_spec_and_tag_by_alias(self, alias: Seq<char>, direction: Seq<char>) -> Option<
        SpecTagInfoView,
    > {
        let root = self.find(of_kind(NodeType::RootSpec));
        if root is None {
            None
        } else if direction == "in"@ {
            let node = self.first_source(root->0, alias_named(alias));
            let inlet = self.first_source(node->0, of_kind(NodeType::Inlet));
            let spec = self.first_target(inlet->0, of_kind(NodeType::Spec));
            if node is None || inlet is None || spec is None {
                None
            } else {
                self.port_of(spec->0, inlet->0)
            }
        } else if direction == "out"@ {
            let node = self.first_target(root->0, alias_named(alias));
            let outlet = self.first_target(node->0, of_kind(NodeType::Outlet));
            let spec = self.first_source(outlet->0, of_kind(NodeType::Spec));
            if node is None || outlet is None || spec is None {
                None
            } else {
                self.port_of(spec->0, outlet->0)
            }
        } else {
            None
        }
    }

    /// The inlets of the node `spec`, newest edge first.
    pub open spec fn inlets_of(self, spec: u32) -> Seq<u32> {
        chosen(self.sources(spec), self.nodes, of_kind(NodeType::Inlet))
    }

    /// The outlets of the node `spec`, newest edge first.
    pub open spec fn outlets_of(self, spec: u32) -> Seq<u32> {
        chosen(self.targets(spec), self.nodes, of_kind(NodeType::Outlet))
    }

    /// Whether each port has a node next to it in direction `dir`.
    pub open spec fn ports_have_streams(self, ports: Seq<u32>, dir: Direction) -> bool {
        forall|i: int|
            0 <= i < ports.len() ==> neighbors_of(self.edges, #[trigger] ports[i], dir).len() > 0
    }

    /// Each port with the first node next to it in direction `dir`.
    pub open spec fn port_streams(self, ports: Seq<u32>, dir: Direction) -> Seq<(u32, u32)> {
        Seq::new(ports.len(), |i: int| (ports[i], neighbors_of(self.edges, ports[i], dir)[0]))
    }

    /// The producer of the stream `stream` and the outlet between the two.
    pub open spec fn stream_source(self, stream: u32) -> Option<(u32, u32)> {
        source_pair(self.edges, self.nodes, stream, of_kind(NodeType::Outlet), spec_or_root())
    }

    /// The inlets that the stream `stream` feeds, each with every consumer
    /// behind it.
    pub open spec fn stream_targets(self, stream: u32) -> Seq<(u32, u32)> {
        target_pairs(self.edges, self.nodes, stream, of_kind(NodeType::Inlet), spec_or_root())
    }
}

/// The parts of a definition graph with their strings as character sequences.
pub struct DefGraphPartsView {
    pub nodes: Seq<DefGraphNodeView>,
    pub edges: Seq<(u32, u32)>,
    pub node_indices: Seq<(Seq<char>, u32)>,
    pub stream_ids: Seq<(Seq<char>, Seq<char>)>,
}

impl DefGraphPartsView {
    /// Whether the parts fit together: handles fit in 32 bits, every edge
    /// joins two of the nodes, no edge occurs twice, and every key leads to
    /// one of the nodes, of the kind that the key belongs to.
    pub open spec fn consistent(self) -> bool {
        &&& self.nodes.len() <= u32::MAX
        &&& self.edges.len() <= u32::MAX
        &&& edges_within(self.edges, self.nodes.len())
        &&& self.edges.no_duplicates()
        &&& forall|i: int|
            0 <= i < self.node_indices.len() ==> (#[trigger] self.node_indices[i]).1
                < self.nodes.len() && kind_fits(
                self.node_indices[i].0,
                self.nodes[self.node_indices[i].1 as int].node_type,
            )
    }

    /// The graph that the parts make up.
    pub open spec fn graph(self) -> DefGraphView {
        DefGraphView {
            nodes: self.nodes,
            edges: self.edges,
            index: entries_map(self.node_indices),
            memo: entries_map(self.stream_ids),
        }
    }
}

} // verus!
