//! The instantiated graph: the jobs and streams that a definition graph
//! stands for in one context.

use crate::systems::connectivity::find_source;
use crate::systems::connectivity::find_targets;
use crate::systems::connectivity::lemma_source_pair_agrees;
use crate::systems::connectivity::lemma_target_pairs_agrees;
use crate::systems::connectivity::pairs_below;
use crate::systems::connectivity::source_pair;
use crate::systems::connectivity::target_pairs;
use crate::systems::def_graph::DefGraph;
use crate::systems::def_graph::NodeType;
use crate::systems::def_graph_model::DefGraphView;
use crate::systems::def_graph_utils::spec_identifier;
use crate::systems::def_graph_utils::unique_spec_identifier;
use crate::systems::error::GraphError;
use crate::systems::select::count_up;
use crate::systems::select::numbers_below;
use crate::systems::str_map::StrMap;
use crate::systems::str_map::text_map;
use crate::systems::text::copy_opt_text;
use crate::systems::text::join2;
use crate::systems::text::join4;
use crate::systems::text::opt_chars;
use crate::systems::text::opt_text_is;
use crate::systems::text::same_text;
use crate::systems::topology::edges_within;
use crate::systems::topology::incident_of;
use crate::systems::topology::neighbors_of;
use crate::systems::topology::Wiring;
use crate::systems::topology::with_edge;
use petgraph::Direction;
use vstd::prelude::*;
use vstd::string::StringExecFns;

verus! {

/// The six kinds of node in an instantiated graph.
#[derive(Debug, PartialEq, Eq, Clone, Copy, Structural)]
pub enum InstantiatedNodeType {
    RootJob,
    Job,
    Stream,
    Inlet,
    Outlet,
    Alias,
}

/// What a node of an instantiated graph carries.
#[derive(Debug, PartialEq)]
pub struct InstantiatedGraphNode {
    pub node_type: InstantiatedNodeType,
    pub job_id: Option<String>,
    pub spec_name: Option<String>,
    pub unique_spec_label: Option<String>,
    pub stream_id: Option<String>,
    pub tag: Option<String>,
    pub has_transform: Option<bool>,
    pub alias: Option<String>,
    pub direction: Option<String>,
    pub label: String,
}

/// A node's payload with its strings as character sequences.
pub struct InstantiatedGraphNodeView {
    pub node_type: InstantiatedNodeType,
    pub job_id: Option<Seq<char>>,
    pub spec_name: Option<Seq<char>>,
    pub unique_spec_label: Option<Seq<char>>,
    pub stream_id: Option<Seq<char>>,
    pub tag: Option<Seq<char>>,
    pub has_transform: Option<bool>,
    pub alias: Option<Seq<char>>,
    pub direction: Option<Seq<char>>,
    pub label: Seq<char>,
}

impl View for InstantiatedGraphNode {
    type V = InstantiatedGraphNodeView;

    open spec fn view(&self) -> InstantiatedGraphNodeView {
        InstantiatedGraphNodeView {
            node_type: self.node_type,
            job_id: opt_chars(self.job_id),
            spec_name: opt_chars(self.spec_name),
            unique_spec_label: opt_chars(self.unique_spec_label),
            stream_id: opt_chars(self.stream_id),
            tag: opt_chars(self.tag),
            has_transform: self.has_transform,
            alias: opt_chars(self.alias),
            direction: opt_chars(self.direction),
            label: self.label@,
        }
    }
}

impl Clone for InstantiatedGraphNode {
    fn clone(&self) -> (r: Self)
        ensures
            r@ == self@,
    {
        InstantiatedGraphNode {
            node_type: self.node_type,
            job_id: copy_opt_text(&self.job_id),
            spec_name: copy_opt_text(&self.spec_name),
            unique_spec_label: copy_opt_text(&self.unique_spec_label),
            stream_id: copy_opt_text(&self.stream_id),
            tag: copy_opt_text(&self.tag),
            has_transform: self.has_transform,
            alias: copy_opt_text(&self.alias),
            direction: copy_opt_text(&self.direction),
            label: self.label.clone(),
        }
    }
}

impl InstantiatedGraphNodeView {
    /// A payload of the given kind that carries its label and nothing else.
    pub open spec fn blank(node_type: InstantiatedNodeType, label: Seq<char>) -> Self {
        InstantiatedGraphNodeView {
            node_type,
            job_id: None,
            spec_name: None,
            unique_spec_label: None,
            stream_id: None,
            tag: None,
            has_transform: None,
            alias: None,
            direction: None,
            label,
        }
    }
}

impl InstantiatedGraphNode {
    /// A payload of the given kind that carries its label and nothing else.
    pub fn new(node_type: InstantiatedNodeType, label: String) -> (r: Self)
        ensures
            r@ == InstantiatedGraphNodeView::blank(node_type, label@),
    {
        InstantiatedGraphNode {
            node_type,
            job_id: None,
            spec_name: None,
            unique_spec_label: None,
            stream_id: None,
            tag: None,
            has_transform: None,
            alias: None,
            direction: None,
            label,
        }
    }
}

/// The job that feeds a stream, and the outlet through which it does.
#[derive(Debug, PartialEq)]
pub struct InstantiatedStreamConnectionSource {
    pub origin: InstantiatedGraphNode,
    pub outlet_node: InstantiatedGraphNode,
}

/// An inlet that a stream feeds, and a job behind the inlet.
#[derive(Debug, PartialEq)]
pub struct InstantiatedStreamConnectionTarget {
    pub inlet_node: InstantiatedGraphNode,
    pub destination: InstantiatedGraphNode,
}

/// The one source of a stream, if it has one, and all its targets.
#[derive(Debug, PartialEq)]
pub struct InstantiatedStreamConnections {
    pub source: Option<InstantiatedStreamConnectionSource>,
    pub targets: Vec<InstantiatedStreamConnectionTarget>,
}

/// The spec and the tag that are on record as the source of a stream.
#[derive(Debug)]
pub struct StreamSourceSpecType {
    pub spec_name: String,
    pub tag: String,
}

impl Clone for StreamSourceSpecType {
    fn clone(&self) -> (r: Self)
        ensures
            r.spec_name@ == self.spec_name@,
            r.tag@ == self.tag@,
    {
        StreamSourceSpecType { spec_name: self.spec_name.clone(), tag: self.tag.clone() }
    }
}

/// What an instantiation is given besides the definition graph.
pub struct Settings {
    /// The context in which the jobs and streams are named.
    pub context_id: Seq<char>,
    /// The identifier of the root job.
    pub root_job_id: Seq<char>,
    /// The stream identifiers to use at boundary ports: under `in/` and a
    /// tag for an inlet, under `out/` and a tag for an outlet of the root.
    pub stream_ids: Map<Seq<char>, Seq<char>>,
    /// The transform flags to use at inlets, by tag.
    pub transforms: Map<Seq<char>, bool>,
}

/// The settings that the arguments of an instantiation make up.
pub open spec fn settings_of(
    context_id: Seq<char>,
    root_job_id: Seq<char>,
    stream_id_overrides: StrMap<String>,
    inlet_has_transform_overrides_by_tag: StrMap<bool>,
) -> Settings {
    Settings {
        context_id,
        root_job_id,
        stream_ids: text_map(stream_id_overrides),
        transforms: inlet_has_transform_overrides_by_tag.as_map(),
    }
}

/// A name within a context: the context in square brackets, then the name.
pub open spec fn scoped(context_id: Seq<char>, name: Seq<char>) -> Seq<char> {
    "["@ + context_id + "]"@ + name
}

/// The identifier that is given for the stream `stream` as an output of the
/// root spec: the one under `out/` and the tag of the outlet that feeds the
/// stream, where the root spec owns that outlet.
pub open spec fn out_override(
    def: DefGraphView,
    stream: u32,
    stream_ids: Map<Seq<char>, Seq<char>>,
) -> Option<Seq<char>> {
    match def.stream_source(stream) {
        Some(pair) => {
            let origin = def.nodes[pair.0 as int];
            let outlet = def.nodes[pair.1 as int];
            if origin.node_type == NodeType::RootSpec && outlet.tag is Some
                && stream_ids.contains_key("out/"@ + outlet.tag->0) {
                Some(stream_ids["out/"@ + outlet.tag->0])
            } else {
                None
            }
        },
        None => None,
    }
}

/// The identifier that is given for a stream by way of the inlets that it
/// feeds: the first one found under `in/` and an inlet's tag.
pub open spec fn in_override(
    def: DefGraphView,
    targets: Seq<(u32, u32)>,
    stream_ids: Map<Seq<char>, Seq<char>>,
) -> Option<Seq<char>>
    decreases targets.len(),
{
    if targets.len() == 0 {
        None
    } else {
        let inlet = def.nodes[targets[0].0 as int];
        if inlet.tag is Some && stream_ids.contains_key("in/"@ + inlet.tag->0) {
            Some(stream_ids["in/"@ + inlet.tag->0])
        } else {
            in_override(def, targets.skip(1), stream_ids)
        }
    }
}

/// The identifier of the stream that the stream definition `stream` becomes:
/// the one given for it as an output of the root, else the one given by way
/// of its inlets, else its own identifier within the context. A stream
/// definition without an identifier for which none is given has none.
pub open spec fn resolved_stream_id(def: DefGraphView, stream: u32, s: Settings) -> Option<
    Seq<char>,
> {
    if out_override(def, stream, s.stream_ids) is Some {
        out_override(def, stream, s.stream_ids)
    } else if in_override(def, def.stream_targets(stream), s.stream_ids) is Some {
        in_override(def, def.stream_targets(stream), s.stream_ids)
    } else {
        match def.nodes[stream as int].stream_def_id {
            Some(id) => Some(scoped(s.context_id, id)),
            None => None,
        }
    }
}

/// The identifier under which the node `i` of the definition is kept after
/// instantiation: the root job's identifier for a root spec, the spec's
/// identifier within the context for a spec, the resolved identifier for a
/// stream definition. Ports and aliases have none.
pub open spec fn identity(def: DefGraphView, i: u32, s: Settings) -> Option<Seq<char>> {
    let n = def.nodes[i as int];
    match n.node_type {
        NodeType::RootSpec => Some(s.root_job_id),
        NodeType::Spec => match n.spec_name {
            Some(name) => Some(scoped(s.context_id, spec_identifier(name, n.unique_spec_label))),
            None => None,
        },
        NodeType::StreamDef => resolved_stream_id(def, i, s),
        _ => None,
    }
}

/// Whether the kind `t` is one whose nodes are kept under an identifier.
pub open spec fn is_named_kind(t: NodeType) -> bool {
    t == NodeType::RootSpec || t == NodeType::Spec || t == NodeType::StreamDef
}

/// Whether the node `i` can be translated: it is a port or an alias, or it
/// has an identifier.
pub open spec fn has_identity(def: DefGraphView, i: u32, s: Settings) -> bool {
    is_named_kind(def.nodes[i as int].node_type) ==> identity(def, i, s) is Some
}

/// Whether every node of the definition can be translated.
pub open spec fn translatable(def: DefGraphView, s: Settings) -> bool {
    forall|i: u32| i < def.nodes.len() ==> #[trigger] has_identity(def, i, s)
}

/// The transform flag of an inlet: the one given for its tag, else its own.
pub open spec fn transform_of(
    tag: Option<Seq<char>>,
    has_transform: Option<bool>,
    transforms: Map<Seq<char>, bool>,
) -> Option<bool> {
    if tag is Some && transforms.contains_key(tag->0) {
        Some(transforms[tag->0])
    } else {
        has_transform
    }
}

/// The payload into which the node `i` of the definition is translated.
pub open spec fn translated(def: DefGraphView, i: u32, s: Settings) -> InstantiatedGraphNodeView {
    let n = def.nodes[i as int];
    let id = identity(def, i, s);
    match n.node_type {
        NodeType::RootSpec => InstantiatedGraphNodeView {
            job_id: Some(s.root_job_id),
            spec_name: n.spec_name,
            unique_spec_label: n.unique_spec_label,
            ..InstantiatedGraphNodeView::blank(InstantiatedNodeType::RootJob, n.label)
        },
        NodeType::Spec => InstantiatedGraphNodeView {
            job_id: id,
            spec_name: n.spec_name,
            unique_spec_label: n.unique_spec_label,
            ..InstantiatedGraphNodeView::blank(InstantiatedNodeType::Job, id->0)
        },
        NodeType::StreamDef => InstantiatedGraphNodeView {
            stream_id: id,
            ..InstantiatedGraphNodeView::blank(InstantiatedNodeType::Stream, id->0)
        },
        NodeType::Inlet => InstantiatedGraphNodeView {
            tag: n.tag,
            has_transform: transform_of(n.tag, n.has_transform, s.transforms),
            ..InstantiatedGraphNodeView::blank(InstantiatedNodeType::Inlet, n.label)
        },
        NodeType::Outlet => InstantiatedGraphNodeView {
            tag: n.tag,
            ..InstantiatedGraphNodeView::blank(InstantiatedNodeType::Outlet, n.label)
        },
        NodeType::Alias => InstantiatedGraphNodeView {
            alias: n.alias,
            direction: n.direction,
            ..InstantiatedGraphNodeView::blank(InstantiatedNodeType::Alias, n.label)
        },
    }
}

/// The nodes of an instantiated graph while the nodes of the definition are
/// translated one by one.
pub struct Translation {
    /// The payloads of the nodes made so far.
    pub nodes: Seq<InstantiatedGraphNodeView>,
    /// The node kept under each identifier.
    pub index: Map<Seq<char>, u32>,
    /// For each node of the definition seen so far, the node that it became
    /// or, for a stream definition that found its identifier taken, the node
    /// that has that identifier.
    pub places: Seq<u32>,
}

impl Translation {
    /// Nothing translated yet.
    pub open spec fn start() -> Translation {
        Translation { nodes: Seq::empty(), index: Map::empty(), places: Seq::empty() }
    }

    /// Whether the node `i` of the definition is a stream definition whose
    /// identifier is taken already, so that it makes no node of its own.
    pub open spec fn collapses(self, def: DefGraphView, i: u32, s: Settings) -> bool {
        def.nodes[i as int].node_type == NodeType::StreamDef && self.index.contains_key(
            identity(def, i, s)->0,
        )
    }

    /// The translation with the node `i` of the definition taken in.
    pub open spec fn with_node(self, def: DefGraphView, i: u32, s: Settings) -> Translation {
        let fresh = self.nodes.len() as u32;
        let id = identity(def, i, s);
        if self.collapses(def, i, s) {
            Translation { places: self.places.push(self.index[id->0]), ..self }
        } else {
            Translation {
                nodes: self.nodes.push(translated(def, i, s)),
                index: if id is Some {
                    self.index.insert(id->0, fresh)
                } else {
                    self.index
                },
                places: self.places.push(fresh),
            }
        }
    }

    /// The node that stands for the node `i` of the definition once all nodes
    /// are translated: the one kept under its identifier, if it has one.
    pub open spec fn place(self, def: DefGraphView, i: u32, s: Settings) -> u32 {
        match identity(def, i, s) {
            Some(id) => self.index[id],
            None => self.places[i as int],
        }
    }
}

/// The translation of the first `k` nodes of the definition.
pub open spec fn translate_nodes(def: DefGraphView, s: Settings, k: nat) -> Translation
    decreases k,
{
    if k == 0 {
        Translation::start()
    } else {
        translate_nodes(def, s, (k - 1) as nat).with_node(def, (k - 1) as u32, s)
    }
}

/// The edges that the first `k` edges of the definition become: each between
/// the nodes that stand for its ends, and each once.
pub open spec fn translate_edges(t: Translation, def: DefGraphView, s: Settings, k: nat) -> Seq<
    (u32, u32),
>
    decreases k,
{
    if k == 0 {
        Seq::empty()
    } else {
        with_edge(
            translate_edges(t, def, s, (k - 1) as nat),
            t.place(def, def.edges[k - 1].0, s),
            t.place(def, def.edges[k - 1].1, s),
        )
    }
}

/// An instantiated graph as mathematics: the payloads in the order of the
/// node handles, the edges in the order of their addition, and the node kept
/// under each job and stream identifier.
pub struct InstantiatedGraphView {
    pub nodes: Seq<InstantiatedGraphNodeView>,
    pub edges: Seq<(u32, u32)>,
    pub index: Map<Seq<char>, u32>,
}

/// The instantiated graph of a definition under the given settings.
pub open spec fn instantiate(def: DefGraphView, s: Settings) -> InstantiatedGraphView {
    let t = translate_nodes(def, s, def.nodes.len());
    InstantiatedGraphView {
        nodes: t.nodes,
        edges: translate_edges(t, def, s, def.edges.len()),
        index: t.index,
    }
}

/// The payloads of the kind `t`.
pub open spec fn of_kind(t: InstantiatedNodeType) -> spec_fn(InstantiatedGraphNodeView) -> bool {
    |n: InstantiatedGraphNodeView| n.node_type == t
}

/// The payloads of jobs and of root jobs.
pub open spec fn job_or_root() -> spec_fn(InstantiatedGraphNodeView) -> bool {
    |n: InstantiatedGraphNodeView|
        n.node_type == InstantiatedNodeType::Job || n.node_type == InstantiatedNodeType::RootJob
}

/// The predicate on stored payloads that asks `q` of the payload's view.
pub open spec fn through_view(q: spec_fn(InstantiatedGraphNodeView) -> bool) -> spec_fn(
    InstantiatedGraphNode,
) -> bool {
    |n: InstantiatedGraphNode| q(n@)
}

/// The views of a list of payloads.
pub open spec fn payload_views(nodes: Seq<InstantiatedGraphNode>) -> Seq<InstantiatedGraphNodeView> {
    Seq::new(nodes.len(), |i: int| nodes[i]@)
}

impl InstantiatedGraphView {
    /// Handles fit in 32 bits, every edge joins two nodes, no edge occurs
    /// twice, and every identifier leads to a node.
    pub open spec fn wf(self) -> bool {
        &&& self.nodes.len() <= u32::MAX
        &&& self.edges.len() <= u32::MAX
        &&& edges_within(self.edges, self.nodes.len())
        &&& self.edges.no_duplicates()
        &&& forall|k: Seq<char>|
            self.index.contains_key(k) ==> (#[trigger] self.index[k]) < self.nodes.len()
    }

    /// The nodes from which an edge leads to `a`, newest edge first.
    pub open spec fn sources(self, a: u32) -> Seq<u32> {
        neighbors_of(self.edges, a, Direction::Incoming)
    }

    /// The nodes to which an edge leads from `a`, newest edge first.
    pub open spec fn targets(self, a: u32) -> Seq<u32> {
        neighbors_of(self.edges, a, Direction::Outgoing)
    }

    /// The job or root job that feeds the stream `stream`, and the outlet
    /// between the two.
    pub open spec fn stream_source(self, stream: u32) -> Option<(u32, u32)> {
        source_pair(
            self.edges,
            self.nodes,
            stream,
            of_kind(InstantiatedNodeType::Outlet),
            job_or_root(),
        )
    }

    /// The inlets that the stream `stream` feeds, each with every job or
    /// root job behind it.
    pub open spec fn stream_targets(self, stream: u32) -> Seq<(u32, u32)> {
        target_pairs(
            self.edges,
            self.nodes,
            stream,
            of_kind(InstantiatedNodeType::Inlet),
            job_or_root(),
        )
    }

    /// Whether `found` shows the source of the stream `stream`: nothing
    /// where the stream has none, else the payloads of the job and of the
    /// outlet.
    pub open spec fn is_source_of(
        self,
        found: Option<InstantiatedStreamConnectionSource>,
        stream: u32,
    ) -> bool {
        match (found, self.stream_source(stream)) {
            (Some(shown), Some(pair)) => shown.origin@ == self.nodes[pair.0 as int]
                && shown.outlet_node@ == self.nodes[pair.1 as int],
            (None, None) => true,
            _ => false,
        }
    }

    /// Whether `found` shows the targets of the stream `stream`: for each
    /// target in turn, the payloads of the inlet and of the job.
    pub open spec fn are_targets_of(
        self,
        found: Seq<InstantiatedStreamConnectionTarget>,
        stream: u32,
    ) -> bool {
        let pairs = self.stream_targets(stream);
        &&& found.len() == pairs.len()
        &&& forall|k: int|
            0 <= k < found.len() ==> (#[trigger] found[k]).inlet_node@
                == self.nodes[pairs[k].0 as int] && found[k].destination@
                == self.nodes[pairs[k].1 as int]
    }

    /// Whether the target `pair` of a stream is the inlet `tag` of the job
    /// `job_id`.
    pub open spec fn feeds(self, pair: (u32, u32), job_id: Seq<char>, tag: Seq<char>) -> bool {
        self.nodes[pair.1 as int].job_id == Some(job_id) && self.nodes[pair.0 as int].tag == Some(
            tag,
        )
    }

    /// Whether the node `stream` is a stream that joins the root job or the
    /// job `job_id` at the port `tag`: for `out`, the stream that the root
    /// job feeds through its outlet `tag`; for `in`, a stream that feeds the
    /// inlet `tag` of the job `job_id`.
    pub open spec fn joins(
        self,
        stream: u32,
        job_id: Seq<char>,
        direction: Seq<char>,
        tag: Seq<char>,
    ) -> bool {
        let targets = self.stream_targets(stream);
        &&& self.nodes[stream as int].node_type == InstantiatedNodeType::Stream
        &&& if direction == "out"@ {
            match self.stream_source(stream) {
                Some(pair) => self.nodes[pair.0 as int].node_type == InstantiatedNodeType::RootJob
                    && self.nodes[pair.1 as int].tag == Some(tag),
                None => false,
            }
        } else if direction == "in"@ {
            exists|k: int| 0 <= k < targets.len() && self.feeds(#[trigger] targets[k], job_id, tag)
        } else {
            false
        }
    }
}

/// An instantiated graph. It keeps what it was made from: the definition,
/// the context, the root job's identifier and the three tables.
#[derive(Debug)]
pub struct InstantiatedGraph {
    wiring: Wiring,
    nodes: Vec<InstantiatedGraphNode>,
    node_indices: StrMap<u32>,
    def_graph: DefGraph,
    context_id: String,
    root_job_id: String,
    stream_id_overrides: StrMap<String>,
    inlet_has_transform_overrides_by_tag: StrMap<bool>,
    stream_source_spec_type_by_stream_id: StrMap<StreamSourceSpecType>,
}

impl View for InstantiatedGraph {
    type V = InstantiatedGraphView;

    closed spec fn view(&self) -> InstantiatedGraphView {
        InstantiatedGraphView {
            nodes: payload_views(self.nodes@),
            edges: self.wiring.edges(),
            index: self.node_indices.as_map(),
        }
    }
}

/// The stream identifier that is given for the stream definition `stream`,
/// or its own identifier within the context.
fn resolve_stream_id(
    def_graph: &DefGraph,
    stream: u32,
    context_id: &str,
    stream_id_overrides: &StrMap<String>,
    Ghost(s): Ghost<Settings>,
) -> (r: Option<String>)
    requires
        def_graph.wf(),
        stream < def_graph@.nodes.len(),
        s.context_id == context_id@,
        s.stream_ids == text_map(*stream_id_overrides),
    ensures
        opt_chars(r) == resolved_stream_id(def_graph@, stream, s),
{
    match def_graph.stream_source(stream) {
        Some((origin, outlet)) => {
            if def_graph.payload(origin).node_type == NodeType::RootSpec {
                match &def_graph.payload(outlet).tag {
                    Some(tag) => {
                        let key = join2("out/", tag.as_str());
                        match stream_id_overrides.get(key.as_str()) {
                            Some(id) => {
                                return Some(id.clone());
                            },
                            None => {},
                        }
                    },
                    None => {},
                }
            }
        },
        None => {},
    }
    assert(out_override(def_graph@, stream, s.stream_ids) is None);
    let targets = def_graph.stream_targets(stream);
    let mut k: usize = 0;
    assert(targets@.skip(0) =~= targets@);
    while k < targets.len()
        invariant
            k <= targets.len(),
            def_graph.wf(),
            stream < def_graph@.nodes.len(),
            targets@ == def_graph@.stream_targets(stream),
            out_override(def_graph@, stream, s.stream_ids) is None,
            pairs_below(targets@, def_graph@.nodes.len()),
            s.stream_ids == text_map(*stream_id_overrides),
            in_override(def_graph@, targets@, s.stream_ids) == in_override(
                def_graph@,
                targets@.skip(k as int),
                s.stream_ids,
            ),
        decreases targets.len() - k,
    {
        let inlet = targets[k].0;
        assert(targets@.skip(k as int)[0] == targets@[k as int]);
        assert(targets@.skip(k as int).skip(1) =~= targets@.skip(k + 1));
        match &def_graph.payload(inlet).tag {
            Some(tag) => {
                let key = join2("in/", tag.as_str());
                match stream_id_overrides.get(key.as_str()) {
                    Some(id) => {
                        return Some(id.clone());
                    },
                    None => {},
                }
            },
            None => {},
        }
        k += 1;
    }
    match &def_graph.payload(stream).stream_def_id {
        Some(id) => Some(join4("[", context_id, "]", id.as_str())),
        None => None,
    }
}

/// The payload into which the node `i` of the definition is translated, and
/// the identifier under which it is kept. Nothing for a spec without a name
/// and for a stream definition without an identifier.
fn translate_payload(
    def_graph: &DefGraph,
    i: u32,
    context_id: &str,
    root_job_id: &str,
    stream_id_overrides: &StrMap<String>,
    inlet_has_transform_overrides_by_tag: &StrMap<bool>,
    Ghost(s): Ghost<Settings>,
) -> (r: Option<(InstantiatedGraphNode, Option<String>)>)
    requires
        def_graph.wf(),
        i < def_graph@.nodes.len(),
        s == settings_of(
            context_id@,
            root_job_id@,
            *stream_id_overrides,
            *inlet_has_transform_overrides_by_tag,
        ),
    ensures
        r is Some <==> has_identity(def_graph@, i, s),
        match r {
            Some((made, id)) => made@ == translated(def_graph@, i, s) && opt_chars(id) == identity(
                def_graph@,
                i,
                s,
            ),
            None => true,
        },
{
    let node = def_graph.payload(i);
    match node.node_type {
        NodeType::RootSpec => {
            let mut made = InstantiatedGraphNode::new(
                InstantiatedNodeType::RootJob,
                node.label.clone(),
            );
            made.job_id = Some(String::from_str(root_job_id));
            made.spec_name = copy_opt_text(&node.spec_name);
            made.unique_spec_label = copy_opt_text(&node.unique_spec_label);
            Some((made, Some(String::from_str(root_job_id))))
        },
        NodeType::Spec => {
            match &node.spec_name {
                Some(name) => {
                    let spec_id = unique_spec_identifier(
                        name.clone(),
                        copy_opt_text(&node.unique_spec_label),
                    );
                    let job_id = join4("[", context_id, "]", spec_id.as_str());
                    let mut made = InstantiatedGraphNode::new(
                        InstantiatedNodeType::Job,
                        job_id.clone(),
                    );
                    made.job_id = Some(job_id.clone());
                    made.spec_name = Some(name.clone());
                    made.unique_spec_label = copy_opt_text(&node.unique_spec_label);
                    Some((made, Some(job_id)))
                },
                None => None,
            }
        },
        NodeType::StreamDef => {
            match resolve_stream_id(def_graph, i, context_id, stream_id_overrides, Ghost(s)) {
                Some(id) => {
                    let mut made = InstantiatedGraphNode::new(
                        InstantiatedNodeType::Stream,
                        id.clone(),
                    );
                    made.stream_id = Some(id.clone());
                    Some((made, Some(id)))
                },
                None => None,
            }
        },
        NodeType::Inlet => {
            let given: Option<bool> = match &node.tag {
                Some(tag) => match inlet_has_transform_overrides_by_tag.get(tag.as_str()) {
                    Some(flag) => Some(*flag),
                    None => None,
                },
                None => None,
            };
            let mut made = InstantiatedGraphNode::new(
                InstantiatedNodeType::Inlet,
                node.label.clone(),
            );
            made.tag = copy_opt_text(&node.tag);
            made.has_transform = match given {
                Some(flag) => Some(flag),
                None => node.has_transform,
            };
            Some((made, None))
        },
        NodeType::Outlet => {
            let mut made = InstantiatedGraphNode::new(
                InstantiatedNodeType::Outlet,
                node.label.clone(),
            );
            made.tag = copy_opt_text(&node.tag);
            Some((made, None))
        },
        NodeType::Alias => {
            let mut made = InstantiatedGraphNode::new(
                InstantiatedNodeType::Alias,
                node.label.clone(),
            );
            made.alias = copy_opt_text(&node.alias);
            made.direction = copy_opt_text(&node.direction);
            Some((made, None))
        },
    }
}

impl InstantiatedGraph {
    /// The payloads as they are stored, in the order of the node handles.
    pub closed spec fn payloads(&self) -> Seq<InstantiatedGraphNode> {
        self.nodes@
    }

    /// The invariant of the representation: the wiring has one node per
    /// payload and is well formed itself.
    pub closed spec fn inv(&self) -> bool {
        &&& self.wiring.wf()
        &&& self.wiring.node_count() == self.nodes@.len()
    }

    /// The definition that was instantiated.
    pub closed spec fn definition(&self) -> DefGraph {
        self.def_graph
    }

    /// The context in which the jobs and streams are named.
    pub closed spec fn context(&self) -> Seq<char> {
        self.context_id@
    }

    /// The identifier of the root job.
    pub closed spec fn root_job(&self) -> Seq<char> {
        self.root_job_id@
    }

    /// The stream identifiers that were given for boundary ports.
    pub closed spec fn given_stream_ids(&self) -> StrMap<String> {
        self.stream_id_overrides
    }

    /// The transform flags that were given for inlets, by tag.
    pub closed spec fn given_transforms(&self) -> StrMap<bool> {
        self.inlet_has_transform_overrides_by_tag
    }

    /// The source spec and tag on record for stream identifiers.
    pub closed spec fn recorded_sources(&self) -> StrMap<StreamSourceSpecType> {
        self.stream_source_spec_type_by_stream_id
    }

    /// The validity of an instantiated graph.
    pub open spec fn wf(&self) -> bool {
        &&& self.inv()
        &&& self@.wf()
        &&& self@.nodes == payload_views(self.payloads())
    }

    /// Instantiates the definition `def_graph` in the context `context_id`.
    ///
    /// Every node of the definition is translated in the order of the
    /// handles: the root spec into the root job `root_job_id`, a spec into a
    /// job named after the spec within the context, a stream definition into
    /// a stream, ports and aliases into their like. Stream definitions that
    /// resolve to one identifier become one stream. Then every edge of the
    /// definition is drawn between the nodes that stand for its ends.
    ///
    /// A spec without a name and a stream definition without an identifier
    /// for which none is given cannot be translated: `InternalConsistency`.
    pub fn new(
        context_id: String,
        root_job_id: String,
        stream_id_overrides: StrMap<String>,
        inlet_has_transform_overrides_by_tag: StrMap<bool>,
        stream_source_spec_type_by_stream_id: StrMap<StreamSourceSpecType>,
        def_graph: &DefGraph,
    ) -> (r: Result<Self, GraphError>)
        requires
            def_graph.wf(),
        ensures
            r is Ok <==> translatable(
                def_graph@,
                settings_of(
                    context_id@,
                    root_job_id@,
                    stream_id_overrides,
                    inlet_has_transform_overrides_by_tag,
                ),
            ),
            r is Err ==> r->Err_0 == GraphError::InternalConsistency,
            r is Ok ==> r->Ok_0.wf() && r->Ok_0@ == instantiate(
                def_graph@,
                settings_of(
                    context_id@,
                    root_job_id@,
                    stream_id_overrides,
                    inlet_has_transform_overrides_by_tag,
                ),
            ),
            r is Ok ==> r->Ok_0.definition().wf() && r->Ok_0.definition()@ == def_graph@,
            r is Ok ==> r->Ok_0.context() == context_id@ && r->Ok_0.root_job() == root_job_id@,
            r is Ok ==> r->Ok_0.given_stream_ids() == stream_id_overrides
                && r->Ok_0.given_transforms() == inlet_has_transform_overrides_by_tag
                && r->Ok_0.recorded_sources() == stream_source_spec_type_by_stream_id,
    {
        let ghost s = settings_of(
            context_id@,
            root_job_id@,
            stream_id_overrides,
            inlet_has_transform_overrides_by_tag,
        );
        let ghost def = def_graph@;
        let total = def_graph.node_count();
        let mut wiring = Wiring::new();
        let mut nodes: Vec<InstantiatedGraphNode> = Vec::new();
        let mut node_indices: StrMap<u32> = StrMap::new();
        let mut places: Vec<u32> = Vec::new();
        let mut ids: Vec<Option<String>> = Vec::new();
        let mut i: u32 = 0;
        proof {
            assert(payload_views(nodes@) =~= Translation::start().nodes);
            assert(places@ =~= Translation::start().places);
        }
        while (i as usize) < total
            invariant
                def_graph.wf(),
                def == def_graph@,
                total == def.nodes.len(),
                i <= total,
                s == settings_of(
                    context_id@,
                    root_job_id@,
                    stream_id_overrides,
                    inlet_has_transform_overrides_by_tag,
                ),
                wiring.wf(),
                wiring.node_count() == nodes@.len(),
                wiring.edges() == Seq::<(u32, u32)>::empty(),
                nodes@.len() <= i,
                payload_views(nodes@) == translate_nodes(def, s, i as nat).nodes,
                node_indices.as_map() == translate_nodes(def, s, i as nat).index,
                places@ == translate_nodes(def, s, i as nat).places,
                places@.len() == i,
                ids@.len() == i,
                forall|j: u32| j < i ==> opt_chars(ids@[j as int]) == #[trigger] identity(def, j, s),
                forall|j: u32| j < i ==> #[trigger] has_identity(def, j, s),
                forall|j: int| 0 <= j < i ==> (#[trigger] places@[j]) < nodes@.len(),
                forall|k: Seq<char>|
                    node_indices.as_map().contains_key(k) ==> (#[trigger] node_indices.as_map()[k])
                        < nodes@.len(),
                forall|j: u32|
                    j < i && (#[trigger] identity(def, j, s)) is Some
                        ==> node_indices.as_map().contains_key(identity(def, j, s)->0),
            decreases total - i,
        {
            let ghost before = translate_nodes(def, s, i as nat);
            let translation = translate_payload(
                def_graph,
                i,
                context_id.as_str(),
                root_job_id.as_str(),
                &stream_id_overrides,
                &inlet_has_transform_overrides_by_tag,
                Ghost(s),
            );
            match translation {
                None => {
                    assert(!has_identity(def, i, s));
                    return Err(GraphError::InternalConsistency);
                },
                Some((made, id)) => {
                    let taken: Option<u32> = match def_graph.payload(i).node_type {
                        NodeType::StreamDef => match &id {
                            Some(key) => match node_indices.get(key.as_str()) {
                                Some(at) => Some(*at),
                                None => None,
                            },
                            None => None,
                        },
                        _ => None,
                    };
                    assert(taken is Some <==> before.collapses(def, i, s));
                    match taken {
                        Some(at) => {
                            places.push(at);
                        },
                        None => {
                            let fresh = wiring.add_node();
                            nodes.push(made);
                            match &id {
                                Some(key) => {
                                    node_indices.insert(key.clone(), fresh);
                                },
                                None => {},
                            }
                            places.push(fresh);
                        },
                    }
                    ids.push(id);
                    proof {
                        let after = before.with_node(def, i, s);
                        assert(translate_nodes(def, s, (i + 1) as nat) == after);
                        assert(payload_views(nodes@) =~= after.nodes);
                        assert(node_indices.as_map() =~= after.index);
                        assert(places@ =~= after.places);
                    }
                },
            }
            i += 1;
        }
        let ghost t = translate_nodes(def, s, total as nat);
        let edges = def_graph.raw_edges();
        let mut e: usize = 0;
        while e < edges.len()
            invariant
                e <= edges.len(),
                def_graph.wf(),
                def == def_graph@,
                edges@ == def.edges,
                total == def.nodes.len(),
                t == translate_nodes(def, s, total as nat),
                wiring.wf(),
                wiring.node_count() == nodes@.len(),
                wiring.edges() == translate_edges(t, def, s, e as nat),
                wiring.edges().len() <= e,
                payload_views(nodes@) == t.nodes,
                node_indices.as_map() == t.index,
                places@ == t.places,
                places@.len() == total,
                ids@.len() == total,
                forall|j: u32|
                    j < total ==> opt_chars(ids@[j as int]) == #[trigger] identity(def, j, s),
                forall|j: u32| j < total ==> #[trigger] has_identity(def, j, s),
                forall|j: int| 0 <= j < total ==> (#[trigger] places@[j]) < nodes@.len(),
                forall|k: Seq<char>|
                    node_indices.as_map().contains_key(k) ==> (#[trigger] node_indices.as_map()[k])
                        < nodes@.len(),
                forall|j: u32|
                    j < total && (#[trigger] identity(def, j, s)) is Some
                        ==> node_indices.as_map().contains_key(identity(def, j, s)->0),
            decreases edges.len() - e,
        {
            let (u, v) = edges[e];
            assert(def.edges[e as int] == (u, v));
            assert(u < total && v < total);
            assert(opt_chars(ids@[u as int]) == identity(def, u, s));
            assert(opt_chars(ids@[v as int]) == identity(def, v, s));
            let from = match &ids[u as usize] {
                Some(key) => match node_indices.get(key.as_str()) {
                    Some(at) => *at,
                    None => {
                        return Err(GraphError::InternalConsistency);
                    },
                },
                None => places[u as usize],
            };
            let to = match &ids[v as usize] {
                Some(key) => match node_indices.get(key.as_str()) {
                    Some(at) => *at,
                    None => {
                        return Err(GraphError::InternalConsistency);
                    },
                },
                None => places[v as usize],
            };
            assert(from == t.place(def, u, s));
            assert(to == t.place(def, v, s));
            wiring.connect(from, to);
            e += 1;
        }
        proof {
            assert forall|j: u32| j < def.nodes.len() implies #[trigger] has_identity(
                def,
                j,
                s,
            ) by {}
        }
        let graph = InstantiatedGraph {
            wiring,
            nodes,
            node_indices,
            def_graph: def_graph.clone(),
            context_id,
            root_job_id,
            stream_id_overrides,
            inlet_has_transform_overrides_by_tag,
            stream_source_spec_type_by_stream_id,
        };
        Ok(graph)
    }

    /// The definition that was instantiated.
    pub fn def_graph(&self) -> (r: &DefGraph)
        ensures
            *r == self.definition(),
    {
        &self.def_graph
    }

    /// The context in which the jobs and streams are named.
    pub fn context_id(&self) -> (r: &str)
        ensures
            r@ == self.context(),
    {
        self.context_id.as_str()
    }

    /// The identifier of the root job.
    pub fn get_root_job_id(&self) -> (r: &str)
        ensures
            r@ == self.root_job(),
    {
        self.root_job_id.as_str()
    }

    /// The stream identifiers that were given for boundary ports.
    pub fn stream_id_overrides(&self) -> (r: &StrMap<String>)
        ensures
            *r == self.given_stream_ids(),
    {
        &self.stream_id_overrides
    }

    /// The transform flags that were given for inlets, by tag.
    pub fn inlet_has_transform_overrides_by_tag(&self) -> (r: &StrMap<bool>)
        ensures
            *r == self.given_transforms(),
    {
        &self.inlet_has_transform_overrides_by_tag
    }

    /// The source spec and tag on record for stream identifiers, as they
    /// were handed in.
    pub fn stream_source_spec_type_by_stream_id(&self) -> (r: &StrMap<StreamSourceSpecType>)
        ensures
            *r == self.recorded_sources(),
    {
        &self.stream_source_spec_type_by_stream_id
    }

    /// The node that is kept under the root job's identifier; `NodeNotFound`
    /// where there is none.
    pub fn get_root_job_node_id(&self) -> (r: Result<u32, GraphError>)
        requires
            self.wf(),
        ensures
            r is Ok <==> self@.index.contains_key(self.root_job()),
            r is Ok ==> r->Ok_0 == self@.index[self.root_job()] && r->Ok_0 < self@.nodes.len(),
            r is Err ==> r->Err_0 == GraphError::NodeNotFound,
    {
        match self.node_indices.get(self.root_job_id.as_str()) {
            Some(at) => Ok(*at),
            None => Err(GraphError::NodeNotFound),
        }
    }

    /// The payload of the node with the handle `index`, if there is one.
    pub fn node_weight(&self, index: u32) -> (r: Option<&InstantiatedGraphNode>)
        requires
            self.wf(),
        ensures
            r is Some <==> index < self@.nodes.len(),
            r is Some ==> r->0@ == self@.nodes[index as int],
    {
        if (index as usize) < self.nodes.len() {
            Some(&self.nodes[index as usize])
        } else {
            None
        }
    }

    /// The payloads of all nodes, in the order of the handles.
    pub fn nodes(&self) -> (r: Vec<InstantiatedGraphNode>)
        requires
            self.wf(),
        ensures
            payload_views(r@) == self@.nodes,
    {
        let mut out: Vec<InstantiatedGraphNode> = Vec::new();
        let mut i: usize = 0;
        while i < self.nodes.len()
            invariant
                i <= self.nodes.len(),
                out@.len() == i,
                forall|j: int| 0 <= j < i ==> (#[trigger] out@[j])@ == self.nodes@[j]@,
            decreases self.nodes.len() - i,
        {
            out.push(self.nodes[i].clone());
            i += 1;
        }
        assert(payload_views(out@) =~= self@.nodes);
        out
    }

    /// The number of nodes.
    pub fn node_count(&self) -> (r: usize)
        requires
            self.wf(),
        ensures
            r == self@.nodes.len(),
    {
        self.nodes.len()
    }

    /// The number of edges.
    pub fn edge_count(&self) -> (r: usize)
        requires
            self.wf(),
        ensures
            r == self@.edges.len(),
    {
        self.wiring.edge_total()
    }

    /// The handles of all nodes, ascending.
    pub fn node_indices(&self) -> (r: Vec<u32>)
        requires
            self.wf(),
        ensures
            r@ == numbers_below(self@.nodes.len()),
    {
        count_up(self.nodes.len() as u32)
    }

    /// The nodes from which an edge leads to `node_id`, newest edge first.
    pub fn inbound_neighbors(&self, node_id: u32) -> (r: Vec<u32>)
        requires
            self.wf(),
        ensures
            r@ == self@.sources(node_id),
    {
        self.wiring.inbound(node_id)
    }

    /// The nodes to which an edge leads from `node_id`, newest edge first.
    pub fn outbound_neighbors(&self, node_id: u32) -> (r: Vec<u32>)
        requires
            self.wf(),
        ensures
            r@ == self@.targets(node_id),
    {
        self.wiring.outbound(node_id)
    }

    /// The indices of the edges that enter `node_id`, newest edge first.
    pub fn inbound_edges(&self, node_id: u32) -> (r: Vec<u32>)
        requires
            self.wf(),
        ensures
            r@ == incident_of(self@.edges, node_id, Direction::Incoming),
    {
        self.wiring.inbound_edge_ids(node_id)
    }

    /// The indices of the edges that leave `node_id`, newest edge first.
    pub fn outbound_edges(&self, node_id: u32) -> (r: Vec<u32>)
        requires
            self.wf(),
        ensures
            r@ == incident_of(self@.edges, node_id, Direction::Outgoing),
    {
        self.wiring.outbound_edge_ids(node_id)
    }

    /// The node at which the edge `edge_id` starts; `EdgeNotFound` where the
    /// graph has no such edge.
    pub fn source(&self, edge_id: u32) -> (r: Result<u32, GraphError>)
        requires
            self.wf(),
        ensures
            r is Ok <==> edge_id < self@.edges.len(),
            r is Ok ==> r->Ok_0 == self@.edges[edge_id as int].0,
            r is Err ==> r->Err_0 == GraphError::EdgeNotFound,
    {
        match self.wiring.endpoints(edge_id) {
            Some((from, _)) => Ok(from),
            None => Err(GraphError::EdgeNotFound),
        }
    }

    /// The node at which the edge `edge_id` ends; `EdgeNotFound` where the
    /// graph has no such edge.
    pub fn target(&self, edge_id: u32) -> (r: Result<u32, GraphError>)
        requires
            self.wf(),
        ensures
            r is Ok <==> edge_id < self@.edges.len(),
            r is Ok ==> r->Ok_0 == self@.edges[edge_id as int].1,
            r is Err ==> r->Err_0 == GraphError::EdgeNotFound,
    {
        match self.wiring.endpoints(edge_id) {
            Some((_, to)) => Ok(to),
            None => Err(GraphError::EdgeNotFound),
        }
    }

    /// All edges, each as its source and its target, in the order of their
    /// addition.
    pub fn raw_edges(&self) -> (r: Vec<Vec<u32>>)
        requires
            self.wf(),
        ensures
            r@.len() == self@.edges.len(),
            forall|i: int|
                0 <= i < r@.len() ==> (#[trigger] r@[i])@ == seq![
                    self@.edges[i].0,
                    self@.edges[i].1,
                ],
    {
        let edges = self.wiring.edge_list();
        let mut out: Vec<Vec<u32>> = Vec::new();
        let mut i: usize = 0;
        while i < edges.len()
            invariant
                i <= edges.len(),
                out@.len() == i,
                forall|j: int|
                    0 <= j < i ==> (#[trigger] out@[j])@ == seq![edges@[j].0, edges@[j].1],
            decreases edges.len() - i,
        {
            let mut pair: Vec<u32> = Vec::new();
            pair.push(edges[i].0);
            pair.push(edges[i].1);
            assert(pair@ =~= seq![edges@[i as int].0, edges@[i as int].1]);
            out.push(pair);
            i += 1;
        }
        out
    }

    /// The handles of the job or root job that feeds the stream
    /// `stream_node_id` and of the outlet between the two.
    pub fn stream_source_ids(&self, stream_node_id: u32) -> (r: Option<(u32, u32)>)
        requires
            self.wf(),
        ensures
            r == self@.stream_source(stream_node_id),
            match r {
                Some(pair) => pair.0 < self@.nodes.len() && pair.1 < self@.nodes.len(),
                None => true,
            },
    {
        let outlet_test = |n: &InstantiatedGraphNode| -> (b: bool)
            ensures
                b == (n@.node_type == InstantiatedNodeType::Outlet),
            { n.node_type == InstantiatedNodeType::Outlet };
        let job_test = |n: &InstantiatedGraphNode| -> (b: bool)
            ensures
                b == (n@.node_type == InstantiatedNodeType::Job || n@.node_type
                    == InstantiatedNodeType::RootJob),
            {
                n.node_type == InstantiatedNodeType::Job || n.node_type
                    == InstantiatedNodeType::RootJob
            };
        proof {
            lemma_source_pair_agrees(
                self.wiring.edges(),
                stream_node_id,
                self.nodes@,
                through_view(of_kind(InstantiatedNodeType::Outlet)),
                through_view(job_or_root()),
                self@.nodes,
                of_kind(InstantiatedNodeType::Outlet),
                job_or_root(),
            );
        }
        find_source(
            &self.wiring,
            &self.nodes,
            stream_node_id,
            &outlet_test,
            Ghost(through_view(of_kind(InstantiatedNodeType::Outlet))),
            &job_test,
            Ghost(through_view(job_or_root())),
        )
    }

    /// The handles of the inlets that the stream `stream_node_id` feeds, each
    /// with every job or root job behind it.
    pub fn stream_target_ids(&self, stream_node_id: u32) -> (r: Vec<(u32, u32)>)
        requires
            self.wf(),
        ensures
            r@ == self@.stream_targets(stream_node_id),
            pairs_below(r@, self@.nodes.len()),
    {
        let inlet_test = |n: &InstantiatedGraphNode| -> (b: bool)
            ensures
                b == (n@.node_type == InstantiatedNodeType::Inlet),
            { n.node_type == InstantiatedNodeType::Inlet };
        let job_test = |n: &InstantiatedGraphNode| -> (b: bool)
            ensures
                b == (n@.node_type == InstantiatedNodeType::Job || n@.node_type
                    == InstantiatedNodeType::RootJob),
            {
                n.node_type == InstantiatedNodeType::Job || n.node_type
                    == InstantiatedNodeType::RootJob
            };
        proof {
            lemma_target_pairs_agrees(
                self.wiring.edges(),
                stream_node_id,
                self.nodes@,
                through_view(of_kind(InstantiatedNodeType::Inlet)),
                through_view(job_or_root()),
                self@.nodes,
                of_kind(InstantiatedNodeType::Inlet),
                job_or_root(),
            );
        }
        find_targets(
            &self.wiring,
            &self.nodes,
            stream_node_id,
            &inlet_test,
            Ghost(through_view(of_kind(InstantiatedNodeType::Inlet))),
            &job_test,
            Ghost(through_view(job_or_root())),
        )
    }

    /// The job or root job that feeds the stream `stream_node_id`, and the
    /// outlet between the two: the first outlet that leads to the stream, and
    /// the first job that leads to that outlet.
    pub fn get_source_spec_node_connected_to_stream(&self, stream_node_id: u32) -> (r: Option<
        InstantiatedStreamConnectionSource,
    >)
        requires
            self.wf(),
        ensures
            self@.is_source_of(r, stream_node_id),
    {
        match self.stream_source_ids(stream_node_id) {
            Some((origin, outlet)) => Some(
                InstantiatedStreamConnectionSource {
                    origin: self.nodes[origin as usize].clone(),
                    outlet_node: self.nodes[outlet as usize].clone(),
                },
            ),
            None => None,
        }
    }

    /// The inlets that the stream `stream_node_id` feeds, each with every job
    /// or root job behind it.
    pub fn get_target_spec_nodes_connected_to_stream(&self, stream_node_id: u32) -> (r: Vec<
        InstantiatedStreamConnectionTarget,
    >)
        requires
            self.wf(),
        ensures
            self@.are_targets_of(r@, stream_node_id),
    {
        let pairs = self.stream_target_ids(stream_node_id);
        let mut out: Vec<InstantiatedStreamConnectionTarget> = Vec::new();
        let mut k: usize = 0;
        while k < pairs.len()
            invariant
                k <= pairs.len(),
                self.wf(),
                pairs_below(pairs@, self@.nodes.len()),
                out@.len() == k,
                forall|m: int|
                    0 <= m < k ==> (#[trigger] out@[m]).inlet_node@ == self@.nodes[pairs@[m].0 as int]
                        && out@[m].destination@ == self@.nodes[pairs@[m].1 as int],
            decreases pairs.len() - k,
        {
            let (inlet, job) = pairs[k];
            assert(pairs@[k as int].0 < self@.nodes.len() && pairs@[k as int].1
                < self@.nodes.len());
            out.push(
                InstantiatedStreamConnectionTarget {
                    inlet_node: self.nodes[inlet as usize].clone(),
                    destination: self.nodes[job as usize].clone(),
                },
            );
            k += 1;
        }
        out
    }

    /// The source of the stream `stream_node_id`, if it has one, and all its
    /// targets.
    pub fn get_nodes_connected_to_stream(&self, stream_node_id: u32) -> (r:
        InstantiatedStreamConnections)
        requires
            self.wf(),
        ensures
            self@.is_source_of(r.source, stream_node_id),
            self@.are_targets_of(r.targets@, stream_node_id),
    {
        let source = self.get_source_spec_node_connected_to_stream(stream_node_id);
        let targets = self.get_target_spec_nodes_connected_to_stream(stream_node_id);
        InstantiatedStreamConnections { source, targets }
    }

    /// Whether some target of a stream is the inlet `tag` of the job `job_id`.
    fn feeds_any(&self, targets: &Vec<(u32, u32)>, job_id: &str, tag: &str) -> (r: bool)
        requires
            self.wf(),
            pairs_below(targets@, self@.nodes.len()),
        ensures
            r == exists|k: int|
                0 <= k < targets@.len() && self@.feeds(#[trigger] targets@[k], job_id@, tag@),
    {
        let mut k: usize = 0;
        while k < targets.len()
            invariant
                k <= targets.len(),
                self.wf(),
                pairs_below(targets@, self@.nodes.len()),
                forall|m: int| 0 <= m < k ==> !self@.feeds(#[trigger] targets@[m], job_id@, tag@),
            decreases targets.len() - k,
        {
            let (inlet, job) = targets[k];
            assert(targets@[k as int].0 < self@.nodes.len() && targets@[k as int].1
                < self@.nodes.len());
            if opt_text_is(&self.nodes[job as usize].job_id, job_id) && opt_text_is(
                &self.nodes[inlet as usize].tag,
                tag,
            ) {
                return true;
            }
            k += 1;
        }
        false
    }

    /// The first stream, in the order of the handles, that joins a job at
    /// the port `tag`. For the direction `out` this is the stream that the
    /// root job feeds through its outlet `tag`, whatever `job_id` is; for
    /// `in`, a stream that feeds the inlet `tag` of the job `job_id`. Any
    /// other direction finds nothing.
    pub fn find_stream_node_id_connected_to_job(&self, job_id: &str, direction: &str, tag: &str) -> (r:
        Option<u32>)
        requires
            self.wf(),
        ensures
            match r {
                Some(i) => i < self@.nodes.len() && self@.joins(i, job_id@, direction@, tag@)
                    && forall|j: u32| j < i ==> !#[trigger] self@.joins(j, job_id@, direction@, tag@),
                None => forall|j: u32|
                    j < self@.nodes.len() ==> !#[trigger] self@.joins(
                        j,
                        job_id@,
                        direction@,
                        tag@,
                    ),
            },
    {
        let outward = same_text(direction, "out");
        let inward = same_text(direction, "in");
        let total = self.nodes.len() as u32;
        let mut i: u32 = 0;
        while i < total
            invariant
                i <= total,
                total == self@.nodes.len(),
                self.wf(),
                outward == (direction@ == "out"@),
                inward == (direction@ == "in"@),
                forall|j: u32| j < i ==> !#[trigger] self@.joins(j, job_id@, direction@, tag@),
            decreases total - i,
        {
            if self.nodes[i as usize].node_type == InstantiatedNodeType::Stream {
                if outward {
                    match self.stream_source_ids(i) {
                        Some((origin, outlet)) => {
                            if self.nodes[origin as usize].node_type
                                == InstantiatedNodeType::RootJob && opt_text_is(
                                &self.nodes[outlet as usize].tag,
                                tag,
                            ) {
                                return Some(i);
                            }
                        },
                        None => {},
                    }
                } else if inward {
                    let targets = self.stream_target_ids(i);
                    if self.feeds_any(&targets, job_id, tag) {
                        return Some(i);
                    }
                }
            }
            i += 1;
        }
        None
    }
}

} // verus!
