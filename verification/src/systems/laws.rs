//! What holds of the graphs whatever they hold, stated over their
//! mathematical models and proved from the definitions.

use crate::systems::def_graph::NodeType;
use crate::systems::def_graph_model::alias_named;
use crate::systems::def_graph_model::DefGraphNodeView;
use crate::systems::def_graph_model::DefGraphPartsView;
use crate::systems::def_graph_model::DefGraphView;
use crate::systems::def_graph_model::inlet_memo_key;
use crate::systems::def_graph_model::kind_fits;
use crate::systems::def_graph_model::lemma_key_kind;
use crate::systems::def_graph_model::node_key;
use crate::systems::def_graph_model::of_kind;
use crate::systems::def_graph_model::outlet_memo_key;
use crate::systems::def_graph_model::port_tagged;
use crate::systems::def_graph_model::root_named;
use crate::systems::def_graph_model::spec_named;
use crate::systems::def_graph_utils::FromSpecAndTagView;
use crate::systems::def_graph_utils::SpecTagInfoView;
use crate::systems::def_graph_utils::spec_identifier;
use crate::systems::def_graph_utils::stream_identifier;
use crate::systems::def_graph_utils::ToSpecAndTagView;
use crate::systems::error::GraphError;
use crate::systems::instantiated_graph::instantiate;
use crate::systems::instantiated_graph::Settings;
use crate::systems::instantiated_graph::translatable;
use crate::systems::instantiated_graph::translate_edges;
use crate::systems::instantiated_graph::translate_nodes;
use crate::systems::instantiated_graph::Translation;
use crate::systems::select::chosen;
use crate::systems::select::lemma_chosen_agrees;
use crate::systems::select::lemma_chosen_head;
use crate::systems::select::lemma_chosen_members;
use crate::systems::select::lemma_first_match_agrees;
use crate::systems::select::lemma_first_match_head;
use crate::systems::select::lemma_first_match_is_candidate;
use crate::systems::select::lemma_first_match_prefix;
use crate::systems::select::numbers_below;
use crate::systems::topology::lemma_neighbors_push;
use crate::systems::topology::lemma_neighbors_within;
use crate::systems::topology::lemma_no_neighbors_outside;
use crate::systems::topology::lemma_targets_are_edges;
use petgraph::Direction;
use vstd::prelude::*;

verus! {

/// Asking twice for a node under one key gives one handle and changes
/// nothing the second time, even with another payload. The payload under
/// the key is the one that was there first: the first request's, unless the
/// graph held the key before.
pub proof fn law_first_payload_stays(
    g: DefGraphView,
    id: Seq<char>,
    first: DefGraphNodeView,
    second: DefGraphNodeView,
)
    requires
        g.wf(),
        g.nodes.len() < u32::MAX,
        first.node_type == second.node_type,
    ensures
        g.ensure_node(id, first).0.ensure_node(id, second) == g.ensure_node(id, first),
        g.ensure_node(id, first).0.wf(),
        g.ensure_node(id, first).1 < g.ensure_node(id, first).0.nodes.len(),
        g.ensure_node(id, first).0.nodes[g.ensure_node(id, first).1 as int] == if g.index.contains_key(
            node_key(first.node_type, id),
        ) {
            g.nodes[g.index[node_key(first.node_type, id)] as int]
        } else {
            first
        },
{
    lemma_key_kind(first.node_type, id);
}

/// Asking twice for an edge gives the graph that asking once gives, and that
/// graph holds the edge at exactly one place.
pub proof fn law_one_edge(g: DefGraphView, from: u32, to: u32)
    requires
        g.wf(),
        from < g.nodes.len(),
        to < g.nodes.len(),
    ensures
        g.ensure_edge(from, to).ensure_edge(from, to) == g.ensure_edge(from, to),
        exists|i: int|
            0 <= i < g.ensure_edge(from, to).edges.len() && g.ensure_edge(from, to).edges[i] == (
                from,
                to,
            ) && forall|j: int|
                0 <= j < g.ensure_edge(from, to).edges.len() && g.ensure_edge(from, to).edges[j]
                    == (from, to) ==> j == i,
{
    let edges = g.ensure_edge(from, to).edges;
    if g.edges.contains((from, to)) {
        let i = choose|i: int| 0 <= i < g.edges.len() && g.edges[i] == (from, to);
        assert(edges[i] == (from, to));
    } else {
        let i = g.edges.len() as int;
        assert(edges[i] == (from, to));
        assert(edges.contains((from, to)));
        assert forall|j: int| 0 <= j < edges.len() && edges[j] == (from, to) implies j == i by {
            if j < i {
                assert(g.edges[j] == (from, to));
            }
        }
    }
}

/// The handles below `n + 1` are those below `n` and then `n`.
proof fn lemma_numbers_push(n: nat)
    ensures
        numbers_below(n + 1) == numbers_below(n) + seq![n as u32],
{
    assert(numbers_below(n + 1) =~= numbers_below(n) + seq![n as u32]);
}

/// A node that is found in a graph is found in the graph with one more node.
proof fn lemma_find_survives(
    g: DefGraphView,
    data: DefGraphNodeView,
    q: spec_fn(DefGraphNodeView) -> bool,
)
    requires
        g.find(q) is Some,
    ensures
        g.add_node(data).find(q) == g.find(q),
        g.find(q)->0 < g.nodes.len(),
        q(g.nodes[g.find(q)->0 as int]),
{
    let n = g.nodes.len();
    let cands = numbers_below(n);
    lemma_numbers_push(n);
    lemma_first_match_is_candidate(cands, g.nodes, q);
    lemma_first_match_agrees(cands, g.nodes, q, g.nodes.push(data), q);
    lemma_first_match_prefix(cands, seq![n as u32], g.nodes.push(data), q);
}

/// After a port of a spec was given a new alias for the direction `in`, the
/// alias is found from the port.
///
/// The alias must be new at the root: where the graph keeps a node under the
/// alias's key already, what is found depends on that node and on the edges
/// that were drawn since.
pub proof fn law_alias_found_from_port(
    g: DefGraphView,
    alias: Seq<char>,
    spec_name: Seq<char>,
    root_spec_name: Seq<char>,
    unique_spec_label: Option<Seq<char>>,
    tag: Seq<char>,
)
    requires
        g.wf(),
        g.nodes.len() < u32::MAX,
        g.assign_alias(alias, spec_name, root_spec_name, unique_spec_label, "in"@, tag) is Ok,
        !g.index.contains_key(node_key(NodeType::Alias, root_spec_name + "/"@ + alias)),
    ensures
        g.assign_alias(
            alias,
            spec_name,
            root_spec_name,
            unique_spec_label,
            "in"@,
            tag,
        )->Ok_0.lookup_root_spec_alias(spec_name, unique_spec_label, tag, "in"@) == Some(alias),
{
    let after = g.assign_alias(alias, spec_name, root_spec_name, unique_spec_label, "in"@, tag)->Ok_0;
    let data = DefGraphNodeView::alias(alias, "in"@, root_spec_name + "/"@ + alias);
    let n = g.nodes.len() as u32;
    let spec = g.find(spec_named(spec_name, unique_spec_label))->0;
    let root = g.find(root_named(root_spec_name))->0;
    let inlet = g.first_source(spec, port_tagged(NodeType::Inlet, tag))->0;
    lemma_alias_wiring(g, alias, spec_name, root_spec_name, unique_spec_label, tag);
    // The spec is found as before.
    lemma_find_survives(g, data, spec_named(spec_name, unique_spec_label));
    assert(after.nodes == g.add_node(data).nodes);
    assert(after.find(spec_named(spec_name, unique_spec_label)) == Some(spec));
    // So is its inlet: the two new edges do not end at the spec.
    lemma_neighbors_within(g.edges, g.nodes.len(), spec, Direction::Incoming);
    lemma_first_match_agrees(
        g.sources(spec),
        g.nodes,
        port_tagged(NodeType::Inlet, tag),
        after.nodes,
        port_tagged(NodeType::Inlet, tag),
    );
    assert(after.first_source(spec, port_tagged(NodeType::Inlet, tag)) == Some(inlet));
    // The alias is the newest neighbour of the inlet.
    lemma_first_match_head(n, g.targets(inlet), after.nodes, of_kind(NodeType::Alias));
}

/// What giving a port a new alias for the direction `in` does to the graph:
/// one node and two edges more, and the neighbours that follow from that.
proof fn lemma_alias_wiring(
    g: DefGraphView,
    alias: Seq<char>,
    spec_name: Seq<char>,
    root_spec_name: Seq<char>,
    unique_spec_label: Option<Seq<char>>,
    tag: Seq<char>,
)
    requires
        g.wf(),
        g.nodes.len() < u32::MAX,
        g.assign_alias(alias, spec_name, root_spec_name, unique_spec_label, "in"@, tag) is Ok,
        !g.index.contains_key(node_key(NodeType::Alias, root_spec_name + "/"@ + alias)),
    ensures
        ({
            let after = g.assign_alias(
                alias,
                spec_name,
                root_spec_name,
                unique_spec_label,
                "in"@,
                tag,
            )->Ok_0;
            let n = g.nodes.len() as u32;
            let spec = g.find(spec_named(spec_name, unique_spec_label))->0;
            let root = g.find(root_named(root_spec_name))->0;
            let inlet = g.first_source(spec, port_tagged(NodeType::Inlet, tag))->0;
            &&& spec < g.nodes.len() && root < g.nodes.len() && inlet < g.nodes.len()
            &&& g.nodes[spec as int].node_type == NodeType::Spec
            &&& g.nodes[spec as int].spec_name == Some(spec_name)
            &&& g.nodes[spec as int].unique_spec_label == unique_spec_label
            &&& g.nodes[root as int].node_type == NodeType::RootSpec
            &&& g.nodes[inlet as int].node_type == NodeType::Inlet
            &&& g.nodes[inlet as int].tag == Some(tag)
            &&& after.nodes == g.nodes.push(
                DefGraphNodeView::alias(alias, "in"@, root_spec_name + "/"@ + alias),
            )
            &&& after.edges == g.edges.push((inlet, n)).push((n, root))
            &&& after.sources(spec) == g.sources(spec)
            &&& after.targets(inlet) == seq![n] + g.targets(inlet)
            &&& after.sources(root) == seq![n] + g.sources(root)
            &&& after.sources(n) == seq![inlet]
        }),
{
    let after = g.assign_alias(alias, spec_name, root_spec_name, unique_spec_label, "in"@, tag)->Ok_0;
    let n = g.nodes.len() as u32;
    let spec = g.find(spec_named(spec_name, unique_spec_label))->0;
    let root = g.find(root_named(root_spec_name))->0;
    let inlet = g.first_source(spec, port_tagged(NodeType::Inlet, tag))->0;
    lemma_first_match_is_candidate(
        numbers_below(g.nodes.len()),
        g.nodes,
        spec_named(spec_name, unique_spec_label),
    );
    lemma_first_match_is_candidate(numbers_below(g.nodes.len()), g.nodes, root_named(root_spec_name));
    lemma_neighbors_within(g.edges, g.nodes.len(), spec, Direction::Incoming);
    lemma_first_match_is_candidate(g.sources(spec), g.nodes, port_tagged(NodeType::Inlet, tag));
    assert(spec < g.nodes.len()) by {
        let k = choose|k: int|
            0 <= k < numbers_below(g.nodes.len()).len() && numbers_below(g.nodes.len())[k] == spec;
    }
    assert(root < g.nodes.len()) by {
        let k = choose|k: int|
            0 <= k < numbers_below(g.nodes.len()).len() && numbers_below(g.nodes.len())[k] == root;
    }
    assert(inlet < g.nodes.len()) by {
        let k = choose|k: int| 0 <= k < g.sources(spec).len() && g.sources(spec)[k] == inlet;
    }
    let first = (inlet, n);
    let second = (n, root);
    assert(!g.edges.contains(first)) by {
        if g.edges.contains(first) {
            let k = choose|k: int| 0 <= k < g.edges.len() && g.edges[k] == first;
            assert(g.edges[k].1 < g.nodes.len());
        }
    }
    let once = g.edges.push(first);
    assert(!once.contains(second)) by {
        if once.contains(second) {
            let k = choose|k: int| 0 <= k < once.len() && once[k] == second;
            if k < g.edges.len() {
                assert(g.edges[k].0 < g.nodes.len());
            }
        }
    }
    assert(after.edges == once.push(second));
    lemma_neighbors_push(g.edges, first, spec, Direction::Incoming);
    lemma_neighbors_push(once, second, spec, Direction::Incoming);
    lemma_neighbors_push(g.edges, first, inlet, Direction::Outgoing);
    lemma_neighbors_push(once, second, inlet, Direction::Outgoing);
    lemma_neighbors_push(g.edges, first, root, Direction::Incoming);
    lemma_neighbors_push(once, second, root, Direction::Incoming);
    lemma_neighbors_push(g.edges, first, n, Direction::Incoming);
    lemma_neighbors_push(once, second, n, Direction::Incoming);
    lemma_no_neighbors_outside(g.edges, g.nodes.len(), n, Direction::Incoming);
    assert(seq![inlet] + Seq::<u32>::empty() =~= seq![inlet]);
}

/// After a port of a spec was given a new alias for the direction `in`, the
/// spec and the tag are found from the alias.
///
/// The alias must be new at the root, as for `law_alias_found_from_port`.
/// The root spec that was named must be the first root spec of the graph,
/// since the search starts there, and the spec must be the first spec that
/// the inlet leads to, since the search ends there.
pub proof fn law_port_found_from_alias(
    g: DefGraphView,
    alias: Seq<char>,
    spec_name: Seq<char>,
    root_spec_name: Seq<char>,
    unique_spec_label: Option<Seq<char>>,
    tag: Seq<char>,
)
    requires
        g.wf(),
        g.nodes.len() < u32::MAX,
        g.assign_alias(alias, spec_name, root_spec_name, unique_spec_label, "in"@, tag) is Ok,
        !g.index.contains_key(node_key(NodeType::Alias, root_spec_name + "/"@ + alias)),
        g.find(of_kind(NodeType::RootSpec)) == g.find(root_named(root_spec_name)),
        g.first_target(
            g.first_source(
                g.find(spec_named(spec_name, unique_spec_label))->0,
                port_tagged(NodeType::Inlet, tag),
            )->0,
            of_kind(NodeType::Spec),
        ) == g.find(spec_named(spec_name, unique_spec_label)),
    ensures
        g.assign_alias(
            alias,
            spec_name,
            root_spec_name,
            unique_spec_label,
            "in"@,
            tag,
        )->Ok_0.lookup_spec_and_tag_by_alias(alias, "in"@) == Some(
            SpecTagInfoView { spec_name, tag, unique_spec_label },
        ),
{
    let after = g.assign_alias(alias, spec_name, root_spec_name, unique_spec_label, "in"@, tag)->Ok_0;
    let data = DefGraphNodeView::alias(alias, "in"@, root_spec_name + "/"@ + alias);
    let n = g.nodes.len() as u32;
    let spec = g.find(spec_named(spec_name, unique_spec_label))->0;
    let root = g.find(root_named(root_spec_name))->0;
    let inlet = g.first_source(spec, port_tagged(NodeType::Inlet, tag))->0;
    lemma_alias_wiring(g, alias, spec_name, root_spec_name, unique_spec_label, tag);
    // The first root spec is the one that was named.
    lemma_find_survives(g, data, of_kind(NodeType::RootSpec));
    assert(after.nodes == g.add_node(data).nodes);
    assert(after.find(of_kind(NodeType::RootSpec)) == Some(root));
    // The alias is the newest neighbour of the root, and the inlet the one
    // neighbour of the alias.
    lemma_first_match_head(n, g.sources(root), after.nodes, alias_named(alias));
    assert(after.first_source(root, alias_named(alias)) == Some(n));
    lemma_first_match_head(inlet, Seq::<u32>::empty(), after.nodes, of_kind(NodeType::Inlet));
    assert(seq![inlet] + Seq::<u32>::empty() =~= seq![inlet]);
    assert(after.first_source(n, of_kind(NodeType::Inlet)) == Some(inlet));
    // From the inlet the search passes the alias and finds the spec.
    lemma_first_match_head(n, g.targets(inlet), after.nodes, of_kind(NodeType::Spec));
    lemma_neighbors_within(g.edges, g.nodes.len(), inlet, Direction::Outgoing);
    lemma_first_match_agrees(
        g.targets(inlet),
        g.nodes,
        of_kind(NodeType::Spec),
        after.nodes,
        of_kind(NodeType::Spec),
    );
    assert(after.first_target(inlet, of_kind(NodeType::Spec)) == Some(spec));
}

/// What asking for a node leaves as it was, and what it adds.
proof fn lemma_ensure_node_effect(g: DefGraphView, id: Seq<char>, data: DefGraphNodeView)
    requires
        g.wf(),
        g.nodes.len() < u32::MAX,
    ensures
        ({
            let (after, h) = g.ensure_node(id, data);
            let key = node_key(data.node_type, id);
            &&& after.wf()
            &&& h < after.nodes.len()
            &&& after.nodes[h as int].node_type == data.node_type
            &&& after.edges == g.edges
            &&& after.memo == g.memo
            &&& g.nodes.len() <= after.nodes.len() <= g.nodes.len() + 1
            &&& forall|i: int| 0 <= i < g.nodes.len() ==> after.nodes[i] == g.nodes[i]
            &&& forall|k: Seq<char>|
                g.index.contains_key(k) ==> after.index.contains_key(k) && after.index[k]
                    == g.index[k]
            &&& forall|k: Seq<char>|
                after.index.contains_key(k) ==> g.index.contains_key(k) || k == key
            &&& after.index.contains_key(key)
            &&& after.index[key] == h
            &&& h < g.nodes.len() <==> g.index.contains_key(key)
        }),
{
    lemma_key_kind(data.node_type, id);
}

/// The stream definitions that the node `o` leads to, newest edge first.
spec fn streams_at(g: DefGraphView, o: u32) -> Seq<u32> {
    chosen(g.targets(o), g.nodes, of_kind(NodeType::StreamDef))
}

/// A node that the graph does not hold leads to no stream definition.
proof fn lemma_streams_outside(g: DefGraphView, o: u32)
    requires
        g.wf(),
        o >= g.nodes.len(),
    ensures
        streams_at(g, o) == Seq::<u32>::empty(),
{
    lemma_no_neighbors_outside(g.edges, g.nodes.len(), o, Direction::Outgoing);
}

/// Asking for a node does not change the stream definitions that another
/// node leads to.
proof fn lemma_streams_after_node(g: DefGraphView, id: Seq<char>, data: DefGraphNodeView, o: u32)
    requires
        g.wf(),
        g.nodes.len() < u32::MAX,
    ensures
        streams_at(g.ensure_node(id, data).0, o) == streams_at(g, o),
{
    let after = g.ensure_node(id, data).0;
    lemma_ensure_node_effect(g, id, data);
    lemma_neighbors_within(g.edges, g.nodes.len(), o, Direction::Outgoing);
    lemma_chosen_agrees(
        g.targets(o),
        g.nodes,
        of_kind(NodeType::StreamDef),
        after.nodes,
        of_kind(NodeType::StreamDef),
    );
}

/// An edge that starts elsewhere does not change the stream definitions that
/// a node leads to, and the graph stays valid.
proof fn lemma_streams_after_other_edge(g: DefGraphView, a: u32, b: u32, o: u32)
    requires
        g.wf(),
        a < g.nodes.len(),
        b < g.nodes.len(),
        g.edges.len() < u32::MAX,
        a != o,
    ensures
        g.ensure_edge(a, b).wf(),
        streams_at(g.ensure_edge(a, b), o) == streams_at(g, o),
        g.ensure_edge(a, b).edges.len() <= g.edges.len() + 1,
{
    lemma_edge_keeps_validity(g, a, b);
    if !g.edges.contains((a, b)) {
        lemma_neighbors_push(g.edges, (a, b), o, Direction::Outgoing);
    }
}

/// Asking for an edge between two nodes keeps the graph valid.
proof fn lemma_edge_keeps_validity(g: DefGraphView, a: u32, b: u32)
    requires
        g.wf(),
        a < g.nodes.len(),
        b < g.nodes.len(),
        g.edges.len() < u32::MAX,
    ensures
        g.ensure_edge(a, b).wf(),
        g.ensure_edge(a, b).edges.len() <= g.edges.len() + 1,
{
    let after = g.ensure_edge(a, b).edges;
    if !g.edges.contains((a, b)) {
        assert forall|i: int, j: int|
            0 <= i < after.len() && 0 <= j < after.len() && i != j implies after[i]
            != after[j] by {
            if i < g.edges.len() {
                assert(g.edges.contains(g.edges[i]));
            }
            if j < g.edges.len() {
                assert(g.edges.contains(g.edges[j]));
            }
        }
    }
}

/// A new edge from a node to a stream definition puts that stream
/// definition before the others that the node leads to.
proof fn lemma_streams_after_own_edge(g: DefGraphView, o: u32, b: u32)
    requires
        g.wf(),
        o < g.nodes.len(),
        b < g.nodes.len(),
        g.edges.len() < u32::MAX,
        !g.edges.contains((o, b)),
        g.nodes[b as int].node_type == NodeType::StreamDef,
    ensures
        g.ensure_edge(o, b).wf(),
        streams_at(g.ensure_edge(o, b), o) == seq![b] + streams_at(g, o),
        g.ensure_edge(o, b).edges.len() <= g.edges.len() + 1,
{
    lemma_edge_keeps_validity(g, o, b);
    lemma_neighbors_push(g.edges, (o, b), o, Direction::Outgoing);
    lemma_chosen_head(b, g.targets(o), g.nodes, of_kind(NodeType::StreamDef));
}

/// The key under which the outlet of the producing side of a connection is
/// kept.
pub open spec fn outlet_key_of(from: FromSpecAndTagView) -> Seq<char> {
    node_key(
        NodeType::Outlet,
        spec_identifier(from.spec_name, from.unique_spec_label) + "/"@ + from.output,
    )
}

/// After a connection was made, the outlet of its producing side leads to
/// one stream definition, the one of the connection.
pub proof fn lemma_connection_leaves_one_stream(
    g: DefGraphView,
    from: FromSpecAndTagView,
    to: ToSpecAndTagView,
)
    requires
        g.wf(),
        g.nodes.len() + 5 <= u32::MAX,
        g.edges.len() + 4 <= u32::MAX,
        g.connect(from, to) is Ok,
    ensures
        ({
            let (after, made) = g.connect(from, to)->Ok_0;
            &&& after.wf()
            &&& after.nodes.len() <= g.nodes.len() + 5
            &&& after.edges.len() <= g.edges.len() + 4
            &&& after.index.contains_key(outlet_key_of(from))
            &&& after.index[outlet_key_of(from)] == made.3
            &&& after.streams_of_outlet(outlet_key_of(from)) == seq![made.2]
            &&& made.2 < after.nodes.len()
        }),
{
    let from_id = spec_identifier(from.spec_name, from.unique_spec_label);
    let to_id = spec_identifier(to.spec_name, to.unique_spec_label);
    let key = outlet_key_of(from);
    let existing = g.streams_of_outlet(key);
    let spec_data = DefGraphNodeView::spec(from.spec_name, from.unique_spec_label, from_id);
    let outlet_data = DefGraphNodeView::outlet(from.output, from_id + "/"@ + from.output);
    let (g1, from_spec) = g.ensure_node(from_id, spec_data);
    let (g2, from_outlet) = g1.ensure_node(from_id + "/"@ + from.output, outlet_data);
    lemma_ensure_node_effect(g, from_id, spec_data);
    lemma_ensure_node_effect(g1, from_id + "/"@ + from.output, outlet_data);
    lemma_key_kind(NodeType::Spec, from_id);
    lemma_key_kind(NodeType::Outlet, from_id + "/"@ + from.output);
    // The outlet leads to the same stream definitions as before.
    assert(streams_at(g2, from_outlet) == existing) by {
        if g.index.contains_key(key) {
            assert(g1.index.contains_key(key) && g1.index[key] == g.index[key]);
            assert(from_outlet == g.index[key]);
            lemma_streams_after_node(g, from_id, spec_data, from_outlet);
            lemma_streams_after_node(g1, from_id + "/"@ + from.output, outlet_data, from_outlet);
        } else {
            assert(!g1.index.contains_key(key));
            assert(from_outlet >= g1.nodes.len());
            lemma_streams_outside(g1, from_outlet);
            lemma_streams_after_node(g1, from_id + "/"@ + from.output, outlet_data, from_outlet);
        }
    }
    assert(g2.nodes[from_spec as int].node_type == NodeType::Spec);
    assert(g2.nodes[from_outlet as int].node_type == NodeType::Outlet);
    let id = if existing.len() == 1 {
        g.nodes[existing[0] as int].stream_def_id->0
    } else {
        stream_identifier(Some(from.port()), Some(to.port()))
    };
    let stream_data = DefGraphNodeView::stream(id);
    let (g3, stream) = if existing.len() == 1 {
        (g2, existing[0])
    } else {
        let (made, s) = g2.ensure_node(id, stream_data);
        (made.ensure_edge(from_spec, from_outlet).ensure_edge(from_outlet, s), s)
    };
    assert(g3.wf() && g3.nodes.len() <= g.nodes.len() + 3 && g3.edges.len() <= g.edges.len() + 2
        && stream < g3.nodes.len() && g3.nodes[stream as int].node_type == NodeType::StreamDef
        && streams_at(g3, from_outlet) == seq![stream] && g3.index.contains_key(key)
        && g3.index[key] == from_outlet
        && g3.nodes[from_outlet as int].node_type == NodeType::Outlet && from_outlet
        < g3.nodes.len()) by {
        if existing.len() == 1 {
            assert(existing =~= seq![existing[0]]);
            assert(existing.contains(existing[0]));
            lemma_chosen_members(
                g2.targets(from_outlet),
                g2.nodes,
                of_kind(NodeType::StreamDef),
                existing[0],
            );
            lemma_neighbors_within(g2.edges, g2.nodes.len(), from_outlet, Direction::Outgoing);
            let at = choose|at: int|
                0 <= at < g2.targets(from_outlet).len() && g2.targets(from_outlet)[at]
                    == existing[0];
            assert(existing[0] < g2.nodes.len());
            // The stream definition was there before the two nodes were asked for.
            assert(g.index.contains_key(key));
            lemma_chosen_members(
                g.targets(g.index[key]),
                g.nodes,
                of_kind(NodeType::StreamDef),
                existing[0],
            );
            lemma_neighbors_within(g.edges, g.nodes.len(), g.index[key], Direction::Outgoing);
            let was = choose|was: int|
                0 <= was < g.targets(g.index[key]).len() && g.targets(g.index[key])[was]
                    == existing[0];
            assert(existing[0] < g.nodes.len());
            assert(g2.nodes[existing[0] as int] == g.nodes[existing[0] as int]);
        } else {
            let (made, s) = g2.ensure_node(id, stream_data);
            lemma_ensure_node_effect(g2, id, stream_data);
            lemma_key_kind(NodeType::StreamDef, id);
            lemma_streams_after_node(g2, id, stream_data, from_outlet);
            assert(made.nodes[from_spec as int].node_type == NodeType::Spec);
            assert(made.nodes[from_outlet as int].node_type == NodeType::Outlet);
            assert(made.nodes[s as int].node_type == NodeType::StreamDef);
            lemma_streams_after_other_edge(made, from_spec, from_outlet, from_outlet);
            let wired = made.ensure_edge(from_spec, from_outlet);
            assert(existing =~= Seq::<u32>::empty());
            // The outlet did not lead to the stream definition yet.
            assert(!wired.edges.contains((from_outlet, s))) by {
                if wired.edges.contains((from_outlet, s)) {
                    lemma_targets_are_edges(wired.edges, from_outlet, s);
                    lemma_chosen_members(
                        wired.targets(from_outlet),
                        wired.nodes,
                        of_kind(NodeType::StreamDef),
                        s,
                    );
                    assert(streams_at(wired, from_outlet).contains(s));
                }
            }
            lemma_streams_after_own_edge(wired, from_outlet, s);
            assert(seq![s] + Seq::<u32>::empty() =~= seq![s]);
        }
    }
    let inlet_data = DefGraphNodeView::inlet(to.input, to.has_transform, to_id + "/"@ + to.input);
    let to_spec_data = DefGraphNodeView::spec(to.spec_name, to.unique_spec_label, to_id);
    let (g4, to_inlet) = g3.ensure_node(to_id + "/"@ + to.input, inlet_data);
    lemma_ensure_node_effect(g3, to_id + "/"@ + to.input, inlet_data);
    lemma_streams_after_node(g3, to_id + "/"@ + to.input, inlet_data, from_outlet);
    let (g5, to_spec) = g4.ensure_node(to_id, to_spec_data);
    lemma_ensure_node_effect(g4, to_id, to_spec_data);
    lemma_streams_after_node(g4, to_id, to_spec_data, from_outlet);
    assert(g5.nodes[stream as int].node_type == NodeType::StreamDef);
    assert(g5.nodes[to_inlet as int].node_type == NodeType::Inlet);
    assert(g5.nodes[from_outlet as int].node_type == NodeType::Outlet);
    lemma_streams_after_other_edge(g5, stream, to_inlet, from_outlet);
    let g6 = g5.ensure_edge(stream, to_inlet);
    lemma_streams_after_other_edge(g6, to_inlet, to_spec, from_outlet);
    let g7 = g6.ensure_edge(to_inlet, to_spec);
    let after = g7.remember(inlet_memo_key(to.spec_name, to.input), id).remember(
        outlet_memo_key(from.spec_name, from.output),
        id,
    );
    assert(after == g.connect(from, to)->Ok_0.0);
    assert(streams_at(after, from_outlet) == streams_at(g7, from_outlet));
}

/// Two connections from one outlet go through one stream definition: the
/// second connection gives the outlet and the stream of the first.
///
/// The second connection is made unless the stream definition carries no
/// identifier, which can be so where the first connection found it in the
/// graph under the key of the stream that it was about to make.
pub proof fn law_one_stream_per_outlet(
    g: DefGraphView,
    from: FromSpecAndTagView,
    first: ToSpecAndTagView,
    second: ToSpecAndTagView,
)
    requires
        g.wf(),
        g.nodes.len() + 10 <= u32::MAX,
        g.edges.len() + 8 <= u32::MAX,
        g.connect(from, first) is Ok,
    ensures
        ({
            let (linked, made) = g.connect(from, first)->Ok_0;
            let again = linked.connect(from, second);
            &&& again is Ok <==> linked.nodes[made.2 as int].stream_def_id is Some
            &&& again is Ok ==> again->Ok_0.1.2 == made.2 && again->Ok_0.1.3 == made.3
            &&& again is Err ==> again->Err_0 == GraphError::InternalConsistency
        }),
{
    let (linked, made) = g.connect(from, first)->Ok_0;
    lemma_connection_leaves_one_stream(g, from, first);
    let from_id = spec_identifier(from.spec_name, from.unique_spec_label);
    let spec_data = DefGraphNodeView::spec(from.spec_name, from.unique_spec_label, from_id);
    lemma_ensure_node_effect(linked, from_id, spec_data);
    lemma_key_kind(NodeType::Outlet, from_id + "/"@ + from.output);
}

/// An outlet that leads to more than one stream definition takes no further
/// connection, and the graph refuses it as an ambiguous fan-out.
pub proof fn law_second_stream_refused(
    g: DefGraphView,
    from: FromSpecAndTagView,
    to: ToSpecAndTagView,
)
    requires
        g.streams_of_outlet(outlet_key_of(from)).len() > 1,
    ensures
        g.connect(from, to) == Err::<(DefGraphView, (u32, u32, u32, u32, u32)), GraphError>(
            GraphError::AmbiguousStreamFanout,
        ),
{
}

/// The parts that a graph is taken into make up the graph again: the same
/// number of nodes and of edges, the same payload at every handle, and the
/// same edges.
pub proof fn law_parts_make_the_graph(g: DefGraphView, parts: DefGraphPartsView)
    requires
        g.wf(),
        parts.nodes == g.nodes,
        parts.edges == g.edges,
        crate::systems::str_map::entries_map(parts.node_indices) == g.index,
        crate::systems::str_map::entries_map(parts.stream_ids) == g.memo,
        forall|i: int|
            0 <= i < parts.node_indices.len() ==> g.index.contains_key(
                (#[trigger] parts.node_indices[i]).0,
            ) && g.index[parts.node_indices[i].0] == parts.node_indices[i].1,
    ensures
        parts.consistent(),
        parts.graph() == g,
        parts.graph().nodes.len() == g.nodes.len(),
        parts.graph().edges.len() == g.edges.len(),
        forall|i: int| 0 <= i < g.nodes.len() ==> parts.graph().nodes[i] == g.nodes[i],
        parts.graph().edges.to_set() == g.edges.to_set(),
{
    assert forall|i: int| 0 <= i < parts.node_indices.len() implies (
    #[trigger] parts.node_indices[i]).1 < parts.nodes.len() && kind_fits(
        parts.node_indices[i].0,
        parts.nodes[parts.node_indices[i].1 as int].node_type,
    ) by {
        let key = parts.node_indices[i].0;
        assert(g.index.contains_key(key));
        assert(g.index[key] < g.nodes.len());
    }
}

/// How many of the first `k` nodes of a definition are stream definitions
/// that find their identifier taken and so make no node of their own.
pub open spec fn collapsed(def: DefGraphView, s: Settings, k: nat) -> nat
    decreases k,
{
    if k == 0 {
        0
    } else if translate_nodes(def, s, (k - 1) as nat).collapses(def, (k - 1) as u32, s) {
        collapsed(def, s, (k - 1) as nat) + 1
    } else {
        collapsed(def, s, (k - 1) as nat)
    }
}

/// Every node of the definition becomes a node of its own, but for the
/// stream definitions that find their identifier taken.
pub proof fn lemma_nodes_translated(def: DefGraphView, s: Settings, k: nat)
    ensures
        translate_nodes(def, s, k).nodes.len() + collapsed(def, s, k) == k,
        translate_nodes(def, s, k).places.len() == k,
    decreases k,
{
    if k > 0 {
        lemma_nodes_translated(def, s, (k - 1) as nat);
    }
}

/// An instantiated graph has as many nodes as the definition, less the
/// stream definitions that collapse into a stream made before. Where none
/// collapses, the two graphs have the same number of nodes.
pub proof fn law_node_count_parity(def: DefGraphView, s: Settings)
    requires
        def.wf(),
        translatable(def, s),
    ensures
        instantiate(def, s).nodes.len() + collapsed(def, s, def.nodes.len()) == def.nodes.len(),
        collapsed(def, s, def.nodes.len()) == 0 ==> instantiate(def, s).nodes.len()
            == def.nodes.len(),
{
    lemma_nodes_translated(def, s, def.nodes.len());
}

/// Every edge of the definition is drawn in the instantiated graph, between
/// the nodes that stand for its ends, and no edge is drawn twice or without
/// an edge of the definition behind it.
pub proof fn law_edges_translated(def: DefGraphView, s: Settings)
    ensures
        instantiate(def, s).edges.len() <= def.edges.len(),
        instantiate(def, s).edges.no_duplicates(),
        forall|i: int|
            0 <= i < def.edges.len() ==> instantiate(def, s).edges.contains(
                (
                    translate_nodes(def, s, def.nodes.len()).place(
                        def,
                        (#[trigger] def.edges[i]).0,
                        s,
                    ),
                    translate_nodes(def, s, def.nodes.len()).place(def, def.edges[i].1, s),
                ),
            ),
        forall|j: int|
            0 <= j < instantiate(def, s).edges.len() ==> exists|i: int|
                0 <= i < def.edges.len() && (#[trigger] instantiate(def, s).edges[j]) == (
                    translate_nodes(def, s, def.nodes.len()).place(def, def.edges[i].0, s),
                    translate_nodes(def, s, def.nodes.len()).place(def, def.edges[i].1, s),
                ),
{
    lemma_edges_drawn(translate_nodes(def, s, def.nodes.len()), def, s, def.edges.len());
}

/// What holds of the edges that the first `k` edges of a definition become.
proof fn lemma_edges_drawn(t: Translation, def: DefGraphView, s: Settings, k: nat)
    requires
        k <= def.edges.len(),
    ensures
        translate_edges(t, def, s, k).len() <= k,
        translate_edges(t, def, s, k).no_duplicates(),
        forall|i: int|
            0 <= i < k ==> translate_edges(t, def, s, k).contains(
                (t.place(def, (#[trigger] def.edges[i]).0, s), t.place(def, def.edges[i].1, s)),
            ),
        forall|j: int|
            0 <= j < translate_edges(t, def, s, k).len() ==> exists|i: int|
                0 <= i < k && (#[trigger] translate_edges(t, def, s, k)[j]) == (
                    t.place(def, def.edges[i].0, s),
                    t.place(def, def.edges[i].1, s),
                ),
    decreases k,
{
    if k > 0 {
        let before = translate_edges(t, def, s, (k - 1) as nat);
        let after = translate_edges(t, def, s, k);
        let drawn = (t.place(def, def.edges[k - 1].0, s), t.place(def, def.edges[k - 1].1, s));
        lemma_edges_drawn(t, def, s, (k - 1) as nat);
        assert forall|i: int| 0 <= i < k implies after.contains(
            (t.place(def, (#[trigger] def.edges[i]).0, s), t.place(def, def.edges[i].1, s)),
        ) by {
            let wanted = (t.place(def, def.edges[i].0, s), t.place(def, def.edges[i].1, s));
            if i < k - 1 {
                let at = choose|at: int| 0 <= at < before.len() && before[at] == wanted;
                assert(after[at] == wanted);
            } else if before.contains(drawn) {
            } else {
                assert(after[before.len() as int] == drawn);
            }
        }
        assert forall|j: int| 0 <= j < after.len() implies exists|i: int|
            0 <= i < k && (#[trigger] after[j]) == (
                t.place(def, def.edges[i].0, s),
                t.place(def, def.edges[i].1, s),
            ) by {
            if j < before.len() {
                assert(after[j] == before[j]);
                let i = choose|i: int|
                    0 <= i < k - 1 && before[j] == (
                        t.place(def, def.edges[i].0, s),
                        t.place(def, def.edges[i].1, s),
                    );
                assert(0 <= i < k);
            } else {
                assert(after[j] == drawn);
            }
        }
        if !before.contains(drawn) {
            assert forall|i: int, j: int|
                0 <= i < after.len() && 0 <= j < after.len() && i != j implies after[i]
                != after[j] by {
                if i < before.len() {
                    assert(before.contains(before[i]));
                }
                if j < before.len() {
                    assert(before.contains(before[j]));
                }
            }
        }
    }
}

} // verus!
