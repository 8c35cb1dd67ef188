//! The wiring that both graphs share: numbered nodes and directed edges
//! between them, kept in a `petgraph` graph.
//!
//! The graph itself is opaque to the verifier. What it holds is named by
//! `graph_node_count` and `graph_edges`, and the functions at the head of this
//! file say, without proof, what each `petgraph` call does to the two. All
//! that follows them is proved from those statements.

use petgraph::graph::EdgeIndex;
use petgraph::graph::Graph;
use petgraph::graph::NodeIndex;
use petgraph::visit::EdgeRef;
use petgraph::Directed;
use petgraph::Direction;
use vstd::prelude::*;

verus! {

#[verifier::external_type_specification]
#[verifier::external_body]
#[verifier::reject_recursive_types(N)]
#[verifier::reject_recursive_types(E)]
#[verifier::reject_recursive_types(Ty)]
#[verifier::reject_recursive_types(Ix)]
pub struct ExGraph<N, E, Ty, Ix>(Graph<N, E, Ty, Ix>);

#[verifier::external_type_specification]
#[verifier::external_body]
pub struct ExDirected(Directed);

#[verifier::external_type_specification]
pub struct ExDirection(Direction);

/// Number of nodes that a graph holds.
pub uninterp spec fn graph_node_count(g: Graph<(), (), Directed, u32>) -> nat;

/// The edges of a graph as (source, target) pairs, in the order of their edge
/// indices.
pub uninterp spec fn graph_edges(g: Graph<(), (), Directed, u32>) -> Seq<(u32, u32)>;

/// The end of an edge at which a walk in direction `dir` starts: the source
/// of an outgoing edge, the target of an incoming one.
pub open spec fn near_end(e: (u32, u32), dir: Direction) -> u32 {
    match dir {
        Direction::Outgoing => e.0,
        Direction::Incoming => e.1,
    }
}

/// The end of an edge that a walk in direction `dir` reaches.
pub open spec fn far_end(e: (u32, u32), dir: Direction) -> u32 {
    match dir {
        Direction::Outgoing => e.1,
        Direction::Incoming => e.0,
    }
}

/// The neighbours of `a` in direction `dir`, one per edge, the most recently
/// added edge first.
pub open spec fn neighbors_of(edges: Seq<(u32, u32)>, a: u32, dir: Direction) -> Seq<u32>
    decreases edges.len(),
{
    if edges.len() == 0 {
        Seq::empty()
    } else if near_end(edges.last(), dir) == a {
        seq![far_end(edges.last(), dir)] + neighbors_of(edges.drop_last(), a, dir)
    } else {
        neighbors_of(edges.drop_last(), a, dir)
    }
}

/// The indices of the edges at `a` in direction `dir`, the most recently
/// added edge first.
pub open spec fn incident_of(edges: Seq<(u32, u32)>, a: u32, dir: Direction) -> Seq<u32>
    decreases edges.len(),
{
    if edges.len() == 0 {
        Seq::empty()
    } else if near_end(edges.last(), dir) == a {
        seq![(edges.len() - 1) as u32] + incident_of(edges.drop_last(), a, dir)
    } else {
        incident_of(edges.drop_last(), a, dir)
    }
}

/// `Graph::new`: a directed graph without nodes or edges.
#[verifier::external_body]
fn graph_new() -> (g: Graph<(), (), Directed, u32>)
    ensures
        graph_node_count(g) == 0,
        graph_edges(g) == Seq::<(u32, u32)>::empty(),
{
    Graph::new()
}

/// `Graph::clone`: a graph with the same nodes and edges.
#[verifier::external_body]
fn graph_clone(g: &Graph<(), (), Directed, u32>) -> (r: Graph<(), (), Directed, u32>)
    ensures
        graph_node_count(r) == graph_node_count(*g),
        graph_edges(r) == graph_edges(*g),
{
    g.clone()
}

/// `Graph::node_count`.
#[verifier::external_body]
fn graph_count_nodes(g: &Graph<(), (), Directed, u32>) -> (r: usize)
    ensures
        r == graph_node_count(*g),
{
    g.node_count()
}

/// `Graph::edge_count`.
#[verifier::external_body]
fn graph_count_edges(g: &Graph<(), (), Directed, u32>) -> (r: usize)
    ensures
        r == graph_edges(*g).len(),
{
    g.edge_count()
}

/// `Graph::add_node`: appends one node and returns its index, which is the
/// former node count; the edges stay. It panics once the 32-bit index is
/// used up, which the bound leaves out.
#[verifier::external_body]
fn graph_add_node(g: &mut Graph<(), (), Directed, u32>) -> (id: u32)
    requires
        graph_node_count(*old(g)) < u32::MAX,
    ensures
        id == graph_node_count(*old(g)),
        graph_node_count(*final(g)) == graph_node_count(*old(g)) + 1,
        graph_edges(*final(g)) == graph_edges(*old(g)),
{
    g.add_node(()).index() as u32
}

/// `Graph::add_edge`: appends the edge from `a` to `b` and returns its index,
/// which is the former edge count; the nodes stay. It panics where a node
/// does not exist or the 32-bit index is used up, which the bounds leave out.
#[verifier::external_body]
fn graph_add_edge(g: &mut Graph<(), (), Directed, u32>, a: u32, b: u32) -> (id: u32)
    requires
        a < graph_node_count(*old(g)),
        b < graph_node_count(*old(g)),
        graph_edges(*old(g)).len() < u32::MAX,
    ensures
        id == graph_edges(*old(g)).len(),
        graph_edges(*final(g)) == graph_edges(*old(g)).push((a, b)),
        graph_node_count(*final(g)) == graph_node_count(*old(g)),
{
    g.add_edge(NodeIndex::new(a as usize), NodeIndex::new(b as usize), ()).index() as u32
}

/// `Graph::contains_edge`: whether some edge leads from `a` to `b`.
#[verifier::external_body]
fn graph_contains_edge(g: &Graph<(), (), Directed, u32>, a: u32, b: u32) -> (r: bool)
    requires
        a < graph_node_count(*g),
    ensures
        r == graph_edges(*g).contains((a, b)),
{
    g.contains_edge(NodeIndex::new(a as usize), NodeIndex::new(b as usize))
}

/// `Graph::neighbors_directed`, collected: the far ends of the edges at `a`
/// in the given direction, in reverse order of their addition.
#[verifier::external_body]
fn graph_neighbors(g: &Graph<(), (), Directed, u32>, a: u32, dir: Direction) -> (r: Vec<u32>)
    requires
        a < graph_node_count(*g),
    ensures
        r@ == neighbors_of(graph_edges(*g), a, dir),
{
    g.neighbors_directed(NodeIndex::new(a as usize), dir).map(|n| n.index() as u32).collect()
}

/// `Graph::edges_directed`, collected as edge indices: the edges at `a` in
/// the given direction, in reverse order of their addition.
#[verifier::external_body]
fn graph_incident(g: &Graph<(), (), Directed, u32>, a: u32, dir: Direction) -> (r: Vec<u32>)
    requires
        a < graph_node_count(*g),
    ensures
        r@ == incident_of(graph_edges(*g), a, dir),
{
    g.edges_directed(NodeIndex::new(a as usize), dir).map(|e| e.id().index() as u32).collect()
}

/// `Graph::raw_edges`, each edge as its (source, target) pair.
#[verifier::external_body]
fn graph_raw_edges(g: &Graph<(), (), Directed, u32>) -> (r: Vec<(u32, u32)>)
    ensures
        r@ == graph_edges(*g),
{
    g.raw_edges().iter().map(|e| (e.source().index() as u32, e.target().index() as u32)).collect()
}

/// `Graph::edge_endpoints`: the two ends of the edge with index `e`, or
/// nothing where the graph has no such edge.
#[verifier::external_body]
fn graph_edge_endpoints(g: &Graph<(), (), Directed, u32>, e: u32) -> (r: Option<(u32, u32)>)
    ensures
        r == if e < graph_edges(*g).len() {
            Some(graph_edges(*g)[e as int])
        } else {
            None
        },
{
    g.edge_endpoints(EdgeIndex::new(e as usize)).map(|p| (p.0.index() as u32, p.1.index() as u32))
}

/// Whether every edge joins two nodes below `n`.
pub open spec fn edges_within(edges: Seq<(u32, u32)>, n: nat) -> bool {
    forall|i: int| 0 <= i < edges.len() ==> (#[trigger] edges[i]).0 < n && edges[i].1 < n
}

/// Every neighbour is the far end of an edge, and so a node of the graph.
pub proof fn lemma_neighbors_within(edges: Seq<(u32, u32)>, n: nat, a: u32, dir: Direction)
    requires
        edges_within(edges, n),
    ensures
        forall|i: int|
            0 <= i < neighbors_of(edges, a, dir).len() ==> (#[trigger] neighbors_of(
                edges,
                a,
                dir,
            )[i]) < n,
    decreases edges.len(),
{
    if edges.len() > 0 {
        let rest = edges.drop_last();
        let found = neighbors_of(edges, a, dir);
        let found_rest = neighbors_of(rest, a, dir);
        assert(edges[edges.len() - 1].0 < n && edges[edges.len() - 1].1 < n);
        lemma_neighbors_within(rest, n, a, dir);
        assert forall|i: int| 0 <= i < found.len() implies (#[trigger] found[i]) < n by {
            if near_end(edges.last(), dir) == a {
                if i > 0 {
                    assert(found[i] == found_rest[i - 1]);
                }
            } else {
                assert(found[i] == found_rest[i]);
            }
        }
    }
}

/// A number that is no node of the graph has no neighbours.
pub proof fn lemma_no_neighbors_outside(edges: Seq<(u32, u32)>, n: nat, a: u32, dir: Direction)
    requires
        edges_within(edges, n),
        a >= n,
    ensures
        neighbors_of(edges, a, dir) == Seq::<u32>::empty(),
        incident_of(edges, a, dir) == Seq::<u32>::empty(),
    decreases edges.len(),
{
    if edges.len() > 0 {
        assert(edges[edges.len() - 1].0 < n && edges[edges.len() - 1].1 < n);
        lemma_no_neighbors_outside(edges.drop_last(), n, a, dir);
    }
}

/// The targets of `a` are exactly the nodes that an edge leads to from `a`.
pub proof fn lemma_targets_are_edges(edges: Seq<(u32, u32)>, a: u32, b: u32)
    ensures
        neighbors_of(edges, a, Direction::Outgoing).contains(b) <==> edges.contains((a, b)),
    decreases edges.len(),
{
    let found = neighbors_of(edges, a, Direction::Outgoing);
    if edges.len() > 0 {
        let rest = edges.drop_last();
        let last = edges.last();
        lemma_targets_are_edges(rest, a, b);
        let found_rest = neighbors_of(rest, a, Direction::Outgoing);
        if edges.contains((a, b)) {
            let i = choose|i: int| 0 <= i < edges.len() && edges[i] == (a, b);
            if i == edges.len() - 1 {
                assert(found[0] == b);
            } else {
                assert(rest[i] == (a, b));
                assert(found_rest.contains(b));
                let j = choose|j: int| 0 <= j < found_rest.len() && found_rest[j] == b;
                if last.0 == a {
                    assert(found[j + 1] == b);
                } else {
                    assert(found[j] == b);
                }
            }
        }
        if found.contains(b) {
            let j = choose|j: int| 0 <= j < found.len() && found[j] == b;
            if last.0 == a && j == 0 {
                assert(edges[edges.len() - 1] == (a, b));
            } else {
                if last.0 == a {
                    assert(found_rest[j - 1] == b);
                } else {
                    assert(found_rest[j] == b);
                }
                assert(rest.contains((a, b)));
                let i = choose|i: int| 0 <= i < rest.len() && rest[i] == (a, b);
                assert(edges[i] == (a, b));
            }
        }
    }
}

/// What a new edge adds to the neighbours of a node.
pub proof fn lemma_neighbors_push(edges: Seq<(u32, u32)>, e: (u32, u32), a: u32, dir: Direction)
    ensures
        neighbors_of(edges.push(e), a, dir) == if near_end(e, dir) == a {
            seq![far_end(e, dir)] + neighbors_of(edges, a, dir)
        } else {
            neighbors_of(edges, a, dir)
        },
{
    assert(edges.push(e).drop_last() =~= edges);
}

/// Numbered nodes and the directed edges between them.
#[derive(Debug)]
pub struct Wiring {
    graph: Graph<(), (), Directed, u32>,
}

impl Wiring {
    /// How many nodes there are. Nodes are numbered from zero.
    pub closed spec fn node_count(&self) -> nat {
        graph_node_count(self.graph)
    }

    /// The edges as (source, target) pairs, in the order of their addition.
    pub closed spec fn edges(&self) -> Seq<(u32, u32)> {
        graph_edges(self.graph)
    }

    /// Node and edge numbers fit in 32 bits, every edge joins two nodes, and
    /// no edge occurs twice.
    pub open spec fn wf(&self) -> bool {
        &&& self.node_count() <= u32::MAX
        &&& self.edges().len() <= u32::MAX
        &&& edges_within(self.edges(), self.node_count())
        &&& self.edges().no_duplicates()
    }

    /// The neighbours that the edges leaving `a` lead to, newest edge first.
    pub open spec fn targets(&self, a: u32) -> Seq<u32> {
        neighbors_of(self.edges(), a, Direction::Outgoing)
    }

    /// The neighbours that the edges entering `a` come from, newest edge first.
    pub open spec fn sources(&self, a: u32) -> Seq<u32> {
        neighbors_of(self.edges(), a, Direction::Incoming)
    }

    /// A wiring without nodes.
    pub fn new() -> (w: Wiring)
        ensures
            w.wf(),
            w.node_count() == 0,
            w.edges() == Seq::<(u32, u32)>::empty(),
    {
        Wiring { graph: graph_new() }
    }

    /// A copy with the same nodes and edges.
    pub fn duplicate(&self) -> (w: Wiring)
        ensures
            w.node_count() == self.node_count(),
            w.edges() == self.edges(),
    {
        Wiring { graph: graph_clone(&self.graph) }
    }

    /// The number of edges.
    pub fn edge_total(&self) -> (r: usize)
        ensures
            r == self.edges().len(),
    {
        graph_count_edges(&self.graph)
    }

    /// Whether `a` is a node.
    pub fn has_node(&self, a: u32) -> (r: bool)
        requires
            self.wf(),
        ensures
            r == (a < self.node_count()),
    {
        (a as usize) < graph_count_nodes(&self.graph)
    }

    /// Adds a node and returns its number.
    pub fn add_node(&mut self) -> (id: u32)
        requires
            old(self).wf(),
            old(self).node_count() < u32::MAX,
        ensures
            final(self).wf(),
            id == old(self).node_count(),
            final(self).node_count() == old(self).node_count() + 1,
            final(self).edges() == old(self).edges(),
    {
        graph_add_node(&mut self.graph)
    }

    /// Whether an edge leads from `a` to `b`.
    pub fn has_edge(&self, a: u32, b: u32) -> (r: bool)
        requires
            self.wf(),
        ensures
            r == self.edges().contains((a, b)),
    {
        if self.has_node(a) {
            graph_contains_edge(&self.graph, a, b)
        } else {
            assert(!self.edges().contains((a, b))) by {
                if self.edges().contains((a, b)) {
                    let i = choose|i: int| 0 <= i < self.edges().len() && self.edges()[i] == (a, b);
                    assert(self.edges()[i].0 < self.node_count());
                }
            }
            false
        }
    }

    /// Adds the edge from `a` to `b` unless it is there already.
    pub fn connect(&mut self, a: u32, b: u32)
        requires
            old(self).wf(),
            a < old(self).node_count(),
            b < old(self).node_count(),
            old(self).edges().len() < u32::MAX,
        ensures
            final(self).wf(),
            final(self).node_count() == old(self).node_count(),
            final(self).edges() == with_edge(old(self).edges(), a, b),
    {
        if !self.has_edge(a, b) {
            let _ = graph_add_edge(&mut self.graph, a, b);
            proof {
                let before = old(self).edges();
                let after = self.edges();
                assert forall|i: int, j: int|
                    0 <= i < after.len() && 0 <= j < after.len() && i != j implies after[i]
                    != after[j] by {
                    if i < before.len() {
                        assert(before.contains(before[i]));
                    }
                    if j < before.len() {
                        assert(before.contains(before[j]));
                    }
                }
            }
        }
    }

    /// The targets of the edges that leave `a`, newest edge first. Empty
    /// where `a` is no node.
    pub fn outbound(&self, a: u32) -> (r: Vec<u32>)
        requires
            self.wf(),
        ensures
            r@ == self.targets(a),
            forall|i: int| 0 <= i < r@.len() ==> (#[trigger] r@[i]) < self.node_count(),
    {
        proof {
            lemma_neighbors_within(self.edges(), self.node_count(), a, Direction::Outgoing);
        }
        if self.has_node(a) {
            graph_neighbors(&self.graph, a, Direction::Outgoing)
        } else {
            proof {
                lemma_no_neighbors_outside(self.edges(), self.node_count(), a, Direction::Outgoing);
            }
            Vec::new()
        }
    }

    /// The sources of the edges that enter `a`, newest edge first. Empty
    /// where `a` is no node.
    pub fn inbound(&self, a: u32) -> (r: Vec<u32>)
        requires
            self.wf(),
        ensures
            r@ == self.sources(a),
            forall|i: int| 0 <= i < r@.len() ==> (#[trigger] r@[i]) < self.node_count(),
    {
        proof {
            lemma_neighbors_within(self.edges(), self.node_count(), a, Direction::Incoming);
        }
        if self.has_node(a) {
            graph_neighbors(&self.graph, a, Direction::Incoming)
        } else {
            proof {
                lemma_no_neighbors_outside(self.edges(), self.node_count(), a, Direction::Incoming);
            }
            Vec::new()
        }
    }

    /// The indices of the edges that leave `a`, newest edge first.
    pub fn outbound_edge_ids(&self, a: u32) -> (r: Vec<u32>)
        requires
            self.wf(),
        ensures
            r@ == incident_of(self.edges(), a, Direction::Outgoing),
    {
        if self.has_node(a) {
            graph_incident(&self.graph, a, Direction::Outgoing)
        } else {
            proof {
                lemma_no_neighbors_outside(self.edges(), self.node_count(), a, Direction::Outgoing);
            }
            Vec::new()
        }
    }

    /// The indices of the edges that enter `a`, newest edge first.
    pub fn inbound_edge_ids(&self, a: u32) -> (r: Vec<u32>)
        requires
            self.wf(),
        ensures
            r@ == incident_of(self.edges(), a, Direction::Incoming),
    {
        if self.has_node(a) {
            graph_incident(&self.graph, a, Direction::Incoming)
        } else {
            proof {
                lemma_no_neighbors_outside(self.edges(), self.node_count(), a, Direction::Incoming);
            }
            Vec::new()
        }
    }

    /// All edges as (source, target) pairs, in the order of their addition.
    pub fn edge_list(&self) -> (r: Vec<(u32, u32)>)
        ensures
            r@ == self.edges(),
    {
        graph_raw_edges(&self.graph)
    }

    /// The two ends of the edge with index `e`, if there is such an edge.
    pub fn endpoints(&self, e: u32) -> (r: Option<(u32, u32)>)
        ensures
            r == if e < self.edges().len() {
                Some(self.edges()[e as int])
            } else {
                None
            },
    {
        graph_edge_endpoints(&self.graph, e)
    }
}

/// The edges with the edge from `a` to `b` among them: appended where it was
/// missing.
pub open spec fn with_edge(edges: Seq<(u32, u32)>, a: u32, b: u32) -> Seq<(u32, u32)> {
    if edges.contains((a, b)) {
        edges
    } else {
        edges.push((a, b))
    }
}

} // verus!
