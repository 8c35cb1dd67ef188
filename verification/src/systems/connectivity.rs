//! Which nodes a stream joins: the one producer that feeds it through an
//! outlet, and the consumers that it feeds through inlets.
//!
//! Both kinds of graph answer these questions in the same way, each with its
//! own payloads, so the payload type and the tests on it are parameters.

use crate::systems::select::all_below;
use crate::systems::select::chosen;
use crate::systems::select::decides;
use crate::systems::select::first_match;
use crate::systems::select::lemma_chosen_agrees;
use crate::systems::select::lemma_first_match_agrees;
use crate::systems::select::seek;
use crate::systems::select::select;
use crate::systems::topology::edges_within;
use crate::systems::topology::lemma_neighbors_within;
use crate::systems::topology::neighbors_of;
use crate::systems::topology::Wiring;
use petgraph::Direction;
use vstd::prelude::*;

verus! {

/// The pairs of `first` with each of `seconds`, in their order.
pub open spec fn pairs_from(first: u32, seconds: Seq<u32>) -> Seq<(u32, u32)> {
    Seq::new(seconds.len(), |i: int| (first, seconds[i]))
}

/// The producer of a stream and the outlet through which it feeds the
/// stream: the first outlet among the nodes that lead to the stream, and the
/// first producer among the nodes that lead to that outlet.
pub open spec fn source_pair<T>(
    edges: Seq<(u32, u32)>,
    nodes: Seq<T>,
    stream: u32,
    is_outlet: spec_fn(T) -> bool,
    is_job: spec_fn(T) -> bool,
) -> Option<(u32, u32)> {
    match first_match(neighbors_of(edges, stream, Direction::Incoming), nodes, is_outlet) {
        Some(outlet) => match first_match(
            neighbors_of(edges, outlet, Direction::Incoming),
            nodes,
            is_job,
        ) {
            Some(origin) => Some((origin, outlet)),
            None => None,
        },
        None => None,
    }
}

/// For each inlet in turn, the pairs of the inlet with every consumer that it
/// leads to.
pub open spec fn fan_out<T>(
    edges: Seq<(u32, u32)>,
    nodes: Seq<T>,
    inlets: Seq<u32>,
    is_job: spec_fn(T) -> bool,
) -> Seq<(u32, u32)>
    decreases inlets.len(),
{
    if inlets.len() == 0 {
        Seq::empty()
    } else {
        fan_out(edges, nodes, inlets.drop_last(), is_job) + pairs_from(
            inlets.last(),
            chosen(neighbors_of(edges, inlets.last(), Direction::Outgoing), nodes, is_job),
        )
    }
}

/// The inlets that a stream feeds, each with every consumer behind it.
pub open spec fn target_pairs<T>(
    edges: Seq<(u32, u32)>,
    nodes: Seq<T>,
    stream: u32,
    is_inlet: spec_fn(T) -> bool,
    is_job: spec_fn(T) -> bool,
) -> Seq<(u32, u32)> {
    fan_out(
        edges,
        nodes,
        chosen(neighbors_of(edges, stream, Direction::Outgoing), nodes, is_inlet),
        is_job,
    )
}

/// Whether both numbers of every pair are below `n`.
pub open spec fn pairs_below(pairs: Seq<(u32, u32)>, n: nat) -> bool {
    forall|i: int| 0 <= i < pairs.len() ==> (#[trigger] pairs[i]).0 < n && pairs[i].1 < n
}

/// Whether two predicates agree on corresponding payloads.
pub open spec fn same_answers<T, U>(
    nodes: Seq<T>,
    p: spec_fn(T) -> bool,
    others: Seq<U>,
    q: spec_fn(U) -> bool,
) -> bool {
    &&& nodes.len() == others.len()
    &&& forall|i: int| 0 <= i < nodes.len() ==> p(#[trigger] nodes[i]) == q(others[i])
}

/// The source of a stream is the same under predicates that agree.
pub proof fn lemma_source_pair_agrees<T, U>(
    edges: Seq<(u32, u32)>,
    stream: u32,
    nodes: Seq<T>,
    p_outlet: spec_fn(T) -> bool,
    p_job: spec_fn(T) -> bool,
    others: Seq<U>,
    q_outlet: spec_fn(U) -> bool,
    q_job: spec_fn(U) -> bool,
)
    requires
        edges_within(edges, nodes.len()),
        same_answers(nodes, p_outlet, others, q_outlet),
        same_answers(nodes, p_job, others, q_job),
    ensures
        source_pair(edges, nodes, stream, p_outlet, p_job) == source_pair(
            edges,
            others,
            stream,
            q_outlet,
            q_job,
        ),
{
    let into = neighbors_of(edges, stream, Direction::Incoming);
    lemma_neighbors_within(edges, nodes.len(), stream, Direction::Incoming);
    lemma_first_match_agrees(into, nodes, p_outlet, others, q_outlet);
    if first_match(into, nodes, p_outlet) is Some {
        let outlet = first_match(into, nodes, p_outlet)->0;
        lemma_neighbors_within(edges, nodes.len(), outlet, Direction::Incoming);
        lemma_first_match_agrees(
            neighbors_of(edges, outlet, Direction::Incoming),
            nodes,
            p_job,
            others,
            q_job,
        );
    }
}

/// The fan-out of a list of inlets is the same under predicates that agree.
pub proof fn lemma_fan_out_agrees<T, U>(
    edges: Seq<(u32, u32)>,
    inlets: Seq<u32>,
    nodes: Seq<T>,
    p_job: spec_fn(T) -> bool,
    others: Seq<U>,
    q_job: spec_fn(U) -> bool,
)
    requires
        edges_within(edges, nodes.len()),
        same_answers(nodes, p_job, others, q_job),
    ensures
        fan_out(edges, nodes, inlets, p_job) == fan_out(edges, others, inlets, q_job),
    decreases inlets.len(),
{
    if inlets.len() > 0 {
        lemma_fan_out_agrees(edges, inlets.drop_last(), nodes, p_job, others, q_job);
        lemma_neighbors_within(edges, nodes.len(), inlets.last(), Direction::Outgoing);
        lemma_chosen_agrees(
            neighbors_of(edges, inlets.last(), Direction::Outgoing),
            nodes,
            p_job,
            others,
            q_job,
        );
    }
}

/// The targets of a stream are the same under predicates that agree.
pub proof fn lemma_target_pairs_agrees<T, U>(
    edges: Seq<(u32, u32)>,
    stream: u32,
    nodes: Seq<T>,
    p_inlet: spec_fn(T) -> bool,
    p_job: spec_fn(T) -> bool,
    others: Seq<U>,
    q_inlet: spec_fn(U) -> bool,
    q_job: spec_fn(U) -> bool,
)
    requires
        edges_within(edges, nodes.len()),
        same_answers(nodes, p_inlet, others, q_inlet),
        same_answers(nodes, p_job, others, q_job),
    ensures
        target_pairs(edges, nodes, stream, p_inlet, p_job) == target_pairs(
            edges,
            others,
            stream,
            q_inlet,
            q_job,
        ),
{
    let out = neighbors_of(edges, stream, Direction::Outgoing);
    lemma_neighbors_within(edges, nodes.len(), stream, Direction::Outgoing);
    lemma_chosen_agrees(out, nodes, p_inlet, others, q_inlet);
    lemma_fan_out_agrees(edges, chosen(out, nodes, p_inlet), nodes, p_job, others, q_job);
}

/// The producer of the stream `stream` and the outlet between the two.
pub fn find_source<T, F: Fn(&T) -> bool, G: Fn(&T) -> bool>(
    wiring: &Wiring,
    nodes: &Vec<T>,
    stream: u32,
    outlet_test: &F,
    Ghost(is_outlet): Ghost<spec_fn(T) -> bool>,
    job_test: &G,
    Ghost(is_job): Ghost<spec_fn(T) -> bool>,
) -> (r: Option<(u32, u32)>)
    requires
        wiring.wf(),
        wiring.node_count() == nodes@.len(),
        decides(*outlet_test, is_outlet),
        decides(*job_test, is_job),
    ensures
        r == source_pair(wiring.edges(), nodes@, stream, is_outlet, is_job),
        match r {
            Some(pair) => pair.0 < nodes@.len() && pair.1 < nodes@.len(),
            None => true,
        },
{
    let into = wiring.inbound(stream);
    match seek(&into, nodes, outlet_test, Ghost(is_outlet)) {
        Some(outlet) => {
            let before = wiring.inbound(outlet);
            match seek(&before, nodes, job_test, Ghost(is_job)) {
                Some(origin) => Some((origin, outlet)),
                None => None,
            }
        },
        None => None,
    }
}

/// The inlets that the stream `stream` feeds, each with every consumer
/// behind it.
pub fn find_targets<T, F: Fn(&T) -> bool, G: Fn(&T) -> bool>(
    wiring: &Wiring,
    nodes: &Vec<T>,
    stream: u32,
    inlet_test: &F,
    Ghost(is_inlet): Ghost<spec_fn(T) -> bool>,
    job_test: &G,
    Ghost(is_job): Ghost<spec_fn(T) -> bool>,
) -> (r: Vec<(u32, u32)>)
    requires
        wiring.wf(),
        wiring.node_count() == nodes@.len(),
        decides(*inlet_test, is_inlet),
        decides(*job_test, is_job),
    ensures
        r@ == target_pairs(wiring.edges(), nodes@, stream, is_inlet, is_job),
        pairs_below(r@, nodes@.len()),
{
    let out = wiring.outbound(stream);
    let inlets = select(&out, nodes, inlet_test, Ghost(is_inlet));
    let mut result: Vec<(u32, u32)> = Vec::new();
    let mut i: usize = 0;
    while i < inlets.len()
        invariant
            i <= inlets.len(),
            wiring.wf(),
            wiring.node_count() == nodes@.len(),
            decides(*job_test, is_job),
            all_below(inlets@, nodes@.len()),
            result@ == fan_out(wiring.edges(), nodes@, inlets@.take(i as int), is_job),
            pairs_below(result@, nodes@.len()),
        decreases inlets.len() - i,
    {
        let inlet = inlets[i];
        let behind = wiring.outbound(inlet);
        let jobs = select(&behind, nodes, job_test, Ghost(is_job));
        let ghost before = result@;
        let mut j: usize = 0;
        while j < jobs.len()
            invariant
                j <= jobs.len(),
                inlet < nodes@.len(),
                all_below(jobs@, nodes@.len()),
                result@ == before + pairs_from(inlet, jobs@.take(j as int)),
                pairs_below(before, nodes@.len()),
                pairs_below(result@, nodes@.len()),
            decreases jobs.len() - j,
        {
            result.push((inlet, jobs[j]));
            assert(result@ =~= before + pairs_from(inlet, jobs@.take(j + 1)));
            j += 1;
        }
        proof {
            assert(jobs@.take(j as int) =~= jobs@);
            assert(inlets@.take(i + 1).drop_last() =~= inlets@.take(i as int));
            assert(inlets@.take(i + 1).last() == inlet);
        }
        i += 1;
    }
    proof {
        assert(inlets@.take(i as int) =~= inlets@);
    }
    result
}

} // verus!
