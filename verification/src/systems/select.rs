//! Picking nodes out of a list of candidates by a test on their payloads.
//!
//! The mathematical side works with a predicate on payloads. The executable
//! side takes a closure, and either is told which predicate the closure
//! decides, or states its result over what the closure promises of each call.

use vstd::prelude::*;

verus! {

/// The candidates whose payload satisfies `p`, in the order of the candidates.
pub open spec fn chosen<T>(cands: Seq<u32>, nodes: Seq<T>, p: spec_fn(T) -> bool) -> Seq<u32>
    decreases cands.len(),
{
    if cands.len() == 0 {
        Seq::empty()
    } else if p(nodes[cands.last() as int]) {
        chosen(cands.drop_last(), nodes, p).push(cands.last())
    } else {
        chosen(cands.drop_last(), nodes, p)
    }
}

/// The first candidate whose payload satisfies `p`.
pub open spec fn first_match<T>(cands: Seq<u32>, nodes: Seq<T>, p: spec_fn(T) -> bool) -> Option<
    u32,
>
    decreases cands.len(),
{
    if cands.len() == 0 {
        None
    } else if p(nodes[cands[0] as int]) {
        Some(cands[0])
    } else {
        first_match(cands.skip(1), nodes, p)
    }
}

/// The numbers below `n`, ascending.
pub open spec fn numbers_below(n: nat) -> Seq<u32> {
    Seq::new(n, |i: int| i as u32)
}

/// Whether every candidate is the number of a payload.
pub open spec fn all_below(cands: Seq<u32>, n: nat) -> bool {
    forall|i: int| 0 <= i < cands.len() ==> (#[trigger] cands[i]) < n
}

/// Whether the closure `f` can be called on every payload and answers as the
/// predicate `p` does.
pub open spec fn decides<T, F: Fn(&T) -> bool>(f: F, p: spec_fn(T) -> bool) -> bool {
    &&& forall|n: &T| call_requires(f, (n,))
    &&& forall|n: &T, b: bool| call_ensures(f, (n,), b) ==> b == p(*n)
}

/// Whether `out` can come of asking the closure `f` about each candidate in
/// turn and keeping those for which it answered yes.
pub open spec fn picked<T, F: Fn(&T) -> bool>(
    cands: Seq<u32>,
    nodes: Seq<T>,
    f: F,
    out: Seq<u32>,
) -> bool
    decreases cands.len(),
{
    if cands.len() == 0 {
        out.len() == 0
    } else {
        ||| (call_ensures(f, (&nodes[cands.last() as int],), true) && out.len() > 0 && out.last()
            == cands.last() && picked(cands.drop_last(), nodes, f, out.drop_last()))
        ||| (call_ensures(f, (&nodes[cands.last() as int],), false) && picked(
            cands.drop_last(),
            nodes,
            f,
            out,
        ))
    }
}

/// Whether `r` can come of asking the closure `f` about each candidate in
/// turn and stopping at the first yes.
pub open spec fn found_first<T, F: Fn(&T) -> bool>(
    cands: Seq<u32>,
    nodes: Seq<T>,
    f: F,
    r: Option<u32>,
) -> bool {
    match r {
        Some(c) => exists|k: int|
            0 <= k < cands.len() && cands[k] == c && call_ensures(f, (&nodes[c as int],), true)
                && forall|j: int|
                0 <= j < k ==> call_ensures(f, (&nodes[#[trigger] cands[j] as int],), false),
        None => forall|j: int|
            0 <= j < cands.len() ==> call_ensures(f, (&nodes[#[trigger] cands[j] as int],), false),
    }
}

/// Every chosen candidate is a candidate.
pub proof fn lemma_chosen_below<T>(cands: Seq<u32>, nodes: Seq<T>, p: spec_fn(T) -> bool, n: nat)
    requires
        all_below(cands, n),
    ensures
        all_below(chosen(cands, nodes, p), n),
        chosen(cands, nodes, p).len() <= cands.len(),
    decreases cands.len(),
{
    if cands.len() > 0 {
        lemma_chosen_below(cands.drop_last(), nodes, p, n);
        assert(cands[cands.len() - 1] < n);
    }
}

/// The first match is a candidate that satisfies the predicate.
pub proof fn lemma_first_match_is_candidate<T>(
    cands: Seq<u32>,
    nodes: Seq<T>,
    p: spec_fn(T) -> bool,
)
    ensures
        first_match(cands, nodes, p) is Some ==> cands.contains(first_match(cands, nodes, p)->0)
            && p(nodes[first_match(cands, nodes, p)->0 as int]),
    decreases cands.len(),
{
    if cands.len() > 0 {
        if p(nodes[cands[0] as int]) {
            assert(cands[0] == first_match(cands, nodes, p)->0);
        } else {
            lemma_first_match_is_candidate(cands.skip(1), nodes, p);
            if first_match(cands, nodes, p) is Some {
                let c = first_match(cands, nodes, p)->0;
                let k = choose|k: int| 0 <= k < cands.skip(1).len() && cands.skip(1)[k] == c;
                assert(cands[k + 1] == c);
            }
        }
    }
}

/// The chosen candidates of a list that starts with `c`.
pub proof fn lemma_chosen_head<T>(c: u32, rest: Seq<u32>, nodes: Seq<T>, p: spec_fn(T) -> bool)
    ensures
        chosen(seq![c] + rest, nodes, p) == if p(nodes[c as int]) {
            seq![c] + chosen(rest, nodes, p)
        } else {
            chosen(rest, nodes, p)
        },
    decreases rest.len(),
{
    let all = seq![c] + rest;
    if rest.len() == 0 {
        assert(all.drop_last() =~= Seq::<u32>::empty());
        assert(all.last() == c);
        assert(rest =~= Seq::<u32>::empty());
        assert(chosen(Seq::<u32>::empty(), nodes, p) =~= Seq::<u32>::empty());
        assert(chosen(all, nodes, p) == if p(nodes[c as int]) {
            Seq::<u32>::empty().push(c)
        } else {
            Seq::<u32>::empty()
        });
        assert(chosen(all, nodes, p) =~= if p(nodes[c as int]) {
            seq![c] + chosen(rest, nodes, p)
        } else {
            chosen(rest, nodes, p)
        });
    } else {
        lemma_chosen_head(c, rest.drop_last(), nodes, p);
        assert(all.drop_last() =~= seq![c] + rest.drop_last());
        assert(all.last() == rest.last());
        assert(chosen(all, nodes, p) =~= if p(nodes[c as int]) {
            seq![c] + chosen(rest, nodes, p)
        } else {
            chosen(rest, nodes, p)
        });
    }
}

/// Every chosen candidate is a candidate whose payload satisfies the
/// predicate, and every such candidate is chosen.
pub proof fn lemma_chosen_members<T>(cands: Seq<u32>, nodes: Seq<T>, p: spec_fn(T) -> bool, c: u32)
    ensures
        chosen(cands, nodes, p).contains(c) <==> cands.contains(c) && p(nodes[c as int]),
    decreases cands.len(),
{
    let picked = chosen(cands, nodes, p);
    if cands.len() > 0 {
        let rest = cands.drop_last();
        let before = chosen(rest, nodes, p);
        lemma_chosen_members(rest, nodes, p, c);
        if picked.contains(c) {
            let i = choose|i: int| 0 <= i < picked.len() && picked[i] == c;
            if p(nodes[cands.last() as int]) && i == picked.len() - 1 {
                assert(cands[cands.len() - 1] == c);
            } else {
                assert(before[i] == c);
                let j = choose|j: int| 0 <= j < rest.len() && rest[j] == c;
                assert(cands[j] == c);
            }
        }
        if cands.contains(c) && p(nodes[c as int]) {
            let j = choose|j: int| 0 <= j < cands.len() && cands[j] == c;
            if j == cands.len() - 1 {
                assert(picked[picked.len() - 1] == c);
            } else {
                assert(rest[j] == c);
                let i = choose|i: int| 0 <= i < before.len() && before[i] == c;
                assert(picked[i] == c);
            }
        }
    }
}

/// The first match of a list that starts with `c`.
pub proof fn lemma_first_match_head<T>(
    c: u32,
    rest: Seq<u32>,
    nodes: Seq<T>,
    p: spec_fn(T) -> bool,
)
    ensures
        first_match(seq![c] + rest, nodes, p) == if p(nodes[c as int]) {
            Some(c)
        } else {
            first_match(rest, nodes, p)
        },
{
    assert((seq![c] + rest).skip(1) =~= rest);
}

/// A first match stays the first match when candidates are added at the end.
pub proof fn lemma_first_match_prefix<T>(
    cands: Seq<u32>,
    extra: Seq<u32>,
    nodes: Seq<T>,
    p: spec_fn(T) -> bool,
)
    requires
        first_match(cands, nodes, p) is Some,
    ensures
        first_match(cands + extra, nodes, p) == first_match(cands, nodes, p),
    decreases cands.len(),
{
    if cands.len() > 0 {
        assert((cands + extra)[0] == cands[0]);
        assert((cands + extra).skip(1) =~= cands.skip(1) + extra);
        if !p(nodes[cands[0] as int]) {
            lemma_first_match_prefix(cands.skip(1), extra, nodes, p);
        }
    }
}

/// Two predicates that agree on the payloads of the candidates have the same
/// first match.
pub proof fn lemma_first_match_agrees<T, U>(
    cands: Seq<u32>,
    nodes: Seq<T>,
    p: spec_fn(T) -> bool,
    others: Seq<U>,
    q: spec_fn(U) -> bool,
)
    requires
        forall|i: int|
            0 <= i < cands.len() ==> p(nodes[#[trigger] cands[i] as int]) == q(
                others[cands[i] as int],
            ),
    ensures
        first_match(cands, nodes, p) == first_match(cands, others, q),
    decreases cands.len(),
{
    if cands.len() > 0 {
        assert(p(nodes[cands[0] as int]) == q(others[cands[0] as int]));
        assert forall|i: int| 0 <= i < cands.skip(1).len() implies p(
            nodes[#[trigger] cands.skip(1)[i] as int],
        ) == q(others[cands.skip(1)[i] as int]) by {
            assert(cands.skip(1)[i] == cands[i + 1]);
        }
        lemma_first_match_agrees(cands.skip(1), nodes, p, others, q);
    }
}

/// Two predicates that agree on the payloads of the candidates choose the
/// same candidates.
pub proof fn lemma_chosen_agrees<T, U>(
    cands: Seq<u32>,
    nodes: Seq<T>,
    p: spec_fn(T) -> bool,
    others: Seq<U>,
    q: spec_fn(U) -> bool,
)
    requires
        forall|i: int|
            0 <= i < cands.len() ==> p(nodes[#[trigger] cands[i] as int]) == q(
                others[cands[i] as int],
            ),
    ensures
        chosen(cands, nodes, p) == chosen(cands, others, q),
    decreases cands.len(),
{
    if cands.len() > 0 {
        assert(p(nodes[cands[cands.len() - 1] as int]) == q(
            others[cands[cands.len() - 1] as int],
        ));
        assert forall|i: int| 0 <= i < cands.drop_last().len() implies p(
            nodes[#[trigger] cands.drop_last()[i] as int],
        ) == q(others[cands.drop_last()[i] as int]) by {
            assert(cands.drop_last()[i] == cands[i]);
        }
        lemma_chosen_agrees(cands.drop_last(), nodes, p, others, q);
    }
}

/// The candidates for which the closure answers yes, where the closure
/// decides the predicate `p`.
pub fn select<T, F: Fn(&T) -> bool>(
    cands: &Vec<u32>,
    nodes: &Vec<T>,
    f: &F,
    Ghost(p): Ghost<spec_fn(T) -> bool>,
) -> (r: Vec<u32>)
    requires
        all_below(cands@, nodes@.len()),
        decides(*f, p),
    ensures
        r@ == chosen(cands@, nodes@, p),
        all_below(r@, nodes@.len()),
{
    let mut out: Vec<u32> = Vec::new();
    let mut i: usize = 0;
    while i < cands.len()
        invariant
            i <= cands.len(),
            all_below(cands@, nodes@.len()),
            decides(*f, p),
            out@ == chosen(cands@.take(i as int), nodes@, p),
        decreases cands.len() - i,
    {
        let c = cands[i];
        assert(cands@.take(i + 1).drop_last() =~= cands@.take(i as int));
        if f(&nodes[c as usize]) {
            out.push(c);
        }
        i += 1;
    }
    assert(cands@.take(i as int) =~= cands@);
    proof {
        lemma_chosen_below(cands@, nodes@, p, nodes@.len());
    }
    out
}

/// The first candidate for which the closure answers yes, where the closure
/// decides the predicate `p`.
pub fn seek<T, F: Fn(&T) -> bool>(
    cands: &Vec<u32>,
    nodes: &Vec<T>,
    f: &F,
    Ghost(p): Ghost<spec_fn(T) -> bool>,
) -> (r: Option<u32>)
    requires
        all_below(cands@, nodes@.len()),
        decides(*f, p),
    ensures
        r == first_match(cands@, nodes@, p),
        r is Some ==> r->0 < nodes@.len() && p(nodes@[r->0 as int]) && cands@.contains(r->0),
{
    let mut i: usize = 0;
    assert(cands@.skip(0) =~= cands@);
    while i < cands.len()
        invariant
            i <= cands.len(),
            all_below(cands@, nodes@.len()),
            decides(*f, p),
            first_match(cands@, nodes@, p) == first_match(cands@.skip(i as int), nodes@, p),
        decreases cands.len() - i,
    {
        let c = cands[i];
        assert(cands@.skip(i as int)[0] == c);
        assert(cands@.skip(i as int).skip(1) =~= cands@.skip(i + 1));
        if f(&nodes[c as usize]) {
            return Some(c);
        }
        i += 1;
    }
    assert(cands@.skip(i as int).len() == 0);
    None
}

/// The candidates for which the closure answered yes, whatever the closure
/// promises of its answers.
pub fn select_by<T, F: Fn(&T) -> bool>(cands: &Vec<u32>, nodes: &Vec<T>, f: F) -> (r: Vec<u32>)
    requires
        all_below(cands@, nodes@.len()),
        forall|n: &T| call_requires(f, (n,)),
    ensures
        picked(cands@, nodes@, f, r@),
        all_below(r@, nodes@.len()),
{
    let mut out: Vec<u32> = Vec::new();
    let mut i: usize = 0;
    while i < cands.len()
        invariant
            i <= cands.len(),
            all_below(cands@, nodes@.len()),
            forall|n: &T| call_requires(f, (n,)),
            picked(cands@.take(i as int), nodes@, f, out@),
            all_below(out@, nodes@.len()),
        decreases cands.len() - i,
    {
        let c = cands[i];
        let ghost before = out@;
        assert(cands@.take(i + 1).drop_last() =~= cands@.take(i as int));
        assert(cands@.take(i + 1).last() == c);
        if f(&nodes[c as usize]) {
            out.push(c);
            assert(out@.drop_last() =~= before);
        }
        i += 1;
    }
    assert(cands@.take(i as int) =~= cands@);
    out
}

/// The first candidate for which the closure answered yes, whatever the
/// closure promises of its answers.
pub fn seek_by<T, F: Fn(&T) -> bool>(cands: &Vec<u32>, nodes: &Vec<T>, f: F) -> (r: Option<u32>)
    requires
        all_below(cands@, nodes@.len()),
        forall|n: &T| call_requires(f, (n,)),
    ensures
        found_first(cands@, nodes@, f, r),
        r is Some ==> r->0 < nodes@.len(),
{
    let mut i: usize = 0;
    while i < cands.len()
        invariant
            i <= cands.len(),
            all_below(cands@, nodes@.len()),
            forall|n: &T| call_requires(f, (n,)),
            forall|j: int|
                0 <= j < i ==> call_ensures(f, (&nodes@[#[trigger] cands@[j] as int],), false),
        decreases cands.len() - i,
    {
        let c = cands[i];
        if f(&nodes[c as usize]) {
            assert(cands@[i as int] == c);
            return Some(c);
        }
        i += 1;
    }
    None
}

/// The numbers below `n`, ascending.
pub fn count_up(n: u32) -> (r: Vec<u32>)
    ensures
        r@ == numbers_below(n as nat),
{
    let mut out: Vec<u32> = Vec::new();
    let mut i: u32 = 0;
    while i < n
        invariant
            i <= n,
            out@ == numbers_below(i as nat),
        decreases n - i,
    {
        out.push(i);
        assert(out@ =~= numbers_below((i + 1) as nat));
        i += 1;
    }
    out
}

} // verus!
