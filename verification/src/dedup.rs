//! Which addresses a run visits: each one once, in the order in which it was
//! first named.

use vstd::prelude::*;
use vstd::hash_set::StringHashSet;
use crate::text::{trim, trimmed, views};

verus! {

/// The addresses to visit for the candidates `c`: each candidate without the
/// white space around it, the empty ones and those that occurred before left
/// out. Two addresses are the same only if they agree character by character.
pub open spec fn unique(c: Seq<Seq<char>>) -> Seq<Seq<char>>
    decreases c.len(),
{
    if c.len() == 0 {
        seq![]
    } else {
        let before = unique(c.drop_last());
        let u = trimmed(c.last());
        if u.len() == 0 || before.contains(u) {
            before
        } else {
            before.push(u)
        }
    }
}

/// For each address of `unique(c)`, the position in `c` of the candidate
/// that brought it in.
pub open spec fn origins(c: Seq<Seq<char>>) -> Seq<int>
    decreases c.len(),
{
    if c.len() == 0 {
        seq![]
    } else {
        let before = unique(c.drop_last());
        let u = trimmed(c.last());
        if u.len() == 0 || before.contains(u) {
            origins(c.drop_last())
        } else {
            origins(c.drop_last()).push(c.len() - 1)
        }
    }
}

/// Whether the candidate at position `j` of `c` is the first to name `u`.
pub open spec fn first_named_at(c: Seq<Seq<char>>, u: Seq<char>, j: int) -> bool {
    &&& 0 <= j < c.len()
    &&& trimmed(c[j]) == u
    &&& forall|k: int| 0 <= k < j ==> trimmed(#[trigger] c[k]) != u
}

/// No address is visited twice, and none is empty.
pub proof fn lemma_unique_distinct(c: Seq<Seq<char>>)
    ensures
        unique(c).no_duplicates(),
        forall|p: int| 0 <= p < unique(c).len() ==> (#[trigger] unique(c)[p]).len() > 0,
    decreases c.len(),
{
    if c.len() > 0 {
        lemma_unique_distinct(c.drop_last());
    }
}

/// Every candidate that is not blank is visited, and nothing else is.
pub proof fn lemma_unique_members(c: Seq<Seq<char>>, u: Seq<char>)
    ensures
        unique(c).contains(u) <==> u.len() > 0 && exists|j: int|
            0 <= j < c.len() && trimmed(#[trigger] c[j]) == u,
    decreases c.len(),
{
    if c.len() > 0 {
        let d = c.drop_last();
        let before = unique(d);
        let last = trimmed(c.last());
        lemma_unique_members(d, u);
        lemma_unique_distinct(c);
        if unique(c).contains(u) {
            if before.contains(u) {
                let j = choose|j: int| 0 <= j < d.len() && trimmed(#[trigger] d[j]) == u;
                assert(trimmed(c[j]) == u);
            } else {
                let p = choose|p: int| 0 <= p < unique(c).len() && unique(c)[p] == u;
                assert(p == before.len());
                assert(trimmed(c[c.len() - 1]) == u);
            }
        }
        if u.len() > 0 && exists|j: int| 0 <= j < c.len() && trimmed(#[trigger] c[j]) == u {
            let j = choose|j: int| 0 <= j < c.len() && trimmed(#[trigger] c[j]) == u;
            if j < d.len() {
                assert(trimmed(d[j]) == u);
                let p = choose|p: int| 0 <= p < before.len() && before[p] == u;
                assert(unique(c)[p] == u);
            } else {
                if before.contains(u) {
                    let p = choose|p: int| 0 <= p < before.len() && before[p] == u;
                    assert(unique(c)[p] == u);
                } else {
                    assert(unique(c)[before.len() as int] == u);
                }
            }
        }
    }
}

/// The addresses are visited in the order in which they were first named:
/// each one stems from the first candidate that names it, and these
/// candidates stand in `c` in the order of the visits.
pub proof fn lemma_unique_order(c: Seq<Seq<char>>)
    ensures
        origins(c).len() == unique(c).len(),
        forall|p: int|
            0 <= p < unique(c).len() ==> first_named_at(c, unique(c)[p], #[trigger] origins(c)[p]),
        forall|p: int, q: int|
            0 <= p < q < unique(c).len() ==> #[trigger] origins(c)[p] < #[trigger] origins(c)[q],
    decreases c.len(),
{
    if c.len() > 0 {
        let d = c.drop_last();
        let before = unique(d);
        let last = trimmed(c.last());
        lemma_unique_order(d);
        assert forall|p: int| 0 <= p < unique(c).len() implies first_named_at(
            c,
            unique(c)[p],
            #[trigger] origins(c)[p],
        ) by {
            if p < before.len() {
                let j = origins(d)[p];
                assert(first_named_at(d, before[p], j));
                assert(c[j] == d[j]);
                assert forall|k: int| 0 <= k < j implies trimmed(#[trigger] c[k]) != before[p] by {
                    assert(c[k] == d[k]);
                }
            } else {
                lemma_unique_members(d, last);
                assert forall|k: int| 0 <= k < c.len() - 1 implies trimmed(#[trigger] c[k])
                    != last by {
                    assert(c[k] == d[k]);
                }
            }
        }
    }
}

/// The addresses that the first part of the candidates names are visited
/// first, in the order that this part alone gives.
pub proof fn lemma_unique_prefix(a: Seq<Seq<char>>, b: Seq<Seq<char>>)
    ensures
        unique(a).is_prefix_of(unique(a + b)),
    decreases b.len(),
{
    if b.len() == 0 {
        assert(a + b =~= a);
    } else {
        assert((a + b).drop_last() =~= a + b.drop_last());
        lemma_unique_prefix(a, b.drop_last());
    }
}

/// Picks the addresses to visit from the candidates of a run.
pub fn unique_urls(candidates: &Vec<String>) -> (r: Vec<String>)
    ensures
        views(r@) == unique(views(candidates@)),
{
    let ghost c = views(candidates@);
    let mut seen = StringHashSet::new();
    let mut out: Vec<String> = Vec::new();
    let mut i: usize = 0;
    assert(c.take(0) =~= Seq::<Seq<char>>::empty());
    while i < candidates.len()
        invariant
            i <= candidates.len(),
            c == views(candidates@),
            views(out@) =~= unique(c.take(i as int)),
            seen@ =~= views(out@).to_set(),
        decreases candidates.len() - i,
    {
        let ghost before = views(out@);
        assert(c.take(i + 1).drop_last() =~= c.take(i as int));
        assert(c.take(i + 1).last() == candidates@[i as int]@);
        let url = trim(candidates[i].as_str());
        if !url.as_str().is_empty() && seen.insert(url.clone()) {
            out.push(url);
            assert(views(out@) =~= before.push(url@));
            assert(before.push(url@).to_set() =~= before.to_set().insert(url@)) by {
                assert forall|u: Seq<char>| before.push(url@).contains(u) <==> (before.contains(u)
                    || u == url@) by {
                    if before.contains(u) {
                        let p = choose|p: int| 0 <= p < before.len() && before[p] == u;
                        assert(before.push(url@)[p] == u);
                    }
                    if u == url@ {
                        assert(before.push(url@)[before.len() as int] == u);
                    }
                }
            }
        }
        i = i + 1;
    }
    assert(c.take(i as int) =~= c);
    out
}

} // verus!
