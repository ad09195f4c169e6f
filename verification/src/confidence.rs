//! How far the two search channels, text and vectors, support each other: which
//! weaknesses of a search lower the confidence in its results.

use crate::pool;
use std::collections::HashSet;
use vstd::prelude::*;

verus! {

broadcast use vstd::std_specs::hash::group_hash_axioms;

/// How many text matches it takes to judge whether they are few or many. Fewer
/// are what a search for one precise name gives.
pub const CONF_SPARSITY_MIN_FTS: usize = 5;

/// A weakness of a search.
#[derive(Debug, Clone, Copy, PartialEq, Eq, Structural)]
pub enum Penalty {
    /// Nothing matched the text; the results rest on vectors alone.
    VectorOnly,
    /// No row holds all words of the query; the matches hold some of them.
    OrFallback,
    /// Text matches are very few for the size of the fetch.
    SparsityHigh,
    /// Text matches are few for the size of the fetch.
    SparsityMedium,
    /// Text matches are somewhat few for the size of the fetch.
    SparsityLow,
    /// Few of the best results were found by both channels.
    Intersection,
}

/// Below which shares, in thousandths, a weakness is one.
#[derive(Debug, Clone, Copy)]
pub struct Thresholds {
    pub sparsity_high: u32,
    pub sparsity_medium: u32,
    pub sparsity_low: u32,
    pub intersection: u32,
}

/// Whether `part` is less than `thousandths` of `whole`.
pub open spec fn is_share_below(part: int, whole: int, thousandths: int) -> bool {
    part * 1000 < thousandths * whole
}

/// How many of `ids` are both in `a` and in `b`.
pub open spec fn common_count(ids: Seq<i64>, a: Set<i64>, b: Set<i64>) -> nat
    decreases ids.len(),
{
    if ids.len() == 0 {
        0
    } else {
        common_count(ids.drop_last(), a, b) + (if a.contains(ids.last()) && b.contains(ids.last()) {
            1nat
        } else {
            0nat
        })
    }
}

/// Whether results rest on vectors alone.
pub open spec fn without_anchor(fts: Seq<i64>, vectors: Seq<i64>) -> bool {
    fts.len() == 0 && vectors.len() > 0
}

/// The weakness that lies in the number of text matches.
pub open spec fn sparsity(matches: nat, fetch: int, limits: Thresholds) -> Seq<Penalty> {
    if matches < CONF_SPARSITY_MIN_FTS {
        seq![]
    } else if is_share_below(matches as int, fetch, limits.sparsity_high as int) {
        seq![Penalty::SparsityHigh]
    } else if is_share_below(matches as int, fetch, limits.sparsity_medium as int) {
        seq![Penalty::SparsityMedium]
    } else if is_share_below(matches as int, fetch, limits.sparsity_low as int) {
        seq![Penalty::SparsityLow]
    } else {
        seq![]
    }
}

/// The best ids of a fusion, `top_k` of them or all there are.
pub open spec fn best(fused: Seq<i64>, top_k: int) -> Seq<i64> {
    if top_k < fused.len() {
        fused.take(top_k)
    } else {
        fused
    }
}

/// Whether few of the best results were found by both channels. It is judged
/// only where there are enough text matches.
pub open spec fn is_disjoint(
    fts: Seq<i64>,
    vectors: Seq<i64>,
    fused: Seq<i64>,
    top_k: int,
    limits: Thresholds,
) -> bool {
    let top = best(fused, top_k);
    &&& fts.len() >= CONF_SPARSITY_MIN_FTS
    &&& vectors.len() > 0
    &&& is_share_below(
        common_count(top, fts.to_set(), vectors.to_set()) as int,
        if top.len() == 0 {
            1
        } else {
            top.len() as int
        },
        limits.intersection as int,
    )
}

/// The weaknesses of a search, in the order in which they are weighed.
pub open spec fn weaknesses(
    fts: Seq<i64>,
    vectors: Seq<i64>,
    fused: Seq<i64>,
    or_fallback: bool,
    top_k: int,
    limits: Thresholds,
) -> Seq<Penalty> {
    let of_text: Seq<Penalty> = if without_anchor(fts, vectors) {
        seq![Penalty::VectorOnly]
    } else if fts.len() > 0 {
        (if or_fallback {
            seq![Penalty::OrFallback]
        } else {
            seq![]
        }) + sparsity(fts.len(), pool::fetch_count(top_k, false), limits)
    } else {
        seq![]
    };
    if is_disjoint(fts, vectors, fused, top_k, limits) {
        of_text.push(Penalty::Intersection)
    } else {
        of_text
    }
}

/// Whether results rest on vectors alone, which is the one thing that a caller
/// is warned of.
pub fn vector_only_no_anchor(fts: &Vec<i64>, vectors: &Vec<i64>) -> (r: bool)
    ensures
        r == without_anchor(fts@, vectors@),
{
    fts.len() == 0 && vectors.len() > 0
}

fn set_of(ids: &Vec<i64>) -> (r: HashSet<i64>)
    ensures
        r@ == ids@.to_set(),
{
    let mut out: HashSet<i64> = HashSet::new();
    let mut i: usize = 0;
    assert(ids@.take(0).to_set() =~= Set::<i64>::empty());
    while i < ids.len()
        invariant
            0 <= i <= ids@.len(),
            out@ == ids@.take(i as int).to_set(),
        decreases ids@.len() - i,
    {
        out.insert(ids[i]);
        proof {
            let before = ids@.take(i as int);
            let after = ids@.take(i + 1);
            assert(after == before.push(ids@[i as int]));
            assert forall|id: i64| after.to_set().contains(id) <==> before.to_set().insert(
                ids@[i as int],
            ).contains(id) by {
                if before.contains(id) {
                    let at = choose|at: int| 0 <= at < before.len() && before[at] == id;
                    assert(after[at] == id);
                }
                assert(after[i as int] == ids@[i as int]);
            }
            assert(after.to_set() =~= before.to_set().insert(ids@[i as int]));
        }
        i += 1;
    }
    assert(ids@.take(ids@.len() as int) == ids@);
    out
}

fn share_below(part: usize, whole: u64, thousandths: u32) -> (r: bool)
    ensures
        r == is_share_below(part as int, whole as int, thousandths as int),
{
    assert(thousandths * whole <= 0xffff_ffff * 0xffff_ffff_ffff_ffff) by (nonlinear_arith)
        requires
            0 <= thousandths <= 0xffff_ffff,
            0 <= whole <= 0xffff_ffff_ffff_ffff,
    ;
    (part as u128) * 1000 < (thousandths as u128) * (whole as u128)
}

/// The weaknesses of a search, in the order in which they are weighed. `fts` and
/// `vectors` are what each channel found, `fused` what both make together.
pub fn penalties(
    fts: &Vec<i64>,
    vectors: &Vec<i64>,
    fused: &Vec<i64>,
    or_fallback: bool,
    top_k: i64,
    limits: Thresholds,
) -> (r: Vec<Penalty>)
    requires
        0 <= top_k,
        top_k * 16 <= i64::MAX,
    ensures
        r@ == weaknesses(fts@, vectors@, fused@, or_fallback, top_k as int, limits),
{
    let mut out: Vec<Penalty> = Vec::new();
    let fetch: i64 = pool::search_fetch_count(top_k, false);
    if vector_only_no_anchor(fts, vectors) {
        out.push(Penalty::VectorOnly);
    } else if fts.len() > 0 {
        if or_fallback {
            out.push(Penalty::OrFallback);
        }
        if fts.len() >= CONF_SPARSITY_MIN_FTS {
            if share_below(fts.len(), fetch as u64, limits.sparsity_high) {
                out.push(Penalty::SparsityHigh);
            } else if share_below(fts.len(), fetch as u64, limits.sparsity_medium) {
                out.push(Penalty::SparsityMedium);
            } else if share_below(fts.len(), fetch as u64, limits.sparsity_low) {
                out.push(Penalty::SparsityLow);
            }
        }
    }
    if fts.len() >= CONF_SPARSITY_MIN_FTS && vectors.len() > 0 {
        let by_text = set_of(fts);
        let by_vector = set_of(vectors);
        let ghost top = best(fused@, top_k as int);
        let count: usize = if (fused.len() as u128) <= (top_k as u128) {
            fused.len()
        } else {
            top_k as usize
        };
        assert(count == top.len());
        let mut both: usize = 0;
        let mut i: usize = 0;
        while i < count
            invariant
                0 <= top_k,
                top == best(fused@, top_k as int),
                count == top.len() <= fused@.len(),
                by_text@ == fts@.to_set(),
                by_vector@ == vectors@.to_set(),
                0 <= i <= count,
                both <= i,
                both == common_count(top.take(i as int), fts@.to_set(), vectors@.to_set()),
            decreases count - i,
        {
            let id: i64 = fused[i];
            assert(top[i as int] == id);
            assert(top.take(i + 1).drop_last() == top.take(i as int));
            assert(top.take(i + 1).last() == id);
            if by_text.contains(&id) && by_vector.contains(&id) {
                both += 1;
            }
            i += 1;
        }
        assert(top.take(top.len() as int) == top);
        let whole: u64 = if count == 0 {
            1
        } else {
            count as u64
        };
        if share_below(both, whole, limits.intersection) {
            out.push(Penalty::Intersection);
        }
    }
    assert(out@ =~= weaknesses(fts@, vectors@, fused@, or_fallback, top_k as int, limits));
    out
}

/// A search with a few text matches that hold every word of the query, as one
/// for a precise name has, is not weak at all.
pub proof fn law_precise_search_is_not_penalised(
    fts: Seq<i64>,
    vectors: Seq<i64>,
    fused: Seq<i64>,
    top_k: int,
    limits: Thresholds,
)
    requires
        0 < fts.len() < CONF_SPARSITY_MIN_FTS,
    ensures
        weaknesses(fts, vectors, fused, false, top_k, limits) == Seq::<Penalty>::empty(),
{
}

/// Resting on vectors alone is the only weakness of a search that rests on them
/// alone, and no other search has it.
pub proof fn law_vector_only_stands_alone(
    fts: Seq<i64>,
    vectors: Seq<i64>,
    fused: Seq<i64>,
    or_fallback: bool,
    top_k: int,
    limits: Thresholds,
)
    ensures
        without_anchor(fts, vectors) ==> weaknesses(fts, vectors, fused, or_fallback, top_k, limits)
            == seq![Penalty::VectorOnly],
        !without_anchor(fts, vectors) ==> !weaknesses(
            fts,
            vectors,
            fused,
            or_fallback,
            top_k,
            limits,
        ).contains(Penalty::VectorOnly),
{
    let all = weaknesses(fts, vectors, fused, or_fallback, top_k, limits);
    if without_anchor(fts, vectors) {
        assert(all =~= seq![Penalty::VectorOnly]);
    } else {
        assert forall|i: int| 0 <= i < all.len() implies all[i] != Penalty::VectorOnly by {}
    }
}

proof fn lemma_common_count(ids: Seq<i64>, a: Seq<i64>, b: Seq<i64>)
    ensures
        common_count(ids, a.to_set(), b.to_set()) == ids.filter(
            |id: i64| a.contains(id) && b.contains(id),
        ).len(),
    decreases ids.len(),
{
    reveal(Seq::filter);
    if ids.len() > 0 {
        lemma_common_count(ids.drop_last(), a, b);
    }
}

/// Each weakness is found exactly where it has its cause. Vectors alone: nothing
/// matched the text and something matched the vectors. The fallback: something
/// matched the text, word by word. One of the sparsities, the strictest that
/// holds: at least five texts matched, and they are less than that share of
/// twenty or of four for each result, whichever is more. The intersection: at
/// least five texts and some vectors matched, and less than that share of the
/// best results are among both. None is found twice, and they stand in this order.
pub proof fn law_each_weakness_has_its_cause(
    fts: Seq<i64>,
    vectors: Seq<i64>,
    fused: Seq<i64>,
    or_fallback: bool,
    top_k: int,
    limits: Thresholds,
)
    requires
        0 <= top_k,
    ensures
        ({
            let all = weaknesses(fts, vectors, fused, or_fallback, top_k, limits);
            let asked = if 4 * top_k > 20 {
                4 * top_k
            } else {
                20
            };
            let top = fused.take(
                if top_k < fused.len() {
                    top_k
                } else {
                    fused.len() as int
                },
            );
            let both = top.filter(|id: i64| fts.contains(id) && vectors.contains(id)).len();
            let share = 1000 * fts.len();
            &&& all.contains(Penalty::VectorOnly) <==> fts.len() == 0 && vectors.len() > 0
            &&& all.contains(Penalty::OrFallback) <==> fts.len() > 0 && or_fallback
            &&& all.contains(Penalty::SparsityHigh) <==> fts.len() >= 5 && share
                < limits.sparsity_high * asked
            &&& all.contains(Penalty::SparsityMedium) <==> fts.len() >= 5 && limits.sparsity_high
                * asked <= share < limits.sparsity_medium * asked
            &&& all.contains(Penalty::SparsityLow) <==> fts.len() >= 5 && limits.sparsity_high
                * asked <= share && limits.sparsity_medium * asked <= share < limits.sparsity_low
                * asked
            &&& all.contains(Penalty::Intersection) <==> fts.len() >= 5 && vectors.len() > 0 && 1000
                * both < limits.intersection * (if top.len() == 0 {
                1
            } else {
                top.len() as int
            })
            &&& all.no_duplicates()
            &&& all.contains(Penalty::OrFallback) ==> all[0] == Penalty::OrFallback
            &&& all.contains(Penalty::Intersection) ==> all.last() == Penalty::Intersection
        }),
{
    let all = weaknesses(fts, vectors, fused, or_fallback, top_k, limits);
    let n = if top_k < fused.len() {
        top_k
    } else {
        fused.len() as int
    };
    assert(best(fused, top_k) =~= fused.take(n));
    lemma_common_count(fused.take(n), fts, vectors);
    let few = sparsity(fts.len(), pool::fetch_count(top_k, false), limits);
    let apart = is_disjoint(fts, vectors, fused, top_k, limits);
    if without_anchor(fts, vectors) {
        assert(all =~= seq![Penalty::VectorOnly]);
        assert(all[0] == Penalty::VectorOnly);
    } else if fts.len() > 0 {
        let head: Seq<Penalty> = if or_fallback {
            seq![Penalty::OrFallback]
        } else {
            seq![]
        };
        let tail: Seq<Penalty> = if apart {
            seq![Penalty::Intersection]
        } else {
            seq![]
        };
        assert(all =~= head + few + tail);
        assert(head.len() > 0 ==> all[0] == Penalty::OrFallback);
        assert(few.len() > 0 ==> all[head.len() as int] == few[0]);
        assert(tail.len() > 0 ==> all[all.len() - 1] == Penalty::Intersection);
    } else {
        assert(all =~= Seq::<Penalty>::empty());
    }
}

} // verus!
