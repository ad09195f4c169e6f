//! The order of the results: best score first, and among equal scores the order
//! of the fetch.

use crate::pool;
use crate::pool::Kept;
use crate::pool::Row;
use crate::text;
use serde_json::Value;
use vstd::prelude::*;

verus! {

/// A row with its score.
pub struct Candidate {
    pub row: Row,
    /// The IEEE 754 bits of the score, a double-precision number.
    pub score_bits: u64,
    /// The score as the answer shows it.
    pub relevance: Value,
}

/// The rows of a pool with their scores: those with the bits `bits`, shown as
/// `shown`.
pub open spec fn with_scores(kept: Seq<Kept>, bits: Seq<u64>, shown: Seq<Value>) -> Seq<Candidate> {
    Seq::new(
        kept.len(),
        |i: int| Candidate { row: kept[i].row, score_bits: bits[i], relevance: shown[i] },
    )
}

fn reversed(values: Vec<Value>) -> (r: Vec<Value>)
    ensures
        r@ == values@.reverse(),
{
    let mut left = values;
    let mut out: Vec<Value> = Vec::new();
    while left.len() > 0
        invariant
            out@.len() + left@.len() == values@.len(),
            left@ == values@.take(left@.len() as int),
            forall|i: int| 0 <= i < out@.len() ==> out@[i] == values@[values@.len() - 1 - i],
        decreases left@.len(),
    {
        if let Some(v) = left.pop() {
            out.push(v);
        }
    }
    assert(out@ =~= values@.reverse());
    out
}

/// Puts the rows of a pool together with their scores, each with the one at its
/// own position: the score's bits and the score as the answer shows it.
pub fn scored(kept: Vec<Kept>, bits: &Vec<u64>, shown: Vec<Value>) -> (r: Vec<Candidate>)
    requires
        bits@.len() == kept@.len(),
        shown@.len() == kept@.len(),
    ensures
        r@ == with_scores(kept@, bits@, shown@),
{
    let ghost rows = kept@;
    let ghost values = shown@;
    let mut later = reversed(shown);
    let mut out: Vec<Candidate> = Vec::new();
    for k in it: kept
        invariant
            it.seq() == rows,
            bits@.len() == rows.len(),
            values.len() == rows.len(),
            out@.len() == it.index(),
            later@ == values.skip(it.index() as int).reverse(),
            forall|i: int|
                0 <= i < out@.len() ==> #[trigger] out@[i] == with_scores(rows, bits@, values)[i],
    {
        let at: usize = out.len();
        let ghost rest = values.skip(at as int);
        if let Some(relevance) = later.pop() {
            assert(relevance == rest[0]);
            assert(later@ =~= values.skip(at + 1).reverse());
            out.push(Candidate { row: k.row, score_bits: bits[at], relevance });
        }
    }
    assert(out@ =~= with_scores(rows, bits@, values));
    out
}

/// Where a double-precision number stands in the total order of IEEE 754: a
/// number with its sign bit clear goes by its bits, one with its sign bit set
/// comes before all of those, the farther the greater its magnitude.
pub open spec fn score_order(bits: u64) -> int {
    if bits < 0x8000_0000_0000_0000 {
        bits as int
    } else {
        0x7fff_ffff_ffff_ffff - bits
    }
}

/// Where a double-precision number stands in the total order of IEEE 754.
pub fn score_key(bits: u64) -> (r: i64)
    ensures
        r == score_order(bits),
{
    if bits < 0x8000_0000_0000_0000 {
        bits as i64
    } else {
        -1 - ((bits - 0x8000_0000_0000_0000) as i64)
    }
}

/// Where a candidate stands in the order of scores.
pub open spec fn order(c: Candidate) -> int {
    score_order(c.score_bits)
}

/// Where a candidate of order `k` goes among `s`: behind the last one that is
/// not worse.
pub open spec fn place(s: Seq<Candidate>, k: int) -> int
    decreases s.len(),
{
    if s.len() == 0 {
        0
    } else if order(s.last()) >= k {
        s.len() as int
    } else {
        place(s.drop_last(), k)
    }
}

/// The candidates with the best first; those of one order stay as they were.
pub open spec fn ranked(s: Seq<Candidate>) -> Seq<Candidate>
    decreases s.len(),
{
    if s.len() == 0 {
        seq![]
    } else {
        let rest = ranked(s.drop_last());
        rest.insert(place(rest, order(s.last())), s.last())
    }
}

/// The first `top_k` of `s`, or all of them where there are fewer.
pub open spec fn first_of(s: Seq<Candidate>, top_k: int) -> Seq<Candidate> {
    if top_k < s.len() {
        s.take(top_k)
    } else {
        s
    }
}

proof fn lemma_place(s: Seq<Candidate>, k: int)
    ensures
        0 <= place(s, k) <= s.len(),
        place(s, k) > 0 ==> order(s[place(s, k) - 1]) >= k,
        forall|i: int| place(s, k) <= i < s.len() ==> order(#[trigger] s[i]) < k,
    decreases s.len(),
{
    if s.len() > 0 && order(s.last()) < k {
        lemma_place(s.drop_last(), k);
        assert forall|i: int| place(s, k) <= i < s.len() implies order(#[trigger] s[i]) < k by {
            if i < s.len() - 1 {
                assert(s.drop_last()[i] == s[i]);
            }
        }
    }
}

proof fn lemma_ranked_len(s: Seq<Candidate>)
    ensures
        ranked(s).len() == s.len(),
    decreases s.len(),
{
    if s.len() > 0 {
        lemma_ranked_len(s.drop_last());
        lemma_place(ranked(s.drop_last()), order(s.last()));
    }
}

/// The ranked candidates are those that were given, no more and no fewer.
pub proof fn law_ranking_loses_nothing(s: Seq<Candidate>)
    ensures
        ranked(s).to_multiset() == s.to_multiset(),
        ranked(s).len() == s.len(),
    decreases s.len(),
{
    lemma_ranked_len(s);
    if s.len() > 0 {
        let rest = ranked(s.drop_last());
        law_ranking_loses_nothing(s.drop_last());
        lemma_place(rest, order(s.last()));
        vstd::seq_lib::to_multiset_insert(rest, place(rest, order(s.last())), s.last());
        vstd::seq_lib::to_multiset_build(s.drop_last(), s.last());
        assert(s.drop_last().push(s.last()) == s);
    } else {
        assert(ranked(s) =~= s);
    }
}

/// Each of the best candidates is one of those that were given.
pub proof fn law_best_are_among_the_given(s: Seq<Candidate>, top_k: int)
    requires
        0 <= top_k,
    ensures
        forall|j: int|
            0 <= j < first_of(ranked(s), top_k).len() ==> s.contains(
                #[trigger] first_of(ranked(s), top_k)[j],
            ),
{
    law_ranking_loses_nothing(s);
    assert forall|j: int| 0 <= j < first_of(ranked(s), top_k).len() implies s.contains(
        #[trigger] first_of(ranked(s), top_k)[j],
    ) by {
        let c = first_of(ranked(s), top_k)[j];
        assert(c == ranked(s)[j]);
        vstd::seq_lib::to_multiset_contains(ranked(s), c);
        vstd::seq_lib::to_multiset_contains(s, c);
    }
}

/// No candidate stands behind a worse one.
pub proof fn law_ranking_puts_the_best_first(s: Seq<Candidate>)
    ensures
        forall|i: int, j: int|
            0 <= i <= j < ranked(s).len() ==> order(#[trigger] ranked(s)[i]) >= order(
                #[trigger] ranked(s)[j],
            ),
    decreases s.len(),
{
    if s.len() > 0 {
        let rest = ranked(s.drop_last());
        let c = s.last();
        let p = place(rest, order(c));
        law_ranking_puts_the_best_first(s.drop_last());
        lemma_place(rest, order(c));
        let all = rest.insert(p, c);
        assert forall|i: int| 0 <= i < all.len() implies #[trigger] all[i] == (if i < p {
            rest[i]
        } else if i == p {
            c
        } else {
            rest[i - 1]
        }) by {}
        assert forall|i: int, j: int| 0 <= i <= j < all.len() implies order(#[trigger] all[i])
            >= order(#[trigger] all[j]) by {
            if i < p && p <= j {
                assert(order(rest[i]) >= order(rest[p - 1]));
                if j > p {
                    assert(order(rest[j - 1]) < order(c));
                }
            } else if i == p && j > p {
                assert(order(rest[j - 1]) < order(c));
            }
        }
    }
}

/// Candidates of one order stand as they were given.
pub proof fn law_ranking_keeps_equals_in_order(s: Seq<Candidate>, k: int)
    ensures
        ranked(s).filter(|c: Candidate| order(c) == k) == s.filter(|c: Candidate| order(c) == k),
    decreases s.len(),
{
    let same = |c: Candidate| order(c) == k;
    reveal(Seq::filter);
    if s.len() > 0 {
        let rest = ranked(s.drop_last());
        let c = s.last();
        let p = place(rest, order(c));
        law_ranking_keeps_equals_in_order(s.drop_last(), k);
        lemma_place(rest, order(c));
        let front = rest.subrange(0, p);
        let back = rest.subrange(p, rest.len() as int);
        assert(front + back =~= rest);
        Seq::filter_distributes_over_add(front, back, same);
        Seq::filter_distributes_over_add(front.push(c), back, same);
        assert(front.push(c).drop_last() =~= front);
        if same(c) {
            lemma_nothing_to_keep(back, same);
        }
        assert(ranked(s).filter(same) =~= s.filter(same));
    } else {
        assert(ranked(s) =~= s);
    }
}

proof fn lemma_nothing_to_keep(s: Seq<Candidate>, p: spec_fn(Candidate) -> bool)
    requires
        forall|i: int| 0 <= i < s.len() ==> !p(#[trigger] s[i]),
    ensures
        s.filter(p) == Seq::<Candidate>::empty(),
    decreases s.len(),
{
    reveal(Seq::filter);
    if s.len() > 0 {
        lemma_nothing_to_keep(s.drop_last(), p);
    }
}

/// The best `top_k` candidates, best first; among equal scores the order of the
/// fetch decides.
pub fn rank_candidates(candidates: Vec<Candidate>, top_k: i64) -> (r: Vec<Candidate>)
    requires
        0 <= top_k,
    ensures
        r@ == first_of(ranked(candidates@), top_k as int),
{
    let ghost all = candidates@;
    let mut out: Vec<Candidate> = Vec::new();
    for c in it: candidates
        invariant
            it.seq() == all,
            out@ == ranked(all.take(it.index() as int)),
    {
        let ghost n = it.index() as int;
        let key: i64 = score_key(c.score_bits);
        let mut at: usize = out.len();
        assert(out@.take(at as int) == out@);
        while at > 0 && score_key(out[at - 1].score_bits) < key
            invariant
                at <= out@.len(),
                key == order(c),
                place(out@, key as int) == place(out@.take(at as int), key as int),
            decreases at,
        {
            assert(out@.take(at as int).drop_last() == out@.take(at - 1));
            at -= 1;
        }
        proof {
            assert(all.take(n + 1).drop_last() == all.take(n));
            assert(all.take(n + 1).last() == c);
            assert(at == place(out@, key as int));
        }
        out.insert(at, c);
    }
    assert(all.take(all.len() as int) == all);
    proof {
        lemma_ranked_len(all);
    }
    if (top_k as u128) < (out.len() as u128) {
        out.truncate(top_k as usize);
    }
    out
}

/// Whether one of the five best candidates is called what the query says.
pub open spec fn exact_name_on_top(best: Seq<Candidate>, identifier: Seq<char>) -> bool {
    exists|i: int|
        0 <= i < best.len() && i < 5 && pool::is_exact_name(
            (#[trigger] best[i]).row,
            identifier,
        )
}

/// Whether one of the five best candidates is called what the query says.
/// `identifier` is the query in lowercase.
pub fn has_exact_name_match(best: &Vec<Candidate>, identifier: &str) -> (r: bool)
    ensures
        r == exact_name_on_top(best@, identifier@),
{
    let mut i: usize = 0;
    while i < best.len() && i < 5
        invariant
            0 <= i <= best@.len(),
            i <= 5,
            forall|j: int|
                0 <= j < i ==> !pool::is_exact_name((#[trigger] best@[j]).row, identifier@),
        decreases best@.len() - i,
    {
        if pool::has_exact_name(&best[i].row, identifier) {
            assert(pool::is_exact_name(best@[i as int].row, identifier@));
            return true;
        }
        i += 1;
    }
    false
}

/// Of two numbers without a sign bit the one with more bits is the greater; of two
/// with one it is the lesser; and one with a sign bit is less than one without.
pub proof fn law_scores_are_ordered_as_numbers(a: u64, b: u64)
    ensures
        a < b && b < 0x8000_0000_0000_0000 ==> score_order(a) < score_order(b),
        0x8000_0000_0000_0000 <= a && a < b ==> score_order(b) < score_order(a),
        a < 0x8000_0000_0000_0000 && 0x8000_0000_0000_0000 <= b ==> score_order(b) < score_order(a),
{
}

/// No candidate stands behind one with a lesser score, told by the bits of both:
/// none with a sign bit comes before one without, those without go down by their
/// bits, and those with one go up.
pub proof fn law_greater_scores_come_first(s: Seq<Candidate>, i: int, j: int)
    requires
        0 <= i < j < s.len(),
    ensures
        ({
            let front = ranked(s)[i].score_bits;
            let back = ranked(s)[j].score_bits;
            &&& front >= 0x8000_0000_0000_0000 ==> back >= 0x8000_0000_0000_0000 && front <= back
            &&& back < 0x8000_0000_0000_0000 ==> front < 0x8000_0000_0000_0000 && front >= back
        }),
{
    law_ranking_loses_nothing(s);
    law_ranking_puts_the_best_first(s);
    let front = ranked(s)[i];
    let back = ranked(s)[j];
    assert(order(front) >= order(back));
}

/// Candidates with the same score stand as they were given.
pub proof fn law_same_scores_keep_their_order(s: Seq<Candidate>, bits: u64)
    ensures
        ranked(s).filter(|c: Candidate| c.score_bits == bits) == s.filter(
            |c: Candidate| c.score_bits == bits,
        ),
{
    let by_order = |c: Candidate| order(c) == score_order(bits);
    let by_bits = |c: Candidate| c.score_bits == bits;
    law_ranking_keeps_equals_in_order(s, score_order(bits));
    assert forall|c: Candidate| #[trigger] by_order(c) == by_bits(c) by {}
    assert(by_order =~= by_bits);
}

/// The best are the first of the ranked, `top_k` of them or all there are.
pub proof fn law_best_are_the_first(s: Seq<Candidate>, top_k: int)
    requires
        0 <= top_k,
    ensures
        first_of(s, top_k).len() <= top_k && first_of(s, top_k).len() <= s.len(),
        first_of(s, top_k).len() == top_k || first_of(s, top_k).len() == s.len(),
        forall|i: int| 0 <= i < first_of(s, top_k).len() ==> #[trigger] first_of(s, top_k)[i] == s[i],
{
}

/// Each row goes with the score at its own position.
pub proof fn law_scores_go_with_their_rows(
    kept: Seq<Kept>,
    bits: Seq<u64>,
    shown: Seq<Value>,
    i: int,
)
    requires
        0 <= i < kept.len(),
    ensures
        with_scores(kept, bits, shown).len() == kept.len(),
        with_scores(kept, bits, shown)[i].row == kept[i].row,
        with_scores(kept, bits, shown)[i].score_bits == bits[i],
        with_scores(kept, bits, shown)[i].relevance == shown[i],
{
}

/// A name that is the query is on top where it stands among the first five, as the
/// name or as the qualified name of a candidate, and nowhere else.
pub proof fn law_exact_name_is_on_top_among_five(best: Seq<Candidate>, asked: Seq<char>, i: int)
    ensures
        0 <= i < 5 && i < best.len() && text::lowercase(best[i].row.name@) == asked
            ==> exact_name_on_top(best, asked),
        0 <= i < 5 && i < best.len() && (best[i].row.qualified_name matches Some(q)
            && text::lowercase(q@) == asked) ==> exact_name_on_top(best, asked),
        exact_name_on_top(best, asked) ==> exists|j: int|
            0 <= j < 5 && j < best.len() && (text::lowercase((#[trigger] best[j]).row.name@) == asked
                || (best[j].row.qualified_name matches Some(q) && text::lowercase(q@) == asked)),
{
    if 0 <= i < 5 && i < best.len() {
        let row = best[i].row;
        if text::lowercase(row.name@) == asked {
            assert(pool::is_exact_name(row, asked));
        }
        if row.qualified_name is Some && text::lowercase(row.qualified_name->0@) == asked {
            assert(pool::is_exact_name(row, asked));
        }
    }
}

} // verus!
