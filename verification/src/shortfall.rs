//! What a short list of results cannot say about itself: how much of the
//! candidate pool was consumed before the list was filled.

use crate::json;
use crate::json::Json;
use crate::text;
use serde_json::Value;
use vstd::prelude::*;

verus! {

/// The least and the greatest `top_k` of the search tool.
pub const TOP_K_RANGE: (u64, u64) = (1, 100);

/// The range that a tool's count argument is clamped to, for the arguments whose
/// range this library knows. The only one is the `top_k` of the search tool.
pub fn count_range(tool: &str, argument: &str) -> (r: Option<(u64, u64)>)
    ensures
        r == (if tool@ == "semantic_code_search"@ && argument@ == "top_k"@ {
            Some((1u64, 100u64))
        } else {
            None
        }),
{
    if text::same_text(tool, "semantic_code_search") && text::same_text(argument, "top_k") {
        Some(TOP_K_RANGE)
    } else {
        None
    }
}

/// What the search knows about the pool that its answer came from.
#[derive(Debug, Clone, Copy)]
pub struct PoolShortfall {
    /// Rows that the caller's language or type filter removed after the fetch.
    pub dropped_by_filter: usize,
    /// Rows that the filter against placeholders and tests removed.
    pub skipped_noise: usize,
    /// How many rows the pool of the returned candidates held.
    pub pool_len: usize,
    /// The widest fetch came back full and was still consumed before `top_k`
    /// was filled, so rows below the cut were never looked at.
    pub saturated: bool,
    /// The `top_k` that the answer was built for.
    pub top_k: i64,
}

impl Default for PoolShortfall {
    fn default() -> (r: Self)
        ensures
            r == (PoolShortfall {
                dropped_by_filter: 0,
                skipped_noise: 0,
                pool_len: 0,
                saturated: false,
                top_k: 0,
            }),
    {
        PoolShortfall {
            dropped_by_filter: 0,
            skipped_noise: 0,
            pool_len: 0,
            saturated: false,
            top_k: 0,
        }
    }
}

/// Whether no greater `top_k` than this one can be asked for. A negative one
/// counts as beyond every ceiling.
pub open spec fn at_ceiling(top_k: int) -> bool {
    top_k < 0 || top_k >= 100
}

/// The sentence, led by a blank, that says the pool came back full; nothing where
/// it did not.
pub open spec fn exhaustion_text(shortfall: PoolShortfall) -> Seq<char> {
    if !shortfall.saturated {
        seq![]
    } else if at_ceiling(shortfall.top_k as int) {
        " The candidate pool ("@ + text::decimal(shortfall.pool_len as nat)
            + " rows) came back full at the maximum top_k, so matches may sit below the cut. Narrow the query to reach them."@
    } else {
        " The candidate pool ("@ + text::decimal(shortfall.pool_len as nat)
            + " rows) came back full before top_k was filled, so matches may sit below the cut. Raise top_k to widen it."@
    }
}

/// The keys of an answer that has been told of the shortfall.
pub open spec fn disclosed(shortfall: PoolShortfall, keys: Map<Seq<char>, Json>) -> Map<
    Seq<char>,
    Json,
> {
    if !shortfall.saturated {
        keys
    } else {
        let flagged = keys.insert("pool_saturated"@, Json::Bool(true)).insert(
            "pool_saturated_note"@,
            Json::Text(text::trimmed(exhaustion_text(shortfall))),
        );
        let counted = if shortfall.dropped_by_filter > 0 {
            flagged.insert(
                "dropped_by_filter"@,
                Json::Integer(shortfall.dropped_by_filter as int),
            )
        } else {
            flagged
        };
        if shortfall.skipped_noise > 0 {
            counted.insert("skipped_noise"@, Json::Integer(shortfall.skipped_noise as int))
        } else {
            counted
        }
    }
}

impl PoolShortfall {
    /// One sentence that names the pool that ran out; empty where nothing was cut
    /// off. At the greatest `top_k` it advises a narrower query, since no greater
    /// one can be asked for.
    pub fn exhaustion_note(&self) -> (r: String)
        ensures
            r@ == exhaustion_text(*self),
    {
        if !self.saturated {
            return String::new();
        }
        let at_limit = match count_range("semantic_code_search", "top_k") {
            Some(range) => self.top_k < 0 || self.top_k as u64 >= range.1,
            None => false,
        };
        let mut out = " The candidate pool (".to_owned();
        let rows = text::decimal_text(self.pool_len as u64);
        out.append(rows.as_str());
        if at_limit {
            out.append(
                " rows) came back full at the maximum top_k, so matches may sit below the cut. Narrow the query to reach them.",
            );
        } else {
            out.append(
                " rows) came back full before top_k was filled, so matches may sit below the cut. Raise top_k to widen it.",
            );
        }
        out
    }

    /// Tells an answer of the shortfall. An answer that nothing was cut off from,
    /// and a value that is no object, stay as they are.
    pub fn attach(&self, out: &mut Value)
        ensures
            match json::json(*old(out)) {
                Json::Object(keys) => json::json(*final(out)) == Json::Object(
                    disclosed(*self, keys),
                ),
                _ => *final(out) == *old(out),
            },
            !self.saturated ==> *final(out) == *old(out),
    {
        if !self.saturated {
            return;
        }
        match out.as_object_mut() {
            None => {},
            Some(obj) => {
                json::put(obj, "pool_saturated", json::bool_value(true));
                let note = self.exhaustion_note();
                let note = text::trim_text(note.as_str());
                json::put(obj, "pool_saturated_note", json::text_value(note.as_str()));
                if self.dropped_by_filter > 0 {
                    json::put(obj, "dropped_by_filter", json::count_value(self.dropped_by_filter));
                }
                if self.skipped_noise > 0 {
                    json::put(obj, "skipped_noise", json::count_value(self.skipped_noise));
                }
            },
        }
    }
}

/// The power of ten with `digits` zeros.
pub open spec fn power_of_ten(digits: nat) -> nat
    decreases digits,
{
    if digits == 0 {
        1
    } else {
        10 * power_of_ten((digits - 1) as nat)
    }
}

proof fn lemma_decimal_len(n: nat, digits: nat)
    requires
        n < power_of_ten(digits),
        digits > 0,
    ensures
        text::decimal(n).len() <= digits,
    decreases n,
{
    if n >= 10 {
        if digits == 1 {
            assert(power_of_ten(0) == 1);
        }
        lemma_decimal_len(n / 10, (digits - 1) as nat);
    }
}

/// The head and the two tails that an exhaustion sentence is put together from
/// are ASCII, and the tail for the greatest `top_k` holds no capital R.
proof fn lemma_wording()
    ensures
        " The candidate pool ("@.len() == 21,
        " rows) came back full at the maximum top_k, so matches may sit below the cut. Narrow the query to reach them."@.len()
            == 109,
        " rows) came back full before top_k was filled, so matches may sit below the cut. Raise top_k to widen it."@.len()
            == 105,
        forall|i: int|
            0 <= i < 21 ==> plain_without_capital_r(#[trigger] " The candidate pool ("@[i]),
        forall|i: int|
            0 <= i < 109 ==> plain_without_capital_r(
                #[trigger] " rows) came back full at the maximum top_k, so matches may sit below the cut. Narrow the query to reach them."@[i],
            ),
        forall|i: int|
            0 <= i < 105 ==> plain(
                #[trigger] " rows) came back full before top_k was filled, so matches may sit below the cut. Raise top_k to widen it."@[i],
            ),
{
    reveal_strlit(" The candidate pool (");
    reveal_strlit(
        " rows) came back full at the maximum top_k, so matches may sit below the cut. Narrow the query to reach them.",
    );
    reveal_strlit(
        " rows) came back full before top_k was filled, so matches may sit below the cut. Raise top_k to widen it.",
    );
    let head = " The candidate pool ("@;
    let at_limit =
        " rows) came back full at the maximum top_k, so matches may sit below the cut. Narrow the query to reach them."@;
    let below =
        " rows) came back full before top_k was filled, so matches may sit below the cut. Raise top_k to widen it."@;
    let p = |c: char| plain(c);
    let q = |c: char| plain_without_capital_r(c);
    assert(text::first_have(head, 21, q)) by {
        reveal_with_fuel(text::first_have, 22);
    }
    assert(text::first_have(at_limit, 55, q)) by {
        reveal_with_fuel(text::first_have, 56);
    }
    assert(text::first_have(at_limit, 109, q)) by {
        reveal_with_fuel(text::first_have, 56);
    }
    assert(text::first_have(below, 55, p)) by {
        reveal_with_fuel(text::first_have, 56);
    }
    assert(text::first_have(below, 105, p)) by {
        reveal_with_fuel(text::first_have, 56);
    }
    text::lemma_first_have(head, 21, q);
    text::lemma_first_have(at_limit, 109, q);
    text::lemma_first_have(below, 105, p);
    assert forall|i: int| 0 <= i < 21 implies plain_without_capital_r(#[trigger] head[i]) by {
        assert(q(head[i]));
    }
    assert forall|i: int| 0 <= i < 109 implies plain_without_capital_r(#[trigger] at_limit[i]) by {
        assert(q(at_limit[i]));
    }
    assert forall|i: int| 0 <= i < 105 implies plain(#[trigger] below[i]) by {
        assert(p(below[i]));
    }
}

/// Every character of the sentence is ASCII, and there are at most 150 of them.
proof fn lemma_exhaustion_text(shortfall: PoolShortfall)
    ensures
        exhaustion_text(shortfall).len() <= 150,
        forall|i: int|
            0 <= i < exhaustion_text(shortfall).len() ==> plain(
                #[trigger] exhaustion_text(shortfall)[i],
            ),
        at_ceiling(shortfall.top_k as int) ==> forall|i: int|
            0 <= i < exhaustion_text(shortfall).len() ==> #[trigger] exhaustion_text(shortfall)[i]
                != 'R',
{
    let n = shortfall.pool_len as nat;
    let rows = text::decimal(n);
    assert(power_of_ten(20) == 100_000_000_000_000_000_000) by {
        reveal_with_fuel(power_of_ten, 21);
    }
    lemma_decimal_len(n, 20);
    text::lemma_decimal_is_numeral(n);
    lemma_wording();
    let note = exhaustion_text(shortfall);
    let head = " The candidate pool ("@;
    let at_limit =
        " rows) came back full at the maximum top_k, so matches may sit below the cut. Narrow the query to reach them."@;
    let below =
        " rows) came back full before top_k was filled, so matches may sit below the cut. Raise top_k to widen it."@;
    if shortfall.saturated {
        assert forall|i: int| 0 <= i < note.len() implies plain(#[trigger] note[i]) && (at_ceiling(
            shortfall.top_k as int,
        ) ==> note[i] != 'R') by {
            if i < 21 {
                assert(note[i] == head[i]);
            } else if i < 21 + rows.len() {
                assert(note[i] == rows[i - 21]);
                assert(text::is_digit(rows[i - 21]));
            } else if at_ceiling(shortfall.top_k as int) {
                assert(note[i] == at_limit[i - 21 - rows.len()]);
            } else {
                assert(note[i] == below[i - 21 - rows.len()]);
            }
        }
    }
}

/// Whatever the pool, the sentence that an answer carries stays below the 200
/// bytes from which on a long text of a large answer is cut short.
pub proof fn law_note_is_never_cut_short(shortfall: PoolShortfall)
    ensures
        vstd::utf8::encode_utf8(text::trimmed(exhaustion_text(shortfall))).len() < 200,
{
    lemma_exhaustion_text(shortfall);
    let note = exhaustion_text(shortfall);
    text::lemma_trimmed_is_inside(note);
    let (from, to) = choose|from: int, to: int|
        0 <= from <= to <= note.len() && text::trimmed(note) == #[trigger] note.subrange(from, to);
    let shown = note.subrange(from, to);
    assert(vstd::utf8::is_ascii_chars(shown)) by {
        assert forall|i: int| 0 <= i < shown.len() implies plain(#[trigger] shown[i]) by {
            assert(shown[i] == note[from + i]);
        }
    }
    vstd::utf8::is_ascii_chars_encode_utf8(shown);
}

/// The sentence starts with one blank, and no white space stands behind it or at
/// its end.
proof fn lemma_exhaustion_ends(shortfall: PoolShortfall)
    requires
        shortfall.saturated,
    ensures
        text::trimmed(exhaustion_text(shortfall)) == exhaustion_text(shortfall).skip(1),
{
    lemma_wording();
    let note = exhaustion_text(shortfall);
    let at_limit =
        " rows) came back full at the maximum top_k, so matches may sit below the cut. Narrow the query to reach them."@;
    let below =
        " rows) came back full before top_k was filled, so matches may sit below the cut. Raise top_k to widen it."@;
    reveal_strlit(" The candidate pool (");
    reveal_strlit(
        " rows) came back full at the maximum top_k, so matches may sit below the cut. Narrow the query to reach them.",
    );
    reveal_strlit(
        " rows) came back full before top_k was filled, so matches may sit below the cut. Raise top_k to widen it.",
    );
    let rest = note.skip(1);
    assert(note[0] == ' ');
    assert(rest[0] == 'T');
    if at_ceiling(shortfall.top_k as int) {
        assert(note.last() == at_limit[108]);
    } else {
        assert(note.last() == below[104]);
    }
    assert(rest.last() == '.');
    assert(text::trim_start(rest) == rest);
    assert(text::trim_start(note) == rest);
    assert(text::trim_end(rest) == rest);
}

/// Without the blank in front, the sentence takes 125 bytes besides the number of
/// rows, and 129 at the greatest `top_k`: 129 and 133 for the widest pool of 1600
/// rows.
pub proof fn law_note_has_a_known_size(shortfall: PoolShortfall)
    requires
        shortfall.saturated,
    ensures
        text::trimmed(exhaustion_text(shortfall)) == exhaustion_text(shortfall).skip(1),
        vstd::utf8::encode_utf8(text::trimmed(exhaustion_text(shortfall))).len() == text::decimal(
            shortfall.pool_len as nat,
        ).len() + (if at_ceiling(shortfall.top_k as int) {
            129int
        } else {
            125
        }),
        shortfall.pool_len == 1600 ==> vstd::utf8::encode_utf8(
            text::trimmed(exhaustion_text(shortfall)),
        ).len() == (if at_ceiling(shortfall.top_k as int) {
            133int
        } else {
            129
        }),
{
    lemma_exhaustion_text(shortfall);
    lemma_wording();
    lemma_exhaustion_ends(shortfall);
    let note = exhaustion_text(shortfall);
    let shown = note.skip(1);
    assert(vstd::utf8::is_ascii_chars(shown)) by {
        assert forall|i: int| 0 <= i < shown.len() implies plain(#[trigger] shown[i]) by {
            assert(shown[i] == note[i + 1]);
        }
    }
    vstd::utf8::is_ascii_chars_encode_utf8(shown);
    assert(text::decimal(1600).len() == 4) by {
        reveal_with_fuel(text::decimal, 5);
    }
}

/// Whether none of the first `n` characters of `s` is an `l` in front of a `t`.
spec fn no_l_before_t(s: Seq<char>, n: nat) -> bool
    decreases n,
{
    n == 0 || (!(s[n - 1] == 'l' && s[n as int] == 't') && no_l_before_t(s, (n - 1) as nat))
}

proof fn lemma_no_l_before_t(s: Seq<char>, n: nat)
    requires
        no_l_before_t(s, n),
    ensures
        forall|i: int| 0 <= i < n ==> #[trigger] s[i] == 'l' ==> s[i + 1] != 't',
    decreases n,
{
    if n > 0 {
        lemma_no_l_before_t(s, (n - 1) as nat);
    }
}

/// The sentence depends on the size of the pool and on `top_k` alone: what was
/// left out of the pool, and why, does not change it, and it never speaks of a
/// filter.
pub proof fn law_note_speaks_only_of_the_pool(a: PoolShortfall, b: PoolShortfall)
    requires
        a.saturated == b.saturated,
        a.pool_len == b.pool_len,
        a.top_k == b.top_k,
    ensures
        exhaustion_text(a) == exhaustion_text(b),
        !text::contains_text(exhaustion_text(a), "filter"@),
{
    lemma_wording();
    let note = exhaustion_text(a);
    let head = " The candidate pool ("@;
    let rows = text::decimal(a.pool_len as nat);
    let at_limit =
        " rows) came back full at the maximum top_k, so matches may sit below the cut. Narrow the query to reach them."@;
    let below =
        " rows) came back full before top_k was filled, so matches may sit below the cut. Raise top_k to widen it."@;
    reveal_strlit("filter");
    reveal_strlit(" The candidate pool (");
    reveal_strlit(
        " rows) came back full at the maximum top_k, so matches may sit below the cut. Narrow the query to reach them.",
    );
    reveal_strlit(
        " rows) came back full before top_k was filled, so matches may sit below the cut. Raise top_k to widen it.",
    );
    assert(no_l_before_t(head, 20)) by {
        reveal_with_fuel(no_l_before_t, 21);
    }
    assert(no_l_before_t(at_limit, 54)) by {
        reveal_with_fuel(no_l_before_t, 55);
    }
    assert(no_l_before_t(at_limit, 108)) by {
        reveal_with_fuel(no_l_before_t, 55);
    }
    assert(no_l_before_t(below, 52)) by {
        reveal_with_fuel(no_l_before_t, 53);
    }
    assert(no_l_before_t(below, 104)) by {
        reveal_with_fuel(no_l_before_t, 53);
    }
    lemma_no_l_before_t(head, 20);
    lemma_no_l_before_t(at_limit, 108);
    lemma_no_l_before_t(below, 104);
    text::lemma_decimal_is_numeral(a.pool_len as nat);
    assert forall|at: int| !text::occurs_at(note, "filter"@, at) by {
        if text::occurs_at(note, "filter"@, at) {
            let found = note.subrange(at, at + 6);
            let i = at + 2;
            assert(found[2] == 'l' && found[3] == 't');
            assert(note[i] == 'l' && note[i + 1] == 't');
            if i < 20 {
                assert(note[i] == head[i] && note[i + 1] == head[i + 1]);
            } else if i == 20 {
                assert(note[i] == head[20]);
            } else if i < 21 + rows.len() {
                assert(note[i] == rows[i - 21]);
                assert(text::is_digit(rows[i - 21]));
            } else {
                let j = i - 21 - rows.len();
                if at_ceiling(a.top_k as int) {
                    assert(note[i] == at_limit[j] && note[i + 1] == at_limit[j + 1]);
                } else {
                    assert(note[i] == below[j] && note[i + 1] == below[j + 1]);
                }
            }
        }
    }
}

/// At the greatest `top_k` the sentence advises a narrower query and never a
/// greater `top_k`; below it, it advises a greater one.
pub proof fn law_note_gives_advice_that_can_be_followed(shortfall: PoolShortfall)
    requires
        shortfall.saturated,
    ensures
        at_ceiling(shortfall.top_k as int) ==> {
            &&& text::contains_text(exhaustion_text(shortfall), "Narrow the query"@)
            &&& !text::contains_text(exhaustion_text(shortfall), "Raise top_k"@)
        },
        !at_ceiling(shortfall.top_k as int) ==> text::contains_text(
            exhaustion_text(shortfall),
            "Raise top_k to widen it"@,
        ),
{
    lemma_exhaustion_text(shortfall);
    lemma_wording();
    let note = exhaustion_text(shortfall);
    let front = " The candidate pool ("@ + text::decimal(shortfall.pool_len as nat);
    if at_ceiling(shortfall.top_k as int) {
        let tail =
            " rows) came back full at the maximum top_k, so matches may sit below the cut. Narrow the query to reach them."@;
        reveal_strlit(
            " rows) came back full at the maximum top_k, so matches may sit below the cut. Narrow the query to reach them.",
        );
        reveal_strlit("Narrow the query");
        reveal_strlit("Raise top_k");
        assert(text::agrees(tail, "Narrow the query"@, 78, 16)) by {
            reveal_with_fuel(text::agrees, 17);
        }
        text::lemma_occurs(front, tail, "Narrow the query"@, 78);
        assert(front + tail == note);
        assert forall|at: int| !text::occurs_at(note, "Raise top_k"@, at) by {
            if text::occurs_at(note, "Raise top_k"@, at) {
                assert(note.subrange(at, at + 11)[0] == 'R');
                assert(note[at] == 'R');
            }
        }
    } else {
        let tail =
            " rows) came back full before top_k was filled, so matches may sit below the cut. Raise top_k to widen it."@;
        reveal_strlit(
            " rows) came back full before top_k was filled, so matches may sit below the cut. Raise top_k to widen it.",
        );
        reveal_strlit("Raise top_k to widen it");
        assert(text::agrees(tail, "Raise top_k to widen it"@, 81, 23)) by {
            reveal_with_fuel(text::agrees, 24);
        }
        text::lemma_occurs(front, tail, "Raise top_k to widen it"@, 81);
        assert(front + tail == note);
    }
}

/// Telling an answer of the shortfall leaves every key as it is but the four of
/// the disclosure, and changes nothing where nothing was cut off.
pub proof fn law_disclosure_keeps_the_rest(shortfall: PoolShortfall, keys: Map<Seq<char>, Json>)
    ensures
        !shortfall.saturated ==> disclosed(shortfall, keys) == keys,
        forall|k: Seq<char>|
            #![trigger disclosed(shortfall, keys).contains_key(k)]
            k != "pool_saturated"@ && k != "pool_saturated_note"@ && k != "dropped_by_filter"@ && k
                != "skipped_noise"@ ==> disclosed(shortfall, keys).contains_key(k)
                == keys.contains_key(k) && disclosed(shortfall, keys)[k] == keys[k],
{
}

/// Whether `c` is an ASCII character.
pub open spec fn plain(c: char) -> bool {
    '\0' <= c && c <= '\u{7f}'
}

/// Whether `c` is an ASCII character other than a capital R.
pub open spec fn plain_without_capital_r(c: char) -> bool {
    plain(c) && c != 'R'
}

/// The sentence names the size of the pool. From a `top_k` of 0 to one of 99 it
/// advises a greater one, from 100 on and below 0 a narrower query, and where
/// nothing was cut off there is none.
pub proof fn law_note_names_its_pool(shortfall: PoolShortfall)
    ensures
        ({
            let note = exhaustion_text(shortfall);
            let rows = text::decimal(shortfall.pool_len as nat);
            &&& !shortfall.saturated ==> note.len() == 0
            &&& shortfall.saturated && 0 <= shortfall.top_k < 100 ==> note
                == " The candidate pool ("@ + rows
                + " rows) came back full before top_k was filled, so matches may sit below the cut. Raise top_k to widen it."@
            &&& shortfall.saturated && !(0 <= shortfall.top_k < 100) ==> note
                == " The candidate pool ("@ + rows
                + " rows) came back full at the maximum top_k, so matches may sit below the cut. Narrow the query to reach them."@
        }),
{
}

/// An answer that something was cut off from is flagged, carries the sentence
/// without the blank in front, and tells each of the two numbers of rows left out
/// that is not zero; one that is zero leaves what the answer held under that key.
pub proof fn law_disclosure_tells_what_was_cut(shortfall: PoolShortfall, keys: Map<Seq<char>, Json>)
    requires
        shortfall.saturated,
    ensures
        ({
            let told = disclosed(shortfall, keys);
            &&& told.contains_key("pool_saturated"@) && told["pool_saturated"@] == Json::Bool(true)
            &&& told.contains_key("pool_saturated_note"@) && told["pool_saturated_note"@]
                == Json::Text(exhaustion_text(shortfall).skip(1))
            &&& shortfall.dropped_by_filter > 0 ==> told.contains_key("dropped_by_filter"@)
                && told["dropped_by_filter"@] == Json::Integer(shortfall.dropped_by_filter as int)
            &&& shortfall.skipped_noise > 0 ==> told.contains_key("skipped_noise"@)
                && told["skipped_noise"@] == Json::Integer(shortfall.skipped_noise as int)
            &&& shortfall.dropped_by_filter == 0 ==> told.contains_key("dropped_by_filter"@)
                == keys.contains_key("dropped_by_filter"@) && told["dropped_by_filter"@]
                == keys["dropped_by_filter"@]
            &&& shortfall.skipped_noise == 0 ==> told.contains_key("skipped_noise"@)
                == keys.contains_key("skipped_noise"@) && told["skipped_noise"@]
                == keys["skipped_noise"@]
        }),
{
    crate::answer::lemma_key_names();
    lemma_exhaustion_ends(shortfall);
}

} // verus!
