//! Text as sequences of characters: decimal numbers, words, trimming and
//! searching, each with the mathematical reading that the rest of the library
//! states its messages in.

use vstd::prelude::*;

verus! {

/// Whether Unicode calls `c` white space.
pub open spec fn is_space(c: char) -> bool {
    ||| '\u{9}' <= c && c <= '\u{d}'
    ||| c == '\u{20}'
    ||| c == '\u{85}'
    ||| c == '\u{a0}'
    ||| c == '\u{1680}'
    ||| '\u{2000}' <= c && c <= '\u{200a}'
    ||| c == '\u{2028}'
    ||| c == '\u{2029}'
    ||| c == '\u{202f}'
    ||| c == '\u{205f}'
    ||| c == '\u{3000}'
}

/// Whether Unicode calls `c` a letter or a number (`char::is_alphanumeric`).
pub uninterp spec fn is_letter_or_number(c: char) -> bool;

/// Whether Unicode calls `c` an uppercase letter (`char::is_uppercase`).
pub uninterp spec fn is_upper(c: char) -> bool;

/// The lowercase form of a text (`str::to_lowercase`).
pub uninterp spec fn lowercase(s: Seq<char>) -> Seq<char>;

/// The text that a byte string reads as when every invalid UTF-8 sequence is
/// replaced (`String::from_utf8_lossy`).
pub uninterp spec fn lossy_text(bytes: Seq<u8>) -> Seq<char>;

/// `char::is_whitespace` tells the characters with Unicode's property White_Space
/// from all others; [`is_space`] lists them.
pub assume_specification[ char::is_whitespace ](c: char) -> (b: bool)
    ensures
        b == is_space(c),
;

/// `char::is_alphanumeric` is a fixed property of the character, named
/// [`is_letter_or_number`].
pub assume_specification[ char::is_alphanumeric ](c: char) -> (b: bool)
    ensures
        b == is_letter_or_number(c),
;

/// `char::is_uppercase` is a fixed property of the character, named
/// [`is_upper`].
pub assume_specification[ char::is_uppercase ](c: char) -> (b: bool)
    ensures
        b == is_upper(c),
;

/// `str::to_lowercase` depends on its text alone; its result is named
/// [`lowercase`].
pub assume_specification[ str::to_lowercase ](s: &str) -> (r: String)
    ensures
        r@ == lowercase(s@),
;

/// `String::push` appends one character.
pub assume_specification[ String::push ](s: &mut String, c: char)
    ensures
        final(s)@ == old(s)@.push(c),
;

/// `String::from_utf8_lossy` depends on the bytes alone; the text it gives is
/// named [`lossy_text`]. Bytes that are valid UTF-8 read as the text they encode.
#[verifier::external_body]
pub(crate) fn read_lossy(bytes: &[u8]) -> (r: String)
    ensures
        r@ == lossy_text(bytes@),
        vstd::utf8::valid_utf8(bytes@) ==> r@ == vstd::utf8::decode_utf8(bytes@),
{
    String::from_utf8_lossy(bytes).into_owned()
}

/// The text of an optional string.
pub open spec fn optional_text(s: Option<String>) -> Option<Seq<char>> {
    match s {
        Some(t) => Some(t@),
        None => None,
    }
}

/// The characters of a text, in order.
pub fn characters(s: &str) -> (r: Vec<char>)
    ensures
        r@ == s@,
{
    let mut out: Vec<char> = Vec::new();
    for c in it: s.chars()
        invariant
            it.seq() == s@,
            out@ == s@.take(it.index() as int),
    {
        proof {
            assert(s@.take(it.index() as int + 1) == s@.take(it.index() as int).push(c));
        }
        out.push(c);
    }
    assert(s@.take(s@.len() as int) == s@);
    out
}

/// The text made of the characters from `from` up to `to`.
pub fn text_between(chars: &Vec<char>, from: usize, to: usize) -> (r: String)
    requires
        from <= to <= chars@.len(),
    ensures
        r@ == chars@.subrange(from as int, to as int),
{
    let mut out = String::new();
    let mut i: usize = from;
    while i < to
        invariant
            from <= i <= to <= chars@.len(),
            out@ == chars@.subrange(from as int, i as int),
        decreases to - i,
    {
        assert(chars@.subrange(from as int, i + 1) == chars@.subrange(from as int, i as int).push(
            chars@[i as int],
        ));
        out.push(chars[i]);
        i += 1;
    }
    out
}

/// The digit that stands for `d`, for `d` below ten.
pub open spec fn digit(d: nat) -> char {
    (48 + d) as char
}

/// The decimal numeral of a natural number, without leading zeros.
pub open spec fn decimal(n: nat) -> Seq<char>
    decreases n,
{
    if n < 10 {
        seq![digit(n)]
    } else {
        decimal(n / 10).push(digit(n % 10))
    }
}

/// The decimal numeral of an integer, with a minus sign below zero.
pub open spec fn signed_decimal(n: int) -> Seq<char> {
    if n < 0 {
        seq!['-'] + decimal((-n) as nat)
    } else {
        decimal(n as nat)
    }
}

/// The decimal numeral of `n`.
pub fn decimal_text(n: u64) -> (r: String)
    ensures
        r@ == decimal(n as nat),
    decreases n,
{
    let last: char = (48u8 + (n % 10) as u8) as char;
    if n < 10 {
        let mut out = String::new();
        out.push(last);
        assert(out@ == decimal(n as nat));
        out
    } else {
        let mut out = decimal_text(n / 10);
        out.push(last);
        out
    }
}

/// The decimal numeral of `n`, with a minus sign below zero.
pub fn signed_text(n: i64) -> (r: String)
    ensures
        r@ == signed_decimal(n as int),
{
    if n < 0 {
        let mut out = String::new();
        out.push('-');
        let magnitude: u64 = (-(n + 1)) as u64 + 1;
        let digits = decimal_text(magnitude);
        out.append(digits.as_str());
        assert(out@ == signed_decimal(n as int));
        out
    } else {
        decimal_text(n as u64)
    }
}

/// Whether `c` is one of the ten ASCII digits.
pub open spec fn is_digit(c: char) -> bool {
    '0' <= c && c <= '9'
}

/// What a run of ASCII digits is worth, read in base ten.
pub open spec fn digits_value(s: Seq<char>) -> nat
    decreases s.len(),
{
    if s.len() == 0 {
        0
    } else {
        digits_value(s.drop_last()) * 10 + (s.last() as nat - 48) as nat
    }
}

/// Whether a text is one or more ASCII digits and nothing else.
pub open spec fn is_numeral(s: Seq<char>) -> bool {
    s.len() > 0 && forall|i: int| 0 <= i < s.len() ==> is_digit(#[trigger] s[i])
}

/// The integer that a text spells: an optional sign, then one or more ASCII
/// digits, and nothing else.
pub open spec fn spelled_integer(s: Seq<char>) -> Option<int> {
    if is_numeral(s) {
        Some(digits_value(s) as int)
    } else if s.len() > 0 && s[0] == '+' && is_numeral(s.skip(1)) {
        Some(digits_value(s.skip(1)) as int)
    } else if s.len() > 0 && s[0] == '-' && is_numeral(s.skip(1)) {
        Some(-(digits_value(s.skip(1)) as int))
    } else {
        None
    }
}

/// The integer that a text spells, where it lies between `low` and `high`.
pub open spec fn spelled_within(s: Seq<char>, low: int, high: int) -> Option<int> {
    match spelled_integer(s) {
        Some(n) => if low <= n <= high {
            Some(n)
        } else {
            None
        },
        None => None,
    }
}

proof fn lemma_digits_grow(s: Seq<char>, n: int)
    requires
        0 <= n <= s.len(),
        forall|i: int| 0 <= i < s.len() ==> is_digit(#[trigger] s[i]),
    ensures
        digits_value(s.take(n)) <= digits_value(s),
    decreases s.len() - n,
{
    if n == s.len() {
        assert(s.take(n) == s);
    } else {
        lemma_digits_grow(s, n + 1);
        assert(s.take(n + 1).drop_last() == s.take(n));
        assert(s.take(n + 1).last() == s[n]);
    }
}

/// Reads the digits from `from` on, or `None` where one of the characters is no
/// digit, where there is none, or where the value passes `limit`.
fn read_digits(chars: &Vec<char>, from: usize, limit: u64) -> (r: Option<u64>)
    requires
        from <= chars@.len(),
        limit <= 0x8000_0000_0000_0000,
    ensures
        r == (if is_numeral(chars@.skip(from as int)) && digits_value(chars@.skip(from as int))
            <= limit {
            Some(digits_value(chars@.skip(from as int)) as u64)
        } else {
            None
        }),
{
    let ghost tail = chars@.skip(from as int);
    if from == chars.len() {
        return None;
    }
    let mut value: u64 = 0;
    let mut i: usize = from;
    while i < chars.len()
        invariant
            from <= i <= chars@.len(),
            tail == chars@.skip(from as int),
            limit <= 0x8000_0000_0000_0000,
            value <= limit,
            forall|j: int| 0 <= j < i - from ==> is_digit(#[trigger] tail[j]),
            value == digits_value(tail.take(i - from)),
        decreases chars@.len() - i,
    {
        let c: char = chars[i];
        assert(tail[i - from] == c);
        if !('0' <= c && c <= '9') {
            return None;
        }
        let d: u64 = (c as u32 - 48) as u64;
        let ghost shorter = tail.take(i - from);
        let ghost longer = tail.take(i - from + 1);
        assert(longer.drop_last() == shorter);
        assert(longer.last() == c);
        let next: u128 = value as u128 * 10 + d as u128;
        assert(next == digits_value(longer));
        if next > limit as u128 {
            proof {
                if is_numeral(tail) {
                    lemma_digits_grow(tail, i - from + 1);
                }
            }
            return None;
        }
        value = next as u64;
        i += 1;
    }
    assert(tail.take(i - from) == tail);
    Some(value)
}

/// Reads a signed integer that fits `i64`.
pub fn read_i64(s: &str) -> (r: Option<i64>)
    ensures
        r == (match spelled_within(s@, i64::MIN as int, i64::MAX as int) {
            Some(n) => Some(n as i64),
            None => None::<i64>,
        }),
{
    let chars = characters(s);
    if chars.len() == 0 {
        return None;
    }
    let first: char = chars[0];
    assert(first == '-' || first == '+' ==> !is_numeral(s@)) by {
        assert(s@[0] == first);
    }
    if first == '-' {
        match read_digits(&chars, 1, 0x8000_0000_0000_0000) {
            Some(v) => {
                if v == 0x8000_0000_0000_0000 {
                    Some(i64::MIN)
                } else {
                    Some(-(v as i64))
                }
            },
            None => None,
        }
    } else if first == '+' {
        match read_digits(&chars, 1, 0x7fff_ffff_ffff_ffff) {
            Some(v) => Some(v as i64),
            None => None,
        }
    } else {
        assert(chars@.skip(0) == s@);
        match read_digits(&chars, 0, 0x7fff_ffff_ffff_ffff) {
            Some(v) => Some(v as i64),
            None => None,
        }
    }
}

/// Reads a signed integer that fits `i32`.
pub fn read_i32(s: &str) -> (r: Option<i32>)
    ensures
        r == (match spelled_within(s@, i32::MIN as int, i32::MAX as int) {
            Some(n) => Some(n as i32),
            None => None::<i32>,
        }),
{
    match read_i64(s) {
        Some(v) => if -0x8000_0000 <= v && v <= 0x7fff_ffff {
            Some(v as i32)
        } else {
            None
        },
        None => None,
    }
}

/// The numeral of a number is made of digits, and reads as that number.
pub proof fn lemma_decimal_is_numeral(n: nat)
    ensures
        is_numeral(decimal(n)),
        digits_value(decimal(n)) == n,
    decreases n,
{
    if n < 10 {
        let one = decimal(n);
        assert(one.drop_last() == Seq::<char>::empty());
        assert(digits_value(Seq::<char>::empty()) == 0);
        assert(one.last() as nat == 48 + n);
    } else {
        lemma_decimal_is_numeral(n / 10);
        let all = decimal(n);
        assert(all.drop_last() == decimal(n / 10));
        assert(all.last() as nat == 48 + n % 10);
    }
}

/// Reading back the numeral of an integer gives that integer.
pub proof fn law_numeral_reads_back(n: int)
    ensures
        spelled_integer(signed_decimal(n)) == Some(n),
{
    if n < 0 {
        lemma_decimal_is_numeral((-n) as nat);
        let s = signed_decimal(n);
        assert(s.skip(1) == decimal((-n) as nat));
        assert(s[0] == '-');
    } else {
        lemma_decimal_is_numeral(n as nat);
    }
}

/// Whether `needle` occurs in `hay` at offset `at`.
pub open spec fn occurs_at(hay: Seq<char>, needle: Seq<char>, at: int) -> bool {
    0 <= at && at + needle.len() <= hay.len() && hay.subrange(at, at + needle.len()) == needle
}

/// Whether `needle` occurs somewhere in `hay`.
pub open spec fn contains_text(hay: Seq<char>, needle: Seq<char>) -> bool {
    exists|at: int| occurs_at(hay, needle, at)
}

fn matches_at(hay: &Vec<char>, needle: &Vec<char>, at: usize) -> (r: bool)
    requires
        at + needle@.len() <= hay@.len(),
    ensures
        r == occurs_at(hay@, needle@, at as int),
{
    let total: usize = hay.len();
    let mut i: usize = 0;
    while i < needle.len()
        invariant
            0 <= i <= needle@.len(),
            at + needle@.len() <= hay@.len(),
            total == hay@.len(),
            forall|j: int| 0 <= j < i ==> hay@[at + j] == #[trigger] needle@[j],
        decreases needle@.len() - i,
    {
        if hay[at + i] != needle[i] {
            assert(hay@.subrange(at as int, at + needle@.len())[i as int] != needle@[i as int]);
            return false;
        }
        i += 1;
    }
    assert(hay@.subrange(at as int, at + needle@.len()) =~= needle@);
    true
}

/// Whether the first `n` characters of `needle` stand in `hay` from `at` on.
pub open spec fn agrees(hay: Seq<char>, needle: Seq<char>, at: int, n: nat) -> bool
    decreases n,
{
    n == 0 || (hay[at + n - 1] == needle[n - 1] && agrees(hay, needle, at, (n - 1) as nat))
}

proof fn lemma_agrees(hay: Seq<char>, needle: Seq<char>, at: int, n: nat)
    requires
        agrees(hay, needle, at, n),
    ensures
        forall|i: int| 0 <= i < n ==> hay[at + i] == #[trigger] needle[i],
    decreases n,
{
    if n > 0 {
        lemma_agrees(hay, needle, at, (n - 1) as nat);
    }
}

/// A text whose characters stand in another one, one by one, occurs in it, also
/// behind any text that is put in front.
pub proof fn lemma_occurs(front: Seq<char>, hay: Seq<char>, needle: Seq<char>, at: int)
    requires
        0 <= at,
        at + needle.len() <= hay.len(),
        agrees(hay, needle, at, needle.len()),
    ensures
        contains_text(front + hay, needle),
{
    lemma_agrees(hay, needle, at, needle.len());
    let whole = front + hay;
    let from = front.len() + at;
    assert(whole.subrange(from, from + needle.len()) =~= needle);
    assert(occurs_at(whole, needle, from));
}

/// Whether two texts are the same.
pub fn same_text(a: &str, b: &str) -> (r: bool)
    ensures
        r == (a@ == b@),
{
    let x = characters(a);
    let y = characters(b);
    if x.len() != y.len() {
        return false;
    }
    assert(x@.subrange(0, x@.len() as int) == x@);
    matches_at(&x, &y, 0)
}

/// Whether `needle` occurs somewhere in `hay`.
pub fn has_text(hay: &str, needle: &str) -> (r: bool)
    ensures
        r == contains_text(hay@, needle@),
{
    let h = characters(hay);
    let n = characters(needle);
    if n.len() > h.len() {
        return false;
    }
    let last: usize = h.len() - n.len();
    let mut at: usize = 0;
    while at <= last
        invariant
            h@ == hay@,
            n@ == needle@,
            n@.len() <= h@.len(),
            last == h@.len() - n@.len(),
            at <= last + 1,
            forall|j: int| 0 <= j < at ==> !#[trigger] occurs_at(hay@, needle@, j),
        decreases last + 1 - at,
    {
        if matches_at(&h, &n, at) {
            assert(occurs_at(hay@, needle@, at as int));
            return true;
        }
        if at == last {
            assert forall|j: int| !occurs_at(hay@, needle@, j) by {
                if 0 <= j < at {
                } else if j == at {
                }
            }
            return false;
        }
        at += 1;
    }
    false
}

/// Whether `c` occurs in `s`.
pub fn has_char(s: &str, c: char) -> (r: bool)
    ensures
        r == s@.contains(c),
{
    let chars = characters(s);
    let mut i: usize = 0;
    while i < chars.len()
        invariant
            chars@ == s@,
            0 <= i <= chars@.len(),
            forall|j: int| 0 <= j < i ==> s@[j] != c,
        decreases chars@.len() - i,
    {
        if chars[i] == c {
            assert(s@[i as int] == c);
            return true;
        }
        i += 1;
    }
    false
}

/// Whether `s` ends in `suffix`.
pub open spec fn ends_in(s: Seq<char>, suffix: Seq<char>) -> bool {
    occurs_at(s, suffix, s.len() - suffix.len())
}

/// Whether `s` ends in `suffix`.
pub fn has_suffix(s: &str, suffix: &str) -> (r: bool)
    ensures
        r == ends_in(s@, suffix@),
{
    let chars = characters(s);
    let end = characters(suffix);
    if end.len() > chars.len() {
        return false;
    }
    matches_at(&chars, &end, chars.len() - end.len())
}

/// Whether each of the first `n` characters of `s` has the property `p`.
pub open spec fn first_have(s: Seq<char>, n: nat, p: spec_fn(char) -> bool) -> bool
    decreases n,
{
    n == 0 || (p(s[n - 1]) && first_have(s, (n - 1) as nat, p))
}

/// Where the first `n` characters of `s` have a property, each one of them does.
pub proof fn lemma_first_have(s: Seq<char>, n: nat, p: spec_fn(char) -> bool)
    requires
        first_have(s, n, p),
    ensures
        forall|i: int| 0 <= i < n ==> p(#[trigger] s[i]),
    decreases n,
{
    if n > 0 {
        lemma_first_have(s, (n - 1) as nat, p);
    }
}

/// What is left of a text once the white space at its end is gone.
pub open spec fn trim_end(s: Seq<char>) -> Seq<char>
    decreases s.len(),
{
    if s.len() > 0 && is_space(s.last()) {
        trim_end(s.drop_last())
    } else {
        s
    }
}

/// What is left of a text once the white space at its start is gone.
pub open spec fn trim_start(s: Seq<char>) -> Seq<char>
    decreases s.len(),
{
    if s.len() > 0 && is_space(s[0]) {
        trim_start(s.skip(1))
    } else {
        s
    }
}

/// A text without the white space around it.
pub open spec fn trimmed(s: Seq<char>) -> Seq<char> {
    trim_end(trim_start(s))
}

/// Trimming drops characters only at the two ends.
pub proof fn lemma_trimmed_is_inside(s: Seq<char>)
    ensures
        exists|from: int, to: int|
            0 <= from <= to <= s.len() && trimmed(s) == #[trigger] s.subrange(from, to),
{
    law_trimming_drops_the_outer_space(s);
}

/// A text without the white space around it.
pub fn trim_text(s: &str) -> (r: String)
    ensures
        r@ == trimmed(s@),
{
    let chars = characters(s);
    let mut from: usize = 0;
    assert(s@.skip(0) == s@);
    while from < chars.len() && chars[from].is_whitespace()
        invariant
            chars@ == s@,
            from <= chars@.len(),
            trim_start(s@) == trim_start(s@.skip(from as int)),
        decreases chars@.len() - from,
    {
        assert(s@.skip(from as int).skip(1) == s@.skip(from + 1));
        from += 1;
    }
    let ghost rest = s@.skip(from as int);
    assert(trim_start(s@) == rest);
    let mut to: usize = chars.len();
    assert(s@.subrange(from as int, to as int) == rest);
    while to > from && chars[to - 1].is_whitespace()
        invariant
            chars@ == s@,
            from <= to <= chars@.len(),
            trim_end(rest) == trim_end(s@.subrange(from as int, to as int)),
        decreases to,
    {
        assert(s@.subrange(from as int, to as int).drop_last() == s@.subrange(
            from as int,
            to - 1,
        ));
        to -= 1;
    }
    assert(trim_end(rest) == s@.subrange(from as int, to as int));
    text_between(&chars, from, to)
}

/// The words of `rest`, where `open` is the word that is already under way.
pub open spec fn words_from(open: Seq<char>, rest: Seq<char>) -> Seq<Seq<char>>
    decreases rest.len(),
{
    if rest.len() == 0 {
        if open.len() == 0 {
            seq![]
        } else {
            seq![open]
        }
    } else if is_space(rest[0]) {
        (if open.len() == 0 {
            seq![]
        } else {
            seq![open]
        }) + words_from(seq![], rest.skip(1))
    } else {
        words_from(open.push(rest[0]), rest.skip(1))
    }
}

/// The words of a text: its longest runs of characters that are no white space.
pub open spec fn words(s: Seq<char>) -> Seq<Seq<char>> {
    words_from(seq![], s)
}

/// The texts that a vector of strings holds.
pub open spec fn texts(v: Seq<String>) -> Seq<Seq<char>> {
    v.map_values(|s: String| s@)
}

/// The words of a text, in order.
pub fn split_words(s: &str) -> (r: Vec<String>)
    ensures
        texts(r@) == words(s@),
{
    let chars = characters(s);
    let mut out: Vec<String> = Vec::new();
    let mut open = String::new();
    let mut i: usize = 0;
    assert(s@.skip(0) == s@);
    assert(open@ =~= Seq::<char>::empty());
    assert(texts(out@) + words_from(open@, s@) =~= words(s@));
    while i < chars.len()
        invariant
            chars@ == s@,
            0 <= i <= chars@.len(),
            texts(out@) + words_from(open@, s@.skip(i as int)) == words(s@),
        decreases chars@.len() - i,
    {
        let c: char = chars[i];
        let ghost rest = s@.skip(i as int);
        assert(rest.skip(1) == s@.skip(i + 1));
        assert(rest[0] == c);
        if c.is_whitespace() {
            if !open.as_str().is_empty() {
                let ghost before = out@;
                let ghost word = open@;
                out.push(open);
                assert(texts(out@) =~= texts(before).push(word));
                open = String::new();
            }
            assert(open@ =~= Seq::<char>::empty());
            assert(texts(out@) + words_from(open@, s@.skip(i + 1)) =~= words(s@));
        } else {
            open.push(c);
        }
        i += 1;
    }
    if !open.as_str().is_empty() {
        let ghost before = out@;
        let ghost word = open@;
        out.push(open);
        assert(texts(out@) =~= texts(before).push(word));
    }
    assert(texts(out@) =~= words(s@));
    out
}

/// The texts of `parts` one after the other, with `separator` between them.
pub open spec fn joined(parts: Seq<Seq<char>>, separator: Seq<char>) -> Seq<char>
    decreases parts.len(),
{
    if parts.len() == 0 {
        seq![]
    } else if parts.len() == 1 {
        parts[0]
    } else {
        joined(parts.drop_last(), separator) + separator + parts.last()
    }
}

/// The strings of `parts` one after the other, with `separator` between them.
pub fn join_texts(parts: &Vec<String>, separator: &str) -> (r: String)
    ensures
        r@ == joined(texts(parts@), separator@),
{
    let mut out = String::new();
    let mut i: usize = 0;
    let ghost all = texts(parts@);
    assert(all.take(0) =~= Seq::<Seq<char>>::empty());
    assert(out@ =~= joined(all.take(0), separator@));
    while i < parts.len()
        invariant
            0 <= i <= parts@.len(),
            all == texts(parts@),
            out@ == joined(all.take(i as int), separator@),
        decreases parts@.len() - i,
    {
        assert(all.take(i + 1).drop_last() == all.take(i as int));
        assert(all[i as int] == parts@[i as int]@);
        assert(all.take(i + 1).last() == parts@[i as int]@);
        if i > 0 {
            out.append(separator);
        }
        out.append(parts[i].as_str());
        assert(out@ =~= joined(all.take(i + 1), separator@));
        i += 1;
    }
    assert(all.take(parts@.len() as int) == all);
    out
}

/// The numeral of a number below ten is its digit, and one more digit behind the
/// numeral of a positive number makes it ten times as much plus that digit.
pub proof fn law_decimal_grows_by_digits(n: nat, d: nat)
    requires
        d < 10,
    ensures
        decimal(d) == seq![(48 + d) as char],
        n > 0 ==> decimal(10 * n + d) == decimal(n).push((48 + d) as char),
{
    assert(decimal(d) =~= seq![(48 + d) as char]);
    if n > 0 {
        assert((10 * n + d) / 10 == n);
        assert((10 * n + d) % 10 == d);
    }
}

/// The numeral of a negative number is that of its opposite behind a minus sign;
/// any other number has no sign.
pub proof fn law_sign_stands_in_front(n: nat)
    ensures
        signed_decimal(n as int) == decimal(n),
        n > 0 ==> signed_decimal(-(n as int)) == seq!['-'] + decimal(n),
{
}

/// No digits are worth nothing, and each digit behind others makes them ten times
/// as much plus itself.
pub proof fn law_digits_count_by_place(s: Seq<char>, d: nat)
    requires
        d < 10,
    ensures
        digits_value(Seq::<char>::empty()) == 0,
        digits_value(s.push((48 + d) as char)) == 10 * digits_value(s) + d,
{
    let longer = s.push((48 + d) as char);
    assert(longer.drop_last() =~= s);
    assert(longer.last() as nat == 48 + d);
}

/// One or more digits spell their value, also behind a plus sign, and its opposite
/// behind a minus sign.
pub proof fn law_digits_spell_their_value(s: Seq<char>)
    requires
        s.len() > 0,
        forall|i: int| 0 <= i < s.len() ==> '0' <= #[trigger] s[i] && s[i] <= '9',
    ensures
        spelled_integer(s) == Some(digits_value(s) as int),
        spelled_integer(seq!['+'] + s) == Some(digits_value(s) as int),
        spelled_integer(seq!['-'] + s) == Some(-(digits_value(s) as int)),
{
    let plus = seq!['+'] + s;
    let minus = seq!['-'] + s;
    assert(plus.skip(1) =~= s);
    assert(minus.skip(1) =~= s);
    assert(plus[0] == '+' && minus[0] == '-');
    assert(!is_digit(plus[0]) && !is_digit(minus[0]));
}

/// Nothing but one or more digits, with at most one sign in front, spells an
/// integer.
pub proof fn law_only_digits_spell(s: Seq<char>)
    requires
        spelled_integer(s) is Some,
    ensures
        s.len() > 0,
        '0' <= s[0] && s[0] <= '9' || (s[0] == '+' || s[0] == '-') && s.len() > 1,
        forall|i: int| 0 < i < s.len() ==> '0' <= #[trigger] s[i] && s[i] <= '9',
{
    if !is_numeral(s) {
        assert forall|i: int| 0 < i < s.len() implies '0' <= #[trigger] s[i] && s[i] <= '9' by {
            assert(is_digit(s.skip(1)[i - 1]));
        }
    }
}

/// A spelled integer is read exactly where it lies in the range, both ends
/// included.
pub proof fn law_range_includes_its_ends(s: Seq<char>, low: int, high: int, n: int)
    ensures
        spelled_within(s, low, high) == Some(n) <==> spelled_integer(s) == Some(n) && low <= n
            && n <= high,
{
}

/// A text occurs wherever it stands, whatever is in front of it and behind it.
pub proof fn law_text_occurs_between_others(front: Seq<char>, needle: Seq<char>, back: Seq<char>)
    ensures
        contains_text(front + needle + back, needle),
{
    let hay = front + needle + back;
    let at = front.len() as int;
    assert(hay.subrange(at, at + needle.len()) =~= needle);
    assert(occurs_at(hay, needle, at));
}

/// Where a text occurs in another one, that one is something, the text, and
/// something more.
pub proof fn law_occurrence_splits_the_text(hay: Seq<char>, needle: Seq<char>)
    requires
        contains_text(hay, needle),
    ensures
        exists|front: Seq<char>, back: Seq<char>| hay == #[trigger] (front + needle + back),
{
    let at = choose|at: int| occurs_at(hay, needle, at);
    let front = hay.take(at);
    let back = hay.skip(at + needle.len());
    assert(hay.subrange(at, at + needle.len()) == needle);
    assert forall|i: int| 0 <= i < hay.len() implies hay[i] == (front + needle + back)[i] by {
        if at <= i < at + needle.len() {
            assert(hay.subrange(at, at + needle.len())[i - at] == hay[i]);
        }
    }
    assert(hay =~= front + needle + back);
}

/// A text ends in another one exactly where it is something with that one behind
/// it.
pub proof fn law_suffix_stands_at_the_end(front: Seq<char>, suffix: Seq<char>, s: Seq<char>)
    ensures
        ends_in(front + suffix, suffix),
        ends_in(s, suffix) ==> s.len() >= suffix.len() && s == s.take(s.len() - suffix.len())
            + suffix,
{
    let whole = front + suffix;
    assert(whole.subrange(front.len() as int, whole.len() as int) =~= suffix);
    if ends_in(s, suffix) {
        let at = s.len() - suffix.len();
        assert(s =~= s.take(at) + s.subrange(at, s.len() as int));
    }
}

/// Trimming drops white space from both ends, all of it, and nothing else.
pub proof fn law_trimming_drops_the_outer_space(s: Seq<char>)
    ensures
        exists|from: int, to: int|
            {
                &&& 0 <= from <= to <= s.len()
                &&& trimmed(s) == #[trigger] s.subrange(from, to)
                &&& forall|i: int| 0 <= i < from ==> is_space(#[trigger] s[i])
                &&& forall|i: int| to <= i < s.len() ==> is_space(#[trigger] s[i])
                &&& from < to ==> !is_space(s[from]) && !is_space(s[to - 1])
            },
{
    let from = lemma_trim_start(s);
    let rest = trim_start(s);
    let len = lemma_trim_end(rest);
    let to = from + len;
    assert(trimmed(s) =~= s.subrange(from, to));
    assert forall|i: int| to <= i < s.len() implies is_space(#[trigger] s[i]) by {
        assert(is_space(rest[i - from]));
    }
    if from < to {
        assert(rest[0] == s[from]);
        assert(rest[len - 1] == s[to - 1]);
    }
}

proof fn lemma_trim_start(s: Seq<char>) -> (from: int)
    ensures
        0 <= from <= s.len(),
        trim_start(s) == s.skip(from),
        forall|i: int| 0 <= i < from ==> is_space(#[trigger] s[i]),
        from < s.len() ==> !is_space(s[from]),
    decreases s.len(),
{
    if s.len() > 0 && is_space(s[0]) {
        let inner = lemma_trim_start(s.skip(1));
        assert(s.skip(1).skip(inner) =~= s.skip(1 + inner));
        assert forall|i: int| 0 <= i < 1 + inner implies is_space(#[trigger] s[i]) by {
            if i > 0 {
                assert(is_space(s.skip(1)[i - 1]));
            }
        }
        1 + inner
    } else {
        assert(s.skip(0) =~= s);
        0
    }
}

proof fn lemma_trim_end(s: Seq<char>) -> (to: int)
    ensures
        0 <= to <= s.len(),
        trim_end(s) == s.take(to),
        forall|i: int| to <= i < s.len() ==> is_space(#[trigger] s[i]),
        to > 0 ==> !is_space(s[to - 1]),
    decreases s.len(),
{
    if s.len() > 0 && is_space(s.last()) {
        let inner = lemma_trim_end(s.drop_last());
        assert(s.drop_last().take(inner) =~= s.take(inner));
        assert forall|i: int| inner <= i < s.len() implies is_space(#[trigger] s[i]) by {
            if i < s.len() - 1 {
                assert(is_space(s.drop_last()[i]));
            }
        }
        inner
    } else {
        assert(s.take(s.len() as int) =~= s);
        s.len() as int
    }
}

/// White space parts the words before it from those behind it.
pub proof fn law_space_parts_words(a: Seq<char>, space: char, b: Seq<char>)
    requires
        is_space(space),
    ensures
        words(a.push(space) + b) == words(a) + words(b),
{
    lemma_space_ends_the_word(Seq::empty(), a, space, b);
}

proof fn lemma_space_ends_the_word(open: Seq<char>, a: Seq<char>, space: char, b: Seq<char>)
    requires
        is_space(space),
    ensures
        words_from(open, a.push(space) + b) == words_from(open, a) + words(b),
    decreases a.len(),
{
    let all = a.push(space) + b;
    if a.len() == 0 {
        assert(all[0] == space);
        assert(all.skip(1) =~= b);
        assert(words_from(open, all) =~= words_from(open, a) + words(b));
    } else {
        assert(all[0] == a[0]);
        assert(all.skip(1) =~= a.skip(1).push(space) + b);
        if is_space(a[0]) {
            lemma_space_ends_the_word(Seq::empty(), a.skip(1), space, b);
            assert(words_from(open, all) =~= words_from(open, a) + words(b));
        } else {
            lemma_space_ends_the_word(open.push(a[0]), a.skip(1), space, b);
        }
    }
}

/// A text without white space is one word, and the empty text is none.
pub proof fn law_text_without_space_is_one_word(w: Seq<char>)
    requires
        forall|i: int| 0 <= i < w.len() ==> !is_space(#[trigger] w[i]),
    ensures
        words(w) == (if w.len() == 0 {
            Seq::<Seq<char>>::empty()
        } else {
            seq![w]
        }),
{
    lemma_word_stays_open(Seq::empty(), w);
    assert(Seq::<char>::empty() + w =~= w);
}

proof fn lemma_word_stays_open(open: Seq<char>, w: Seq<char>)
    requires
        forall|i: int| 0 <= i < w.len() ==> !is_space(#[trigger] w[i]),
    ensures
        words_from(open, w) == (if open.len() + w.len() == 0 {
            Seq::<Seq<char>>::empty()
        } else {
            seq![open + w]
        }),
    decreases w.len(),
{
    if w.len() == 0 {
        assert(open + w =~= open);
    } else {
        assert(!is_space(w[0]));
        lemma_word_stays_open(open.push(w[0]), w.skip(1));
        assert(open.push(w[0]) + w.skip(1) =~= open + w);
    }
}

/// Nothing joined is the empty text, one text joined is itself, and two lists
/// joined together are each joined, with the separator between them.
pub proof fn law_joining_puts_the_separator_between(
    a: Seq<Seq<char>>,
    b: Seq<Seq<char>>,
    one: Seq<char>,
    separator: Seq<char>,
)
    ensures
        joined(Seq::empty(), separator) == Seq::<char>::empty(),
        joined(seq![one], separator) == one,
        a.len() > 0 && b.len() > 0 ==> joined(a + b, separator) == joined(a, separator) + separator
            + joined(b, separator),
    decreases b.len(),
{
    if a.len() > 0 && b.len() > 0 {
        let all = a + b;
        assert(all.last() == b.last());
        assert(all.drop_last() =~= a + b.drop_last());
        if b.len() == 1 {
            assert(a + b.drop_last() =~= a);
        } else {
            law_joining_puts_the_separator_between(a, b.drop_last(), one, separator);
            assert(joined(all, separator) =~= joined(a, separator) + separator + joined(
                b,
                separator,
            ));
        }
    }
}

/// The texts of a vector of strings are those of its strings, each at its own
/// position.
pub proof fn law_texts_keep_their_positions(v: Seq<String>, i: int)
    requires
        0 <= i < v.len(),
    ensures
        texts(v).len() == v.len(),
        texts(v)[i] == v[i]@,
        optional_text(Some(v[i])) == Some(v[i]@),
        optional_text(None) is None,
{
}

} // verus!
