//! How much of a symbol's code a search result shows.

use crate::text;
use vstd::prelude::*;
use vstd::utf8::*;

verus! {

/// How many bytes of code one search result shows at most, before the note that
/// says it was cut.
pub const MAX_SEARCH_CODE_LEN: usize = 500;

/// The number of bytes that a text takes in UTF-8.
pub open spec fn byte_len(s: Seq<char>) -> nat {
    encode_utf8(s).len()
}

/// The number of bytes that one character takes in UTF-8.
pub open spec fn width(c: char) -> nat {
    encode_scalar(c as u32).len()
}

/// How many characters from the start of `s` fit into `budget` bytes.
pub open spec fn fit_count(s: Seq<char>, budget: int) -> nat
    decreases s.len(),
{
    if s.len() == 0 || width(s[0]) > budget {
        0
    } else {
        1 + fit_count(s.skip(1), budget - width(s[0]))
    }
}

/// Where the last line break of `s` stands, if there is one.
pub open spec fn last_line_break(s: Seq<char>) -> Option<int>
    decreases s.len(),
{
    if s.len() == 0 {
        None
    } else if s.last() == '\n' {
        Some(s.len() - 1)
    } else {
        last_line_break(s.drop_last())
    }
}

/// The part of `code` that a result shows of code that is too long: the
/// characters that fit into the limit, up to the last line break among them.
pub open spec fn preview(code: Seq<char>) -> Seq<char> {
    let head = code.take(fit_count(code, MAX_SEARCH_CODE_LEN as int) as int);
    match last_line_break(head) {
        Some(n) => head.take(n),
        None => head,
    }
}

/// The code that a result shows of a symbol that is `lines` lines long.
pub open spec fn shown_code(code: Seq<char>, lines: int) -> Seq<char> {
    if byte_len(code) > MAX_SEARCH_CODE_LEN {
        preview(code) + "\n// ... truncated ("@ + text::signed_decimal(lines)
            + " lines total, use get_ast_node for full code)"@
    } else {
        code
    }
}

/// The number of bytes that one character takes in UTF-8.
fn char_width(c: char) -> (r: usize)
    ensures
        r == width(c),
        1 <= r <= 4,
{
    let v: u32 = c as u32;
    if v <= 0x7f {
        1
    } else if v <= 0x7ff {
        2
    } else if v <= 0xffff {
        3
    } else {
        4
    }
}

proof fn lemma_byte_len_step(s: Seq<char>)
    requires
        s.len() > 0,
    ensures
        byte_len(s) == width(s[0]) + byte_len(s.skip(1)),
{
    assert(s.drop_first() == s.skip(1));
}

proof fn lemma_fit_count(s: Seq<char>, budget: int)
    requires
        budget >= 0,
    ensures
        fit_count(s, budget) <= s.len(),
        byte_len(s.take(fit_count(s, budget) as int)) <= budget,
        forall|n: int|
            #![trigger byte_len(s.take(n))]
            0 <= n <= s.len() && byte_len(s.take(n)) <= budget ==> n <= fit_count(s, budget),
    decreases s.len(),
{
    let k = fit_count(s, budget) as int;
    if s.len() == 0 {
        assert(s.take(k) =~= Seq::<char>::empty());
    } else if width(s[0]) > budget {
        assert(s.take(k) =~= Seq::<char>::empty());
        assert forall|n: int| 0 <= n <= s.len() && #[trigger] byte_len(s.take(n)) <= budget implies n
            <= k by {
            if n > 0 {
                lemma_byte_len_step(s.take(n));
            }
        }
    } else {
        let left = budget - width(s[0]);
        lemma_fit_count(s.skip(1), left);
        lemma_byte_len_step(s.take(k));
        assert(s.take(k).skip(1) =~= s.skip(1).take(k - 1));
        assert forall|n: int| 0 <= n <= s.len() && #[trigger] byte_len(s.take(n)) <= budget implies n
            <= k by {
            if n > 0 {
                lemma_byte_len_step(s.take(n));
                assert(s.take(n).skip(1) =~= s.skip(1).take(n - 1));
            }
        }
    }
}

proof fn lemma_last_line_break(s: Seq<char>)
    ensures
        match last_line_break(s) {
            Some(n) => 0 <= n < s.len() && s[n] == '\n' && forall|i: int|
                n < i < s.len() ==> s[i] != '\n',
            None => !s.contains('\n'),
        },
    decreases s.len(),
{
    if s.len() > 0 && s.last() != '\n' {
        lemma_last_line_break(s.drop_last());
        assert forall|i: int| 0 <= i < s.len() && s[i] == '\n' implies s.drop_last()[i] == '\n' by {}
    }
}

proof fn lemma_byte_len_prefix(s: Seq<char>, n: int)
    requires
        0 <= n <= s.len(),
    ensures
        byte_len(s.take(n)) <= byte_len(s),
    decreases s.len(),
{
    if n == 0 {
        assert(s.take(n) =~= Seq::<char>::empty());
    } else {
        lemma_byte_len_step(s);
        lemma_byte_len_step(s.take(n));
        lemma_byte_len_prefix(s.skip(1), n - 1);
        assert(s.take(n).skip(1) =~= s.skip(1).take(n - 1));
    }
}

/// What a result shows of code that is too long is a prefix of it, takes at most
/// the limit in bytes, and loses no character that would have fitted but those
/// behind its last line break.
pub proof fn law_preview_is_a_bounded_prefix(code: Seq<char>)
    ensures
        preview(code).len() <= code.len(),
        preview(code) == code.take(preview(code).len() as int),
        byte_len(preview(code)) <= MAX_SEARCH_CODE_LEN,
        forall|n: int|
            #![trigger byte_len(code.take(n))]
            preview(code).len() < n <= code.len() && byte_len(code.take(n)) <= MAX_SEARCH_CODE_LEN
                ==> code[preview(code).len() as int] == '\n' && !code.subrange(
                preview(code).len() as int + 1,
                n,
            ).contains('\n'),
{
    let limit = MAX_SEARCH_CODE_LEN as int;
    lemma_fit_count(code, limit);
    let k = fit_count(code, limit) as int;
    let head = code.take(k);
    lemma_last_line_break(head);
    let p = preview(code).len() as int;
    assert(preview(code) =~= code.take(p));
    assert(code.take(p) =~= head.take(p));
    lemma_byte_len_prefix(head, p);
    assert forall|n: int|
        #![trigger byte_len(code.take(n))]
        p < n <= code.len() && byte_len(code.take(n)) <= limit implies code[p] == '\n'
        && !code.subrange(p + 1, n).contains('\n') by {
        assert(n <= k);
        assert(head[p] == '\n');
        let lost = code.subrange(p + 1, n);
        if lost.contains('\n') {
            let i = choose|i: int| 0 <= i < lost.len() && lost[i] == '\n';
            assert(head[p + 1 + i] == '\n');
        }
    }
}

/// The code that a result shows of a symbol that goes from `start_line` to
/// `end_line`.
pub fn render_code(code: &str, start_line: i64, end_line: i64) -> (r: String)
    requires
        byte_len(code@) > MAX_SEARCH_CODE_LEN ==> i64::MIN <= end_line - start_line < i64::MAX,
    ensures
        r@ == shown_code(code@, end_line - start_line + 1),
{
    let bytes = code.as_bytes();
    if bytes.len() <= MAX_SEARCH_CODE_LEN {
        return code.to_owned();
    }
    let chars = text::characters(code);
    let mut left: usize = MAX_SEARCH_CODE_LEN;
    let mut end: usize = 0;
    assert(code@.skip(0) == code@);
    while end < chars.len() && char_width(chars[end]) <= left
        invariant
            chars@ == code@,
            end <= chars@.len(),
            left <= MAX_SEARCH_CODE_LEN,
            fit_count(code@, MAX_SEARCH_CODE_LEN as int) == end + fit_count(
                code@.skip(end as int),
                left as int,
            ),
        decreases chars@.len() - end,
    {
        assert(code@.skip(end as int).skip(1) == code@.skip(end + 1));
        left -= char_width(chars[end]);
        end += 1;
    }
    assert(fit_count(code@, MAX_SEARCH_CODE_LEN as int) == end);
    let ghost head = code@.take(end as int);
    let mut cut: usize = end;
    assert(head.take(end as int) == head);
    while cut > 0 && chars[cut - 1] != '\n'
        invariant
            chars@ == code@,
            cut <= end <= chars@.len(),
            head == code@.take(end as int),
            last_line_break(head) == last_line_break(head.take(cut as int)),
        decreases cut,
    {
        assert(head.take(cut as int).drop_last() == head.take(cut - 1));
        cut -= 1;
    }
    let shown: usize = if cut > 0 {
        cut - 1
    } else {
        end
    };
    let mut out = text::text_between(&chars, 0, shown);
    assert(out@ == preview(code@));
    out.append("\n// ... truncated (");
    let count = text::signed_text(end_line - start_line + 1);
    out.append(count.as_str());
    out.append(" lines total, use get_ast_node for full code)");
    out
}

/// Code that takes at most 500 bytes is shown whole. Of longer code a preview is
/// shown, with a note behind it that tells how many lines there are in all.
pub proof fn law_only_long_code_is_cut(code: Seq<char>, lines: int)
    ensures
        encode_utf8(code).len() <= 500 ==> shown_code(code, lines) == code,
        encode_utf8(code).len() > 500 ==> shown_code(code, lines) == preview(code)
            + "\n// ... truncated ("@ + text::signed_decimal(lines)
            + " lines total, use get_ast_node for full code)"@,
{
}

/// The preview is a prefix that takes at most 500 bytes. It ends right before a
/// line break where there is one among the characters that fit, and no later one
/// fits; where there is none, no longer prefix fits.
pub proof fn law_preview_ends_at_the_last_line_that_fits(code: Seq<char>)
    ensures
        preview(code).len() <= code.len(),
        preview(code) == code.take(preview(code).len() as int),
        encode_utf8(preview(code)).len() <= 500,
        forall|p: int|
            #![trigger code[p]]
            0 <= p < code.len() && code[p] == '\n' && encode_utf8(code.take(p + 1)).len() <= 500 ==> p
                <= preview(code).len() < code.len() && code[preview(code).len() as int] == '\n',
        forall|n: int|
            #![trigger code.take(n)]
            preview(code).len() < n <= code.len() && encode_utf8(code.take(n)).len() <= 500
                ==> code[preview(code).len() as int] == '\n',
{
    law_preview_is_a_bounded_prefix(code);
    let limit = MAX_SEARCH_CODE_LEN as int;
    lemma_fit_count(code, limit);
    let k = fit_count(code, limit) as int;
    let head = code.take(k);
    lemma_last_line_break(head);
    let len = preview(code).len() as int;
    assert forall|p: int|
        #![trigger code[p]]
        0 <= p < code.len() && code[p] == '\n' && encode_utf8(code.take(p + 1)).len() <= 500 implies p
        <= len < code.len() && code[len] == '\n' by {
        assert(byte_len(code.take(p + 1)) <= limit);
        assert(p + 1 <= k);
        assert(head[p] == '\n');
        assert(head.contains('\n'));
        assert(head[len] == '\n');
        assert(code[len] == head[len]);
    }
    assert forall|n: int|
        #![trigger code.take(n)]
        len < n <= code.len() && encode_utf8(code.take(n)).len() <= 500 implies code[len] == '\n' by {
        assert(byte_len(code.take(n)) <= limit);
    }
}

} // verus!
