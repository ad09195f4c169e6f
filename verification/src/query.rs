//! What a search query is made of: the words that carry meaning, how much the
//! query says, and whether it is nothing but acronyms.

use crate::snippet;
use crate::text;
use vstd::prelude::*;

verus! {

/// How many words a query of acronyms has at most.
pub const ACRONYM_MAX_TOKENS: usize = 3;

/// How many characters an acronym has at most.
pub const ACRONYM_MAX_TOKEN_CHARS: usize = 5;

/// Whether a word carries meaning: it has a letter or a number, and is longer
/// than one character unless it is a capital.
pub open spec fn is_meaningful(word: Seq<char>) -> bool {
    &&& exists|i: int| 0 <= i < word.len() && text::is_letter_or_number(#[trigger] word[i])
    &&& word.len() > 1 || forall|i: int| 0 <= i < word.len() ==> text::is_upper(#[trigger] word[i])
}

/// The words of a query that carry meaning, in order.
pub open spec fn meaningful(query: Seq<char>) -> Seq<Seq<char>> {
    text::words(query).filter(|w: Seq<char>| is_meaningful(w))
}

/// How much a query with these words says, in hundredths.
pub open spec fn quality(tokens: Seq<Seq<char>>) -> nat {
    if tokens.len() == 0 {
        30
    } else if tokens.len() == 1 {
        if snippet::byte_len(tokens[0]) <= 2 {
            40
        } else {
            70
        }
    } else if tokens.len() == 2 {
        85
    } else {
        100
    }
}

/// Whether `c` is an ASCII capital or an ASCII digit.
pub open spec fn is_acronym_char(c: char) -> bool {
    ('A' <= c && c <= 'Z') || text::is_digit(c)
}

/// Whether a word has the shape of an acronym.
pub open spec fn is_acronym(word: Seq<char>) -> bool {
    word.len() <= ACRONYM_MAX_TOKEN_CHARS && forall|i: int|
        0 <= i < word.len() ==> is_acronym_char(#[trigger] word[i])
}

/// Whether a query is a few acronyms and nothing else.
pub open spec fn acronym_heavy(tokens: Seq<Seq<char>>) -> bool {
    0 < tokens.len() <= ACRONYM_MAX_TOKENS && forall|i: int|
        0 <= i < tokens.len() ==> is_acronym(#[trigger] tokens[i])
}

/// The lowercase form of each of a sequence of texts.
pub open spec fn lowercased(s: Seq<Seq<char>>) -> Seq<Seq<char>> {
    s.map_values(|w: Seq<char>| text::lowercase(w))
}

fn word_is_meaningful(word: &str) -> (r: bool)
    ensures
        r == is_meaningful(word@),
{
    let chars = text::characters(word);
    let mut found = false;
    let mut capitals = true;
    let mut i: usize = 0;
    while i < chars.len()
        invariant
            chars@ == word@,
            0 <= i <= chars@.len(),
            found == exists|j: int| 0 <= j < i && text::is_letter_or_number(#[trigger] word@[j]),
            capitals == forall|j: int| 0 <= j < i ==> text::is_upper(#[trigger] word@[j]),
        decreases chars@.len() - i,
    {
        let c: char = chars[i];
        assert(word@[i as int] == c);
        if c.is_alphanumeric() {
            found = true;
        }
        if !c.is_uppercase() {
            capitals = false;
        }
        i += 1;
    }
    found && (chars.len() > 1 || capitals)
}

/// The words of a query that carry meaning, in order.
pub fn meaningful_tokens(query: &str) -> (r: Vec<String>)
    ensures
        text::texts(r@) == meaningful(query@),
{
    let all = text::split_words(query);
    let ghost words = text::words(query@);
    let ghost keep = |w: Seq<char>| is_meaningful(w);
    let mut out: Vec<String> = Vec::new();
    let mut i: usize = 0;
    assert(words.take(0) =~= Seq::<Seq<char>>::empty());
    assert(words.take(0).filter(keep) =~= Seq::<Seq<char>>::empty()) by {
        reveal(Seq::filter);
    }
    while i < all.len()
        invariant
            words == text::words(query@),
            text::texts(all@) == words,
            keep == (|w: Seq<char>| is_meaningful(w)),
            0 <= i <= all@.len(),
            text::texts(out@) == words.take(i as int).filter(keep),
        decreases all@.len() - i,
    {
        let ghost before = out@;
        assert(words[i as int] == all@[i as int]@);
        if word_is_meaningful(all[i].as_str()) {
            out.push(all[i].clone());
            assert(text::texts(out@) =~= text::texts(before).push(words[i as int]));
        }
        proof {
            reveal(Seq::filter);
            assert(words.take(i + 1).drop_last() == words.take(i as int));
            assert(words.take(i + 1).last() == words[i as int]);
        }
        i += 1;
    }
    assert(words.take(words.len() as int) == words);
    out
}

/// How much a query with these words says, in hundredths. Few and short words
/// say little.
pub fn query_quality(tokens: &Vec<String>) -> (r: u8)
    ensures
        r == quality(text::texts(tokens@)),
{
    if tokens.len() == 0 {
        30
    } else if tokens.len() == 1 {
        assert(text::texts(tokens@)[0] == tokens@[0]@);
        if tokens[0].as_str().as_bytes().len() <= 2 {
            40
        } else {
            70
        }
    } else if tokens.len() == 2 {
        85
    } else {
        100
    }
}

fn word_is_acronym(word: &str) -> (r: bool)
    ensures
        r == is_acronym(word@),
{
    let chars = text::characters(word);
    if chars.len() > ACRONYM_MAX_TOKEN_CHARS {
        return false;
    }
    let mut i: usize = 0;
    while i < chars.len()
        invariant
            chars@ == word@,
            0 <= i <= chars@.len(),
            forall|j: int| 0 <= j < i ==> is_acronym_char(#[trigger] word@[j]),
        decreases chars@.len() - i,
    {
        let c: char = chars[i];
        assert(word@[i as int] == c);
        if !(('A' <= c && c <= 'Z') || ('0' <= c && c <= '9')) {
            return false;
        }
        i += 1;
    }
    true
}

/// Whether a query is a few acronyms and nothing else, so that letter-exact text
/// search is the channel to trust.
pub fn is_acronym_heavy(tokens: &Vec<String>) -> (r: bool)
    ensures
        r == acronym_heavy(text::texts(tokens@)),
{
    let ghost words = text::texts(tokens@);
    if tokens.len() == 0 || tokens.len() > ACRONYM_MAX_TOKENS {
        return false;
    }
    let mut i: usize = 0;
    while i < tokens.len()
        invariant
            words == text::texts(tokens@),
            0 <= i <= tokens@.len(),
            forall|j: int| 0 <= j < i ==> is_acronym(#[trigger] words[j]),
        decreases tokens@.len() - i,
    {
        assert(words[i as int] == tokens@[i as int]@);
        if !word_is_acronym(tokens[i].as_str()) {
            return false;
        }
        i += 1;
    }
    true
}

/// What the search goes by of a query.
pub struct QueryProfile {
    /// The words that carry meaning, in lowercase.
    pub terms: Vec<String>,
    /// The whole query without the white space around it, in lowercase.
    pub identifier: String,
    /// How much the query says, in hundredths.
    pub quality: u8,
    /// Whether the query is a few acronyms and nothing else.
    pub acronym_heavy: bool,
}

/// Whether `p` is what the search goes by of `query`.
pub open spec fn is_profile(p: QueryProfile, query: Seq<char>) -> bool {
    &&& text::texts(p.terms@) == lowercased(meaningful(query))
    &&& p.identifier@ == text::lowercase(text::trimmed(query))
    &&& p.quality == quality(meaningful(query))
    &&& p.acronym_heavy == acronym_heavy(meaningful(query))
}

/// What the search goes by of `query`.
pub fn profile(query: &str) -> (r: QueryProfile)
    ensures
        is_profile(r, query@),
{
    let tokens = meaningful_tokens(query);
    let ghost words = text::texts(tokens@);
    let mut terms: Vec<String> = Vec::new();
    let mut i: usize = 0;
    while i < tokens.len()
        invariant
            words == text::texts(tokens@),
            0 <= i <= tokens@.len(),
            text::texts(terms@) == lowercased(words.take(i as int)),
        decreases tokens@.len() - i,
    {
        let ghost before = terms@;
        assert(words[i as int] == tokens@[i as int]@);
        terms.push(tokens[i].as_str().to_lowercase());
        assert(text::texts(terms@) =~= text::texts(before).push(text::lowercase(words[i as int])));
        assert(lowercased(words.take(i + 1)) =~= lowercased(words.take(i as int)).push(
            text::lowercase(words[i as int]),
        ));
        i += 1;
    }
    assert(words.take(words.len() as int) == words);
    let trimmed = text::trim_text(query);
    QueryProfile {
        terms,
        identifier: trimmed.as_str().to_lowercase(),
        quality: query_quality(&tokens),
        acronym_heavy: is_acronym_heavy(&tokens),
    }
}

/// A query says between thirty and a hundred hundredths, and one with more words
/// that carry meaning never says less.
pub proof fn law_more_words_say_more(a: Seq<Seq<char>>, b: Seq<Seq<char>>)
    requires
        a.len() < b.len(),
    ensures
        30 <= quality(a) <= quality(b) <= 100,
{
}

/// A word of two characters or more carries meaning exactly where one of them is a
/// letter or a number; a single character does exactly where it is that and a
/// capital.
pub proof fn law_words_with_a_letter_carry_meaning(word: Seq<char>, c: char)
    ensures
        word.len() > 1 ==> (is_meaningful(word) <==> exists|i: int|
            0 <= i < word.len() && text::is_letter_or_number(#[trigger] word[i])),
        is_meaningful(seq![c]) <==> text::is_letter_or_number(c) && text::is_upper(c),
        !is_meaningful(Seq::empty()),
{
    let one = seq![c];
    assert(one[0] == c);
}

/// The words of a query that carry meaning are those before a white space and
/// those behind it, each in order; of a text without white space it is the text
/// itself or nothing.
pub proof fn law_meaning_is_told_word_by_word(a: Seq<char>, space: char, b: Seq<char>, w: Seq<char>)
    requires
        text::is_space(space),
        w.len() > 0,
        forall|i: int| 0 <= i < w.len() ==> !text::is_space(#[trigger] w[i]),
    ensures
        meaningful(a.push(space) + b) == meaningful(a) + meaningful(b),
        meaningful(w) == (if is_meaningful(w) {
            seq![w]
        } else {
            Seq::<Seq<char>>::empty()
        }),
        meaningful(Seq::empty()) == Seq::<Seq<char>>::empty(),
{
    let keep = |w: Seq<char>| is_meaningful(w);
    text::law_space_parts_words(a, space, b);
    Seq::filter_distributes_over_add(text::words(a), text::words(b), keep);
    text::law_text_without_space_is_one_word(w);
    text::law_text_without_space_is_one_word(Seq::empty());
    reveal(Seq::filter);
    assert(seq![w].drop_last() =~= Seq::<Seq<char>>::empty());
    assert(seq![w].drop_last().filter(keep) =~= Seq::<Seq<char>>::empty());
    assert(meaningful(w) =~= (if is_meaningful(w) {
        seq![w]
    } else {
        Seq::<Seq<char>>::empty()
    }));
}

/// A search goes by its query in this way: its words that carry meaning in
/// lowercase and in order; the query itself, trimmed and in lowercase; thirty
/// hundredths without such a word, forty with one of at most two bytes, seventy
/// with a longer one, eighty-five with two and a hundred with more; and as
/// acronyms where there are one to three such words, none longer than five
/// characters, of ASCII capitals and digits alone.
pub proof fn law_profile_is_that_of_the_query(p: QueryProfile, query: Seq<char>)
    requires
        is_profile(p, query),
    ensures
        ({
            let words = meaningful(query);
            &&& p.terms@.len() == words.len()
            &&& forall|i: int|
                0 <= i < words.len() ==> (#[trigger] p.terms@[i])@ == text::lowercase(words[i])
            &&& p.identifier@ == text::lowercase(text::trimmed(query))
            &&& words.len() == 0 ==> p.quality == 30
            &&& words.len() == 1 && vstd::utf8::encode_utf8(words[0]).len() <= 2 ==> p.quality == 40
            &&& words.len() == 1 && vstd::utf8::encode_utf8(words[0]).len() > 2 ==> p.quality == 70
            &&& words.len() == 2 ==> p.quality == 85
            &&& words.len() >= 3 ==> p.quality == 100
            &&& p.acronym_heavy ==> 1 <= words.len() <= 3
            &&& p.acronym_heavy ==> forall|i: int|
                0 <= i < words.len() ==> (#[trigger] words[i]).len() <= 5
            &&& p.acronym_heavy ==> forall|i: int, j: int|
                0 <= i < words.len() && 0 <= j < words[i].len() ==> ('A' <= #[trigger] words[i][j]
                    && words[i][j] <= 'Z') || ('0' <= words[i][j] && words[i][j] <= '9')
            &&& !p.acronym_heavy && 1 <= words.len() <= 3 ==> exists|i: int|
                0 <= i < words.len() && ((#[trigger] words[i]).len() > 5 || exists|j: int|
                    0 <= j < words[i].len() && !('A' <= #[trigger] words[i][j] && words[i][j] <= 'Z')
                        && !('0' <= words[i][j] && words[i][j] <= '9'))
        }),
{
    let words = meaningful(query);
    assert(text::texts(p.terms@).len() == lowercased(words).len());
    assert forall|i: int| 0 <= i < words.len() implies (#[trigger] p.terms@[i])@
        == text::lowercase(words[i]) by {
        assert(text::texts(p.terms@)[i] == lowercased(words)[i]);
    }
    if p.acronym_heavy {
        assert forall|i: int, j: int| 0 <= i < words.len() && 0 <= j < words[i].len() implies ('A'
            <= #[trigger] words[i][j] && words[i][j] <= 'Z') || ('0' <= words[i][j] && words[i][j]
            <= '9') by {
            assert(is_acronym(words[i]));
            assert(is_acronym_char(words[i][j]));
        }
    } else if 1 <= words.len() <= 3 {
        let i = choose|i: int| 0 <= i < words.len() && !is_acronym(#[trigger] words[i]);
        if words[i].len() <= 5 {
            let j = choose|j: int| 0 <= j < words[i].len() && !is_acronym_char(
                #[trigger] words[i][j],
            );
            assert(!('A' <= words[i][j] && words[i][j] <= 'Z'));
        }
    }
}

} // verus!
