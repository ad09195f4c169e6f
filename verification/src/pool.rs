//! From the ranked ids of one fetch to the rows that may be shown: how many ids
//! to fetch, which rows to leave out and why, and what each row that stays is
//! scored by.

use crate::query::QueryProfile;
use crate::text;
use std::collections::HashMap;
use vstd::prelude::*;

verus! {

broadcast use vstd::std_specs::hash::group_hash_axioms;

/// How many ids the wider second fetch asks for at most.
pub const MAX_RETRY_FETCH: i64 = 1000;

/// How many ids to fetch for `top_k` results. A filter that works on the fetched
/// rows needs a wider pool, or it could leave nothing of a narrow one.
pub open spec fn fetch_count(top_k: int, filtered: bool) -> int {
    if filtered {
        if top_k * 16 > 100 {
            top_k * 16
        } else {
            100
        }
    } else {
        if top_k * 4 > 20 {
            top_k * 4
        } else {
            20
        }
    }
}

/// How many ids the second fetch asks for after one of `fetch`.
pub open spec fn retry_fetch_count(fetch: int) -> int {
    if fetch * 4 < MAX_RETRY_FETCH {
        fetch * 4
    } else {
        MAX_RETRY_FETCH as int
    }
}

/// How many ids to fetch for `top_k` results.
pub fn search_fetch_count(top_k: i64, filtered: bool) -> (r: i64)
    requires
        i64::MIN <= top_k * 16 <= i64::MAX,
    ensures
        r == fetch_count(top_k as int, filtered),
{
    if filtered {
        let wide: i64 = top_k * 16;
        if wide > 100 {
            wide
        } else {
            100
        }
    } else {
        let wide: i64 = top_k * 4;
        if wide > 20 {
            wide
        } else {
            20
        }
    }
}

/// How many ids the second fetch asks for after one of `fetch`: four times as
/// many, up to a ceiling. A first fetch at or above the ceiling is not widened.
pub fn search_retry_fetch_count(fetch: i64) -> (r: i64)
    requires
        i64::MIN <= fetch * 4 <= i64::MAX,
    ensures
        r == retry_fetch_count(fetch as int),
{
    let wide: i64 = fetch * 4;
    if wide < MAX_RETRY_FETCH {
        wide
    } else {
        MAX_RETRY_FETCH
    }
}

/// A symbol as the index holds it, with the file it stands in.
pub struct Row {
    pub id: i64,
    pub node_type: String,
    pub name: String,
    pub qualified_name: Option<String>,
    pub start_line: i64,
    pub end_line: i64,
    pub code_content: String,
    pub signature: Option<String>,
    pub file_path: String,
    pub language: Option<String>,
    /// Whether the symbol is a placeholder for a module or an external name, or
    /// belongs to the tests.
    pub is_noise: bool,
}

impl Row {
    /// Whether the number of lines of the symbol can be told.
    pub open spec fn wf(self) -> bool {
        self.end_line - self.start_line < i64::MAX
    }

    /// How many lines the symbol takes, by its first and its last one.
    pub open spec fn line_count(self) -> int {
        self.end_line - self.start_line + 1
    }

    /// How many lines the symbol takes, or the least number above `i64::MIN`
    /// where that is too little to hold.
    pub open spec fn clamped_line_count(self) -> int {
        if self.line_count() > i64::MIN {
            self.line_count()
        } else {
            i64::MIN + 1
        }
    }

    /// How many lines the symbol takes.
    pub fn lines(&self) -> (r: i64)
        requires
            self.wf(),
        ensures
            r == self.clamped_line_count(),
    {
        let span: i128 = self.end_line as i128 - self.start_line as i128;
        if span >= i64::MIN as i128 {
            span as i64 + 1
        } else {
            i64::MIN + 1
        }
    }
}

/// What the caller restricts the results to.
pub struct Filter {
    /// The types that a result may have.
    pub types: Option<Vec<String>>,
    /// The language that a result has to be written in.
    pub language: Option<String>,
}

impl Filter {
    /// Whether there is any restriction.
    pub open spec fn active(self) -> bool {
        self.types is Some || self.language is Some
    }

    /// Whether a row meets the restrictions.
    pub open spec fn passes(self, row: Row) -> bool {
        &&& self.types matches Some(types) ==> text::texts(types@).contains(row.node_type@)
        &&& self.language matches Some(language) ==> text::optional_text(row.language) == Some(language@)
    }

    /// Whether there is any restriction.
    pub fn is_active(&self) -> (r: bool)
        ensures
            r == self.active(),
    {
        self.types.is_some() || self.language.is_some()
    }

    /// Whether a row meets the restrictions.
    pub fn admits(&self, row: &Row) -> (r: bool)
        ensures
            r == self.passes(*row),
    {
        if let Some(types) = &self.types {
            let mut found = false;
            let mut i: usize = 0;
            while i < types.len()
                invariant
                    0 <= i <= types@.len(),
                    found == exists|j: int|
                        0 <= j < i && #[trigger] text::texts(types@)[j] == row.node_type@,
                decreases types@.len() - i,
            {
                assert(text::texts(types@)[i as int] == types@[i as int]@);
                if types[i] == row.node_type {
                    found = true;
                }
                i += 1;
            }
            if !found {
                assert(!text::texts(types@).contains(row.node_type@));
                return false;
            }
            assert(text::texts(types@).contains(row.node_type@));
        }
        if let Some(language) = &self.language {
            match &row.language {
                Some(own) => {
                    if *own != *language {
                        return false;
                    }
                },
                None => {
                    return false;
                },
            }
        }
        true
    }
}

/// A row that may be shown, with what its score depends on.
pub struct Kept {
    /// Where the row stood in the fetch.
    pub rank: usize,
    pub row: Row,
    /// How many of the query's words the name holds.
    pub name_matches: usize,
    /// Whether the name, or the qualified name, is the query.
    pub exact_name: bool,
    /// How many lines the symbol takes.
    pub lines: i64,
    /// Whether the row is prose that nobody asked for.
    pub demoted: bool,
}

/// How many of `terms` occur in `name`.
pub open spec fn match_count(terms: Seq<Seq<char>>, name: Seq<char>) -> nat
    decreases terms.len(),
{
    if terms.len() == 0 {
        0
    } else {
        match_count(terms.drop_last(), name) + (if text::contains_text(name, terms.last()) {
            1nat
        } else {
            0nat
        })
    }
}

/// Whether a symbol is called what the query says, in lowercase.
pub open spec fn is_exact_name(row: Row, identifier: Seq<char>) -> bool {
    ||| text::lowercase(row.name@) == identifier
    ||| row.qualified_name matches Some(q) && text::lowercase(q@) == identifier
}

/// Whether a row is prose that nobody asked for.
pub open spec fn is_demoted(row: Row, filter: Filter) -> bool {
    text::optional_text(row.language) == Some("markdown"@) && text::optional_text(filter.language) != Some(
        "markdown"@,
    )
}

/// Whether `k` is `row`, found at position `rank`, with what its score depends
/// on.
pub open spec fn appraised(k: Kept, rank: int, row: Row, filter: Filter, profile: QueryProfile)
    -> bool {
    &&& k.rank == rank
    &&& k.row == row
    &&& k.name_matches == match_count(text::texts(profile.terms@), text::lowercase(row.name@))
    &&& k.exact_name == is_exact_name(row, profile.identifier@)
    &&& k.lines == row.clamped_line_count()
    &&& k.demoted == is_demoted(row, filter)
}

/// The rows by their ids; of two with one id the later one counts.
pub open spec fn by_id(rows: Seq<Row>) -> Map<i64, Row>
    decreases rows.len(),
{
    if rows.len() == 0 {
        Map::empty()
    } else {
        by_id(rows.drop_last()).insert(rows.last().id, rows.last())
    }
}

/// What becomes of one id of a fetch.
pub enum Fate {
    /// No row belongs to it, or the row was reached before.
    Missing,
    /// The row is a placeholder or belongs to the tests.
    Noise,
    /// The caller's filter leaves the row out.
    Filtered,
    /// The row may be shown.
    Shown,
}

/// What becomes of the id at position `i` of a fetch.
pub open spec fn fate(fused: Seq<i64>, rows: Map<i64, Row>, filter: Filter, i: int) -> Fate {
    if fused.take(i).contains(fused[i]) || !rows.contains_key(fused[i]) {
        Fate::Missing
    } else if rows[fused[i]].is_noise {
        Fate::Noise
    } else if !filter.passes(rows[fused[i]]) {
        Fate::Filtered
    } else {
        Fate::Shown
    }
}

/// Whether the lines of every row that may be shown can be counted.
pub open spec fn shown_rows_wf(fused: Seq<i64>, rows: Map<i64, Row>, filter: Filter) -> bool {
    forall|i: int|
        0 <= i < fused.len() && #[trigger] fate(fused, rows, filter, i) is Shown
            ==> rows[fused[i]].wf()
}

/// The positions below `n` whose rows may be shown, in order.
pub open spec fn shown_positions(
    fused: Seq<i64>,
    rows: Map<i64, Row>,
    filter: Filter,
    n: nat,
) -> Seq<int>
    decreases n,
{
    if n == 0 {
        seq![]
    } else if fate(fused, rows, filter, n - 1) is Shown {
        shown_positions(fused, rows, filter, (n - 1) as nat).push(n - 1)
    } else {
        shown_positions(fused, rows, filter, (n - 1) as nat)
    }
}

/// How many of the positions below `n` have this fate.
pub open spec fn fate_count(
    fused: Seq<i64>,
    rows: Map<i64, Row>,
    filter: Filter,
    n: nat,
    which: Fate,
) -> nat
    decreases n,
{
    if n == 0 {
        0
    } else {
        fate_count(fused, rows, filter, (n - 1) as nat, which) + (if fate(
            fused,
            rows,
            filter,
            n - 1,
        ) == which {
            1nat
        } else {
            0nat
        })
    }
}

/// What came out of one fetch.
pub struct Pool {
    /// The rows that may be shown, in the order of the fetch.
    pub kept: Vec<Kept>,
    /// How many rows the caller's filter left out.
    pub dropped_by_filter: usize,
    /// How many placeholders and test symbols were left out.
    pub skipped_noise: usize,
    /// How many ids came back.
    pub pool_len: usize,
    /// How many ids were asked for.
    pub fetch: i64,
}

/// Whether `pool` is what comes of the ids `fused`, `fetch` of which were asked
/// for.
pub open spec fn sifted(
    pool: Pool,
    fused: Seq<i64>,
    fetch: int,
    rows: Map<i64, Row>,
    filter: Filter,
    profile: QueryProfile,
) -> bool {
    let shown = shown_positions(fused, rows, filter, fused.len());
    &&& pool.kept@.len() == shown.len()
    &&& forall|j: int|
        0 <= j < shown.len() ==> appraised(
            #[trigger] pool.kept@[j],
            shown[j],
            rows[fused[shown[j]]],
            filter,
            profile,
        )
    &&& pool.dropped_by_filter == fate_count(fused, rows, filter, fused.len(), Fate::Filtered)
    &&& pool.skipped_noise == fate_count(fused, rows, filter, fused.len(), Fate::Noise)
    &&& pool.pool_len == fused.len()
    &&& pool.fetch == fetch
}

fn count_matches(terms: &Vec<String>, name: &str) -> (r: usize)
    ensures
        r == match_count(text::texts(terms@), name@),
        r <= terms@.len(),
{
    let ghost all = text::texts(terms@);
    let mut n: usize = 0;
    let mut i: usize = 0;
    while i < terms.len()
        invariant
            all == text::texts(terms@),
            0 <= i <= terms@.len(),
            n <= i,
            n == match_count(all.take(i as int), name@),
        decreases terms@.len() - i,
    {
        assert(all.take(i + 1).drop_last() == all.take(i as int));
        assert(all.take(i + 1).last() == terms@[i as int]@);
        if text::has_text(name, terms[i].as_str()) {
            n += 1;
        }
        i += 1;
    }
    assert(all.take(all.len() as int) == all);
    n
}

/// Whether a symbol is called what the query says. `identifier` is the query in
/// lowercase.
pub fn has_exact_name(row: &Row, identifier: &str) -> (r: bool)
    ensures
        r == is_exact_name(*row, identifier@),
{
    let own = row.name.as_str().to_lowercase();
    if text::same_text(own.as_str(), identifier) {
        return true;
    }
    match &row.qualified_name {
        Some(q) => {
            let q = q.as_str().to_lowercase();
            text::same_text(q.as_str(), identifier)
        },
        None => false,
    }
}

fn is_markdown(language: &Option<String>) -> (r: bool)
    ensures
        r == (text::optional_text(*language) == Some("markdown"@)),
{
    match language {
        Some(l) => text::same_text(l.as_str(), "markdown"),
        None => false,
    }
}

fn index_rows(rows: Vec<Row>) -> (m: HashMap<i64, Row>)
    ensures
        m@ == by_id(rows@),
{
    let mut m: HashMap<i64, Row> = HashMap::new();
    let ghost all = rows@;
    for row in it: rows
        invariant
            it.seq() == all,
            m@ == by_id(all.take(it.index() as int)),
    {
        proof {
            let n = it.index() as int;
            assert(all.take(n + 1).drop_last() == all.take(n));
            assert(all.take(n + 1).last() == row);
        }
        m.insert(row.id, row);
    }
    assert(all.take(all.len() as int) == all);
    m
}

/// Sorts the ids of a fetch, best first, into the rows that may be shown and the
/// numbers of those that may not. An id without a row counts as neither. Only
/// the lines of rows that may be shown are counted.
pub fn sift(
    fused: &Vec<i64>,
    fetch: i64,
    rows: Vec<Row>,
    filter: &Filter,
    profile: &QueryProfile,
) -> (pool: Pool)
    requires
        shown_rows_wf(fused@, by_id(rows@), *filter),
    ensures
        sifted(pool, fused@, fetch as int, by_id(rows@), *filter, *profile),
{
    let ghost all = by_id(rows@);
    let mut left = index_rows(rows);
    let mut kept: Vec<Kept> = Vec::new();
    let mut dropped: usize = 0;
    let mut skipped: usize = 0;
    let mut i: usize = 0;
    while i < fused.len()
        invariant
            shown_rows_wf(fused@, all, *filter),
            0 <= i <= fused@.len(),
            forall|id: i64| #[trigger]
                left@.contains_key(id) <==> all.contains_key(id) && !fused@.take(i as int).contains(
                    id,
                ),
            forall|id: i64| #[trigger] left@.contains_key(id) ==> left@[id] == all[id],
            dropped <= i,
            skipped <= i,
            dropped == fate_count(fused@, all, *filter, i as nat, Fate::Filtered),
            skipped == fate_count(fused@, all, *filter, i as nat, Fate::Noise),
            kept@.len() == shown_positions(fused@, all, *filter, i as nat).len(),
            forall|j: int|
                0 <= j < kept@.len() ==> appraised(
                    #[trigger] kept@[j],
                    shown_positions(fused@, all, *filter, i as nat)[j],
                    all[fused@[shown_positions(fused@, all, *filter, i as nat)[j]]],
                    *filter,
                    *profile,
                ),
        decreases fused@.len() - i,
    {
        let id: i64 = fused[i];
        let ghost before = fused@.take(i as int);
        let ghost after = fused@.take(i + 1);
        assert(after == before.push(id));
        assert forall|other: i64| after.contains(other) <==> before.contains(other) || other
            == id by {
            if before.contains(other) {
                let at = choose|at: int| 0 <= at < before.len() && before[at] == other;
                assert(after[at] == other);
            }
            assert(after[i as int] == id);
        }
        match left.remove(&id) {
            None => {
                assert(fate(fused@, all, *filter, i as int) is Missing);
            },
            Some(row) => {
                assert(row == all[id]);
                if row.is_noise {
                    assert(fate(fused@, all, *filter, i as int) is Noise);
                    skipped += 1;
                } else if !filter.admits(&row) {
                    assert(fate(fused@, all, *filter, i as int) is Filtered);
                    dropped += 1;
                } else {
                    assert(fate(fused@, all, *filter, i as int) is Shown);
                    let name = row.name.as_str().to_lowercase();
                    let name_matches: usize = count_matches(&profile.terms, name.as_str());
                    let exact_name = has_exact_name(&row, profile.identifier.as_str());
                    let lines: i64 = row.lines();
                    let demoted = is_markdown(&row.language) && !is_markdown(&filter.language);
                    kept.push(Kept { rank: i, row, name_matches, exact_name, lines, demoted });
                }
            },
        }
        i += 1;
    }
    Pool { kept, dropped_by_filter: dropped, skipped_noise: skipped, pool_len: fused.len(), fetch }
}

proof fn lemma_fates_add_up(fused: Seq<i64>, rows: Map<i64, Row>, filter: Filter, n: nat)
    ensures
        shown_positions(fused, rows, filter, n).len() + fate_count(
            fused,
            rows,
            filter,
            n,
            Fate::Filtered,
        ) + fate_count(fused, rows, filter, n, Fate::Noise) + fate_count(
            fused,
            rows,
            filter,
            n,
            Fate::Missing,
        ) == n,
    decreases n,
{
    if n > 0 {
        lemma_fates_add_up(fused, rows, filter, (n - 1) as nat);
    }
}

proof fn lemma_none_missing(fused: Seq<i64>, rows: Map<i64, Row>, filter: Filter, n: nat)
    requires
        n <= fused.len(),
        fused.no_duplicates(),
        forall|i: int| 0 <= i < fused.len() ==> rows.contains_key(#[trigger] fused[i]),
    ensures
        fate_count(fused, rows, filter, n, Fate::Missing) == 0,
    decreases n,
{
    if n > 0 {
        lemma_none_missing(fused, rows, filter, (n - 1) as nat);
        let head = fused.take(n - 1);
        if head.contains(fused[n - 1]) {
            let at = choose|at: int| 0 <= at < head.len() && head[at] == fused[n - 1];
            assert(fused[at] == fused[n - 1]);
        }
    }
}

/// Every id of a fetch is shown, left out as noise, left out by the filter or
/// without a row of its own, so the numbers of a pool never exceed its size.
pub proof fn law_no_row_is_counted_twice(
    pool: Pool,
    fused: Seq<i64>,
    fetch: int,
    rows: Map<i64, Row>,
    filter: Filter,
    profile: QueryProfile,
)
    requires
        sifted(pool, fused, fetch, rows, filter, profile),
    ensures
        pool.kept@.len() + pool.dropped_by_filter + pool.skipped_noise + fate_count(
            fused,
            rows,
            filter,
            fused.len(),
            Fate::Missing,
        ) == pool.pool_len,
{
    lemma_fates_add_up(fused, rows, filter, fused.len());
}

/// Where the ids of a fetch are distinct and each has a row, the numbers of the
/// pool close over its size.
pub proof fn law_numbers_close_over_the_pool(
    pool: Pool,
    fused: Seq<i64>,
    fetch: int,
    rows: Map<i64, Row>,
    filter: Filter,
    profile: QueryProfile,
)
    requires
        sifted(pool, fused, fetch, rows, filter, profile),
        fused.no_duplicates(),
        forall|i: int| 0 <= i < fused.len() ==> rows.contains_key(#[trigger] fused[i]),
    ensures
        pool.kept@.len() + pool.dropped_by_filter + pool.skipped_noise == pool.pool_len,
{
    lemma_fates_add_up(fused, rows, filter, fused.len());
    lemma_none_missing(fused, rows, filter, fused.len());
}

proof fn lemma_shown_positions(fused: Seq<i64>, rows: Map<i64, Row>, filter: Filter, n: nat)
    ensures
        forall|j: int|
            #![trigger shown_positions(fused, rows, filter, n)[j]]
            0 <= j < shown_positions(fused, rows, filter, n).len() ==> {
                &&& 0 <= shown_positions(fused, rows, filter, n)[j] < n
                &&& fate(fused, rows, filter, shown_positions(fused, rows, filter, n)[j]) is Shown
            },
        forall|i: int, j: int|
            #![trigger shown_positions(fused, rows, filter, n)[i], shown_positions(fused, rows, filter, n)[j]]
            0 <= i < j < shown_positions(fused, rows, filter, n).len() ==> shown_positions(
                fused,
                rows,
                filter,
                n,
            )[i] < shown_positions(fused, rows, filter, n)[j],
    decreases n,
{
    if n > 0 {
        lemma_shown_positions(fused, rows, filter, (n - 1) as nat);
    }
}

/// Whether no row of a pool is noise, and each meets the restrictions.
pub open spec fn is_clean(pool: Pool, filter: Filter) -> bool {
    forall|j: int|
        0 <= j < pool.kept@.len() ==> !(#[trigger] pool.kept@[j]).row.is_noise && filter.passes(
            pool.kept@[j].row,
        )
}

/// No placeholder, no test symbol and no row that the filter refuses is ever
/// shown, and the rows that are keep the order of the fetch.
pub proof fn law_only_admitted_rows_are_shown(
    pool: Pool,
    fused: Seq<i64>,
    fetch: int,
    rows: Map<i64, Row>,
    filter: Filter,
    profile: QueryProfile,
)
    requires
        sifted(pool, fused, fetch, rows, filter, profile),
    ensures
        is_clean(pool, filter),
        forall|i: int, j: int|
            0 <= i < j < pool.kept@.len() ==> (#[trigger] pool.kept@[i]).rank < (
            #[trigger] pool.kept@[j]).rank,
{
    lemma_shown_positions(fused, rows, filter, fused.len());
    let shown = shown_positions(fused, rows, filter, fused.len());
    assert forall|j: int| 0 <= j < pool.kept@.len() implies !(
    #[trigger] pool.kept@[j]).row.is_noise && filter.passes(pool.kept@[j].row) by {
        assert(fate(fused, rows, filter, shown[j]) is Shown);
    }
    assert forall|i: int, j: int| 0 <= i < j < pool.kept@.len() implies (
    #[trigger] pool.kept@[i]).rank < (#[trigger] pool.kept@[j]).rank by {
        assert(shown[i] < shown[j]);
        assert(pool.kept@[i].rank == shown[i]);
        assert(pool.kept@[j].rank == shown[j]);
    }
}

/// A filter only ever widens the fetch, a greater `top_k` never narrows it, and
/// the fetch always covers `top_k`.
pub proof fn law_fetch_covers_top_k(small: int, large: int, filtered: bool)
    requires
        small <= large,
    ensures
        fetch_count(small, filtered) <= fetch_count(large, filtered),
        fetch_count(small, false) <= fetch_count(small, true),
        small <= fetch_count(small, filtered),
{
}

/// As long as `top_k` is below its ceiling of a hundred, a greater one makes the
/// first fetch wider; and under a filter the widest fetch reaches past all that a
/// smaller `top_k` looked at, its second fetch included.
pub proof fn law_greater_top_k_reaches_further(top_k: int)
    requires
        0 <= top_k < 100,
    ensures
        fetch_count(top_k, false) < fetch_count(100, false),
        fetch_count(top_k, true) < fetch_count(100, true),
        retry_fetch_count(fetch_count(top_k, true)) < fetch_count(100, true),
{
}

/// A fetch asks for twenty ids or four for each result, whichever is more; under a
/// filter for a hundred or sixteen for each. A second one asks for four times as
/// many, or for a thousand where that is less.
pub proof fn law_fetch_is_the_wider_of_two(top_k: int, fetch: int)
    ensures
        fetch_count(top_k, false) >= 20 && fetch_count(top_k, false) >= 4 * top_k,
        fetch_count(top_k, false) == 20 || fetch_count(top_k, false) == 4 * top_k,
        fetch_count(top_k, true) >= 100 && fetch_count(top_k, true) >= 16 * top_k,
        fetch_count(top_k, true) == 100 || fetch_count(top_k, true) == 16 * top_k,
        retry_fetch_count(fetch) <= 4 * fetch && retry_fetch_count(fetch) <= 1000,
        retry_fetch_count(fetch) == 4 * fetch || retry_fetch_count(fetch) == 1000,
{
}

/// A row meets the restrictions exactly where its type is one of those asked for,
/// at whatever position, or none was asked for; and its language is the one asked
/// for, or none was.
pub proof fn law_filter_asks_for_any_of_its_types(filter: Filter, row: Row)
    ensures
        filter.passes(row) <==> (filter.types matches Some(types) ==> exists|i: int|
            0 <= i < types@.len() && (#[trigger] types@[i])@ == row.node_type@) && (
        filter.language matches Some(asked) ==> (row.language matches Some(own) && own@ == asked@)),
        filter.active() <==> !(filter.types is None && filter.language is None),
{
    if let Some(types) = filter.types {
        let names = text::texts(types@);
        if names.contains(row.node_type@) {
            let i = choose|i: int| 0 <= i < names.len() && names[i] == row.node_type@;
            assert(types@[i]@ == row.node_type@);
        }
        if exists|i: int| 0 <= i < types@.len() && (#[trigger] types@[i])@ == row.node_type@ {
            let i = choose|i: int|
                0 <= i < types@.len() && (#[trigger] types@[i])@ == row.node_type@;
            assert(names[i] == row.node_type@);
        }
    }
}

/// The row of an id is the last one that was fetched under it.
pub proof fn law_last_row_of_an_id_counts(rows: Seq<Row>, i: int)
    requires
        0 <= i < rows.len(),
        forall|j: int| i < j < rows.len() ==> (#[trigger] rows[j]).id != rows[i].id,
    ensures
        by_id(rows).contains_key(rows[i].id),
        by_id(rows)[rows[i].id] == rows[i],
    decreases rows.len(),
{
    if i < rows.len() - 1 {
        let rest = rows.drop_last();
        assert(rows[rows.len() - 1].id != rows[i].id);
        assert forall|j: int| i < j < rest.len() implies (#[trigger] rest[j]).id != rest[i].id by {
            assert(rest[j] == rows[j]);
        }
        law_last_row_of_an_id_counts(rest, i);
    }
}

/// Only an id that a row was fetched under has one.
pub proof fn law_only_fetched_ids_have_rows(rows: Seq<Row>, id: i64)
    requires
        by_id(rows).contains_key(id),
    ensures
        exists|i: int| 0 <= i < rows.len() && (#[trigger] rows[i]).id == id,
    decreases rows.len(),
{
    let last = rows.len() - 1;
    if rows[last].id != id {
        law_only_fetched_ids_have_rows(rows.drop_last(), id);
        let i = choose|i: int|
            0 <= i < rows.drop_last().len() && (#[trigger] rows.drop_last()[i]).id == id;
        assert(rows[i].id == id);
    }
}

proof fn lemma_fate_of_a_prefix(
    fused: Seq<i64>,
    id: i64,
    rows: Map<i64, Row>,
    filter: Filter,
    n: nat,
    which: Fate,
)
    requires
        n <= fused.len(),
    ensures
        shown_positions(fused.push(id), rows, filter, n) == shown_positions(fused, rows, filter, n),
        fate_count(fused.push(id), rows, filter, n, which) == fate_count(
            fused,
            rows,
            filter,
            n,
            which,
        ),
    decreases n,
{
    if n > 0 {
        lemma_fate_of_a_prefix(fused, id, rows, filter, (n - 1) as nat, which);
        assert(fused.push(id).take(n - 1) =~= fused.take(n - 1));
        assert(fate(fused.push(id), rows, filter, n - 1) == fate(fused, rows, filter, n - 1));
    }
}

/// A pool of no ids is empty. One more id behind the others leaves what came of
/// those as it is, and adds one to the pool: to nothing else where it has no row
/// or came before; to the noise where its row is a placeholder or a test, whatever
/// the filter; to the rows left out where the filter asks for another type or
/// language; and else to the rows that may be shown, as the last of them.
pub proof fn law_one_more_id_adds_its_row(
    none: Pool,
    before: Pool,
    after: Pool,
    fused: Seq<i64>,
    id: i64,
    fetch: int,
    rows: Map<i64, Row>,
    filter: Filter,
    profile: QueryProfile,
)
    requires
        sifted(none, Seq::empty(), fetch, rows, filter, profile),
        sifted(before, fused, fetch, rows, filter, profile),
        sifted(after, fused.push(id), fetch, rows, filter, profile),
    ensures
        none.kept@.len() == 0 && none.dropped_by_filter == 0 && none.skipped_noise == 0,
        none.pool_len == 0 && none.fetch == fetch,
        after.pool_len == before.pool_len + 1 && after.fetch == fetch,
        forall|j: int|
            0 <= j < before.kept@.len() ==> (#[trigger] after.kept@[j]).row == before.kept@[j].row
                && after.kept@[j].rank == before.kept@[j].rank,
        ({
            let counted = rows.contains_key(id) && !fused.contains(id);
            let row = rows[id];
            let wanted_type = filter.types matches Some(types) ==> exists|i: int|
                0 <= i < types@.len() && (#[trigger] types@[i])@ == row.node_type@;
            let wanted_language = filter.language matches Some(asked) ==> (
            row.language matches Some(own) && own@ == asked@);
            let shown = counted && !row.is_noise && wanted_type && wanted_language;
            &&& after.skipped_noise == before.skipped_noise + (if counted && row.is_noise {
                1int
            } else {
                0
            })
            &&& after.dropped_by_filter == before.dropped_by_filter + (if counted && !row.is_noise
                && !(wanted_type && wanted_language) {
                1int
            } else {
                0
            })
            &&& after.kept@.len() == before.kept@.len() + (if shown {
                1int
            } else {
                0
            })
            &&& shown ==> after.kept@.last().row == row && after.kept@.last().rank == fused.len()
        }),
{
    let longer = fused.push(id);
    let n = fused.len();
    lemma_fate_of_a_prefix(fused, id, rows, filter, n, Fate::Noise);
    lemma_fate_of_a_prefix(fused, id, rows, filter, n, Fate::Filtered);
    assert(longer.take(n as int) =~= fused);
    assert(longer[n as int] == id);
    law_filter_asks_for_any_of_its_types(filter, rows[id]);
    lemma_shown_positions(fused, rows, filter, n);
    let was = shown_positions(fused, rows, filter, n);
    let now = shown_positions(longer, rows, filter, longer.len());
    assert forall|j: int| 0 <= j < before.kept@.len() implies (#[trigger] after.kept@[j]).row
        == before.kept@[j].row && after.kept@[j].rank == before.kept@[j].rank by {
        assert(now[j] == was[j]);
        assert(appraised(before.kept@[j], was[j], rows[fused[was[j]]], filter, profile));
        assert(appraised(after.kept@[j], now[j], rows[longer[now[j]]], filter, profile));
        assert(0 <= was[j] < n);
        assert(longer[now[j]] == fused[was[j]]);
    }
}

/// What a shown row is scored by, for a search that goes by `query`. Its name is
/// exact where the name is the query, whatever the qualified name is, and where
/// the qualified name is the query, whatever the name is; both in lowercase, the
/// query without the white space around it. Its name matches as often as words of
/// the query occur in it. Its lines run from the first to the last. And it is
/// demoted where it is markdown and markdown was not asked for.
pub proof fn law_shown_rows_are_scored_by_their_names(
    pool: Pool,
    fused: Seq<i64>,
    fetch: int,
    rows: Map<i64, Row>,
    filter: Filter,
    profile: QueryProfile,
    query: Seq<char>,
    j: int,
)
    requires
        sifted(pool, fused, fetch, rows, filter, profile),
        crate::query::is_profile(profile, query),
        0 <= j < pool.kept@.len(),
    ensures
        ({
            let k = pool.kept@[j];
            let row = k.row;
            let asked = text::lowercase(text::trimmed(query));
            &&& 0 <= k.rank < fused.len() && row == rows[fused[k.rank as int]]
            &&& text::lowercase(row.name@) == asked ==> k.exact_name
            &&& forall|q: String|
                row.qualified_name == Some(q) && text::lowercase(#[trigger] q@) == asked
                    ==> k.exact_name
            &&& k.exact_name && text::lowercase(row.name@) != asked ==> (
            row.qualified_name matches Some(q) && text::lowercase(q@) == asked)
            &&& k.name_matches == profile.terms@.filter(
                |t: String| text::contains_text(text::lowercase(row.name@), t@),
            ).len()
            &&& row.end_line - row.start_line >= i64::MIN ==> k.lines == row.end_line
                - row.start_line + 1
            &&& row.end_line - row.start_line < i64::MIN ==> k.lines == i64::MIN + 1
            &&& k.demoted <==> (row.language matches Some(own) && own@ == "markdown"@) && !(
            filter.language matches Some(wanted) && wanted@ == "markdown"@)
        }),
{
    let k = pool.kept@[j];
    let shown = shown_positions(fused, rows, filter, fused.len());
    lemma_shown_positions(fused, rows, filter, fused.len());
    assert(0 <= shown[j] < fused.len());
    assert(appraised(k, shown[j], rows[fused[shown[j]]], filter, profile));
    lemma_match_count(profile.terms@, text::lowercase(k.row.name@));
}

proof fn lemma_match_count(terms: Seq<String>, name: Seq<char>)
    ensures
        match_count(text::texts(terms), name) == terms.filter(
            |t: String| text::contains_text(name, t@),
        ).len(),
    decreases terms.len(),
{
    reveal(Seq::filter);
    let all = text::texts(terms);
    if terms.len() > 0 {
        lemma_match_count(terms.drop_last(), name);
        assert(all.drop_last() =~= text::texts(terms.drop_last()));
        assert(all.last() == terms.last()@);
    }
}

} // verus!
