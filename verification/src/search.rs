//! One search from its arguments to its answer: which arguments it takes, when a
//! second and wider fetch is worth while, which of the two fetches the answer
//! comes from, and how the answer is put together.

use crate::answer;
use crate::answer::CompressedOutput;
use crate::answer::Keys;
use crate::answer::ModelDownloads;
use crate::confidence;
use crate::confidence::Penalty;
use crate::confidence::Thresholds;
use crate::json;
use crate::json::Json;
use crate::pool;
use crate::pool::Filter;
use crate::pool::Pool;
use crate::pool::Row;
use crate::query;
use crate::query::QueryProfile;
use crate::rank;
use crate::rank::Candidate;
use crate::shortfall;
use crate::shortfall::PoolShortfall;
use crate::text;
use serde_json::Value;
use vstd::prelude::*;

verus! {

/// What an arguments object holds under `key`; `null` where it holds nothing.
pub open spec fn argument(args: Json, key: Seq<char>) -> Json {
    if args is Object && args->Object_0.contains_key(key) {
        args->Object_0[key]
    } else {
        Json::Null
    }
}

/// The name of the argument that gives the number of results: `top_k`, or its
/// other name `limit` where `top_k` is not given.
pub fn top_k_argument(args: &Value) -> (r: &'static str)
    ensures
        r@ == (if argument(json::json(*args), "top_k"@) is Null {
            "limit"@
        } else {
            "top_k"@
        }),
{
    match json::member(args, "top_k") {
        Some(v) => if v.is_null() {
            "limit"
        } else {
            "top_k"
        },
        None => "limit",
    }
}

/// The text that an argument gives, if it is given as a text.
pub fn text_argument(args: &Value, key: &str) -> (r: Option<String>)
    ensures
        text::optional_text(r) == (match argument(json::json(*args), key@) {
            Json::Text(t) => Some(t),
            _ => None,
        }),
{
    match json::member(args, key) {
        Some(v) => match v.as_str() {
            Some(s) => Some(s.to_owned()),
            None => None,
        },
        None => None,
    }
}

/// What a caller is told whose type filter no type belongs to.
pub open spec fn unknown_type_text(filter: Seq<char>, help: Seq<char>, note: Seq<char>) -> Seq<
    char,
> {
    "Unknown node_type filter: '"@ + filter + "'. Valid: "@ + help + "."@ + note
}

/// What a caller is told whose language the index does not know.
pub open spec fn unknown_language_text(language: Seq<char>, supported: Seq<Seq<char>>) -> Seq<
    char,
> {
    "Unknown language filter: '"@ + language + "'. Valid: "@ + text::joined(supported, ", "@)
}

/// Refuses a type filter that no type belongs to. `normalized` are the types that
/// `filter` stands for, `help` the filters there are, and `note` a remark on
/// `filter`.
pub fn check_type_filter(filter: &str, normalized: &Vec<String>, help: &str, note: &str) -> (r:
    Result<(), String>)
    ensures
        match r {
            Ok(_) => normalized@.len() > 0,
            Err(e) => normalized@.len() == 0 && e@ == unknown_type_text(filter@, help@, note@),
        },
{
    if normalized.len() == 0 {
        let mut out = "Unknown node_type filter: '".to_owned();
        out.append(filter);
        out.append("'. Valid: ");
        out.append(help);
        out.append(".");
        out.append(note);
        Err(out)
    } else {
        Ok(())
    }
}

/// The name by which the index knows a language, or a refusal. `canonical` is
/// that name, if there is one for `language`.
pub fn check_language(language: &str, canonical: Option<String>, supported: &Vec<String>) -> (r:
    Result<String, String>)
    ensures
        match r {
            Ok(name) => canonical == Some(name),
            Err(e) => canonical is None && e@ == unknown_language_text(
                language@,
                text::texts(supported@),
            ),
        },
{
    match canonical {
        Some(name) => Ok(name),
        None => {
            let mut out = "Unknown language filter: '".to_owned();
            out.append(language);
            out.append("'. Valid: ");
            let names = text::join_texts(supported, ", ");
            out.append(names.as_str());
            Err(out)
        },
    }
}

/// What the caller restricts the results to, or the refusal of a restriction that
/// nothing meets: first that of a type filter, then that of a language. `known`
/// are the types that `node_type` stands for, `row_types` those that rows are
/// compared with, `help` the filters there are, `note` a remark on `node_type`,
/// and `canonical` the name by which the index knows `language`.
pub fn checked_filter(
    node_type: Option<String>,
    known: &Vec<String>,
    row_types: Vec<String>,
    help: &str,
    note: &str,
    language: Option<String>,
    canonical: Option<String>,
    supported: &Vec<String>,
) -> (r: Result<Filter, String>)
    ensures
        match r {
            Ok(filter) => {
                &&& node_type is Some ==> known@.len() > 0
                &&& language is Some ==> canonical is Some
                &&& filter.types == (if node_type is Some {
                    Some(row_types)
                } else {
                    None
                })
                &&& filter.language == (if language is Some {
                    canonical
                } else {
                    None
                })
            },
            Err(e) => if node_type is Some && known@.len() == 0 {
                e@ == unknown_type_text(node_type->0@, help@, note@)
            } else {
                &&& language is Some && canonical is None
                &&& e@ == unknown_language_text(language->0@, text::texts(supported@))
            },
        },
{
    let types = match node_type {
        Some(filter) => {
            match check_type_filter(filter.as_str(), known, help, note) {
                Ok(_) => {},
                Err(e) => {
                    return Err(e);
                },
            }
            Some(row_types)
        },
        None => None,
    };
    let language = match language {
        Some(asked) => match check_language(asked.as_str(), canonical, supported) {
            Ok(name) => Some(name),
            Err(e) => {
                return Err(e);
            },
        },
        None => None,
    };
    Ok(Filter { types, language })
}

/// Whether a pool came back as full as it was asked for.
pub open spec fn is_full(p: Pool) -> bool {
    p.pool_len >= p.fetch
}

/// Whether rows of a pool were left out.
pub open spec fn lost_rows(p: Pool) -> bool {
    p.dropped_by_filter + p.skipped_noise > 0
}

/// Whether a second fetch may find what the first one did not reach: the first
/// pool was full, lost rows, and left the results short.
pub open spec fn wants_retry(first: Pool, top_k: int) -> bool {
    &&& first.kept@.len() < top_k
    &&& is_full(first)
    &&& lost_rows(first)
    &&& pool::retry_fetch_count(first.fetch as int) > first.fetch
}

/// How many ids a second fetch asks for, where one is worth while.
pub fn retry_fetch(first: &Pool, top_k: i64) -> (r: Option<i64>)
    requires
        i64::MIN <= first.fetch * 4 <= i64::MAX,
    ensures
        r == (if wants_retry(*first, top_k as int) {
            Some(pool::retry_fetch_count(first.fetch as int) as i64)
        } else {
            None
        }),
{
    let wide: i64 = pool::search_retry_fetch_count(first.fetch);
    if (first.kept.len() as i128) < (top_k as i128) && (first.pool_len as i128) >= (
    first.fetch as i128) && (first.dropped_by_filter > 0 || first.skipped_noise > 0) && wide
        > first.fetch {
        Some(wide)
    } else {
        None
    }
}

/// The pool that the answer comes from: the second one where it holds more rows
/// that may be shown, else the first one.
pub open spec fn adopted(first: Pool, retry: Option<Pool>) -> Pool {
    match retry {
        Some(second) => if second.kept@.len() > first.kept@.len() {
            second
        } else {
            first
        },
        None => first,
    }
}

/// The widest fetch that was made.
pub open spec fn widest(first: Pool, retry: Option<Pool>) -> Pool {
    match retry {
        Some(second) => second,
        None => first,
    }
}

/// What is told of the pool. The three numbers belong to the pool that the answer
/// comes from; whether rows remained unread is asked of the widest fetch.
pub open spec fn shortfall_of(first: Pool, retry: Option<Pool>, top_k: i64) -> PoolShortfall {
    let p = adopted(first, retry);
    PoolShortfall {
        dropped_by_filter: p.dropped_by_filter,
        skipped_noise: p.skipped_noise,
        pool_len: p.pool_len,
        saturated: p.kept@.len() < top_k && is_full(widest(first, retry)) && lost_rows(p),
        top_k,
    }
}

/// Settles which pool the answer comes from and what is told of it.
pub fn settle(first: Pool, retry: Option<Pool>, top_k: i64) -> (r: (Pool, PoolShortfall))
    ensures
        r.0 == adopted(first, retry),
        r.1 == shortfall_of(first, retry, top_k),
{
    let full = match &retry {
        Some(second) => (second.pool_len as i128) >= (second.fetch as i128),
        None => (first.pool_len as i128) >= (first.fetch as i128),
    };
    let chosen = match retry {
        Some(second) => if second.kept.len() > first.kept.len() {
            second
        } else {
            first
        },
        None => first,
    };
    let shortfall = PoolShortfall {
        dropped_by_filter: chosen.dropped_by_filter,
        skipped_noise: chosen.skipped_noise,
        pool_len: chosen.pool_len,
        saturated: (chosen.kept.len() as i128) < (top_k as i128) && full && (
        chosen.dropped_by_filter > 0 || chosen.skipped_noise > 0),
        top_k,
    };
    (chosen, shortfall)
}

/// How far a search has come.
pub enum Stage {
    /// The first fetch is awaited.
    First,
    /// The second fetch is awaited; this is what came of the first one.
    Second(Pool),
    /// The pool that the answer comes from, and what is told of it.
    Settled(Pool, PoolShortfall),
}

/// What the two channels found in one fetch.
pub struct Channels {
    /// The ids that match the text.
    pub fts: Vec<i64>,
    /// The ids whose vectors are near.
    pub vectors: Vec<i64>,
    /// Whether the words of the query were searched for one by one.
    pub or_fallback: bool,
    /// Why the text channel did not run, if it did not.
    pub not_searched: Option<String>,
}

/// How well a query matched.
pub struct Signals {
    /// The weaknesses that lower the confidence.
    pub penalties: Vec<Penalty>,
    /// Whether the results rest on vectors alone.
    pub vector_only: bool,
    /// Why the text channel did not run, if it did not.
    pub not_searched: Option<String>,
}

/// Whether `signals` tell how well a query matched whose channels found these ids,
/// which make `fused` together.
pub open spec fn tells(
    signals: Signals,
    channels: Channels,
    fused: Seq<i64>,
    top_k: int,
    limits: Thresholds,
) -> bool {
    &&& signals.penalties@ == confidence::weaknesses(
        channels.fts@,
        channels.vectors@,
        fused,
        channels.or_fallback,
        top_k,
        limits,
    )
    &&& signals.vector_only == confidence::without_anchor(channels.fts@, channels.vectors@)
    &&& signals.not_searched == channels.not_searched
}

/// A search under way.
pub struct Search {
    pub query: String,
    pub profile: QueryProfile,
    pub filter: Filter,
    pub limits: Thresholds,
    pub top_k: i64,
    /// How well the query matched, once the first fetch has told.
    pub signals: Option<Signals>,
    pub stage: Stage,
}

/// Where a search stands once a fetch came to `found`.
pub open spec fn next_stage(stage: Stage, found: Pool, top_k: i64) -> Stage {
    match stage {
        Stage::First => if wants_retry(found, top_k as int) {
            Stage::Second(found)
        } else {
            Stage::Settled(found, shortfall_of(found, None, top_k))
        },
        Stage::Second(first) => Stage::Settled(
            adopted(first, Some(found)),
            shortfall_of(first, Some(found), top_k),
        ),
        Stage::Settled(..) => stage,
    }
}

/// How many ids a search asks for next; nothing once it is settled.
pub open spec fn next_fetch(search: Search) -> Option<int> {
    match search.stage {
        Stage::First => Some(pool::fetch_count(search.top_k as int, search.filter.active())),
        Stage::Second(first) => Some(pool::retry_fetch_count(first.fetch as int)),
        Stage::Settled(..) => None,
    }
}

impl Search {
    /// Whether the numbers of a search fit their types, it goes by its own query,
    /// its pools hold only rows that may be shown, and a second fetch is awaited
    /// only where it is worth while.
    pub open spec fn wf(self) -> bool {
        &&& 0 <= self.top_k
        &&& self.top_k * 64 <= i64::MAX
        &&& query::is_profile(self.profile, self.query@)
        &&& self.signals is None <==> self.stage is First
        &&& self.stage matches Stage::Second(first) ==> {
            &&& wants_retry(first, self.top_k as int)
            &&& first.fetch == pool::fetch_count(self.top_k as int, self.filter.active())
            &&& pool::is_clean(first, self.filter)
        }
        &&& self.stage matches Stage::Settled(chosen, _) ==> pool::is_clean(chosen, self.filter)
    }

    /// Starts a search for the `top_k` best results of `query`.
    pub fn start(query: String, filter: Filter, limits: Thresholds, top_k: i64) -> (r: Search)
        requires
            0 <= top_k,
            top_k * 64 <= i64::MAX,
        ensures
            r.wf(),
            r.query == query,
            r.filter == filter,
            r.limits == limits,
            r.top_k == top_k,
            r.stage is First,
    {
        let profile = query::profile(query.as_str());
        Search { query, profile, filter, limits, top_k, signals: None, stage: Stage::First }
    }

    /// How many ids to fetch next; nothing once the search is settled.
    pub fn fetch(&self) -> (r: Option<i64>)
        requires
            self.wf(),
        ensures
            match next_fetch(*self) {
                Some(n) => r == Some(n as i64) && n == n as i64,
                None => r is None,
            },
    {
        match &self.stage {
            Stage::First => Some(pool::search_fetch_count(self.top_k, self.filter.is_active())),
            Stage::Second(first) => Some(pool::search_retry_fetch_count(first.fetch)),
            Stage::Settled(..) => None,
        }
    }

    /// Takes what a fetch brought: what each channel found, the ids that both make
    /// together, best first, and their rows. How well the query matched is told by
    /// the first fetch; a second one widens the recall and does not change that.
    pub fn receive(self, channels: Channels, fused: &Vec<i64>, rows: Vec<Row>) -> (r: Search)
        requires
            self.wf(),
            !(self.stage is Settled),
            pool::shown_rows_wf(fused@, pool::by_id(rows@), self.filter),
        ensures
            r.wf(),
            r.query == self.query,
            r.profile == self.profile,
            r.filter == self.filter,
            r.limits == self.limits,
            r.top_k == self.top_k,
            self.stage is First ==> (r.signals matches Some(signals) && tells(
                signals,
                channels,
                fused@,
                self.top_k as int,
                self.limits,
            )),
            !(self.stage is First) ==> r.signals == self.signals,
            exists|found: Pool| #[trigger]
                pool::sifted(
                    found,
                    fused@,
                    next_fetch(self)->0,
                    pool::by_id(rows@),
                    self.filter,
                    self.profile,
                ) && r.stage == next_stage(self.stage, found, self.top_k),
    {
        let asked: i64 = match self.fetch() {
            Some(n) => n,
            None => 0,
        };
        let found = pool::sift(fused, asked, rows, &self.filter, &self.profile);
        let ghost came = found;
        proof {
            pool::law_only_admitted_rows_are_shown(
                found,
                fused@,
                asked as int,
                pool::by_id(rows@),
                self.filter,
                self.profile,
            );
        }
        let Search { query, profile, filter, limits, top_k, signals, stage } = self;
        let signals = match signals {
            Some(told) => Some(told),
            None => Some(
                Signals {
                    penalties: confidence::penalties(
                        &channels.fts,
                        &channels.vectors,
                        fused,
                        channels.or_fallback,
                        top_k,
                        limits,
                    ),
                    vector_only: confidence::vector_only_no_anchor(
                        &channels.fts,
                        &channels.vectors,
                    ),
                    not_searched: channels.not_searched,
                },
            ),
        };
        let stage = match stage {
            Stage::First => match retry_fetch(&found, top_k) {
                Some(_) => Stage::Second(found),
                None => {
                    let (chosen, told) = settle(found, None, top_k);
                    Stage::Settled(chosen, told)
                },
            },
            Stage::Second(first) => {
                let (chosen, told) = settle(first, Some(found), top_k);
                Stage::Settled(chosen, told)
            },
            Stage::Settled(chosen, told) => Stage::Settled(chosen, told),
        };
        proof {
            assert(pool::sifted(
                came,
                fused@,
                next_fetch(self)->0,
                pool::by_id(rows@),
                self.filter,
                self.profile,
            ));
            assert(stage == next_stage(self.stage, came, top_k));
        }
        Search { query, profile, filter, limits, top_k, signals, stage }
    }

    /// Ranks the rows of a settled search by their scores: the bits of each, and
    /// each as the answer shows it, in the order of the pool.
    pub fn rank(self, bits: &Vec<u64>, shown: Vec<Value>) -> (r: Ranked)
        requires
            self.wf(),
            self.stage is Settled,
            bits@.len() == self.stage->Settled_0.kept@.len(),
            shown@.len() == self.stage->Settled_0.kept@.len(),
        ensures
            is_ranking(r, self, bits@, shown@),
            forall|j: int|
                0 <= j < r.best@.len() ==> !(#[trigger] r.best@[j]).row.is_noise
                    && self.filter.passes(r.best@[j].row),
    {
        let Search { query, profile, filter, limits: _, top_k, signals, stage } = self;
        let signals = match signals {
            Some(told) => told,
            None => vstd::pervasive::unreached(),
        };
        let (chosen, shortfall) = match stage {
            Stage::Settled(chosen, told) => (chosen, told),
            _ => vstd::pervasive::unreached(),
        };
        let ghost kept = chosen.kept@;
        let ghost given = rank::with_scores(kept, bits@, shown@);
        let candidates = rank::scored(chosen.kept, bits, shown);
        let best = rank::rank_candidates(candidates, top_k);
        proof {
            rank::law_best_are_among_the_given(given, top_k as int);
            assert forall|j: int| 0 <= j < best@.len() implies !(#[trigger] best@[j]).row.is_noise
                && filter.passes(best@[j].row) by {
                assert(given.contains(best@[j]));
                let i = choose|i: int| 0 <= i < given.len() && given[i] == best@[j];
                assert(kept[i].row == best@[j].row);
            }
        }
        Ranked { query, profile, filter, signals, shortfall, best }
    }
}

/// A settled search with its results.
pub struct Ranked {
    pub query: String,
    pub profile: QueryProfile,
    pub filter: Filter,
    /// How well the query matched.
    pub signals: Signals,
    /// What is told of the pool that the results come from.
    pub shortfall: PoolShortfall,
    /// The results, best first.
    pub best: Vec<Candidate>,
}

/// A search is settled after two fetches at most, and after one that left nothing
/// to be found.
pub proof fn law_search_settles(first: Pool, second: Pool, top_k: i64)
    ensures
        next_stage(next_stage(Stage::First, first, top_k), second, top_k) is Settled,
        !wants_retry(first, top_k as int) ==> next_stage(Stage::First, first, top_k) is Settled,
{
}

/// The results of a settled search whose rows have these scores.
pub open spec fn results_of(search: Search, bits: Seq<u64>, shown: Seq<Value>) -> Seq<Candidate> {
    rank::first_of(
        rank::ranked(rank::with_scores(search.stage->Settled_0.kept@, bits, shown)),
        search.top_k as int,
    )
}

/// Whether `found` is that settled search with its results, where its rows have
/// these scores.
pub open spec fn is_ranking(
    found: Ranked,
    search: Search,
    bits: Seq<u64>,
    shown: Seq<Value>,
) -> bool {
    &&& found.query == search.query
    &&& found.profile == search.profile
    &&& found.filter == search.filter
    &&& Some(found.signals) == search.signals
    &&& found.shortfall == search.stage->Settled_1
    &&& found.best@ == results_of(search, bits, shown)
}

/// What the answer needs to know besides the search and its results.
pub struct Outcome {
    /// Whether the caller asked for compact rows.
    pub compact: bool,
    /// Whether the vector channel was there.
    pub vector_available: bool,
    /// What stands behind a missing embedding model.
    pub downloads: ModelDownloads,
    /// The confidence as the answer shows it.
    pub match_confidence: Value,
}

/// The keys of the answer, before it is told of a shortfall: the shorter form
/// where the answer is too long and there is one, the reason where there are no
/// results, else the results.
pub open spec fn body_keys(
    outcome: Outcome,
    found: Ranked,
    estimates: Seq<usize>,
    output: Option<CompressedOutput>,
) -> Keys {
    let exact = rank::exact_name_on_top(found.best@, found.profile.identifier@);
    if answer::token_count(estimates, outcome.compact) > answer::COMPRESSION_TOKEN_THRESHOLD
        && output is Some {
        answer::compressed_keys(
            output->0,
            json::json(outcome.match_confidence),
            outcome.vector_available,
            found.signals.vector_only,
            exact,
        )
    } else if found.best@.len() == 0 {
        answer::empty_keys(
            found.query@,
            found.filter.active(),
            found.shortfall,
            text::optional_text(found.signals.not_searched),
            outcome.vector_available,
            outcome.downloads,
        )
    } else {
        answer::finalized(
            answer::results_json(found.best@, outcome.compact),
            json::json(outcome.match_confidence),
            found.signals.vector_only,
            exact,
            outcome.vector_available,
            outcome.downloads,
        )
    }
}

/// The keys of the answer.
pub open spec fn answer_keys(
    outcome: Outcome,
    found: Ranked,
    estimates: Seq<usize>,
    output: Option<CompressedOutput>,
) -> Keys {
    shortfall::disclosed(found.shortfall, body_keys(outcome, found, estimates, output))
}

/// The answer of a search. `estimates` are how many tokens its rows would take in
/// full and `output` its shorter form, where one was made.
pub fn respond(
    outcome: &Outcome,
    found: &Ranked,
    estimates: &Vec<usize>,
    output: &Option<CompressedOutput>,
) -> (v: Value)
    requires
        forall|i: int|
            0 <= i < found.best@.len() ==> answer::showable(
                #[trigger] found.best@[i],
                outcome.compact,
            ),
        answer::token_count(estimates@, outcome.compact) <= usize::MAX,
    ensures
        json::json(v) == Json::Object(answer_keys(*outcome, *found, estimates@, *output)),
{
    let exact = rank::has_exact_name_match(&found.best, found.profile.identifier.as_str());
    let tokens: usize = answer::estimated_tokens(estimates, outcome.compact);
    let compressed = answer::try_compress_results(
        tokens,
        output,
        &outcome.match_confidence,
        outcome.vector_available,
        found.signals.vector_only,
        exact,
    );
    let mut out = match compressed {
        Some(v) => v,
        None => {
            if found.best.len() == 0 {
                let reason = match &found.signals.not_searched {
                    Some(s) => Some(s.as_str()),
                    None => None,
                };
                answer::explain_empty_results(
                    found.query.as_str(),
                    found.filter.is_active(),
                    &found.shortfall,
                    reason,
                    outcome.vector_available,
                    &outcome.downloads,
                )
            } else {
                let results = answer::build_search_results(&found.best, outcome.compact);
                answer::finalize_search_results(
                    results,
                    outcome.match_confidence.clone(),
                    found.signals.vector_only,
                    exact,
                    outcome.vector_available,
                    &outcome.downloads,
                )
            }
        },
    };
    found.shortfall.attach(&mut out);
    out
}

/// Every answer is an object with the same envelope, whatever its shape and
/// whatever it is told of the pool.
pub proof fn law_every_answer_has_one_envelope(
    outcome: Outcome,
    found: Ranked,
    estimates: Seq<usize>,
    output: Option<CompressedOutput>,
)
    ensures
        answer::is_envelope(
            answer_keys(outcome, found, estimates, output),
            outcome.vector_available,
        ),
{
    answer::lemma_key_names();
}

/// The answer of a settled search shows the best rows of the pool that it settled
/// on, as many as there are up to `top_k`, and is told of that pool's shortfall.
/// It holds of every answer that is not given in the shorter form.
pub proof fn law_answer_shows_the_settled_pool(
    search: Search,
    bits: Seq<u64>,
    shown: Seq<Value>,
    found: Ranked,
    outcome: Outcome,
    estimates: Seq<usize>,
    output: Option<CompressedOutput>,
)
    requires
        search.wf(),
        search.stage is Settled,
        is_ranking(found, search, bits, shown),
        output is None || answer::token_count(estimates, outcome.compact)
            <= answer::COMPRESSION_TOKEN_THRESHOLD,
    ensures
        ({
            let pool = search.stage->Settled_0;
            let told = search.stage->Settled_1;
            let keys = answer_keys(outcome, found, estimates, output);
            let results = results_of(search, bits, shown);
            &&& keys["results"@] == Json::Array(answer::results_json(results, outcome.compact))
            &&& results.len() == (if pool.kept@.len() < search.top_k {
                pool.kept@.len() as int
            } else {
                search.top_k as int
            })
            &&& keys == shortfall::disclosed(told, body_keys(outcome, found, estimates, output))
        }),
{
    answer::lemma_key_names();
    rank::law_ranking_loses_nothing(
        rank::with_scores(search.stage->Settled_0.kept@, bits, shown),
    );
    if found.best@.len() == 0 {
        assert(answer::results_json(found.best@, outcome.compact) =~= Seq::<Json>::empty());
    }
}

/// An answer of compact rows is never given in the shorter form, however many
/// tokens its rows were estimated at.
pub proof fn law_compact_answer_stays_as_it_is(
    outcome: Outcome,
    found: Ranked,
    estimates: Seq<usize>,
    output: Option<CompressedOutput>,
)
    requires
        outcome.compact,
    ensures
        ({
            let keys = answer_keys(outcome, found, estimates, output);
            &&& !keys.contains_key("mode"@)
            &&& keys["results"@] == Json::Array(answer::results_json(found.best@, true))
        }),
{
    answer::lemma_key_names();
    if found.best@.len() == 0 {
        assert(answer::results_json(found.best@, true) =~= Seq::<Json>::empty());
    }
}

/// The flag stands on an answer exactly where rows below the cut were never
/// looked at, in every shape of the answer.
pub proof fn law_every_shape_carries_the_disclosure(
    outcome: Outcome,
    found: Ranked,
    estimates: Seq<usize>,
    output: Option<CompressedOutput>,
)
    ensures
        answer_keys(outcome, found, estimates, output).contains_key("pool_saturated"@)
            <==> found.shortfall.saturated,
        found.shortfall.saturated ==> answer_keys(
            outcome,
            found,
            estimates,
            output,
        )["pool_saturated_note"@] == Json::Text(
            text::trimmed(shortfall::exhaustion_text(found.shortfall)),
        ),
{
    answer::lemma_key_names();
}

/// A second fetch asks for more than the first one, up to the ceiling.
pub proof fn law_retry_widens(first: Pool, top_k: int)
    requires
        wants_retry(first, top_k),
    ensures
        first.fetch < pool::retry_fetch_count(first.fetch as int) <= pool::MAX_RETRY_FETCH,
{
}

/// The answer comes from a pool that shows no fewer rows than any other that was
/// fetched, and from the first one unless the second shows more.
pub proof fn law_retry_never_loses_results(first: Pool, retry: Option<Pool>)
    ensures
        adopted(first, retry).kept@.len() >= first.kept@.len(),
        retry matches Some(second) ==> adopted(first, retry).kept@.len() >= second.kept@.len(),
        retry matches Some(second) ==> second.kept@.len() <= first.kept@.len() ==> adopted(
            first,
            retry,
        ) == first,
{
}

/// Nothing is reported as cut off where the widest fetch read the index to its
/// end, where no row was left out, or where the results are as many as were
/// asked for.
pub proof fn law_complete_answer_is_not_flagged(first: Pool, retry: Option<Pool>, top_k: i64)
    ensures
        shortfall_of(first, retry, top_k).saturated ==> {
            &&& is_full(widest(first, retry))
            &&& lost_rows(adopted(first, retry))
            &&& adopted(first, retry).kept@.len() < top_k
        },
        !is_full(widest(first, retry)) ==> !shortfall_of(first, retry, top_k).saturated,
        adopted(first, retry).kept@.len() >= top_k ==> !shortfall_of(
            first,
            retry,
            top_k,
        ).saturated,
{
}

/// On a flagged answer the disclosed numbers close over the pool: every row of it
/// is shown or counted as left out. It holds where the ids of the pool are
/// distinct and each has a row.
pub proof fn law_disclosed_numbers_describe_one_pool(
    first: Pool,
    retry: Option<Pool>,
    top_k: i64,
    candidates: Seq<Candidate>,
    fused: Seq<i64>,
    fetch: int,
    rows: Map<i64, Row>,
    filter: Filter,
    profile: QueryProfile,
)
    requires
        shortfall_of(first, retry, top_k).saturated,
        candidates.len() == adopted(first, retry).kept@.len(),
        pool::sifted(adopted(first, retry), fused, fetch, rows, filter, profile),
        fused.no_duplicates(),
        forall|i: int| 0 <= i < fused.len() ==> rows.contains_key(#[trigger] fused[i]),
    ensures
        ({
            let told = shortfall_of(first, retry, top_k);
            rank::first_of(rank::ranked(candidates), top_k as int).len() + told.dropped_by_filter
                + told.skipped_noise == told.pool_len
        }),
{
    let p = adopted(first, retry);
    pool::law_numbers_close_over_the_pool(p, fused, fetch, rows, filter, profile);
    rank::law_ranking_loses_nothing(candidates);
}

/// An argument is what the object holds under its name; `null` where the object
/// does not hold the name, and where there is no object.
pub proof fn law_argument_is_found_under_its_name(
    keys: Map<Seq<char>, Json>,
    key: Seq<char>,
    other: Json,
)
    requires
        !(other is Object),
    ensures
        keys.contains_key(key) ==> argument(Json::Object(keys), key) == keys[key],
        !keys.contains_key(key) ==> argument(Json::Object(keys), key) is Null,
        argument(other, key) is Null,
{
}

/// A refusal names what was asked for and what can be.
pub proof fn law_refusal_names_what_can_be_asked_for(
    asked: Seq<char>,
    help: Seq<char>,
    note: Seq<char>,
    supported: Seq<Seq<char>>,
)
    ensures
        unknown_type_text(asked, help, note) == "Unknown node_type filter: '"@ + asked
            + "'. Valid: "@ + help + "."@ + note,
        unknown_language_text(asked, supported) == "Unknown language filter: '"@ + asked
            + "'. Valid: "@ + text::joined(supported, ", "@),
{
}

/// A search whose first pool came back full, lost a row and shows fewer rows than
/// were asked for is not settled as long as a wider fetch can be made: it awaits
/// one, four times as wide and up to a thousand. Any other search is settled.
pub proof fn law_short_answer_from_a_full_pool_is_widened(search: Search, first: Pool, top_k: i64)
    requires
        first.fetch > 0,
    ensures
        ({
            let short = first.kept@.len() < top_k;
            let full = first.pool_len >= first.fetch;
            let lost = first.dropped_by_filter > 0 || first.skipped_noise > 0;
            let next = next_stage(Stage::First, first, top_k);
            &&& short && full && lost && first.fetch < 1000 ==> next == Stage::Second(first)
            &&& !(short && full && lost && first.fetch < 1000) ==> next is Settled
            &&& wants_retry(first, top_k as int) <==> short && full && lost && first.fetch < 1000
            &&& next is Settled ==> first.kept@.len() >= top_k || first.pool_len < first.fetch || (
            first.dropped_by_filter == 0 && first.skipped_noise == 0) || first.fetch >= 1000
            &&& search.stage == Stage::Second(first) && 4 * first.fetch <= 1000 ==> next_fetch(
                search,
            ) == Some(4 * first.fetch)
            &&& search.stage == Stage::Second(first) && 4 * first.fetch > 1000 ==> next_fetch(
                search,
            ) == Some(1000int)
        }),
{
}

/// A first fetch asks for as many ids as the filter makes needful; a settled
/// search asks for none.
pub proof fn law_first_fetch_goes_by_the_filter(search: Search)
    ensures
        search.stage is First && search.filter.types is None && search.filter.language is None
            ==> next_fetch(search) == Some(pool::fetch_count(search.top_k as int, false)),
        search.stage is First && (search.filter.types is Some || search.filter.language is Some)
            ==> next_fetch(search) == Some(pool::fetch_count(search.top_k as int, true)),
        search.stage is Settled <==> next_fetch(search) is None,
{
}

/// A search that is settled after its first fetch answers from that pool. After a
/// second one it answers from the second pool where that shows more rows, and else
/// from the first. What is told of it are that pool's own numbers, and it is
/// flagged exactly where it shows fewer rows than were asked for, lost a row, and
/// the last fetch came back full.
pub proof fn law_settled_search_tells_of_its_own_pool(first: Pool, second: Pool, top_k: i64)
    ensures
        ({
            let chosen = if second.kept@.len() > first.kept@.len() {
                second
            } else {
                first
            };
            let last = next_stage(Stage::Second(first), second, top_k);
            &&& last is Settled && last->Settled_0 == chosen
            &&& last->Settled_1.dropped_by_filter == chosen.dropped_by_filter
            &&& last->Settled_1.skipped_noise == chosen.skipped_noise
            &&& last->Settled_1.pool_len == chosen.pool_len
            &&& last->Settled_1.top_k == top_k
            &&& last->Settled_1.saturated <==> chosen.kept@.len() < top_k && second.pool_len
                >= second.fetch && (chosen.dropped_by_filter > 0 || chosen.skipped_noise > 0)
            &&& adopted(first, Some(second)) == chosen && shortfall_of(first, Some(second), top_k)
                == last->Settled_1
        }),
        ({
            let told = shortfall_of(first, None, top_k);
            &&& adopted(first, None) == first
            &&& told.dropped_by_filter == first.dropped_by_filter
            &&& told.skipped_noise == first.skipped_noise
            &&& told.pool_len == first.pool_len
            &&& told.top_k == top_k
            &&& told.saturated <==> first.kept@.len() < top_k && first.pool_len >= first.fetch && (
            first.dropped_by_filter > 0 || first.skipped_noise > 0)
            &&& next_stage(Stage::First, first, top_k) matches Stage::Settled(chosen, said)
                ==> chosen == first && said == told
        }),
{
}

/// How well a query matched is told by what its channels found: the weaknesses,
/// that results rest on vectors alone where no text matched and some vectors did,
/// and why the text was not searched.
pub proof fn law_signals_are_those_of_the_channels(
    signals: Signals,
    channels: Channels,
    fused: Seq<i64>,
    top_k: int,
    limits: Thresholds,
)
    requires
        tells(signals, channels, fused, top_k, limits),
    ensures
        signals.penalties@ == confidence::weaknesses(
            channels.fts@,
            channels.vectors@,
            fused,
            channels.or_fallback,
            top_k,
            limits,
        ),
        signals.vector_only <==> channels.fts@.len() == 0 && channels.vectors@.len() > 0,
        signals.vector_only <==> signals.penalties@.contains(Penalty::VectorOnly),
        signals.not_searched == channels.not_searched,
{
    confidence::law_vector_only_stands_alone(
        channels.fts@,
        channels.vectors@,
        fused,
        channels.or_fallback,
        top_k,
        limits,
    );
    if signals.vector_only {
        assert(signals.penalties@[0] == Penalty::VectorOnly);
    }
}

/// A ranked search is the settled one with the best of its pool's rows, each with
/// its own score, and everything else as it was.
pub proof fn law_ranking_keeps_the_search(
    found: Ranked,
    search: Search,
    bits: Seq<u64>,
    shown: Seq<Value>,
)
    requires
        is_ranking(found, search, bits, shown),
        search.stage is Settled,
        0 <= search.top_k,
    ensures
        found.query == search.query && found.profile == search.profile,
        found.filter == search.filter && search.signals == Some(found.signals),
        search.stage matches Stage::Settled(chosen, told) && found.shortfall == told,
        found.best@.len() <= search.top_k,
        search.stage matches Stage::Settled(chosen, _) && (found.best@.len() == search.top_k
            || found.best@.len() == chosen.kept@.len()),
        forall|j: int|
            0 <= j < found.best@.len() ==> #[trigger] found.best@[j] == rank::ranked(
                rank::with_scores(search.stage->Settled_0.kept@, bits, shown),
            )[j],
{
    let all = rank::with_scores(search.stage->Settled_0.kept@, bits, shown);
    rank::law_ranking_loses_nothing(all);
    rank::law_best_are_the_first(rank::ranked(all), search.top_k as int);
}

/// The answer has one of three shapes, and is told of the shortfall in each: the
/// shorter form where there is one and the rows take more than two thousand
/// tokens; else the reason where there are no results; else the results. It goes
/// by the search's own query, filter, shortfall and signals.
pub proof fn law_answer_has_one_of_three_shapes(
    outcome: Outcome,
    found: Ranked,
    estimates: Seq<usize>,
    output: Option<CompressedOutput>,
)
    ensures
        ({
            let keys = answer_keys(outcome, found, estimates, output);
            let exact = rank::exact_name_on_top(found.best@, found.profile.identifier@);
            let long = !outcome.compact && answer::token_count(estimates, false) > 2000;
            let filtered = found.filter.types is Some || found.filter.language is Some;
            &&& long && output is Some ==> keys == shortfall::disclosed(
                found.shortfall,
                answer::compressed_keys(
                    output->0,
                    json::json(outcome.match_confidence),
                    outcome.vector_available,
                    found.signals.vector_only,
                    exact,
                ),
            )
            &&& !(long && output is Some) && found.best@.len() == 0 ==> keys == shortfall::disclosed(
                found.shortfall,
                answer::empty_keys(
                    found.query@,
                    filtered,
                    found.shortfall,
                    match found.signals.not_searched {
                        Some(reason) => Some(reason@),
                        None => None,
                    },
                    outcome.vector_available,
                    outcome.downloads,
                ),
            )
            &&& !(long && output is Some) && found.best@.len() > 0 ==> keys == shortfall::disclosed(
                found.shortfall,
                answer::finalized(
                    answer::results_json(found.best@, outcome.compact),
                    json::json(outcome.match_confidence),
                    found.signals.vector_only,
                    exact,
                    outcome.vector_available,
                    outcome.downloads,
                ),
            )
        }),
{
}

} // verus!
