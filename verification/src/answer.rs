//! The answers of the search tool: the rows of the results, the envelope around
//! them, the shorter form of a long answer, and the reasons for an empty one.

use crate::json;
use crate::json::Json;
use crate::rank::Candidate;
use crate::shortfall;
use crate::shortfall::PoolShortfall;
use crate::snippet;
use crate::text;
use serde_json::Value;
use vstd::prelude::*;

verus! {

/// How many tokens an answer may take before it is given in a shorter form.
pub const COMPRESSION_TOKEN_THRESHOLD: usize = 2000;

/// What the answer says of results that rest on vectors alone. It tells how they
/// were found and does not call them wrong.
pub const VECTOR_ONLY_WARNING: &'static str =
    "No exact text matches — results are ranked by vector similarity alone (no keyword anchor). Vague or natural-language queries often land here yet still return relevant symbols, so judge by the results; if they miss, add a concrete identifier or use ast_search with type/returns/params filters.";

/// What stands behind a missing embedding model.
pub enum ModelDownloads {
    /// The program was built without the means to load a model.
    NotCompiled,
    /// The program downloads models; the outcome of the last download is told
    /// where there was one.
    Compiled { last: Option<String> },
}

/// What an answer without the vector channel says about that.
pub open spec fn fts_only_text(downloads: ModelDownloads) -> Seq<char> {
    match downloads {
        ModelDownloads::NotCompiled =>
            "Embedding model not compiled in — results are FTS5-only (reduced semantic recall). This binary was built without the `embed-model` feature; no model download will happen. To enable vector search, reinstall with `cargo install code-graph-mcp --features embed-model` (npm/npx builds ship it), then restart the MCP server to backfill embeddings."@,
        ModelDownloads::Compiled { last: Some(s) } =>
            "Embedding model not loaded — results are FTS5-only (reduced semantic recall). Last model download: "@
                + s@ + ". Run `code-graph-mcp doctor` for detail."@,
        ModelDownloads::Compiled { last: None } =>
            "Embedding model not loaded — results are FTS5-only (reduced semantic recall). The model auto-downloads in the background on first use; retry shortly, or run `code-graph-mcp doctor` to check status."@,
    }
}

/// What an answer without the vector channel says about that. Waiting for a
/// download is advised only where there can be one.
pub fn fts_only_note(downloads: &ModelDownloads) -> (r: String)
    ensures
        r@ == fts_only_text(*downloads),
{
    match downloads {
        ModelDownloads::NotCompiled =>
            "Embedding model not compiled in — results are FTS5-only (reduced semantic recall). This binary was built without the `embed-model` feature; no model download will happen. To enable vector search, reinstall with `cargo install code-graph-mcp --features embed-model` (npm/npx builds ship it), then restart the MCP server to backfill embeddings.".to_owned(),
        ModelDownloads::Compiled { last } => match last {
            Some(s) => {
                let mut out =
                    "Embedding model not loaded — results are FTS5-only (reduced semantic recall). Last model download: ".to_owned();
                out.append(s.as_str());
                out.append(". Run `code-graph-mcp doctor` for detail.");
                out
            },
            None =>
                "Embedding model not loaded — results are FTS5-only (reduced semantic recall). The model auto-downloads in the background on first use; retry shortly, or run `code-graph-mcp doctor` to check status.".to_owned(),
        },
    }
}

/// The keys of an object.
pub type Keys = Map<Seq<char>, Json>;

/// The name of the channels that were searched.
pub open spec fn mode_text(vector_available: bool) -> Seq<char> {
    if vector_available {
        "hybrid"@
    } else {
        "fts_only"@
    }
}

fn mode_value(vector_available: bool) -> (v: Value)
    ensures
        json::json(v) == Json::Text(mode_text(vector_available)),
{
    if vector_available {
        json::text_value("hybrid")
    } else {
        json::text_value("fts_only")
    }
}

/// One row of the results.
pub open spec fn result_keys(c: Candidate, compact: bool) -> Keys {
    let named = json::no_entries().insert("node_id"@, Json::Integer(c.row.id as int)).insert(
        "name"@,
        Json::Text(c.row.name@),
    ).insert("type"@, Json::Text(c.row.node_type@)).insert(
        "file_path"@,
        Json::Text(c.row.file_path@),
    );
    let placed = if compact {
        named.insert(
            "line"@,
            Json::Text(
                text::signed_decimal(c.row.start_line as int) + "-"@ + text::signed_decimal(
                    c.row.end_line as int,
                ),
            ),
        )
    } else {
        named.insert("start_line"@, Json::Integer(c.row.start_line as int)).insert(
            "end_line"@,
            Json::Integer(c.row.end_line as int),
        ).insert(
            "code_content"@,
            Json::Text(snippet::shown_code(c.row.code_content@, c.row.line_count())),
        )
    };
    placed.insert("signature"@, json::optional_text_json(text::optional_text(c.row.signature))).insert(
        "relevance"@,
        json::json(c.relevance),
    )
}

/// The rows of the results.
pub open spec fn results_json(candidates: Seq<Candidate>, compact: bool) -> Seq<Json> {
    candidates.map_values(|c: Candidate| Json::Object(result_keys(c, compact)))
}

/// Whether the lines of a symbol can be counted, where the answer counts them:
/// it does so for code that is too long to be shown whole.
pub open spec fn showable(c: Candidate, compact: bool) -> bool {
    !compact && snippet::byte_len(c.row.code_content@) > snippet::MAX_SEARCH_CODE_LEN ==> i64::MIN
        <= c.row.end_line - c.row.start_line < i64::MAX
}

fn result_value(c: &Candidate, compact: bool) -> (v: Value)
    requires
        showable(*c, compact),
    ensures
        json::json(v) == Json::Object(result_keys(*c, compact)),
{
    let mut m = serde_json::Map::new();
    json::put(&mut m, "node_id", json::integer_value(c.row.id));
    json::put(&mut m, "name", json::text_value(c.row.name.as_str()));
    json::put(&mut m, "type", json::text_value(c.row.node_type.as_str()));
    json::put(&mut m, "file_path", json::text_value(c.row.file_path.as_str()));
    if compact {
        let mut line = text::signed_text(c.row.start_line);
        line.append("-");
        let end = text::signed_text(c.row.end_line);
        line.append(end.as_str());
        json::put(&mut m, "line", json::text_value(line.as_str()));
    } else {
        json::put(&mut m, "start_line", json::integer_value(c.row.start_line));
        json::put(&mut m, "end_line", json::integer_value(c.row.end_line));
        let code = snippet::render_code(
            c.row.code_content.as_str(),
            c.row.start_line,
            c.row.end_line,
        );
        json::put(&mut m, "code_content", json::text_value(code.as_str()));
    }
    json::put(&mut m, "signature", json::optional_text_value(&c.row.signature));
    json::put(&mut m, "relevance", c.relevance.clone());
    json::object_value(m)
}

/// The rows of the results. A compact row names the lines of the symbol, any
/// other shows its code as far as the limit allows.
pub fn build_search_results(candidates: &Vec<Candidate>, compact: bool) -> (r: Vec<Value>)
    requires
        forall|i: int| 0 <= i < candidates@.len() ==> showable(#[trigger] candidates@[i], compact),
    ensures
        json::json_seq(r@) == results_json(candidates@, compact),
{
    let mut out: Vec<Value> = Vec::new();
    let mut i: usize = 0;
    while i < candidates.len()
        invariant
            forall|j: int|
                0 <= j < candidates@.len() ==> showable(#[trigger] candidates@[j], compact),
            0 <= i <= candidates@.len(),
            out@.len() == i,
            forall|j: int|
                0 <= j < i ==> json::json(#[trigger] out@[j]) == Json::Object(
                    result_keys(candidates@[j], compact),
                ),
        decreases candidates@.len() - i,
    {
        out.push(result_value(&candidates[i], compact));
        i += 1;
    }
    assert(json::json_seq(out@) =~= results_json(candidates@, compact));
    out
}

/// The envelope around a full list of results.
pub open spec fn finalized(
    results: Seq<Json>,
    match_confidence: Json,
    vector_only: bool,
    has_exact_name_match: bool,
    vector_available: bool,
    downloads: ModelDownloads,
) -> Keys {
    let common = json::no_entries().insert("results"@, Json::Array(results)).insert(
        "search_mode"@,
        Json::Text(mode_text(vector_available)),
    ).insert("vector_available"@, Json::Bool(vector_available));
    if !vector_available {
        common.insert("note"@, Json::Text(fts_only_text(downloads)))
    } else {
        let sure = common.insert("match_confidence"@, match_confidence);
        if vector_only && !has_exact_name_match {
            sure.insert("low_confidence_warning"@, Json::Text(VECTOR_ONLY_WARNING@))
        } else {
            sure
        }
    }
}

/// Puts a full list of results into its envelope. `match_confidence` is the
/// confidence as the answer shows it.
pub fn finalize_search_results(
    results: Vec<Value>,
    match_confidence: Value,
    vector_only: bool,
    has_exact_name_match: bool,
    vector_available: bool,
    downloads: &ModelDownloads,
) -> (v: Value)
    ensures
        json::json(v) == Json::Object(
            finalized(
                json::json_seq(results@),
                json::json(match_confidence),
                vector_only,
                has_exact_name_match,
                vector_available,
                *downloads,
            ),
        ),
{
    let mut m = serde_json::Map::new();
    json::put(&mut m, "results", json::array_value(results));
    json::put(&mut m, "search_mode", mode_value(vector_available));
    json::put(&mut m, "vector_available", json::bool_value(vector_available));
    if !vector_available {
        let note = fts_only_note(downloads);
        json::put(&mut m, "note", json::text_value(note.as_str()));
    } else {
        json::put(&mut m, "match_confidence", match_confidence);
        if vector_only && !has_exact_name_match {
            json::put(&mut m, "low_confidence_warning", json::text_value(VECTOR_ONLY_WARNING));
        }
    }
    json::object_value(m)
}

/// A symbol of a long answer.
pub struct CompressedNode {
    pub node_id: i64,
    pub file_path: String,
    pub summary: String,
}

/// A file or a directory of a long answer, with the symbols in it.
pub struct CompressedGroup {
    pub file_path: String,
    pub summary: String,
    pub node_ids: Vec<i64>,
}

/// The shorter form of a long answer.
pub enum CompressedOutput {
    Nodes(Vec<CompressedNode>),
    Files(Vec<CompressedGroup>),
    Directories(Vec<CompressedGroup>),
}

/// A symbol of a long answer, as the answer shows it.
pub open spec fn node_json(n: CompressedNode) -> Json {
    Json::Object(
        json::no_entries().insert("node_id"@, Json::Integer(n.node_id as int)).insert(
            "file_path"@,
            Json::Text(n.file_path@),
        ).insert("summary"@, Json::Text(n.summary@)),
    )
}

/// A list of numbers, as an answer shows it.
pub open spec fn integers_json(s: Seq<i64>) -> Seq<Json> {
    s.map_values(|n: i64| Json::Integer(n as int))
}

/// A file or a directory of a long answer, as the answer shows it.
pub open spec fn group_json(g: CompressedGroup) -> Json {
    Json::Object(
        json::no_entries().insert("file_path"@, Json::Text(g.file_path@)).insert(
            "summary"@,
            Json::Text(g.summary@),
        ).insert("node_ids"@, Json::Array(integers_json(g.node_ids@))),
    )
}

/// What a shorter form is called.
pub open spec fn compressed_mode(output: CompressedOutput) -> Seq<char> {
    match output {
        CompressedOutput::Nodes(_) => "compressed_nodes"@,
        CompressedOutput::Files(_) => "compressed_files"@,
        CompressedOutput::Directories(_) => "compressed_directories"@,
    }
}

/// The rows of a shorter form.
pub open spec fn compressed_rows(output: CompressedOutput) -> Seq<Json> {
    match output {
        CompressedOutput::Nodes(nodes) => nodes@.map_values(|n: CompressedNode| node_json(n)),
        CompressedOutput::Files(groups) => groups@.map_values(|g: CompressedGroup| group_json(g)),
        CompressedOutput::Directories(groups) => groups@.map_values(
            |g: CompressedGroup| group_json(g),
        ),
    }
}

/// The envelope around a shorter form.
pub open spec fn compressed_keys(
    output: CompressedOutput,
    match_confidence: Json,
    vector_available: bool,
    vector_only: bool,
    has_exact_name_match: bool,
) -> Keys {
    let all = json::no_entries().insert("mode"@, Json::Text(compressed_mode(output))).insert(
        "message"@,
        Json::Text(
            "Results exceeded token limit. Use get_ast_node(node_id) to expand individual symbols."@,
        ),
    ).insert("match_confidence"@, match_confidence).insert(
        "search_mode"@,
        Json::Text(mode_text(vector_available)),
    ).insert("vector_available"@, Json::Bool(vector_available)).insert(
        "results"@,
        Json::Array(compressed_rows(output)),
    );
    if vector_only && !has_exact_name_match {
        all.insert("low_confidence_warning"@, Json::Text(VECTOR_ONLY_WARNING@))
    } else {
        all
    }
}

/// The sum of a list of numbers.
pub open spec fn total(s: Seq<usize>) -> nat
    decreases s.len(),
{
    if s.len() == 0 {
        0
    } else {
        total(s.drop_last()) + s.last() as nat
    }
}

proof fn lemma_total_grows(s: Seq<usize>, n: int)
    requires
        0 <= n <= s.len(),
    ensures
        total(s.take(n)) <= total(s),
    decreases s.len() - n,
{
    if n == s.len() {
        assert(s.take(n) == s);
    } else {
        lemma_total_grows(s, n + 1);
        assert(s.take(n + 1).drop_last() == s.take(n));
    }
}

/// How many tokens an answer will take, by the estimates of its rows. A compact
/// answer is short as it is and counts as none.
pub open spec fn token_count(estimates: Seq<usize>, compact: bool) -> nat {
    if compact {
        0
    } else {
        total(estimates)
    }
}

/// How many tokens an answer will take, by the estimates of its rows.
pub fn estimated_tokens(estimates: &Vec<usize>, compact: bool) -> (r: usize)
    requires
        token_count(estimates@, compact) <= usize::MAX,
    ensures
        r == token_count(estimates@, compact),
{
    if compact {
        return 0;
    }
    let mut sum: usize = 0;
    let mut i: usize = 0;
    while i < estimates.len()
        invariant
            0 <= i <= estimates@.len(),
            total(estimates@) <= usize::MAX,
            sum == total(estimates@.take(i as int)),
        decreases estimates@.len() - i,
    {
        proof {
            lemma_total_grows(estimates@, i + 1);
            assert(estimates@.take(i + 1).drop_last() == estimates@.take(i as int));
        }
        sum += estimates[i];
        i += 1;
    }
    assert(estimates@.take(estimates@.len() as int) == estimates@);
    sum
}

fn node_value(n: &CompressedNode) -> (v: Value)
    ensures
        json::json(v) == node_json(*n),
{
    let mut m = serde_json::Map::new();
    json::put(&mut m, "node_id", json::integer_value(n.node_id));
    json::put(&mut m, "file_path", json::text_value(n.file_path.as_str()));
    json::put(&mut m, "summary", json::text_value(n.summary.as_str()));
    json::object_value(m)
}

fn integers_value(s: &Vec<i64>) -> (v: Value)
    ensures
        json::json(v) == Json::Array(integers_json(s@)),
{
    let mut out: Vec<Value> = Vec::new();
    let mut i: usize = 0;
    while i < s.len()
        invariant
            0 <= i <= s@.len(),
            out@.len() == i,
            forall|j: int|
                0 <= j < i ==> json::json(#[trigger] out@[j]) == Json::Integer(s@[j] as int),
        decreases s@.len() - i,
    {
        out.push(json::integer_value(s[i]));
        i += 1;
    }
    assert(json::json_seq(out@) =~= integers_json(s@));
    json::array_value(out)
}

fn group_value(g: &CompressedGroup) -> (v: Value)
    ensures
        json::json(v) == group_json(*g),
{
    let mut m = serde_json::Map::new();
    json::put(&mut m, "file_path", json::text_value(g.file_path.as_str()));
    json::put(&mut m, "summary", json::text_value(g.summary.as_str()));
    json::put(&mut m, "node_ids", integers_value(&g.node_ids));
    json::object_value(m)
}

fn node_values(nodes: &Vec<CompressedNode>) -> (r: Vec<Value>)
    ensures
        json::json_seq(r@) == nodes@.map_values(|n: CompressedNode| node_json(n)),
{
    let mut out: Vec<Value> = Vec::new();
    let mut i: usize = 0;
    while i < nodes.len()
        invariant
            0 <= i <= nodes@.len(),
            out@.len() == i,
            forall|j: int| 0 <= j < i ==> json::json(#[trigger] out@[j]) == node_json(nodes@[j]),
        decreases nodes@.len() - i,
    {
        out.push(node_value(&nodes[i]));
        i += 1;
    }
    assert(json::json_seq(out@) =~= nodes@.map_values(|n: CompressedNode| node_json(n)));
    out
}

fn group_values(groups: &Vec<CompressedGroup>) -> (r: Vec<Value>)
    ensures
        json::json_seq(r@) == groups@.map_values(|g: CompressedGroup| group_json(g)),
{
    let mut out: Vec<Value> = Vec::new();
    let mut i: usize = 0;
    while i < groups.len()
        invariant
            0 <= i <= groups@.len(),
            out@.len() == i,
            forall|j: int| 0 <= j < i ==> json::json(#[trigger] out@[j]) == group_json(groups@[j]),
        decreases groups@.len() - i,
    {
        out.push(group_value(&groups[i]));
        i += 1;
    }
    assert(json::json_seq(out@) =~= groups@.map_values(|g: CompressedGroup| group_json(g)));
    out
}

/// The answer in its shorter form, where it would take more tokens than an
/// answer may and there is a shorter form of it.
pub fn try_compress_results(
    tokens: usize,
    output: &Option<CompressedOutput>,
    match_confidence: &Value,
    vector_available: bool,
    vector_only: bool,
    has_exact_name_match: bool,
) -> (r: Option<Value>)
    ensures
        r is Some <==> tokens > COMPRESSION_TOKEN_THRESHOLD && output is Some,
        r is Some ==> json::json(r->0) == Json::Object(
            compressed_keys(
                output->0,
                json::json(*match_confidence),
                vector_available,
                vector_only,
                has_exact_name_match,
            ),
        ),
{
    if tokens <= COMPRESSION_TOKEN_THRESHOLD {
        return None;
    }
    let (mode, rows) = match output {
        None => {
            return None;
        },
        Some(CompressedOutput::Nodes(nodes)) => ("compressed_nodes", node_values(nodes)),
        Some(CompressedOutput::Files(groups)) => ("compressed_files", group_values(groups)),
        Some(CompressedOutput::Directories(groups)) => (
            "compressed_directories",
            group_values(groups),
        ),
    };
    let mut m = serde_json::Map::new();
    json::put(&mut m, "mode", json::text_value(mode));
    json::put(
        &mut m,
        "message",
        json::text_value(
            "Results exceeded token limit. Use get_ast_node(node_id) to expand individual symbols.",
        ),
    );
    json::put(&mut m, "match_confidence", match_confidence.clone());
    json::put(&mut m, "search_mode", mode_value(vector_available));
    json::put(&mut m, "vector_available", json::bool_value(vector_available));
    json::put(&mut m, "results", json::array_value(rows));
    if vector_only && !has_exact_name_match {
        json::put(&mut m, "low_confidence_warning", json::text_value(VECTOR_ONLY_WARNING));
    }
    Some(json::object_value(m))
}

/// Why a list of results is empty.
pub enum EmptyReason {
    /// The caller's filter left out every match.
    Filtered,
    /// Every match is a placeholder or belongs to the tests.
    Noise,
    /// The text channel did not run.
    NotSearched,
    /// Nothing matched.
    Missed,
}

/// Why a list of results is empty: the first reason that holds.
pub open spec fn empty_reason(
    filtered: bool,
    shortfall: PoolShortfall,
    not_searched: bool,
) -> EmptyReason {
    if filtered && shortfall.dropped_by_filter > 0 {
        EmptyReason::Filtered
    } else if shortfall.skipped_noise > 0 {
        EmptyReason::Noise
    } else if not_searched {
        EmptyReason::NotSearched
    } else {
        EmptyReason::Missed
    }
}

/// Whether a query looks like a piece of code.
pub open spec fn looks_like_code(query: Seq<char>) -> bool {
    ||| query.contains('(')
    ||| query.contains(')')
    ||| text::contains_text(query, "->"@)
    ||| text::contains_text(query, "::"@)
    ||| query.contains('<')
}

/// The advice for a query that nothing matched.
pub open spec fn miss_hint(query: Seq<char>) -> Seq<char> {
    if looks_like_code(query) {
        "Query looks like code syntax. For structural queries, use ast_search with type/returns/params filters instead of text search."@
    } else if !vstd::utf8::is_ascii_chars(query) {
        "Try using English keywords — the search index is English-optimized. Also try broader terms or check spelling."@
    } else {
        "Try broader terms, check spelling, or use different keywords. The index may need rebuilding if the codebase changed significantly."@
    }
}

/// What an empty answer says, whatever the reason, around its message and hint.
pub open spec fn empty_envelope(message: Seq<char>, hint: Seq<char>, vector_available: bool)
    -> Keys {
    json::no_entries().insert("results"@, Json::Array(seq![])).insert(
        "message"@,
        Json::Text(message),
    ).insert("hint"@, Json::Text(hint)).insert(
        "search_mode"@,
        Json::Text(mode_text(vector_available)),
    ).insert("vector_available"@, Json::Bool(vector_available))
}

/// The advice where the caller's filter left out every match.
pub open spec fn filter_hint(shortfall: PoolShortfall) -> Seq<char> {
    if shortfall.saturated {
        text::decimal(shortfall.dropped_by_filter as nat)
            + " candidate(s) matched the query but were removed by the active language/node_type filter — broadening or clearing it recovers those."@
            + shortfall::exhaustion_text(shortfall)
    } else {
        text::decimal(shortfall.dropped_by_filter as nat)
            + " candidate(s) matched the query but were removed by the active language/node_type filter. Broaden or clear the filter, or raise top_k."@
    }
}

/// The keys of an empty answer.
pub open spec fn empty_keys(
    query: Seq<char>,
    filtered: bool,
    shortfall: PoolShortfall,
    not_searched: Option<Seq<char>>,
    vector_available: bool,
    downloads: ModelDownloads,
) -> Keys {
    match empty_reason(filtered, shortfall, not_searched is Some) {
        EmptyReason::Filtered => empty_envelope(
            "No matching symbols after filtering."@,
            filter_hint(shortfall),
            vector_available,
        ).insert("dropped_by_filter"@, Json::Integer(shortfall.dropped_by_filter as int)),
        EmptyReason::Noise => empty_envelope(
            "No matching symbols — "@ + text::decimal(shortfall.skipped_noise as nat)
                + " candidate(s) matched the query but are module/external placeholders or test symbols, which this tool always excludes."@,
            "Spelling and index freshness are not the problem. To reach test symbols use `find_references` with include_tests, or `code-graph-mcp grep`; for structural enumeration use `ast_search`."@
                + shortfall::exhaustion_text(shortfall),
            vector_available,
        ).insert("skipped_noise"@, Json::Integer(shortfall.skipped_noise as int)),
        EmptyReason::NotSearched => empty_envelope(
            "Text search did not run: "@ + not_searched->0 + "."@,
            if vector_available {
                "Only the vector channel ran, and it found nothing above threshold. Spelling and index freshness are not the problem — use a longer or more specific term."@
            } else {
                "Nothing was searched for. Spelling and index freshness are not the problem — use a longer or more specific term."@
            },
            vector_available,
        ).insert("not_searched"@, Json::Text(not_searched->0)),
        EmptyReason::Missed => if vector_available {
            empty_envelope("No matching symbols found."@, miss_hint(query), vector_available)
        } else {
            empty_envelope(
                "No matching symbols found."@,
                miss_hint(query),
                vector_available,
            ).insert("note"@, Json::Text(fts_only_text(downloads)))
        },
    }
}

fn empty_object(message: &str, hint: &str, vector_available: bool) -> (m: serde_json::Map<
    String,
    Value,
>)
    ensures
        json::entries(m) == empty_envelope(message@, hint@, vector_available),
{
    let mut m = serde_json::Map::new();
    let rows: Vec<Value> = Vec::new();
    assert(json::json_seq(rows@) =~= Seq::<Json>::empty());
    json::put(&mut m, "results", json::array_value(rows));
    json::put(&mut m, "message", json::text_value(message));
    json::put(&mut m, "hint", json::text_value(hint));
    json::put(&mut m, "search_mode", mode_value(vector_available));
    json::put(&mut m, "vector_available", json::bool_value(vector_available));
    m
}

fn query_hint(query: &str) -> (r: &'static str)
    ensures
        r@ == miss_hint(query@),
{
    let code = text::has_char(query, '(') || text::has_char(query, ')') || text::has_text(
        query,
        "->",
    ) || text::has_text(query, "::") || text::has_char(query, '<');
    if code {
        "Query looks like code syntax. For structural queries, use ast_search with type/returns/params filters instead of text search."
    } else if !query.is_ascii() {
        "Try using English keywords — the search index is English-optimized. Also try broader terms or check spelling."
    } else {
        "Try broader terms, check spelling, or use different keywords. The index may need rebuilding if the codebase changed significantly."
    }
}

/// The answer where there are no results, with the reason: the caller's filter,
/// the filter against noise, a text channel that did not run, or a query that
/// missed. `fts_not_searched` says why the text channel did not run, if so.
pub fn explain_empty_results(
    query: &str,
    filtered: bool,
    shortfall: &PoolShortfall,
    fts_not_searched: Option<&str>,
    vector_available: bool,
    downloads: &ModelDownloads,
) -> (v: Value)
    ensures
        json::json(v) == Json::Object(
            empty_keys(
                query@,
                filtered,
                *shortfall,
                match fts_not_searched {
                    Some(reason) => Some(reason@),
                    None => None,
                },
                vector_available,
                *downloads,
            ),
        ),
{
    if filtered && shortfall.dropped_by_filter > 0 {
        let mut hint = text::decimal_text(shortfall.dropped_by_filter as u64);
        if shortfall.saturated {
            hint.append(
                " candidate(s) matched the query but were removed by the active language/node_type filter — broadening or clearing it recovers those.",
            );
            let note = shortfall.exhaustion_note();
            hint.append(note.as_str());
        } else {
            hint.append(
                " candidate(s) matched the query but were removed by the active language/node_type filter. Broaden or clear the filter, or raise top_k.",
            );
        }
        let mut m = empty_object(
            "No matching symbols after filtering.",
            hint.as_str(),
            vector_available,
        );
        json::put(&mut m, "dropped_by_filter", json::count_value(shortfall.dropped_by_filter));
        return json::object_value(m);
    }
    if shortfall.skipped_noise > 0 {
        let mut message = "No matching symbols — ".to_owned();
        let count = text::decimal_text(shortfall.skipped_noise as u64);
        message.append(count.as_str());
        message.append(
            " candidate(s) matched the query but are module/external placeholders or test symbols, which this tool always excludes.",
        );
        let mut hint =
            "Spelling and index freshness are not the problem. To reach test symbols use `find_references` with include_tests, or `code-graph-mcp grep`; for structural enumeration use `ast_search`.".to_owned();
        let note = shortfall.exhaustion_note();
        hint.append(note.as_str());
        let mut m = empty_object(message.as_str(), hint.as_str(), vector_available);
        json::put(&mut m, "skipped_noise", json::count_value(shortfall.skipped_noise));
        return json::object_value(m);
    }
    if let Some(reason) = fts_not_searched {
        let mut message = "Text search did not run: ".to_owned();
        message.append(reason);
        message.append(".");
        let hint = if vector_available {
            "Only the vector channel ran, and it found nothing above threshold. Spelling and index freshness are not the problem — use a longer or more specific term."
        } else {
            "Nothing was searched for. Spelling and index freshness are not the problem — use a longer or more specific term."
        };
        let mut m = empty_object(message.as_str(), hint, vector_available);
        json::put(&mut m, "not_searched", json::text_value(reason));
        return json::object_value(m);
    }
    let mut m = empty_object("No matching symbols found.", query_hint(query), vector_available);
    if !vector_available {
        let note = fts_only_note(downloads);
        json::put(&mut m, "note", json::text_value(note.as_str()));
    }
    json::object_value(m)
}

/// Whether an answer says what every answer says: its results as a list, the
/// channels that were searched, and whether there were vectors.
pub open spec fn is_envelope(keys: Keys, vector_available: bool) -> bool {
    &&& keys.contains_key("results"@) && keys["results"@] is Array
    &&& keys.contains_key("search_mode"@) && keys["search_mode"@] == Json::Text(
        mode_text(vector_available),
    )
    &&& keys.contains_key("vector_available"@) && keys["vector_available"@] == Json::Bool(
        vector_available,
    )
}

/// The names of an answer's keys are different texts.
pub(crate) proof fn lemma_key_names()
    ensures
        "results"@.len() == 7 && "results"@[0] == 'r',
        "message"@.len() == 7 && "message"@[0] == 'm',
        "search_mode"@.len() == 11,
        "vector_available"@.len() == 16 && "vector_available"@[0] == 'v',
        "match_confidence"@.len() == 16 && "match_confidence"@[0] == 'm',
        "note"@.len() == 4 && "note"@[0] == 'n',
        "hint"@.len() == 4 && "hint"@[0] == 'h',
        "mode"@.len() == 4 && "mode"@[0] == 'm',
        "low_confidence_warning"@.len() == 22,
        "dropped_by_filter"@.len() == 17,
        "skipped_noise"@.len() == 13,
        "not_searched"@.len() == 12,
        "pool_saturated"@.len() == 14,
        "pool_saturated_note"@.len() == 19,
{
    reveal_strlit("results");
    reveal_strlit("message");
    reveal_strlit("search_mode");
    reveal_strlit("vector_available");
    reveal_strlit("match_confidence");
    reveal_strlit("note");
    reveal_strlit("hint");
    reveal_strlit("mode");
    reveal_strlit("low_confidence_warning");
    reveal_strlit("dropped_by_filter");
    reveal_strlit("skipped_noise");
    reveal_strlit("not_searched");
    reveal_strlit("pool_saturated");
    reveal_strlit("pool_saturated_note");
}

/// A list of results is warned of exactly where it rests on vectors alone and no
/// exact name is among the best, whatever the confidence; an empty answer never
/// is.
pub proof fn law_warning_means_vectors_alone(
    results: Seq<Json>,
    output: CompressedOutput,
    match_confidence: Json,
    vector_only: bool,
    has_exact_name_match: bool,
    vector_available: bool,
    downloads: ModelDownloads,
    query: Seq<char>,
    filtered: bool,
    shortfall: PoolShortfall,
    not_searched: Option<Seq<char>>,
)
    ensures
        finalized(
            results,
            match_confidence,
            vector_only,
            has_exact_name_match,
            vector_available,
            downloads,
        ).contains_key("low_confidence_warning"@) <==> vector_available && vector_only
            && !has_exact_name_match,
        compressed_keys(
            output,
            match_confidence,
            vector_available,
            vector_only,
            has_exact_name_match,
        ).contains_key("low_confidence_warning"@) <==> vector_only && !has_exact_name_match,
        !empty_keys(query, filtered, shortfall, not_searched, vector_available, downloads).contains_key(
        "low_confidence_warning"@),
{
    lemma_key_names();
}

/// A list of results and a query that missed carry the same note where there are
/// no vectors, and neither carries one where there are. An answer that the
/// filter or the noise emptied carries none: its cause is known.
pub proof fn law_note_means_no_vectors(
    results: Seq<Json>,
    match_confidence: Json,
    vector_only: bool,
    has_exact_name_match: bool,
    vector_available: bool,
    downloads: ModelDownloads,
    query: Seq<char>,
    filtered: bool,
    shortfall: PoolShortfall,
    not_searched: Option<Seq<char>>,
)
    ensures
        ({
            let full = finalized(
                results,
                match_confidence,
                vector_only,
                has_exact_name_match,
                vector_available,
                downloads,
            );
            let empty = empty_keys(
                query,
                filtered,
                shortfall,
                not_searched,
                vector_available,
                downloads,
            );
            let missed = empty_reason(filtered, shortfall, not_searched is Some) is Missed;
            &&& full.contains_key("note"@) <==> !vector_available
            &&& empty.contains_key("note"@) <==> !vector_available && missed
            &&& !vector_available && missed ==> full["note"@] == empty["note"@] && full["note"@]
                == Json::Text(fts_only_text(downloads))
        }),
{
    lemma_key_names();
}

/// The names of a row's keys are different texts.
proof fn lemma_row_key_names()
    ensures
        "node_id"@.len() == 7,
        "name"@.len() == 4 && "name"@[0] == 'n',
        "type"@.len() == 4 && "type"@[0] == 't',
        "line"@.len() == 4 && "line"@[0] == 'l',
        "file_path"@.len() == 9 && "file_path"@[0] == 'f',
        "signature"@.len() == 9 && "signature"@[0] == 's',
        "relevance"@.len() == 9 && "relevance"@[0] == 'r',
        "start_line"@.len() == 10,
        "end_line"@.len() == 8 && "end_line"@[0] == 'e',
        "node_ids"@.len() == 8 && "node_ids"@[0] == 'n',
        "code_content"@.len() == 12,
        "summary"@.len() == 7,
        "node_id"@[0] == 'n',
        "summary"@[0] == 's',
{
    reveal_strlit("node_id");
    reveal_strlit("name");
    reveal_strlit("type");
    reveal_strlit("line");
    reveal_strlit("file_path");
    reveal_strlit("signature");
    reveal_strlit("relevance");
    reveal_strlit("start_line");
    reveal_strlit("end_line");
    reveal_strlit("node_ids");
    reveal_strlit("code_content");
    reveal_strlit("summary");
}

/// A row of the results, compact or not, tells the symbol's number, name, type,
/// file, signature and score; `null` where there is no signature.
pub proof fn law_row_tells_its_symbol(c: Candidate, compact: bool)
    ensures
        ({
            let row = result_keys(c, compact);
            &&& row.contains_key("node_id"@) && row["node_id"@] == Json::Integer(c.row.id as int)
            &&& row.contains_key("name"@) && row["name"@] == Json::Text(c.row.name@)
            &&& row.contains_key("type"@) && row["type"@] == Json::Text(c.row.node_type@)
            &&& row.contains_key("file_path"@) && row["file_path"@] == Json::Text(c.row.file_path@)
            &&& row.contains_key("signature"@)
            &&& c.row.signature matches Some(s) ==> row["signature"@] == Json::Text(s@)
            &&& c.row.signature is None ==> row["signature"@] == Json::Null
            &&& row.contains_key("relevance"@) && row["relevance"@] == json::json(c.relevance)
        }),
{
    lemma_row_key_names();
}

/// A compact row names the first and the last line in one text and shows no code;
/// any other tells each of them as a number and shows the code. Neither has any
/// further key, so the two agree on all that they share.
pub proof fn law_row_tells_where_its_symbol_stands(c: Candidate, key: Seq<char>)
    ensures
        ({
            let short = result_keys(c, true);
            let full = result_keys(c, false);
            &&& short.contains_key("line"@) && short["line"@] == Json::Text(
                text::signed_decimal(c.row.start_line as int) + "-"@ + text::signed_decimal(
                    c.row.end_line as int,
                ),
            )
            &&& full.contains_key("start_line"@) && full["start_line"@] == Json::Integer(
                c.row.start_line as int,
            )
            &&& full.contains_key("end_line"@) && full["end_line"@] == Json::Integer(
                c.row.end_line as int,
            )
            &&& full.contains_key("code_content"@) && full["code_content"@] == Json::Text(
                snippet::shown_code(
                    c.row.code_content@,
                    c.row.end_line - c.row.start_line + 1,
                ),
            )
            &&& short.contains_key(key) && full.contains_key(key) ==> short[key] == full[key]
            &&& short.contains_key(key) && key != "line"@ ==> full.contains_key(key)
            &&& full.contains_key(key) && key != "start_line"@ && key != "end_line"@ && key
                != "code_content"@ ==> short.contains_key(key)
            &&& full.contains_key(key) ==> key != "line"@
            &&& short.contains_key(key) ==> key != "start_line"@ && key != "end_line"@ && key
                != "code_content"@
        }),
{
    lemma_row_key_names();
}

/// Every symbol whose lines are numbered from one on can be counted and shown.
pub proof fn law_numbered_lines_can_be_shown(c: Candidate, compact: bool)
    requires
        c.row.start_line >= 1,
        c.row.end_line >= 1,
    ensures
        c.row.wf(),
        showable(c, compact),
{
}

/// The results are the rows of the candidates, each at its own position.
pub proof fn law_results_keep_the_order(candidates: Seq<Candidate>, compact: bool, i: int)
    requires
        0 <= i < candidates.len(),
    ensures
        results_json(candidates, compact).len() == candidates.len(),
        results_json(candidates, compact)[i] == Json::Object(result_keys(candidates[i], compact)),
{
}

/// What is said where there are no vectors: that none will come, where none can
/// be had; how the last download went, where there was one; else that one is
/// under way.
pub proof fn law_note_tells_what_became_of_the_model(s: String)
    ensures
        fts_only_text(ModelDownloads::NotCompiled)
            == "Embedding model not compiled in — results are FTS5-only (reduced semantic recall). This binary was built without the `embed-model` feature; no model download will happen. To enable vector search, reinstall with `cargo install code-graph-mcp --features embed-model` (npm/npx builds ship it), then restart the MCP server to backfill embeddings."@,
        fts_only_text(ModelDownloads::Compiled { last: Some(s) })
            == "Embedding model not loaded — results are FTS5-only (reduced semantic recall). Last model download: "@
            + s@ + ". Run `code-graph-mcp doctor` for detail."@,
        fts_only_text(ModelDownloads::Compiled { last: None })
            == "Embedding model not loaded — results are FTS5-only (reduced semantic recall). The model auto-downloads in the background on first use; retry shortly, or run `code-graph-mcp doctor` to check status."@,
{
}

/// A full list of results stands in an envelope that tells the channels. With
/// vectors it tells the confidence, and warns exactly where the results rest on
/// vectors alone and none of the best has the exact name; without, it carries the
/// note instead. It says nothing else.
pub proof fn law_full_answer_tells_its_channels(
    results: Seq<Json>,
    match_confidence: Json,
    vector_only: bool,
    has_exact_name_match: bool,
    downloads: ModelDownloads,
    key: Seq<char>,
)
    ensures
        ({
            let hybrid = finalized(
                results,
                match_confidence,
                vector_only,
                has_exact_name_match,
                true,
                downloads,
            );
            let alone = finalized(
                results,
                match_confidence,
                vector_only,
                has_exact_name_match,
                false,
                downloads,
            );
            let envelope = key == "results"@ || key == "search_mode"@ || key == "vector_available"@;
            &&& hybrid["results"@] == Json::Array(results)
            &&& alone["results"@] == Json::Array(results)
            &&& hybrid["search_mode"@] == Json::Text("hybrid"@)
            &&& alone["search_mode"@] == Json::Text("fts_only"@)
            &&& hybrid["vector_available"@] == Json::Bool(true)
            &&& alone["vector_available"@] == Json::Bool(false)
            &&& hybrid["match_confidence"@] == match_confidence
            &&& alone["note"@] == Json::Text(fts_only_text(downloads))
            &&& vector_only && !has_exact_name_match ==> hybrid["low_confidence_warning"@]
                == Json::Text(
                "No exact text matches — results are ranked by vector similarity alone (no keyword anchor). Vague or natural-language queries often land here yet still return relevant symbols, so judge by the results; if they miss, add a concrete identifier or use ast_search with type/returns/params filters."@,
            )
            &&& hybrid.contains_key(key) <==> envelope || key == "match_confidence"@ || (key
                == "low_confidence_warning"@ && vector_only && !has_exact_name_match)
            &&& alone.contains_key(key) <==> envelope || key == "note"@
        }),
{
    lemma_key_names();
}

/// An answer in the shorter form tells what its rows are, the channels and the
/// confidence, and warns exactly where the results rest on vectors alone and none
/// of the best has the exact name.
pub proof fn law_short_answer_tells_its_channels(
    output: CompressedOutput,
    match_confidence: Json,
    vector_available: bool,
    vector_only: bool,
    has_exact_name_match: bool,
    key: Seq<char>,
)
    ensures
        ({
            let keys = compressed_keys(
                output,
                match_confidence,
                vector_available,
                vector_only,
                has_exact_name_match,
            );
            &&& output is Nodes ==> keys["mode"@] == Json::Text("compressed_nodes"@)
            &&& output is Files ==> keys["mode"@] == Json::Text("compressed_files"@)
            &&& output is Directories ==> keys["mode"@] == Json::Text("compressed_directories"@)
            &&& keys["message"@] == Json::Text(
                "Results exceeded token limit. Use get_ast_node(node_id) to expand individual symbols."@,
            )
            &&& keys["match_confidence"@] == match_confidence
            &&& vector_available ==> keys["search_mode"@] == Json::Text("hybrid"@)
            &&& !vector_available ==> keys["search_mode"@] == Json::Text("fts_only"@)
            &&& keys["vector_available"@] == Json::Bool(vector_available)
            &&& keys["results"@] == Json::Array(compressed_rows(output))
            &&& vector_only && !has_exact_name_match ==> keys["low_confidence_warning"@]
                == Json::Text(
                "No exact text matches — results are ranked by vector similarity alone (no keyword anchor). Vague or natural-language queries often land here yet still return relevant symbols, so judge by the results; if they miss, add a concrete identifier or use ast_search with type/returns/params filters."@,
            )
            &&& keys.contains_key(key) <==> key == "mode"@ || key == "message"@ || key
                == "match_confidence"@ || key == "search_mode"@ || key == "vector_available"@ || key
                == "results"@ || (key == "low_confidence_warning"@ && vector_only
                && !has_exact_name_match)
        }),
{
    lemma_key_names();
}

/// Whether a row of the shorter form tells that symbol, and nothing else.
pub open spec fn tells_node(row: Json, node: CompressedNode) -> bool {
    &&& row is Object
    &&& row->Object_0.dom() == set!["node_id"@, "file_path"@, "summary"@]
    &&& row->Object_0["node_id"@] == Json::Integer(node.node_id as int)
    &&& row->Object_0["file_path"@] == Json::Text(node.file_path@)
    &&& row->Object_0["summary"@] == Json::Text(node.summary@)
}

/// Whether a row of the shorter form tells that file or directory with the numbers
/// of its symbols, in order, and nothing else.
pub open spec fn tells_group(row: Json, group: CompressedGroup) -> bool {
    &&& row is Object
    &&& row->Object_0.dom() == set!["file_path"@, "summary"@, "node_ids"@]
    &&& row->Object_0["file_path"@] == Json::Text(group.file_path@)
    &&& row->Object_0["summary"@] == Json::Text(group.summary@)
    &&& row->Object_0["node_ids"@] is Array
    &&& row->Object_0["node_ids"@]->Array_0.len() == group.node_ids@.len()
    &&& forall|i: int|
        0 <= i < group.node_ids@.len() ==> #[trigger] row->Object_0["node_ids"@]->Array_0[i]
            == Json::Integer(group.node_ids@[i] as int)
}

/// Each row of the shorter form tells the symbol, file or directory at its own
/// position.
pub proof fn law_short_rows_tell_their_symbols(
    nodes: Vec<CompressedNode>,
    groups: Vec<CompressedGroup>,
    i: int,
)
    ensures
        compressed_rows(CompressedOutput::Nodes(nodes)).len() == nodes@.len(),
        compressed_rows(CompressedOutput::Files(groups)).len() == groups@.len(),
        compressed_rows(CompressedOutput::Directories(groups)).len() == groups@.len(),
        0 <= i < nodes@.len() ==> tells_node(
            compressed_rows(CompressedOutput::Nodes(nodes))[i],
            nodes@[i],
        ),
        0 <= i < groups@.len() ==> tells_group(
            compressed_rows(CompressedOutput::Files(groups))[i],
            groups@[i],
        ),
        0 <= i < groups@.len() ==> tells_group(
            compressed_rows(CompressedOutput::Directories(groups))[i],
            groups@[i],
        ),
{
    lemma_row_key_names();
    if 0 <= i < nodes@.len() {
        let row = node_json(nodes@[i])->Object_0;
        assert(row.dom() =~= set!["node_id"@, "file_path"@, "summary"@]);
    }
    if 0 <= i < groups@.len() {
        let row = group_json(groups@[i])->Object_0;
        assert(row.dom() =~= set!["file_path"@, "summary"@, "node_ids"@]);
        assert(row["node_ids"@]->Array_0 == integers_json(groups@[i].node_ids@));
    }
}

/// Two lists of rows take as many tokens together as each of them does, one row
/// takes its own, and no row none. A compact answer takes none at all.
pub proof fn law_tokens_add_up(a: Seq<usize>, b: Seq<usize>, n: usize)
    ensures
        token_count(a + b, false) == token_count(a, false) + token_count(b, false),
        token_count(seq![n], false) == n,
        token_count(Seq::empty(), false) == 0,
        token_count(a, true) == 0,
    decreases b.len(),
{
    assert(seq![n].drop_last() =~= Seq::<usize>::empty());
    assert(total(Seq::<usize>::empty()) == 0);
    assert(total(seq![n]) == n);
    if b.len() == 0 {
        assert(a + b =~= a);
    } else {
        law_tokens_add_up(a, b.drop_last(), n);
        assert((a + b).drop_last() =~= a + b.drop_last());
        assert((a + b).last() == b.last());
    }
}

/// Every empty answer holds an empty list and the channels, besides its message
/// and its hint.
pub proof fn law_empty_answer_tells_its_channels(
    query: Seq<char>,
    filtered: bool,
    shortfall: PoolShortfall,
    not_searched: Option<Seq<char>>,
    vector_available: bool,
    downloads: ModelDownloads,
)
    ensures
        ({
            let keys = empty_keys(
                query,
                filtered,
                shortfall,
                not_searched,
                vector_available,
                downloads,
            );
            &&& keys["results"@] == Json::Array(Seq::empty())
            &&& vector_available ==> keys["search_mode"@] == Json::Text("hybrid"@)
            &&& !vector_available ==> keys["search_mode"@] == Json::Text("fts_only"@)
            &&& keys["vector_available"@] == Json::Bool(vector_available)
            &&& keys.contains_key("message"@) && keys["message"@] is Text
            &&& keys.contains_key("hint"@) && keys["hint"@] is Text
        }),
{
    lemma_key_names();
}

/// Where the caller's filter left out rows, an empty answer names the filter and
/// how many rows it left out, whatever else holds.
pub proof fn law_emptied_by_the_filter_names_the_filter(
    query: Seq<char>,
    shortfall: PoolShortfall,
    not_searched: Option<Seq<char>>,
    vector_available: bool,
    downloads: ModelDownloads,
)
    requires
        shortfall.dropped_by_filter > 0,
    ensures
        ({
            let keys = empty_keys(query, true, shortfall, not_searched, vector_available, downloads);
            let count = text::decimal(shortfall.dropped_by_filter as nat);
            &&& keys["message"@] == Json::Text("No matching symbols after filtering."@)
            &&& keys.contains_key("dropped_by_filter"@) && keys["dropped_by_filter"@]
                == Json::Integer(shortfall.dropped_by_filter as int)
            &&& shortfall.saturated ==> keys["hint"@] == Json::Text(
                count
                    + " candidate(s) matched the query but were removed by the active language/node_type filter — broadening or clearing it recovers those."@
                    + shortfall::exhaustion_text(shortfall),
            )
            &&& !shortfall.saturated ==> keys["hint"@] == Json::Text(
                count
                    + " candidate(s) matched the query but were removed by the active language/node_type filter. Broaden or clear the filter, or raise top_k."@,
            )
            &&& !keys.contains_key("skipped_noise"@) && !keys.contains_key("not_searched"@)
                && !keys.contains_key("note"@)
        }),
{
    lemma_key_names();
}

/// Where the filter is not to blame and noise was left out, an empty answer names
/// the noise and how much of it there was.
pub proof fn law_emptied_by_noise_names_the_noise(
    query: Seq<char>,
    filtered: bool,
    shortfall: PoolShortfall,
    not_searched: Option<Seq<char>>,
    vector_available: bool,
    downloads: ModelDownloads,
)
    requires
        !filtered || shortfall.dropped_by_filter == 0,
        shortfall.skipped_noise > 0,
    ensures
        ({
            let keys = empty_keys(
                query,
                filtered,
                shortfall,
                not_searched,
                vector_available,
                downloads,
            );
            &&& keys["message"@] == Json::Text(
                "No matching symbols — "@ + text::decimal(shortfall.skipped_noise as nat)
                    + " candidate(s) matched the query but are module/external placeholders or test symbols, which this tool always excludes."@,
            )
            &&& keys.contains_key("skipped_noise"@) && keys["skipped_noise"@] == Json::Integer(
                shortfall.skipped_noise as int,
            )
            &&& keys["hint"@] == Json::Text(
                "Spelling and index freshness are not the problem. To reach test symbols use `find_references` with include_tests, or `code-graph-mcp grep`; for structural enumeration use `ast_search`."@
                    + shortfall::exhaustion_text(shortfall),
            )
            &&& !keys.contains_key("dropped_by_filter"@) && !keys.contains_key("not_searched"@)
                && !keys.contains_key("note"@)
        }),
{
    lemma_key_names();
}

/// Where nothing was left out and the text channel did not run, an empty answer
/// tells why it did not, and whether the other one ran.
pub proof fn law_not_searched_tells_the_reason(
    query: Seq<char>,
    filtered: bool,
    shortfall: PoolShortfall,
    reason: Seq<char>,
    vector_available: bool,
    downloads: ModelDownloads,
)
    requires
        !filtered || shortfall.dropped_by_filter == 0,
        shortfall.skipped_noise == 0,
    ensures
        ({
            let keys = empty_keys(
                query,
                filtered,
                shortfall,
                Some(reason),
                vector_available,
                downloads,
            );
            &&& keys["message"@] == Json::Text("Text search did not run: "@ + reason + "."@)
            &&& keys.contains_key("not_searched"@) && keys["not_searched"@] == Json::Text(reason)
            &&& vector_available ==> keys["hint"@] == Json::Text(
                "Only the vector channel ran, and it found nothing above threshold. Spelling and index freshness are not the problem — use a longer or more specific term."@,
            )
            &&& !vector_available ==> keys["hint"@] == Json::Text(
                "Nothing was searched for. Spelling and index freshness are not the problem — use a longer or more specific term."@,
            )
            &&& !keys.contains_key("dropped_by_filter"@) && !keys.contains_key("skipped_noise"@)
                && !keys.contains_key("note"@)
        }),
{
    lemma_key_names();
}

/// Where nothing was left out and the text was searched, an empty answer advises by
/// the query: another tool where the query holds a round bracket, an arrow, a
/// double colon or an opening angle bracket; else English where a character of it
/// is not ASCII; else other words. Without vectors it carries the note.
pub proof fn law_missed_query_is_advised_by_its_shape(
    query: Seq<char>,
    filtered: bool,
    shortfall: PoolShortfall,
    vector_available: bool,
    downloads: ModelDownloads,
)
    requires
        !filtered || shortfall.dropped_by_filter == 0,
        shortfall.skipped_noise == 0,
    ensures
        ({
            let keys = empty_keys(query, filtered, shortfall, None, vector_available, downloads);
            let code = query.contains('(') || query.contains(')') || query.contains('<')
                || text::contains_text(query, "->"@) || text::contains_text(query, "::"@);
            let ascii = forall|i: int| 0 <= i < query.len() ==> '\u{0}' <= #[trigger] query[i] && query[i]
                <= '\u{7f}';
            &&& keys["message"@] == Json::Text("No matching symbols found."@)
            &&& code ==> keys["hint"@] == Json::Text(
                "Query looks like code syntax. For structural queries, use ast_search with type/returns/params filters instead of text search."@,
            )
            &&& !code && !ascii ==> keys["hint"@] == Json::Text(
                "Try using English keywords — the search index is English-optimized. Also try broader terms or check spelling."@,
            )
            &&& !code && ascii ==> keys["hint"@] == Json::Text(
                "Try broader terms, check spelling, or use different keywords. The index may need rebuilding if the codebase changed significantly."@,
            )
            &&& keys.contains_key("note"@) <==> !vector_available
            &&& !vector_available ==> keys["note"@] == Json::Text(fts_only_text(downloads))
            &&& !keys.contains_key("dropped_by_filter"@) && !keys.contains_key("skipped_noise"@)
                && !keys.contains_key("not_searched"@)
        }),
{
    lemma_key_names();
}

} // verus!
