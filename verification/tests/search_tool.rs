use code_graph::answer::{
    explain_empty_results, finalize_search_results, fts_only_note, CompressedNode,
    CompressedOutput, ModelDownloads,
};
use code_graph::confidence::Thresholds;
use code_graph::pool::{Filter, Row};
use code_graph::search::{respond, Channels, Outcome, Search, Stage};
use code_graph::shortfall::{count_range, PoolShortfall};
use serde_json::Value;

fn object(pairs: Vec<(&str, Value)>) -> Value {
    let mut m = serde_json::Map::new();
    for (k, v) in pairs {
        m.insert(k.to_string(), v);
    }
    Value::Object(m)
}

fn dummy_results() -> Vec<Value> {
    vec![object(vec![
        ("node_id", Value::from(1)),
        ("name", Value::from("foo")),
        ("relevance", Value::from(0.4)),
    ])]
}

fn finalize(confidence: f64, vector_only: bool, exact: bool, available: bool) -> Value {
    finalize_search_results(
        dummy_results(),
        Value::from((confidence * 100.0).round() / 100.0),
        vector_only,
        exact,
        available,
        &ModelDownloads::NotCompiled,
    )
}

/// One symbol of a small index; the order of the symbols is their text rank.
#[derive(Clone)]
struct Symbol {
    name: String,
    language: &'static str,
    noise: bool,
}

fn symbols(n: usize, prefix: &str, language: &'static str, noise: bool) -> Vec<Symbol> {
    (0..n)
        .map(|i| Symbol {
            name: format!("{prefix}{i}"),
            language,
            noise,
        })
        .collect()
}

fn one(name: &str, language: &'static str) -> Vec<Symbol> {
    vec![Symbol {
        name: name.to_string(),
        language,
        noise: false,
    }]
}

/// Runs a whole search on a small index that has no vectors.
fn run(index: &[Symbol], query: &str, language: Option<&str>, top_k: i64, tokens: usize) -> Value {
    let filter = Filter {
        types: None,
        language: language.map(|l| l.to_string()),
    };
    let limits = Thresholds {
        sparsity_high: 100,
        sparsity_medium: 250,
        sparsity_low: 500,
        intersection: 200,
    };
    let mut search = Search::start(query.to_string(), filter, limits, top_k);
    while let Some(fetch) = search.fetch() {
        let take = std::cmp::min(fetch as usize, index.len());
        let fused: Vec<i64> = (0..take as i64).collect();
        let rows: Vec<Row> = fused
            .iter()
            .map(|&id| {
                let s = &index[id as usize];
                Row {
                    id,
                    node_type: "function".to_string(),
                    name: s.name.clone(),
                    qualified_name: None,
                    start_line: 1,
                    end_line: 2,
                    code_content: "x".to_string(),
                    signature: None,
                    file_path: "src/a".to_string(),
                    language: Some(s.language.to_string()),
                    is_noise: s.noise,
                }
            })
            .collect();
        let channels = Channels {
            fts: fused.clone(),
            vectors: vec![],
            or_fallback: false,
            not_searched: None,
        };
        search = search.receive(channels, &fused, rows);
    }
    let scores: Vec<f64> = match &search.stage {
        Stage::Settled(pool, _) => pool
            .kept
            .iter()
            .map(|k| 1.0 / (30.0 + k.rank as f64))
            .collect(),
        _ => unreachable!(),
    };
    let bits: Vec<u64> = scores.iter().map(|s| s.to_bits()).collect();
    let found = search.rank(&bits, scores.into_iter().map(Value::from).collect());
    let output = if tokens > 2000 {
        Some(CompressedOutput::Nodes(
            found
                .best
                .iter()
                .map(|c| CompressedNode {
                    node_id: c.row.id,
                    file_path: c.row.file_path.clone(),
                    summary: c.row.name.clone(),
                })
                .collect(),
        ))
    } else {
        None
    };
    let outcome = Outcome {
        compact: false,
        vector_available: false,
        downloads: ModelDownloads::NotCompiled,
        match_confidence: Value::from(1.0),
    };
    respond(&outcome, &found, &vec![tokens], &output)
}

fn result_count(out: &Value) -> Option<usize> {
    out["results"].as_array().map(|a| a.len())
}

fn noise_dominated() -> Vec<Symbol> {
    let mut index = symbols(30, "widget_helper_", "python", true);
    for name in [
        "alpha_one",
        "alpha_two",
        "alpha_three",
        "alpha_four",
        "alpha_five",
    ] {
        index.extend(one(name, "python"));
    }
    index
}

#[test]
fn triad_drops_widen_the_pool_instead_of_starving_top_k() {
    let out = run(&noise_dominated(), "widget", None, 3, 0);
    let results = out["results"].as_array().cloned().unwrap_or_default();
    assert_eq!(results.len(), 3, "got: {out}");
    assert!(
        results
            .iter()
            .all(|r| r["name"].as_str().unwrap_or("").starts_with("alpha_")),
        "every result must be a real symbol, got: {out}"
    );
}

#[test]
fn empty_after_noise_drops_names_the_noise_not_the_speller() {
    let index = symbols(30, "widgetonly_helper_", "python", true);
    let out = run(&index, "widgetonly", None, 5, 0);
    assert_eq!(result_count(&out), Some(0), "{out}");
    let text = format!("{} {}", out["message"], out["hint"]);
    assert!(
        text.contains("test symbols") && text.contains("placeholder"),
        "got: {out}"
    );
    assert!(text.contains("20"), "got: {out}");
    assert!(!text.contains("check spelling"), "got: {out}");
    assert!(out["skipped_noise"].as_u64().unwrap_or(0) > 0, "got: {out}");
}

#[test]
fn vector_only_result_carries_the_warning() {
    let out = finalize(0.30, true, false, true);
    assert!(out.is_object(), "vector-only result must wrap in an object");
    assert_eq!(out["match_confidence"], 0.3);
    assert!(out["low_confidence_warning"]
        .as_str()
        .unwrap()
        .contains("vector similarity alone"));
    assert!(out["results"].is_array());
}

#[test]
fn every_response_shape_is_an_object_that_can_carry_disclosures() {
    let arms = [
        ("confident hybrid", finalize(0.85, false, false, true)),
        ("low confidence with anchor", finalize(0.45, false, false, true)),
        ("vector-only", finalize(0.30, true, false, true)),
        ("exact-name match", finalize(0.20, true, true, true)),
        ("vector unavailable", finalize(0.90, false, false, false)),
    ];
    for (arm, mut out) in arms {
        assert!(out.is_object(), "{arm}: got: {out}");
        assert!(
            out["results"].is_array(),
            "{arm}: the result list must live under `results`, got: {out}"
        );
        assert_eq!(
            out["results"].as_array().unwrap().len(),
            1,
            "{arm}: results must survive the wrap"
        );
        let bogus = Value::from(vec!["bogus"]);
        out.as_object_mut()
            .expect("checked above")
            .insert("ignored_arguments".into(), bogus.clone());
        assert_eq!(out["ignored_arguments"], bogus, "{arm}");
    }
}

#[test]
fn low_confidence_with_text_anchor_no_longer_warns() {
    let out = finalize(0.45, false, false, true);
    assert!(
        out.get("low_confidence_warning").is_none(),
        "low confidence WITH a text anchor must not warn, got: {out}"
    );
    assert_eq!(out["search_mode"], "hybrid");
}

#[test]
fn confident_hybrid_carries_no_warning() {
    let out = finalize(0.85, false, false, true);
    assert_eq!(out["match_confidence"], 0.85);
    assert_eq!(out["vector_available"], true);
    assert!(
        out.get("low_confidence_warning").is_none() && out.get("note").is_none(),
        "confident hybrid must carry no caveat, got: {out}"
    );
}

#[test]
fn exact_name_match_is_exempt_from_the_warning() {
    let out = finalize(0.20, true, true, true);
    assert!(
        out.get("low_confidence_warning").is_none(),
        "exact-name match is warning-exempt, got: {out}"
    );
}

#[test]
fn vector_unavailable_reports_fts_only_degradation() {
    let out = finalize(0.90, false, false, false);
    assert_eq!(out["search_mode"], "fts_only");
    assert_eq!(out["vector_available"], false);
    assert!(
        out.get("low_confidence_warning").is_none(),
        "FTS-only degradation is a separate signal from the vector-only warning"
    );
}

#[test]
fn fts_only_note_does_not_promise_a_download_that_cannot_happen() {
    let out = finalize(0.90, false, false, false);
    let note = out["note"].as_str().unwrap_or_default();
    let empty = explain_empty_results(
        "handle user login",
        false,
        &PoolShortfall::default(),
        None,
        false,
        &ModelDownloads::NotCompiled,
    );
    assert_eq!(
        empty["note"].as_str(),
        Some(note),
        "empty and non-empty answers must carry the same degradation note, got: {empty}"
    );
    assert_eq!(empty["search_mode"], "fts_only");

    let filtered = explain_empty_results(
        "widget",
        true,
        &PoolShortfall {
            dropped_by_filter: 7,
            ..Default::default()
        },
        None,
        false,
        &ModelDownloads::NotCompiled,
    );
    assert_eq!(filtered["search_mode"], "fts_only");
    assert_eq!(filtered["vector_available"], false);
    assert_eq!(filtered["dropped_by_filter"], 7);
    assert!(
        filtered.get("note").is_none(),
        "the filter-emptied answer explains itself; got: {filtered}"
    );
    assert!(
        !note.contains("auto-downloads") && !note.contains("retry shortly"),
        "no download can start in a build without `embed-model`, got: {note}"
    );
    assert!(
        note.contains("embed-model"),
        "the note must name the missing feature — it is the only remedy, got: {note}"
    );
}

#[test]
fn fts_only_note_still_points_at_the_download_when_one_can_run() {
    for last in [None, Some("timed out".to_string())] {
        let downloads = ModelDownloads::Compiled { last };
        let out = finalize_search_results(
            dummy_results(),
            Value::from(0.9),
            false,
            false,
            false,
            &downloads,
        );
        let note = out["note"].as_str().unwrap_or_default();
        assert!(
            !note.contains("built without the `embed-model` feature"),
            "this build HAS the feature; the not-compiled arm must not fire, got: {note}"
        );
    }
    assert_eq!(
        fts_only_note(&ModelDownloads::Compiled {
            last: Some("timed out".to_string())
        }),
        "Embedding model not loaded — results are FTS5-only (reduced semantic recall). Last model download: timed out. Run `code-graph-mcp doctor` for detail."
    );
    assert!(
        fts_only_note(&ModelDownloads::Compiled { last: None }).contains("retry shortly")
    );
}

#[test]
fn short_answer_discloses_the_pool_it_could_not_fill() {
    let mut index = symbols(20, "widget_short_", "python", true);
    index.extend(one("widget_prod_a", "python"));
    index.extend(one("widget_prod_b", "python"));
    index.extend(symbols(70, "widget_long_", "python", true));
    let out = run(&index, "widget", None, 3, 0);
    assert_eq!(result_count(&out), Some(2), "got {out}");
    assert_eq!(out["pool_saturated"], Value::from(true), "got {out}");
    assert!(out["skipped_noise"].as_u64().unwrap_or(0) > 0, "got {out}");
    let note = out["pool_saturated_note"].as_str().unwrap_or_default();
    assert!(note.contains("Raise top_k to widen it"), "got {out}");
    assert!(!note.contains("Broaden or clear the filter"), "got {out}");
}

#[test]
fn empty_after_a_consumed_pool_does_not_only_blame_the_filter() {
    let mut index = symbols(420, "widgetHandler", "typescript", false);
    index.extend(one("carrier_box", "python"));
    let out = run(&index, "widget", Some("python"), 1, 0);
    assert_eq!(result_count(&out), Some(0), "got {out}");
    assert_eq!(out["pool_saturated"], Value::from(true), "got {out}");
    assert!(
        out["hint"]
            .as_str()
            .unwrap_or_default()
            .contains("came back full"),
        "got {out}"
    );
}

#[test]
fn a_retry_that_read_the_whole_index_reports_no_truncation() {
    let mut index = one("widget", "python");
    index.extend(symbols(420, "widgetHandler", "typescript", false));
    let wide = run(&index, "widget", Some("python"), 20, 0);
    assert_eq!(result_count(&wide), Some(1), "got {wide}");
    assert!(wide.get("pool_saturated").is_none(), "got {wide}");

    let narrow = run(&index, "widget", Some("python"), 2, 0);
    assert_eq!(narrow["pool_saturated"], Value::from(true), "got {narrow}");
    assert!(
        narrow["pool_saturated_note"]
            .as_str()
            .unwrap_or_default()
            .contains("Raise top_k to widen it"),
        "got {narrow}"
    );
}

#[test]
fn the_compressed_envelope_carries_the_pool_disclosure_too() {
    let mut index = symbols(24, "widget_", "python", false);
    index.extend(symbols(1000, "drainer", "typescript", false));
    let out = run(&index, "widget", Some("python"), 63, 2400);
    assert!(
        out["mode"]
            .as_str()
            .is_some_and(|m| m.starts_with("compressed")),
        "got {out}"
    );
    assert_eq!(result_count(&out), Some(24), "got {out}");
    assert_eq!(out["pool_saturated"], Value::from(true), "got {out}");
}

#[test]
fn every_disclosed_number_describes_the_same_pool() {
    let mut index = one("widget", "python");
    index.extend(symbols(420, "widgetHandler", "typescript", false));
    let out = run(&index, "widget", Some("python"), 2, 0);
    assert_eq!(out["pool_saturated"], Value::from(true), "got {out}");
    let results = out["results"].as_array().map(|a| a.len()).unwrap_or(0) as u64;
    let dropped = out["dropped_by_filter"].as_u64().unwrap_or(0);
    let noise = out["skipped_noise"].as_u64().unwrap_or(0);
    let pool: u64 = out["pool_saturated_note"]
        .as_str()
        .and_then(|n| n.split_once('(').and_then(|(_, r)| r.split_once(" rows")))
        .and_then(|(n, _)| n.parse().ok())
        .unwrap_or_else(|| panic!("the note must name the pool size; got {out}"));
    assert_eq!(results + dropped + noise, pool, "got {out}");
}

#[test]
fn at_the_top_k_ceiling_the_note_stops_advising_a_bigger_top_k() {
    let ceiling = count_range("semantic_code_search", "top_k")
        .map(|(_, hi)| hi as i64)
        .expect("semantic_code_search.top_k must have a COUNT_RANGES row");
    let at_ceiling = PoolShortfall {
        dropped_by_filter: 1599,
        skipped_noise: 0,
        pool_len: 1600,
        saturated: true,
        top_k: ceiling,
    };
    let note = at_ceiling.exhaustion_note();
    assert!(
        !note.contains("Raise top_k"),
        "top_k is already at its maximum; got {note:?}"
    );
    assert!(
        note.contains("Narrow the query"),
        "and the remedy that DOES remain must be named; got {note:?}"
    );

    let below = PoolShortfall {
        top_k: ceiling - 1,
        ..at_ceiling
    };
    assert!(
        below.exhaustion_note().contains("Raise top_k to widen it"),
        "one below the ceiling raising it still works; got {:?}",
        below.exhaustion_note()
    );
}

#[test]
fn at_the_ceiling_the_tool_itself_stops_advising_a_bigger_top_k() {
    let mut index = one("widget", "python");
    index.extend(symbols(1600, "widgetHandler", "typescript", false));
    let out = run(&index, "widget", Some("python"), 100, 0);
    assert_eq!(result_count(&out), Some(1), "got {out}");
    assert_eq!(out["pool_saturated"], Value::from(true), "got {out}");
    let note = out["pool_saturated_note"].as_str().unwrap_or_default();
    assert!(!note.contains("Raise top_k"), "got {out}");
    assert!(
        note.contains("Narrow the query"),
        "and the remedy that still exists must be named; got {out}"
    );
}

#[test]
fn a_short_but_complete_answer_carries_no_pool_disclosure() {
    let mut index = one("widget", "python");
    index.extend(symbols(3, "widgetHandler", "typescript", false));
    let out = run(&index, "widget", Some("python"), 5, 0);
    assert_eq!(result_count(&out), Some(1), "got {out}");
    assert!(out.get("pool_saturated").is_none(), "got {out}");
}

#[test]
fn saturation_is_measured_against_the_pool_that_produced_the_answer() {
    let mut index = symbols(120, "widgetHandler", "typescript", false);
    index.extend(one("carrier_box", "python"));
    let out = run(&index, "widget", Some("python"), 2, 0);
    assert_eq!(result_count(&out), Some(1), "got {out}");
    assert!(out.get("pool_saturated").is_none(), "got {out}");
}
