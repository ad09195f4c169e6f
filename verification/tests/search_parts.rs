use code_graph::answer::{
    build_search_results, estimated_tokens, explain_empty_results, try_compress_results,
    CompressedGroup, CompressedOutput, ModelDownloads,
};
use code_graph::confidence::{penalties, vector_only_no_anchor, Penalty, Thresholds};
use code_graph::pool::{search_fetch_count, search_retry_fetch_count, sift, Filter, Row};
use code_graph::query::{is_acronym_heavy, meaningful_tokens, profile, query_quality};
use code_graph::rank::{has_exact_name_match, rank_candidates, score_key, scored, Candidate};
use code_graph::search::{
    check_language, check_type_filter, checked_filter, respond, retry_fetch, settle,
    text_argument, top_k_argument, Channels, Outcome, Ranked, Search, Signals, Stage,
};
use code_graph::shortfall::{count_range, PoolShortfall};
use code_graph::snippet::render_code;
use serde_json::Value;

fn row(id: i64, name: &str) -> Row {
    Row {
        id,
        node_type: "function".to_string(),
        name: name.to_string(),
        qualified_name: None,
        start_line: 3,
        end_line: 7,
        code_content: "fn f() {}".to_string(),
        signature: None,
        file_path: "src/lib.rs".to_string(),
        language: Some("rust".to_string()),
        is_noise: false,
    }
}

fn candidate(id: i64, score: f64) -> Candidate {
    Candidate {
        row: row(id, "f"),
        score_bits: score.to_bits(),
        relevance: Value::from(score),
    }
}

fn object(pairs: Vec<(&str, Value)>) -> Value {
    let mut m = serde_json::Map::new();
    for (k, v) in pairs {
        m.insert(k.to_string(), v);
    }
    Value::Object(m)
}

const LIMITS: Thresholds = Thresholds {
    sparsity_high: 100,
    sparsity_medium: 250,
    sparsity_low: 500,
    intersection: 200,
};

#[test]
fn tokens_without_meaning_are_dropped() {
    assert_eq!(
        meaningful_tokens("  find a T -- in\u{3000}x1 é É ( ::  "),
        vec!["find", "T", "in", "x1", "É"]
    );
    assert!(meaningful_tokens("a b - !!").is_empty());
}

#[test]
fn quality_goes_by_the_number_of_words() {
    let q = |s: &str| query_quality(&meaningful_tokens(s));
    assert_eq!(q(""), 30);
    assert_eq!(q("ab"), 40);
    assert_eq!(q("éa"), 70);
    assert_eq!(q("abc"), 70);
    assert_eq!(q("abc def"), 85);
    assert_eq!(q("abc def ghi"), 100);
    assert_eq!(q("one two three four"), 100);
}

#[test]
fn acronyms_are_short_and_few() {
    let a = |s: &str| is_acronym_heavy(&meaningful_tokens(s));
    assert!(a("RRF"));
    assert!(a("RRF FTS5 UTF8"));
    assert!(!a("RRF FTS5 UTF8 SQL"));
    assert!(!a("ABCDEF"));
    assert!(!a("Rrf"));
    assert!(!a("ÉTÉ"));
    assert!(!a(""));
}

#[test]
fn profile_is_in_lowercase() {
    let p = profile("  Run_Serve FTS \t");
    assert_eq!(p.terms, vec!["run_serve", "fts"]);
    assert_eq!(p.identifier, "run_serve fts");
    assert_eq!(p.quality, 85);
    assert!(!p.acronym_heavy);
}

#[test]
fn fetches_are_as_wide_as_they_have_to_be() {
    assert_eq!(search_fetch_count(3, false), 20);
    assert_eq!(search_fetch_count(20, false), 80);
    assert_eq!(search_fetch_count(5, true), 100);
    assert_eq!(search_fetch_count(20, true), 320);
    assert_eq!(search_fetch_count(63, true), 1008);
    assert_eq!(search_fetch_count(100, true), 1600);
    assert_eq!(search_retry_fetch_count(20), 80);
    assert_eq!(search_retry_fetch_count(100), 400);
    assert_eq!(search_retry_fetch_count(320), 1000);
    assert_eq!(search_retry_fetch_count(1008), 1000);
}

#[test]
fn a_greater_top_k_reaches_further() {
    for top_k in 0..100 {
        let filtered = search_fetch_count(top_k, true);
        assert!(search_fetch_count(top_k, false) < search_fetch_count(100, false));
        assert!(filtered < search_fetch_count(100, true));
        assert!(search_retry_fetch_count(filtered) < search_fetch_count(100, true));
    }
}

#[test]
fn only_the_search_tool_has_a_range() {
    assert_eq!(count_range("semantic_code_search", "top_k"), Some((1, 100)));
    assert_eq!(count_range("semantic_code_search", "depth"), None);
    assert_eq!(count_range("ast_search", "top_k"), None);
}

#[test]
fn sifting_counts_each_id_once() {
    let mut noise = row(2, "t");
    noise.is_noise = true;
    let mut other = row(3, "o");
    other.language = None;
    let mut prose = row(4, "Widget guide");
    prose.language = Some("markdown".to_string());
    let mut first_five = row(5, "old");
    first_five.node_type = "class".to_string();
    let mut five = row(5, "MakeWidget");
    five.qualified_name = Some("Widget".to_string());
    let filter = Filter {
        types: Some(vec!["class".to_string(), "function".to_string()]),
        language: None,
    };
    let pool = sift(
        &vec![4, 2, 9, 5, 3, 5],
        100,
        vec![noise, first_five, other, prose, five],
        &filter,
        &profile("widget make"),
    );
    let ids: Vec<i64> = pool.kept.iter().map(|k| k.row.id).collect();
    assert_eq!(ids, vec![4, 5, 3]);
    assert_eq!(pool.skipped_noise, 1);
    assert_eq!(pool.dropped_by_filter, 0);
    assert_eq!(pool.pool_len, 6);
    assert_eq!(pool.fetch, 100);
    assert_eq!(pool.kept[0].name_matches, 1);
    assert!(pool.kept[0].demoted);
    assert_eq!(pool.kept[1].rank, 3);
    assert_eq!(pool.kept[1].row.name, "MakeWidget");
    assert_eq!(pool.kept[1].name_matches, 2);
    assert!(!pool.kept[1].exact_name);
    assert_eq!(pool.kept[2].lines, 5);
    assert!(!pool.kept[2].demoted);
}

#[test]
fn filters_drop_rows_of_another_kind() {
    let mut class = row(1, "c");
    class.node_type = "class".to_string();
    let mut nameless = row(2, "n");
    nameless.language = None;
    let mut exact = row(3, "other");
    exact.qualified_name = Some("Mod.Widget".to_string());
    let filter = Filter {
        types: Some(vec!["function".to_string()]),
        language: Some("rust".to_string()),
    };
    let pool = sift(
        &vec![1, 2, 3],
        20,
        vec![class, nameless, exact],
        &filter,
        &profile(" mod.widget "),
    );
    assert_eq!(pool.dropped_by_filter, 2);
    assert_eq!(pool.kept.len(), 1);
    assert!(pool.kept[0].exact_name);
}

#[test]
fn markdown_that_was_asked_for_is_not_demoted() {
    let mut prose = row(1, "p");
    prose.language = Some("markdown".to_string());
    let filter = Filter {
        types: None,
        language: Some("markdown".to_string()),
    };
    let pool = sift(&vec![1], 20, vec![prose], &filter, &profile("x"));
    assert!(!pool.kept[0].demoted);
}

#[test]
fn weaknesses_are_those_of_the_channels() {
    let ids = |n: i64| -> Vec<i64> { (0..n).collect() };
    // Vectors alone.
    assert_eq!(
        penalties(&vec![], &ids(3), &ids(3), true, 5, LIMITS),
        vec![Penalty::VectorOnly]
    );
    assert!(vector_only_no_anchor(&vec![], &vec![1]));
    assert!(!vector_only_no_anchor(&vec![1], &vec![1]));
    assert!(!vector_only_no_anchor(&vec![], &vec![]));
    // Nothing at all.
    assert!(penalties(&vec![], &vec![], &vec![], true, 5, LIMITS).is_empty());
    // A precise name.
    assert!(penalties(&ids(4), &vec![90], &ids(4), false, 5, LIMITS).is_empty());
    // Five of eighty are few, eight are not so few, forty are enough.
    assert_eq!(
        penalties(&ids(5), &vec![], &ids(5), true, 20, LIMITS),
        vec![Penalty::OrFallback, Penalty::SparsityHigh]
    );
    assert_eq!(
        penalties(&ids(8), &vec![], &ids(8), false, 20, LIMITS),
        vec![Penalty::SparsityMedium]
    );
    assert_eq!(
        penalties(&ids(20), &vec![], &ids(20), false, 20, LIMITS),
        vec![Penalty::SparsityLow]
    );
    assert!(penalties(&ids(40), &vec![], &ids(40), false, 20, LIMITS).is_empty());
    // Of the best five one in both channels is enough, none is not.
    assert!(penalties(&ids(20), &vec![4], &ids(20), false, 5, LIMITS).is_empty());
    assert_eq!(
        penalties(&ids(20), &vec![5], &ids(20), false, 5, LIMITS),
        vec![Penalty::Intersection]
    );
}

#[test]
fn scores_are_ordered_as_numbers_are() {
    let numbers = [
        f64::NEG_INFINITY,
        -2.5,
        -0.0,
        0.0,
        1e-300,
        0.4,
        1.0,
        f64::INFINITY,
        f64::NAN,
    ];
    for a in numbers {
        for b in numbers {
            assert_eq!(
                score_key(a.to_bits()).cmp(&score_key(b.to_bits())),
                a.total_cmp(&b)
            );
        }
    }
}

#[test]
fn ranking_is_stable_and_stops_at_top_k() {
    let given = || {
        vec![
            candidate(1, 0.5),
            candidate(2, 0.9),
            candidate(3, 0.5),
            candidate(4, 1.0),
            candidate(5, 0.9),
        ]
    };
    let ids = |v: Vec<Candidate>| -> Vec<i64> { v.iter().map(|c| c.row.id).collect() };
    assert_eq!(ids(rank_candidates(given(), 10)), vec![4, 2, 5, 1, 3]);
    assert_eq!(ids(rank_candidates(given(), 3)), vec![4, 2, 5]);
    assert!(rank_candidates(given(), 0).is_empty());
}

#[test]
fn exact_names_count_among_the_first_five() {
    let mut best: Vec<Candidate> = (0..6).map(|i| candidate(i, 1.0)).collect();
    assert!(!has_exact_name_match(&best, "widget"));
    best[5].row.name = "Widget".to_string();
    assert!(!has_exact_name_match(&best, "widget"));
    best[4].row.qualified_name = Some("WIDGET".to_string());
    assert!(has_exact_name_match(&best, "widget"));
}

#[test]
fn short_code_is_shown_whole() {
    assert_eq!(render_code("a\nb", 1, 2), "a\nb");
    let exactly = "x".repeat(500);
    assert_eq!(render_code(&exactly, 1, 1), exactly);
}

#[test]
fn long_code_is_cut_at_a_line() {
    let line = "0123456789".repeat(12);
    let code = format!("{line}\n{line}\n{line}\n{line}\n{line}\n");
    assert_eq!(
        render_code(&code, 10, 14),
        format!(
            "{line}\n{line}\n{line}\n{line}\n// ... truncated (5 lines total, use get_ast_node for full code)"
        )
    );
    // Without a line break the cut falls on a whole character.
    let wide = "é".repeat(300) + "x";
    let odd = format!("x{wide}");
    assert_eq!(
        render_code(&odd, 1, 1),
        format!(
            "x{}\n// ... truncated (1 lines total, use get_ast_node for full code)",
            "é".repeat(249)
        )
    );
}

#[test]
fn rows_of_the_results() {
    let mut c = candidate(7, 0.25);
    c.row.signature = Some("fn f()".to_string());
    let compact = build_search_results(&vec![c], true);
    assert_eq!(
        compact,
        vec![object(vec![
            ("node_id", Value::from(7)),
            ("name", Value::from("f")),
            ("type", Value::from("function")),
            ("file_path", Value::from("src/lib.rs")),
            ("line", Value::from("3-7")),
            ("signature", Value::from("fn f()")),
            ("relevance", Value::from(0.25)),
        ])]
    );
    let full = build_search_results(&vec![candidate(8, 0.5)], false);
    assert_eq!(
        full,
        vec![object(vec![
            ("node_id", Value::from(8)),
            ("name", Value::from("f")),
            ("type", Value::from("function")),
            ("file_path", Value::from("src/lib.rs")),
            ("start_line", Value::from(3)),
            ("end_line", Value::from(7)),
            ("code_content", Value::from("fn f() {}")),
            ("signature", Value::Null),
            ("relevance", Value::from(0.5)),
        ])]
    );
}

#[test]
fn compression_needs_both_length_and_a_shorter_form() {
    assert_eq!(estimated_tokens(&vec![1500, 600], false), 2100);
    assert_eq!(estimated_tokens(&vec![1500, 600], true), 0);
    let group = || CompressedGroup {
        file_path: "src".to_string(),
        summary: "two".to_string(),
        node_ids: vec![1, -2],
    };
    let confidence = Value::from(0.5);
    let files = Some(CompressedOutput::Files(vec![group()]));
    assert!(try_compress_results(2000, &files, &confidence, true, true, false).is_none());
    assert!(try_compress_results(2001, &None, &confidence, true, true, false).is_none());
    let out = try_compress_results(2001, &files, &confidence, true, true, false).unwrap();
    assert_eq!(out["mode"], "compressed_files");
    assert_eq!(out["match_confidence"], 0.5);
    assert_eq!(out["search_mode"], "hybrid");
    assert_eq!(out["vector_available"], true);
    assert!(out["message"].as_str().unwrap().contains("token limit"));
    assert!(out["low_confidence_warning"].is_string());
    assert_eq!(
        out["results"],
        Value::from(vec![object(vec![
            ("file_path", Value::from("src")),
            ("summary", Value::from("two")),
            ("node_ids", Value::from(vec![1, -2])),
        ])])
    );
    let directories = Some(CompressedOutput::Directories(vec![group()]));
    let out = try_compress_results(9000, &directories, &confidence, false, true, true).unwrap();
    assert_eq!(out["mode"], "compressed_directories");
    assert_eq!(out["search_mode"], "fts_only");
    assert!(out.get("low_confidence_warning").is_none());
}

fn empty(query: &str, filtered: bool, told: &PoolShortfall, why: Option<&str>, vec: bool) -> Value {
    explain_empty_results(query, filtered, told, why, vec, &ModelDownloads::NotCompiled)
}

#[test]
fn each_reason_for_an_empty_answer_has_its_words() {
    let told = PoolShortfall {
        dropped_by_filter: 12,
        skipped_noise: 3,
        pool_len: 20,
        saturated: false,
        top_k: 5,
    };
    let out = empty("q", true, &told, None, true);
    assert_eq!(out["message"], "No matching symbols after filtering.");
    assert_eq!(out["dropped_by_filter"], 12);
    assert_eq!(
        out["hint"],
        "12 candidate(s) matched the query but were removed by the active language/node_type filter. Broaden or clear the filter, or raise top_k."
    );

    let out = empty("q", false, &told, None, true);
    assert_eq!(out["skipped_noise"], 3);
    assert!(out["message"]
        .as_str()
        .unwrap()
        .starts_with("No matching symbols — 3 candidate(s)"));

    let nothing = PoolShortfall::default();
    let out = empty("a", false, &nothing, Some("too short"), false);
    assert_eq!(out["message"], "Text search did not run: too short.");
    assert_eq!(out["not_searched"], "too short");
    assert!(out["hint"].as_str().unwrap().starts_with("Nothing was searched for."));
    let out = empty("a", false, &nothing, Some("too short"), true);
    assert!(out["hint"].as_str().unwrap().starts_with("Only the vector channel ran"));

    let hint = |q: &str| empty(q, false, &nothing, None, true)["hint"].as_str().unwrap().to_string();
    for q in ["f(", "f)", "a -> b", "a::b", "Vec<T"] {
        assert!(hint(q).starts_with("Query looks like code syntax."), "{q}");
    }
    assert!(hint("größe").starts_with("Try using English keywords"));
    assert!(hint("a - > b : c").starts_with("Try broader terms"));
    let out = empty("plain", false, &nothing, None, true);
    assert!(out.get("note").is_none());
    assert_eq!(out["message"], "No matching symbols found.");
}

#[test]
fn a_full_pool_is_told_of_in_the_hint() {
    let told = PoolShortfall {
        dropped_by_filter: 99,
        skipped_noise: 1,
        pool_len: 100,
        saturated: true,
        top_k: 1,
    };
    let mut out = empty("q", true, &told, None, true);
    assert_eq!(
        out["hint"],
        "99 candidate(s) matched the query but were removed by the active language/node_type filter — broadening or clearing it recovers those. The candidate pool (100 rows) came back full before top_k was filled, so matches may sit below the cut. Raise top_k to widen it."
    );
    told.attach(&mut out);
    assert_eq!(out["pool_saturated"], true);
    assert_eq!(out["dropped_by_filter"], 99);
    assert_eq!(out["skipped_noise"], 1);
    let note = out["pool_saturated_note"].as_str().unwrap();
    assert_eq!(
        note,
        "The candidate pool (100 rows) came back full before top_k was filled, so matches may sit below the cut. Raise top_k to widen it."
    );
    assert!(note.len() < 200);
}

#[test]
fn attaching_leaves_other_values_alone() {
    let told = PoolShortfall {
        saturated: true,
        ..Default::default()
    };
    let mut list = Value::from(vec![1, 2]);
    told.attach(&mut list);
    assert_eq!(list, Value::from(vec![1, 2]));
    let mut keys = object(vec![("a", Value::from(1))]);
    PoolShortfall::default().attach(&mut keys);
    assert_eq!(keys, object(vec![("a", Value::from(1))]));
    told.attach(&mut keys);
    assert_eq!(keys["a"], 1);
    assert!(keys.get("dropped_by_filter").is_none());
}

#[test]
fn the_longest_note_fits() {
    for top_k in [1, 100] {
        let told = PoolShortfall {
            pool_len: usize::MAX,
            saturated: true,
            top_k,
            ..Default::default()
        };
        assert!(told.exhaustion_note().trim().len() < 200);
    }
}

#[test]
fn the_size_of_the_note_is_known() {
    for (top_k, size) in [(1, 129), (99, 129), (100, 133)] {
        let told = PoolShortfall {
            pool_len: 1600,
            saturated: true,
            top_k,
            ..Default::default()
        };
        let mut out = object(vec![]);
        told.attach(&mut out);
        let note = out["pool_saturated_note"].as_str().unwrap();
        assert_eq!(note.len(), size);
        assert_eq!(format!(" {note}"), told.exhaustion_note());
        assert!(!note.contains("filter"));
        let other = PoolShortfall {
            dropped_by_filter: 7,
            skipped_noise: 9,
            ..told
        };
        assert_eq!(other.exhaustion_note(), told.exhaustion_note());
    }
}

#[test]
fn rows_that_are_left_out_may_have_any_lines() {
    let endless = |id: i64| {
        let mut r = row(id, "f");
        r.start_line = i64::MIN;
        r.end_line = i64::MAX;
        r
    };
    let mut noise = endless(1);
    noise.is_noise = true;
    let mut other = endless(2);
    other.language = None;
    let filter = Filter {
        types: None,
        language: Some("rust".to_string()),
    };
    let pool = sift(
        &vec![1, 2, 3],
        20,
        vec![noise, other, row(3, "f"), endless(4)],
        &filter,
        &profile("f"),
    );
    assert_eq!((pool.skipped_noise, pool.dropped_by_filter), (1, 1));
    assert_eq!(pool.kept.len(), 1);
    assert_eq!(pool.kept[0].lines, 5);
}

#[test]
fn settling_takes_the_better_pool() {
    let filter = || Filter {
        types: None,
        language: Some("rust".to_string()),
    };
    let make = |good: i64, bad: i64, fetch: i64| {
        let rows: Vec<Row> = (0..good + bad)
            .map(|i| {
                let mut r = row(i, "f");
                if i >= good {
                    r.language = None;
                }
                r
            })
            .collect();
        let ids: Vec<i64> = (0..good + bad).collect();
        sift(&ids, fetch, rows, &filter(), &profile("f"))
    };
    let (pool, told) = settle(make(1, 19, 20), Some(make(1, 30, 80)), 5);
    assert_eq!((pool.pool_len, told.pool_len), (20, 20));
    assert!(!told.saturated);
    let (pool, told) = settle(make(1, 19, 20), Some(make(2, 78, 80)), 5);
    assert_eq!((pool.kept.len(), told.pool_len), (2, 80));
    assert_eq!(told.dropped_by_filter, 78);
    assert!(told.saturated);
    let (_, told) = settle(make(5, 15, 20), None, 5);
    assert!(!told.saturated);
}

#[test]
fn arguments_are_read_under_their_names() {
    let both = object(vec![("top_k", Value::from(3)), ("limit", Value::from(4))]);
    assert_eq!(top_k_argument(&both), "top_k");
    let null = object(vec![("top_k", Value::Null), ("limit", Value::from(4))]);
    assert_eq!(top_k_argument(&null), "limit");
    assert_eq!(top_k_argument(&object(vec![])), "limit");
    assert_eq!(top_k_argument(&Value::from(1)), "limit");
    let args = object(vec![("language", Value::from("rust")), ("n", Value::from(1))]);
    assert_eq!(text_argument(&args, "language"), Some("rust".to_string()));
    assert_eq!(text_argument(&args, "n"), None);
    assert_eq!(text_argument(&args, "node_type"), None);
}

#[test]
fn unknown_filters_are_refused() {
    assert!(check_type_filter("fn", &vec!["function".to_string()], "fn, class", "").is_ok());
    assert_eq!(
        check_type_filter("fnn", &vec![], "fn, class", " Did you mean fn?"),
        Err("Unknown node_type filter: 'fnn'. Valid: fn, class. Did you mean fn?".to_string())
    );
    let supported = vec!["rust".to_string(), "python".to_string(), "go".to_string()];
    assert_eq!(
        check_language("Rust", Some("rust".to_string()), &supported),
        Ok("rust".to_string())
    );
    assert_eq!(
        check_language("cobol", None, &supported),
        Err("Unknown language filter: 'cobol'. Valid: rust, python, go".to_string())
    );
}

fn found(query: &str, filter: Filter, vector_only: bool, best: Vec<Candidate>) -> Ranked {
    Ranked {
        query: query.to_string(),
        profile: profile(query),
        filter,
        signals: Signals {
            penalties: vec![],
            vector_only,
            not_searched: Some("too short".to_string()),
        },
        shortfall: PoolShortfall::default(),
        best,
    }
}

fn no_filter() -> Filter {
    Filter {
        types: None,
        language: None,
    }
}

fn outcome(compact: bool) -> Outcome {
    Outcome {
        compact,
        vector_available: true,
        downloads: ModelDownloads::NotCompiled,
        match_confidence: Value::from(0.5),
    }
}

#[test]
fn compact_answers_are_never_compressed() {
    let ranked = found("F", no_filter(), true, vec![candidate(1, 0.5)]);
    let output = Some(CompressedOutput::Files(vec![]));
    let out = respond(&outcome(true), &ranked, &vec![9000], &output);
    assert!(out.get("mode").is_none());
    assert_eq!(out["results"][0]["line"], "3-7");
    // The name is the query, so there is nothing to warn of.
    assert!(out.get("low_confidence_warning").is_none());
    let out = respond(&outcome(false), &ranked, &vec![9000], &output);
    assert_eq!(out["mode"], "compressed_files");
}

#[test]
fn an_answer_speaks_of_its_own_search() {
    let ranked = found("other", no_filter(), true, vec![candidate(1, 0.5)]);
    let out = respond(&outcome(true), &ranked, &vec![], &None);
    assert!(out["low_confidence_warning"].is_string());
    let empty = found("a", no_filter(), false, vec![]);
    let out = respond(&outcome(true), &empty, &vec![], &None);
    assert_eq!(out["not_searched"], "too short");
    let python = Filter {
        types: None,
        language: Some("python".to_string()),
    };
    let mut empty = found("a", python, false, vec![]);
    empty.shortfall.dropped_by_filter = 2;
    let out = respond(&outcome(true), &empty, &vec![], &None);
    assert_eq!(out["dropped_by_filter"], 2);
}

#[test]
fn each_row_gets_its_own_score() {
    let pool = sift(
        &vec![4, 5, 6],
        20,
        vec![row(4, "a"), row(5, "b"), row(6, "c")],
        &no_filter(),
        &profile("f"),
    );
    let values = vec![Value::from(0.5), Value::from("x"), Value::Null];
    let out = scored(pool.kept, &vec![1, 2, 3], values);
    let got: Vec<(i64, u64, Value)> = out
        .into_iter()
        .map(|c| (c.row.id, c.score_bits, c.relevance))
        .collect();
    assert_eq!(
        got,
        vec![
            (4, 1, Value::from(0.5)),
            (5, 2, Value::from("x")),
            (6, 3, Value::Null)
        ]
    );
}

#[test]
fn the_first_fetch_tells_how_well_the_query_matched() {
    let ids = |n: i64| -> Vec<i64> { (0..n).collect() };
    let rows = |n: i64| -> Vec<Row> {
        (0..n)
            .map(|i| {
                let mut r = row(i, "f");
                r.is_noise = i < 20;
                r
            })
            .collect()
    };
    let channels = |fts: Vec<i64>, vectors: Vec<i64>, reason: &str| Channels {
        fts,
        vectors,
        or_fallback: true,
        not_searched: Some(reason.to_string()),
    };
    let search = Search::start(" Find F ".to_string(), no_filter(), LIMITS, 2)
        .receive(channels(vec![], ids(20), "first"), &ids(20), rows(20))
        .receive(channels(ids(80), vec![], "second"), &ids(22), rows(22));
    let bits = vec![0.25f64.to_bits(), 0.75f64.to_bits()];
    let ranked = search.rank(&bits, vec![Value::from(0.25), Value::from(0.75)]);
    assert_eq!(ranked.query, " Find F ");
    assert_eq!(ranked.profile.identifier, "find f");
    assert_eq!(ranked.signals.penalties, vec![Penalty::VectorOnly]);
    assert!(ranked.signals.vector_only);
    assert_eq!(ranked.signals.not_searched, Some("first".to_string()));
    assert_eq!(ranked.shortfall.pool_len, 22);
    let best: Vec<(i64, Value)> = ranked
        .best
        .into_iter()
        .map(|c| (c.row.id, c.relevance))
        .collect();
    assert_eq!(best, vec![(21, Value::from(0.75)), (20, Value::from(0.25))]);
}

#[test]
fn an_unknown_type_is_refused_before_an_unknown_language() {
    let text = |s: &str| Some(s.to_string());
    let list = |names: &[&str]| -> Vec<String> { names.iter().map(|s| s.to_string()).collect() };
    let check = |ty: Option<String>, known: &[&str], lang: Option<String>, name: Option<String>| {
        checked_filter(
            ty,
            &list(known),
            list(&["function", "method"]),
            "fn",
            " Hm.",
            lang,
            name,
            &list(&["rust", "go"]),
        )
    };
    let refusal = |r: Result<Filter, String>| match r {
        Ok(_) => panic!("not refused"),
        Err(e) => e,
    };
    let bad_type = "Unknown node_type filter: 'x'. Valid: fn. Hm.";
    let bad_language = "Unknown language filter: 'y'. Valid: rust, go";
    assert_eq!(refusal(check(text("x"), &[], text("y"), None)), bad_type);
    assert_eq!(refusal(check(text("x"), &[], None, None)), bad_type);
    assert_eq!(refusal(check(text("fn"), &["function"], text("y"), None)), bad_language);
    assert_eq!(refusal(check(None, &[], text("y"), None)), bad_language);
    match check(text("fn"), &["function"], text("Rust"), text("rust")) {
        Ok(f) => {
            assert_eq!(f.types, Some(list(&["function", "method"])));
            assert_eq!(f.language, text("rust"));
        }
        Err(e) => panic!("{e}"),
    }
    match check(None, &[], None, text("rust")) {
        Ok(f) => assert!(!f.is_active()),
        Err(e) => panic!("{e}"),
    }
}

#[test]
fn a_search_that_lost_nothing_is_not_widened() {
    let filter = || Filter {
        types: None,
        language: None,
    };
    let rows = |n: i64, noise: bool| -> Vec<Row> {
        (0..n)
            .map(|i| {
                let mut r = row(i, "f");
                r.is_noise = noise;
                r
            })
            .collect()
    };
    let ids = |n: i64| -> Vec<i64> { (0..n).collect() };
    // As full as it gets, and nothing was left out.
    let pool = sift(&ids(20), 20, rows(20, false), &filter(), &profile("f"));
    assert_eq!(retry_fetch(&pool, 30), None);
    // Not full.
    let pool = sift(&ids(19), 20, rows(19, true), &filter(), &profile("f"));
    assert_eq!(retry_fetch(&pool, 3), None);
    // Full, and all of it was left out.
    let pool = sift(&ids(20), 20, rows(20, true), &filter(), &profile("f"));
    assert_eq!(retry_fetch(&pool, 3), Some(80));
    // Two fetches settle every search.
    let channels = || Channels {
        fts: ids(20),
        vectors: vec![],
        or_fallback: false,
        not_searched: None,
    };
    let search = Search::start("f".to_string(), filter(), LIMITS, 3).receive(
        channels(),
        &ids(20),
        rows(20, true),
    );
    assert_eq!(search.fetch(), Some(80));
    let search = search.receive(channels(), &ids(80), rows(80, true));
    assert_eq!(search.fetch(), None);
    assert!(matches!(search.stage, Stage::Settled(..)));
}
