use code_graph::inspection::{
    inspect, inspect_with_cap, Access, DetailRows, IdentityRows, InspectError, Inspection,
    Observation, SnapshotMeta, Stage,
};
use code_graph::snapshot::{
    classify, create, finish_seal, hex_text, seal, source_commit, vacuum_sql, with_checksum,
    MetaKey, SealError, SnapshotKind, SnapshotOrder,
};
use code_graph::text::{
    decimal_text, has_suffix, has_text, join_texts, read_i32, read_i64, signed_text, split_words,
    trim_text,
};

fn order(out: &str, include_vec: bool) -> SnapshotOrder {
    SnapshotOrder {
        out: out.to_string(),
        include_vec,
        source_commit: "abc123".to_string(),
        now: 1_700_000_000,
        tool_version: "0.147.0".to_string(),
        schema_version: 10,
    }
}

#[test]
fn a_compressed_snapshot_has_a_checksum_file() {
    let plan = create(&order("/tmp/x.db.zst", false));
    assert!(plan.compress);
    assert_eq!(plan.sidecar, Some("/tmp/x.db.zst.blake3".to_string()));
    assert_eq!(
        plan.cleanup,
        vec![
            "DROP TABLE IF EXISTS node_vectors;",
            "DROP TABLE IF EXISTS embedding_cache;"
        ]
    );
    assert_eq!(
        plan.meta,
        vec![
            (MetaKey::SourceCommit, "abc123".to_string()),
            (MetaKey::CreatedAt, "1700000000".to_string()),
            (MetaKey::ToolVersion, "0.147.0".to_string()),
            (MetaKey::SchemaVersion, "10".to_string()),
            (MetaKey::IncludesVec, "false".to_string()),
        ]
    );
}

#[test]
fn a_raw_snapshot_has_none() {
    for out in ["x.db", "x.zst", ".db.zst.bak", "zst"] {
        let plan = create(&order(out, true));
        assert!(!plan.compress, "{out}");
        assert_eq!(plan.sidecar, None);
        assert_eq!(plan.cleanup, vec!["DROP TABLE IF EXISTS embedding_cache;"]);
        assert_eq!(plan.meta[4], (MetaKey::IncludesVec, "true".to_string()));
    }
}

#[test]
fn the_commit_is_trimmed() {
    assert_eq!(source_commit(&Some(b"  0af1\n".to_vec())), "0af1");
    assert_eq!(source_commit(&Some(vec![b'a', 0xff, b'\n'])), "a\u{fffd}");
    assert_eq!(source_commit(&Some("\u{3000}größe ".into())), "größe");
    assert_eq!(source_commit(&None), "");
}

#[test]
fn quotes_in_a_path_are_doubled() {
    assert_eq!(vacuum_sql("/tmp/a.db"), "VACUUM INTO '/tmp/a.db';");
    assert_eq!(vacuum_sql("it's 'x'"), "VACUUM INTO 'it''s ''x''';");
    assert_eq!(vacuum_sql(""), "VACUUM INTO '';");
}

#[test]
fn a_sealed_snapshot_unfolds_to_what_went_in() {
    let raw: Vec<u8> = (0..5000u32).map(|i| (i % 251) as u8).collect();
    let sealed = match seal(&raw) {
        Ok(a) => a,
        Err(_) => panic!("compression failed"),
    };
    assert_ne!(sealed.bytes, raw);
    assert!(sealed.bytes.len() < raw.len());
    assert_eq!(zstd::decode_all(&sealed.bytes[..]).unwrap(), raw);
    assert_eq!(sealed.bytes, zstd::encode_all(&raw[..], 9).unwrap());
    assert_eq!(sealed.checksum.len(), 64);
    assert_eq!(
        sealed.checksum,
        blake3::hash(&sealed.bytes).to_hex().to_string()
    );
    assert_eq!(
        classify(&sealed.bytes[..20].to_vec()),
        SnapshotKind::Compressed
    );
}

#[test]
fn the_checksum_is_that_of_the_bytes() {
    let a = with_checksum(Vec::new());
    assert_eq!(
        a.checksum,
        "af1349b9f5f9a1a6a0404dea36dcc9499bcb25c9adc112b7cc9a93cae41f3262"
    );
    assert_eq!(hex_text(&vec![0x00, 0x9a, 0xff]), "009aff");
}

#[test]
fn a_failed_compression_is_reported() {
    let failed = std::io::Error::new(std::io::ErrorKind::Other, "no memory");
    match finish_seal(Err(failed)) {
        Err(SealError::Encode(e)) => assert_eq!(e.to_string(), "no memory"),
        Ok(_) => panic!("nothing was compressed"),
    }
    match finish_seal(Ok(vec![1, 2, 3])) {
        Ok(a) => {
            assert_eq!(a.bytes, vec![1, 2, 3]);
            assert_eq!(a.checksum, blake3::hash(&[1, 2, 3]).to_hex().to_string());
        }
        Err(_) => panic!("the bytes were given"),
    }
}

fn sqlite_head(len: usize, version: u8) -> Vec<u8> {
    let mut head = b"SQLite format 3\0".to_vec();
    head.extend([16, 0, version, 1]);
    head.truncate(len);
    head
}

#[test]
fn kinds_go_by_the_first_bytes() {
    assert_eq!(classify(&sqlite_head(20, 1)), SnapshotKind::Raw);
    assert_eq!(classify(&sqlite_head(20, 2)), SnapshotKind::RawWal);
    assert_eq!(classify(&sqlite_head(19, 2)), SnapshotKind::RawWal);
    assert_eq!(classify(&sqlite_head(18, 2)), SnapshotKind::Raw);
    assert_eq!(classify(&sqlite_head(15, 2)), SnapshotKind::Unknown);
    assert_eq!(
        classify(&vec![0x28, 0xb5, 0x2f, 0xfd, 0]),
        SnapshotKind::Compressed
    );
    assert_eq!(classify(&vec![0x28, 0xb5, 0x2f]), SnapshotKind::Unknown);
    assert_eq!(classify(&vec![]), SnapshotKind::Unknown);
}

fn error_of(i: Inspection) -> InspectError {
    match i.stage {
        Stage::Done(Err(e)) => e,
        _ => panic!("not refused"),
    }
}

fn meta_of(i: Inspection) -> SnapshotMeta {
    match i.stage {
        Stage::Done(Ok(m)) => m,
        _ => panic!("not read"),
    }
}

fn access_of(i: &Inspection) -> Access {
    match i.stage {
        Stage::Open { access, .. } => access,
        _ => panic!("not at an opening"),
    }
}

fn headed(size: u64, head: Vec<u8>) -> Inspection {
    let i = inspect_with_cap("x.db", 77).advance(Observation::Size(size));
    match i.stage {
        Stage::Head { want, .. } => assert_eq!(want, head.len()),
        _ => panic!("no head is asked for"),
    }
    i.advance(Observation::Head(head))
}

fn records(values: [Option<&str>; 5]) -> IdentityRows {
    let [source_commit, source_url, created_at, tool_version, schema_version] =
        values.map(|v| v.map(|s| s.to_string()));
    IdentityRows {
        source_commit,
        source_url,
        created_at,
        tool_version,
        schema_version,
    }
}

#[test]
fn an_inspection_starts_with_the_ceiling_of_an_install() {
    let i = inspect("a.db.zst");
    assert_eq!(i.file, "a.db.zst");
    assert_eq!(i.cap, 100 * 1024 * 1024);
    assert!(matches!(i.stage, Stage::Size));
    assert_eq!(inspect_with_cap("a", 5).cap, 5);
}

#[test]
fn a_short_or_strange_file_is_no_snapshot() {
    let short = inspect("tiny").advance(Observation::Size(15));
    assert_eq!(error_of(short), InspectError::NotASnapshot);
    let strange = headed(4000, vec![7; 20]);
    assert_eq!(
        error_of(strange).message("x.db"),
        "x.db is not a code-graph snapshot — expected zstd-compressed (.db.zst) or raw SQLite (.db)"
    );
}

#[test]
fn each_kind_is_opened_in_its_own_way() {
    let mut frame = vec![0x28, 0xb5, 0x2f, 0xfd];
    frame.resize(20, 0);
    assert_eq!(access_of(&headed(9000, frame)), Access::Decompress { cap: 77 });
    assert_eq!(access_of(&headed(9000, sqlite_head(20, 2))), Access::StageCopy);
    assert_eq!(access_of(&headed(9000, sqlite_head(20, 1))), Access::InPlace);
    assert_eq!(access_of(&headed(17, sqlite_head(17, 1))), Access::InPlace);
}

#[test]
fn only_a_compressed_file_is_capped() {
    let open = |cap: u64, head: Vec<u8>| {
        access_of(
            &inspect_with_cap("x.db", cap)
                .advance(Observation::Size(9000))
                .advance(Observation::Head(head)),
        )
    };
    let mut frame = vec![0x28, 0xb5, 0x2f, 0xfd];
    frame.resize(20, 0);
    for cap in [0, 1, u64::MAX] {
        assert_eq!(open(cap, sqlite_head(20, 1)), Access::InPlace);
        assert_eq!(open(cap, sqlite_head(20, 2)), Access::StageCopy);
        assert_eq!(open(cap, frame.clone()), Access::Decompress { cap });
    }
}

#[test]
fn an_unreadable_file_is_copied_once() {
    let opened = headed(9000, sqlite_head(20, 1)).advance(Observation::Opened);
    let again = opened.advance(Observation::Probed(None));
    assert_eq!(access_of(&again), Access::StageCopy);
    let twice = again
        .advance(Observation::Opened)
        .advance(Observation::Probed(None));
    assert_eq!(error_of(twice), InspectError::Unreadable);
    let no_table = headed(9000, sqlite_head(20, 1))
        .advance(Observation::Opened)
        .advance(Observation::Probed(Some(0)));
    assert_eq!(
        error_of(no_table).message("y"),
        "y is not a valid code-graph snapshot — meta is missing or unreadable (file may be truncated or corrupt)"
    );
}

fn probed() -> Inspection {
    headed(9000, sqlite_head(20, 1))
        .advance(Observation::Opened)
        .advance(Observation::Probed(Some(1)))
}

#[test]
fn a_database_without_records_is_no_snapshot() {
    let i = probed().advance(Observation::Records(records([
        None,
        Some("u"),
        Some("12"),
        Some(""),
        Some("ten"),
    ])));
    assert_eq!(error_of(i), InspectError::Unreadable);
}

#[test]
fn a_record_that_is_no_number_counts_as_zero() {
    let i = probed()
        .advance(Observation::Records(records([
            Some("c"),
            None,
            Some("99999999999999999999"),
            None,
            Some("2147483648"),
        ])))
        .advance(Observation::Details(DetailRows {
            includes_vec: Some("TRUE".to_string()),
            fetched_at: Some(" 5".to_string()),
            node_count: None,
            edge_count: Some(4),
        }));
    let m = meta_of(i);
    assert_eq!(m.source_commit, "c");
    assert_eq!((m.created_at, m.schema_version), (0, 0));
    assert!(!m.includes_vec);
    assert_eq!(m.fetched_at, None);
    assert_eq!((m.node_count, m.edge_count), (0, 4));
}

#[test]
fn what_was_recorded_is_read_back() {
    let plan = create(&order("x.db", true));
    let get = |key: MetaKey| {
        plan.meta
            .iter()
            .find(|(k, _)| *k == key)
            .map(|(_, v)| v.clone())
    };
    let rows = IdentityRows {
        source_commit: get(MetaKey::SourceCommit),
        source_url: get(MetaKey::SourceUrl),
        created_at: get(MetaKey::CreatedAt),
        tool_version: get(MetaKey::ToolVersion),
        schema_version: get(MetaKey::SchemaVersion),
    };
    let details = DetailRows {
        includes_vec: get(MetaKey::IncludesVec),
        fetched_at: get(MetaKey::FetchedAt),
        node_count: Some(11),
        edge_count: Some(22),
    };
    let m = meta_of(
        probed()
            .advance(Observation::Records(rows))
            .advance(Observation::Details(details)),
    );
    assert_eq!(m.source_commit, "abc123");
    assert_eq!(m.source_url, None);
    assert_eq!(m.created_at, 1_700_000_000);
    assert_eq!(m.tool_version, "0.147.0");
    assert_eq!(m.schema_version, 10);
    assert!(m.includes_vec);
    assert_eq!(m.fetched_at, None);
    assert_eq!((m.node_count, m.edge_count), (11, 22));
    assert_eq!(m.file_size_bytes, 9000);
}

#[test]
fn numerals_read_back() {
    for n in [i64::MIN, -17, -1, 0, 7, 10, 1024, i64::MAX] {
        assert_eq!(signed_text(n), n.to_string());
        assert_eq!(read_i64(&signed_text(n)), Some(n));
    }
    assert_eq!(decimal_text(u64::MAX), u64::MAX.to_string());
}

#[test]
fn numbers_are_read_as_the_standard_library_reads_them() {
    for s in [
        "", "+", "-", "+5", "-5", "-0", "007", "--1", "+-1", "1_0", " 1", "1 ", "12a", "１",
        "9223372036854775807", "9223372036854775808", "-9223372036854775808",
        "-9223372036854775809", "2147483647", "2147483648", "-2147483648", "-2147483649",
    ] {
        assert_eq!(read_i64(s), s.parse::<i64>().ok(), "{s:?}");
        assert_eq!(read_i32(s), s.parse::<i32>().ok(), "{s:?}");
    }
}

#[test]
fn texts_are_taken_apart_and_put_together() {
    assert_eq!(trim_text(" \t a b\u{a0}\n"), "a b");
    assert_eq!(trim_text(" \n "), "");
    for c in (0..=0x10_ffff).filter_map(char::from_u32) {
        let listed = matches!(
            c,
            '\u{9}'..='\u{d}'
                | '\u{20}'
                | '\u{85}'
                | '\u{a0}'
                | '\u{1680}'
                | '\u{2000}'..='\u{200a}'
                | '\u{2028}'
                | '\u{2029}'
                | '\u{202f}'
                | '\u{205f}'
                | '\u{3000}'
        );
        assert_eq!(c.is_whitespace(), listed, "{c:?}");
    }
    assert_eq!(split_words(" a\tbc \u{2003}d"), vec!["a", "bc", "d"]);
    assert!(has_text("ab::c", "::"));
    assert!(has_text("x", ""));
    assert!(!has_text("a:b:", "::"));
    assert!(has_suffix("x.db.zst", ".db.zst"));
    assert!(!has_suffix("zst", ".db.zst"));
    assert_eq!(
        join_texts(&vec!["a".to_string(), "b".to_string()], ", "),
        "a, b"
    );
    assert_eq!(join_texts(&vec![], ", "), "");
}
