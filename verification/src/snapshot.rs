//! Snapshots of the index: how one is put together, sealed and named, and how a
//! file that may be one is recognised and read.

use crate::text;
use vstd::prelude::*;

verus! {

/// How many bytes a compressed snapshot may unfold to.
pub const MAX_DECOMPRESSED_BYTES: u64 = 104_857_600;

/// The level at which snapshots are compressed.
pub const SNAPSHOT_LEVEL: i32 = 9;

/// Merges the write-ahead log back, so that the database is one file.
pub const MERGE_LOG_SQL: &'static str = "PRAGMA journal_mode = DELETE;";

/// Keeps the database file from being mapped into memory.
pub const NO_MMAP_SQL: &'static str = "PRAGMA mmap_size = 0;";

/// Counts the tables called `meta`.
pub const META_PROBE: &'static str =
    "SELECT COUNT(*) FROM sqlite_master WHERE type='table' AND name='meta'";

/// What a snapshot records about itself.
#[derive(Debug, Clone, Copy, PartialEq, Eq, Structural)]
pub enum MetaKey {
    SourceCommit,
    SourceUrl,
    CreatedAt,
    ToolVersion,
    SchemaVersion,
    IncludesVec,
    FetchedAt,
}

/// What a snapshot is made from.
pub struct SnapshotOrder {
    /// The path of the file to write.
    pub out: String,
    /// Whether the vectors go along.
    pub include_vec: bool,
    /// The commit that was indexed; empty where it is not known.
    pub source_commit: String,
    /// The time, in seconds since 1970.
    pub now: i64,
    pub tool_version: String,
    pub schema_version: i32,
}

/// What has to be done to make a snapshot of a fresh index.
pub struct SnapshotPlan {
    /// The statements that drop what a snapshot does not carry.
    pub cleanup: Vec<String>,
    /// What the snapshot records about itself.
    pub meta: Vec<(MetaKey, String)>,
    /// Whether the file is compressed.
    pub compress: bool,
    /// The path of the file with the checksum, where there is one.
    pub sidecar: Option<String>,
}

/// The statements that drop what a snapshot does not carry: the vectors, unless
/// they go along, and always the cache of embeddings.
pub open spec fn cleanup_texts(include_vec: bool) -> Seq<Seq<char>> {
    if include_vec {
        seq!["DROP TABLE IF EXISTS embedding_cache;"@]
    } else {
        seq!["DROP TABLE IF EXISTS node_vectors;"@, "DROP TABLE IF EXISTS embedding_cache;"@]
    }
}

/// How a truth value is recorded.
pub open spec fn truth_text(b: bool) -> Seq<char> {
    if b {
        "true"@
    } else {
        "false"@
    }
}

/// What a snapshot records about itself.
pub open spec fn recorded(order: SnapshotOrder) -> Seq<(MetaKey, Seq<char>)> {
    seq![
        (MetaKey::SourceCommit, order.source_commit@),
        (MetaKey::CreatedAt, text::signed_decimal(order.now as int)),
        (MetaKey::ToolVersion, order.tool_version@),
        (MetaKey::SchemaVersion, text::signed_decimal(order.schema_version as int)),
        (MetaKey::IncludesVec, truth_text(order.include_vec)),
    ]
}

/// The records with their texts.
pub open spec fn meta_texts(meta: Seq<(MetaKey, String)>) -> Seq<(MetaKey, Seq<char>)> {
    meta.map_values(|m: (MetaKey, String)| (m.0, m.1@))
}

/// Plans a snapshot. A path that ends in `.db.zst` asks for a compressed file
/// with a checksum beside it, any other for the database as it is.
pub fn create(order: &SnapshotOrder) -> (r: SnapshotPlan)
    ensures
        text::texts(r.cleanup@) == cleanup_texts(order.include_vec),
        meta_texts(r.meta@) == recorded(*order),
        r.compress == text::ends_in(order.out@, ".db.zst"@),
        text::optional_text(r.sidecar) == (if text::ends_in(order.out@, ".db.zst"@) {
            Some(order.out@ + ".blake3"@)
        } else {
            None
        }),
{
    let mut cleanup: Vec<String> = Vec::new();
    if !order.include_vec {
        cleanup.push("DROP TABLE IF EXISTS node_vectors;".to_owned());
    }
    cleanup.push("DROP TABLE IF EXISTS embedding_cache;".to_owned());
    assert(text::texts(cleanup@) =~= cleanup_texts(order.include_vec));
    let mut meta: Vec<(MetaKey, String)> = Vec::new();
    meta.push((MetaKey::SourceCommit, order.source_commit.clone()));
    meta.push((MetaKey::CreatedAt, text::signed_text(order.now)));
    meta.push((MetaKey::ToolVersion, order.tool_version.clone()));
    meta.push((MetaKey::SchemaVersion, text::signed_text(order.schema_version as i64)));
    let includes = if order.include_vec {
        "true".to_owned()
    } else {
        "false".to_owned()
    };
    meta.push((MetaKey::IncludesVec, includes));
    assert(meta_texts(meta@) =~= recorded(*order));
    let compress = text::has_suffix(order.out.as_str(), ".db.zst");
    let sidecar = if compress {
        let mut path = order.out.clone();
        path.append(".blake3");
        Some(path)
    } else {
        None
    };
    SnapshotPlan { cleanup, meta, compress, sidecar }
}

/// The commit that `git` printed, without the white space around it, or nothing
/// where it did not run or failed.
pub fn source_commit(printed: &Option<Vec<u8>>) -> (r: String)
    ensures
        r@ == (match *printed {
            Some(bytes) => text::trimmed(text::lossy_text(bytes@)),
            None => Seq::<char>::empty(),
        }),
        printed matches Some(bytes) ==> vstd::utf8::valid_utf8(bytes@) ==> r@ == text::trimmed(
            vstd::utf8::decode_utf8(bytes@),
        ),
{
    match printed {
        Some(bytes) => {
            let line = text::read_lossy(bytes.as_slice());
            text::trim_text(line.as_str())
        },
        None => String::new(),
    }
}

/// A text with every quote doubled.
pub open spec fn doubled(s: Seq<char>) -> Seq<char>
    decreases s.len(),
{
    if s.len() == 0 {
        seq![]
    } else if s[0] == '\'' {
        seq!['\'', '\''] + doubled(s.skip(1))
    } else {
        seq![s[0]] + doubled(s.skip(1))
    }
}

/// What SQL reads of a text behind the quote that opens a literal: the text of
/// the literal and what stands behind the quote that closes it; nothing where
/// none does.
pub open spec fn read_literal(s: Seq<char>) -> Option<(Seq<char>, Seq<char>)>
    decreases s.len(),
{
    if s.len() == 0 {
        None
    } else if s[0] == '\'' {
        if s.len() > 1 && s[1] == '\'' {
            match read_literal(s.skip(2)) {
                Some((inner, rest)) => Some((seq!['\''] + inner, rest)),
                None => None,
            }
        } else {
            Some((seq![], s.skip(1)))
        }
    } else {
        match read_literal(s.skip(1)) {
            Some((inner, rest)) => Some((seq![s[0]] + inner, rest)),
            None => None,
        }
    }
}

/// The statement that writes a compact copy of the database to `target`.
pub open spec fn vacuum_text(target: Seq<char>) -> Seq<char> {
    "VACUUM INTO '"@ + doubled(target) + "';"@
}

/// The statement that writes a compact copy of the database to `target`.
pub fn vacuum_sql(target: &str) -> (r: String)
    ensures
        r@ == vacuum_text(target@),
{
    let chars = text::characters(target);
    let mut out = "VACUUM INTO '".to_owned();
    let ghost head = out@;
    let mut i: usize = 0;
    assert(target@.skip(0) == target@);
    while i < chars.len()
        invariant
            chars@ == target@,
            0 <= i <= chars@.len(),
            out@ + doubled(target@.skip(i as int)) == head + doubled(target@),
        decreases chars@.len() - i,
    {
        let c: char = chars[i];
        let ghost rest = target@.skip(i as int);
        assert(rest[0] == c);
        assert(rest.skip(1) == target@.skip(i + 1));
        let ghost before = out@;
        if c == '\'' {
            out.push('\'');
        }
        out.push(c);
        assert(out@ + doubled(target@.skip(i + 1)) =~= before + doubled(rest));
        i += 1;
    }
    assert(out@ + doubled(target@.skip(i as int)) =~= out@);
    out.append("';");
    out
}

proof fn lemma_literal_reads_back(target: Seq<char>, rest: Seq<char>)
    requires
        rest.len() == 0 || rest[0] != '\'',
    ensures
        read_literal(doubled(target) + seq!['\''] + rest) == Some((target, rest)),
    decreases target.len(),
{
    let all = doubled(target) + seq!['\''] + rest;
    if target.len() == 0 {
        assert(all =~= seq!['\''] + rest);
        assert(all.skip(1) =~= rest);
        assert(target =~= Seq::<char>::empty());
    } else {
        lemma_literal_reads_back(target.skip(1), rest);
        let inner = doubled(target.skip(1)) + seq!['\''] + rest;
        if target[0] == '\'' {
            assert(all =~= seq!['\'', '\''] + inner);
            assert(all.skip(2) =~= inner);
        } else {
            assert(all =~= seq![target[0]] + inner);
            assert(all.skip(1) =~= inner);
        }
        assert(seq![target[0]] + target.skip(1) =~= target);
    }
}

/// Whatever quotes a path holds, the statement that copies the database names
/// that path and nothing else.
pub proof fn law_vacuum_names_its_target(target: Seq<char>)
    ensures
        vacuum_text(target).skip("VACUUM INTO '"@.len() as int) == doubled(target) + "';"@,
        read_literal(doubled(target) + "';"@) == Some((target, ";"@)),
{
    reveal_strlit("';");
    reveal_strlit(";");
    lemma_literal_reads_back(target, ";"@);
    assert("';"@ =~= seq!['\''] + ";"@);
    assert(doubled(target) + "';"@ =~= doubled(target) + seq!['\''] + ";"@);
    assert(vacuum_text(target).skip("VACUUM INTO '"@.len() as int) =~= doubled(target) + "';"@);
}

/// `std::io::Error`, held without looking inside.
#[verifier::external_type_specification]
#[verifier::external_body]
pub struct ExIoError(std::io::Error);

/// The frame that zstd makes of some bytes at a level (`zstd::encode_all`).
pub uninterp spec fn zstd_frame(raw: Seq<u8>, level: i32) -> Seq<u8>;

/// The BLAKE3 hash of some bytes (`blake3::hash`).
pub uninterp spec fn blake3_digest(bytes: Seq<u8>) -> Seq<u8>;

/// The bytes that every zstd frame starts with.
pub open spec fn zstd_magic() -> Seq<u8> {
    seq![0x28u8, 0xb5, 0x2f, 0xfd]
}

/// Whether `s` starts with `prefix`.
pub open spec fn starts_with(s: Seq<u8>, prefix: Seq<u8>) -> bool {
    s.len() >= prefix.len() && s.take(prefix.len() as int) == prefix
}

/// `zstd::encode_all` compresses its bytes at that level: what it gives is named
/// [`zstd_frame`] and starts with the format's magic number. It fails where the
/// memory runs out, so that it succeeds rests on the machine and is left unsaid.
#[verifier::external_body]
fn encode(raw: &[u8], level: i32) -> (r: Result<Vec<u8>, std::io::Error>)
    ensures
        r matches Ok(bytes) ==> bytes@ == zstd_frame(raw@, level),
        r matches Ok(bytes) ==> starts_with(bytes@, zstd_magic()),
{
    zstd::encode_all(raw, level)
}

/// `blake3::hash` depends on its bytes alone; the 32 bytes it gives are named
/// [`blake3_digest`].
#[verifier::external_body]
fn digest(bytes: &[u8]) -> (r: Vec<u8>)
    ensures
        r@ == blake3_digest(bytes@),
        r@.len() == 32,
{
    blake3::hash(bytes).as_bytes().to_vec()
}

/// The hexadecimal digit that stands for `d`, for `d` below sixteen.
pub open spec fn hex_digit(d: int) -> char {
    if d < 10 {
        (48 + d) as char
    } else {
        (87 + d) as char
    }
}

/// Some bytes in lowercase hexadecimal.
pub open spec fn lower_hex(bytes: Seq<u8>) -> Seq<char>
    decreases bytes.len(),
{
    if bytes.len() == 0 {
        seq![]
    } else {
        lower_hex(bytes.drop_last()).push(hex_digit(bytes.last() as int / 16)).push(
            hex_digit(bytes.last() as int % 16),
        )
    }
}

fn hex_char(d: u8) -> (r: char)
    requires
        d < 16,
    ensures
        r == hex_digit(d as int),
{
    if d < 10 {
        (48u8 + d) as char
    } else {
        (87u8 + d) as char
    }
}

/// Some bytes in lowercase hexadecimal.
pub fn hex_text(bytes: &Vec<u8>) -> (r: String)
    ensures
        r@ == lower_hex(bytes@),
{
    let mut out = String::new();
    let mut i: usize = 0;
    assert(bytes@.take(0) =~= Seq::<u8>::empty());
    while i < bytes.len()
        invariant
            0 <= i <= bytes@.len(),
            out@ == lower_hex(bytes@.take(i as int)),
        decreases bytes@.len() - i,
    {
        let b: u8 = bytes[i];
        assert(bytes@.take(i + 1).drop_last() == bytes@.take(i as int));
        assert(bytes@.take(i + 1).last() == b);
        out.push(hex_char(b / 16));
        out.push(hex_char(b % 16));
        i += 1;
    }
    assert(bytes@.take(bytes@.len() as int) == bytes@);
    out
}

/// A compressed snapshot with its checksum.
pub struct Artifact {
    pub bytes: Vec<u8>,
    /// The BLAKE3 hash of the bytes, in lowercase hexadecimal.
    pub checksum: String,
}

/// Why a snapshot was not sealed.
pub enum SealError {
    /// The compressor failed.
    Encode(std::io::Error),
}

/// Puts compressed bytes together with their checksum.
pub fn with_checksum(bytes: Vec<u8>) -> (r: Artifact)
    ensures
        r.bytes == bytes,
        r.checksum@ == lower_hex(blake3_digest(bytes@)),
        r.checksum@.len() == 64,
{
    let hash = digest(bytes.as_slice());
    let checksum = hex_text(&hash);
    proof {
        lemma_hex_len(hash@);
    }
    Artifact { bytes, checksum }
}

proof fn lemma_hex_len(bytes: Seq<u8>)
    ensures
        lower_hex(bytes).len() == 2 * bytes.len(),
    decreases bytes.len(),
{
    if bytes.len() > 0 {
        lemma_hex_len(bytes.drop_last());
    }
}

/// Makes the sealed snapshot of what the compressor gave: its bytes with their
/// checksum, or its error.
pub fn finish_seal(encoded: Result<Vec<u8>, std::io::Error>) -> (r: Result<Artifact, SealError>)
    ensures
        match encoded {
            Ok(bytes) => r matches Ok(a) && a.bytes == bytes && a.checksum@ == lower_hex(
                blake3_digest(bytes@),
            ) && a.checksum@.len() == 64,
            Err(e) => r == Err::<Artifact, SealError>(SealError::Encode(e)),
        },
{
    match encoded {
        Ok(bytes) => Ok(with_checksum(bytes)),
        Err(e) => Err(SealError::Encode(e)),
    }
}

/// Compresses a snapshot and puts it together with its checksum. Whether it can
/// rests with the compressor; [`finish_seal`] tells what is made of its outcome.
pub fn seal(raw: &Vec<u8>) -> (r: Result<Artifact, SealError>)
    ensures
        r matches Ok(a) ==> {
            &&& a.bytes@ == zstd_frame(raw@, SNAPSHOT_LEVEL)
            &&& a.checksum@ == lower_hex(blake3_digest(a.bytes@))
            &&& a.checksum@.len() == 64
            &&& a.bytes@.len() >= 16 ==> kind(head_of(a.bytes@)) is Compressed
        },
{
    let encoded = encode(raw.as_slice(), SNAPSHOT_LEVEL);
    proof {
        if encoded is Ok {
            let frame = encoded->Ok_0@;
            if frame.len() >= 16 {
                assert(head_of(frame).take(4) =~= frame.take(4));
            }
        }
    }
    finish_seal(encoded)
}

/// What a file is, by its first bytes.
#[derive(Debug, Clone, Copy, PartialEq, Eq, Structural)]
pub enum SnapshotKind {
    /// A zstd frame.
    Compressed,
    /// An SQLite database with a write-ahead log.
    RawWal,
    /// An SQLite database without one.
    Raw,
    /// Neither.
    Unknown,
}

/// The bytes that every SQLite database starts with: `SQLite format 3` and a zero.
pub open spec fn sqlite_magic() -> Seq<u8> {
    seq![
        0x53u8,
        0x51,
        0x4c,
        0x69,
        0x74,
        0x65,
        0x20,
        0x66,
        0x6f,
        0x72,
        0x6d,
        0x61,
        0x74,
        0x20,
        0x33,
        0x00,
    ]
}

/// How many of a file's first bytes are read: twenty, or all of a shorter file;
/// none of a file that is too short to be a snapshot.
pub open spec fn head_len(size: int) -> int {
    if size < 16 {
        0
    } else if size < 20 {
        size
    } else {
        20
    }
}

/// The bytes of a file that tell what it is.
pub open spec fn head_of(file: Seq<u8>) -> Seq<u8> {
    file.take(head_len(file.len() as int))
}

/// What a file is, by its first bytes. Byte 18 of an SQLite database tells
/// whether it has a write-ahead log.
pub open spec fn kind(head: Seq<u8>) -> SnapshotKind {
    if starts_with(head, zstd_magic()) {
        SnapshotKind::Compressed
    } else if starts_with(head, sqlite_magic()) {
        if head.len() >= 19 && head[18] == 2 {
            SnapshotKind::RawWal
        } else {
            SnapshotKind::Raw
        }
    } else {
        SnapshotKind::Unknown
    }
}

fn has_prefix(s: &Vec<u8>, prefix: &Vec<u8>) -> (r: bool)
    ensures
        r == starts_with(s@, prefix@),
{
    if s.len() < prefix.len() {
        return false;
    }
    let mut i: usize = 0;
    while i < prefix.len()
        invariant
            prefix@.len() <= s@.len(),
            0 <= i <= prefix@.len(),
            forall|j: int| 0 <= j < i ==> s@[j] == #[trigger] prefix@[j],
        decreases prefix@.len() - i,
    {
        if s[i] != prefix[i] {
            assert(s@.take(prefix@.len() as int)[i as int] != prefix@[i as int]);
            return false;
        }
        i += 1;
    }
    assert(s@.take(prefix@.len() as int) =~= prefix@);
    true
}

/// What a file is, by its first bytes.
pub fn classify(head: &Vec<u8>) -> (r: SnapshotKind)
    ensures
        r == kind(head@),
{
    let zstd: Vec<u8> = vec![0x28, 0xb5, 0x2f, 0xfd];
    assert(zstd@ =~= zstd_magic());
    let sqlite: Vec<u8> =
        vec![0x53, 0x51, 0x4c, 0x69, 0x74, 0x65, 0x20, 0x66, 0x6f, 0x72, 0x6d, 0x61, 0x74, 0x20, 0x33, 0x00];
    assert(sqlite@ =~= sqlite_magic());
    if has_prefix(head, &zstd) {
        SnapshotKind::Compressed
    } else if has_prefix(head, &sqlite) {
        if head.len() >= 19 && head[18] == 2 {
            SnapshotKind::RawWal
        } else {
            SnapshotKind::Raw
        }
    } else {
        SnapshotKind::Unknown
    }
}

/// What a snapshot does not carry is dropped: the vectors exactly where they do
/// not go along, and the cache of embeddings always, behind them.
pub proof fn law_snapshot_never_carries_the_cache()
    ensures
        cleanup_texts(true) == seq!["DROP TABLE IF EXISTS embedding_cache;"@],
        cleanup_texts(false) == seq!["DROP TABLE IF EXISTS node_vectors;"@] + cleanup_texts(true),
{
    assert(cleanup_texts(false) =~= seq!["DROP TABLE IF EXISTS node_vectors;"@] + cleanup_texts(
        true,
    ));
}

/// A snapshot records its commit, its time, both versions and whether the vectors
/// go along, each under its own key and in this order, and nothing else.
pub proof fn law_snapshot_records_where_it_came_from(order: SnapshotOrder)
    ensures
        ({
            let meta = recorded(order);
            &&& meta.len() == 5
            &&& meta[0].0 == MetaKey::SourceCommit && meta[0].1 == order.source_commit@
            &&& meta[1].0 == MetaKey::CreatedAt && meta[1].1 == text::signed_decimal(
                order.now as int,
            )
            &&& meta[2].0 == MetaKey::ToolVersion && meta[2].1 == order.tool_version@
            &&& meta[3].0 == MetaKey::SchemaVersion && meta[3].1 == text::signed_decimal(
                order.schema_version as int,
            )
            &&& meta[4].0 == MetaKey::IncludesVec
            &&& order.include_vec ==> meta[4].1 == "true"@
            &&& !order.include_vec ==> meta[4].1 == "false"@
        }),
{
}

/// The records with their texts are the records, each at its own position.
pub proof fn law_records_keep_their_positions(meta: Seq<(MetaKey, String)>, i: int)
    requires
        0 <= i < meta.len(),
    ensures
        meta_texts(meta).len() == meta.len(),
        meta_texts(meta)[i].0 == meta[i].0,
        meta_texts(meta)[i].1 == meta[i].1@,
{
}

/// Each quote of a text is doubled and every other character stays: two texts
/// together are doubled as each of them is.
pub proof fn law_quotes_are_doubled_one_by_one(a: Seq<char>, b: Seq<char>, c: char)
    ensures
        doubled(Seq::empty()) == Seq::<char>::empty(),
        c == '\'' ==> doubled(seq![c]) == seq!['\'', '\''],
        c != '\'' ==> doubled(seq![c]) == seq![c],
        doubled(a + b) == doubled(a) + doubled(b),
        vacuum_text(a) == "VACUUM INTO '"@ + doubled(a) + "';"@,
    decreases a.len(),
{
    let one = seq![c];
    assert(one.skip(1) =~= Seq::<char>::empty());
    assert(doubled(one.skip(1)) =~= Seq::<char>::empty());
    assert(c == '\'' ==> doubled(one) =~= seq!['\'', '\'']);
    assert(c != '\'' ==> doubled(one) =~= seq![c]);
    if a.len() == 0 {
        assert(a + b =~= b);
        assert(doubled(a) + doubled(b) =~= doubled(b));
    } else {
        law_quotes_are_doubled_one_by_one(a.skip(1), b, c);
        assert((a + b)[0] == a[0]);
        assert((a + b).skip(1) =~= a.skip(1) + b);
        assert(doubled(a + b) =~= doubled(a) + doubled(b));
    }
}

/// Bytes start with others exactly where they are those with something behind.
pub proof fn law_prefix_stands_at_the_start(s: Seq<u8>, prefix: Seq<u8>, rest: Seq<u8>)
    ensures
        starts_with(prefix + rest, prefix),
        starts_with(s, prefix) ==> s.len() >= prefix.len() && s == prefix + s.skip(
            prefix.len() as int,
        ),
{
    assert((prefix + rest).take(prefix.len() as int) =~= prefix);
    if starts_with(s, prefix) {
        assert(s =~= s.take(prefix.len() as int) + s.skip(prefix.len() as int));
    }
}

/// Each byte is two hexadecimal digits, that of its upper half in front.
pub proof fn law_hex_has_two_digits_for_each_byte(bytes: Seq<u8>, i: int)
    requires
        0 <= i < bytes.len(),
    ensures
        lower_hex(bytes).len() == 2 * bytes.len(),
        lower_hex(bytes)[2 * i] == "0123456789abcdef"@[bytes[i] as int / 16],
        lower_hex(bytes)[2 * i + 1] == "0123456789abcdef"@[bytes[i] as int % 16],
    decreases bytes.len(),
{
    reveal_strlit("0123456789abcdef");
    lemma_hex_len(bytes);
    lemma_hex_len(bytes.drop_last());
    if i < bytes.len() - 1 {
        law_hex_has_two_digits_for_each_byte(bytes.drop_last(), i);
    } else {
        let high = bytes[i] as int / 16;
        let low = bytes[i] as int % 16;
        assert(0 <= high < 16 && 0 <= low < 16);
        assert(hex_digit(high) == "0123456789abcdef"@[high]);
        assert(hex_digit(low) == "0123456789abcdef"@[low]);
    }
}

/// Twenty bytes tell what a file is, or all of them where it has fewer, but at
/// least sixteen.
pub proof fn law_head_is_at_most_twenty_bytes(file: Seq<u8>)
    ensures
        file.len() < 16 ==> head_of(file).len() == 0,
        16 <= file.len() <= 20 ==> head_of(file) == file,
        file.len() >= 20 ==> head_of(file) == file.take(20),
        head_len(file.len() as int) == head_of(file).len(),
{
    assert(16 <= file.len() <= 20 ==> head_of(file) =~= file);
}

/// A file is compressed exactly where it starts with the four bytes of zstd. It is
/// a database exactly where it starts with the name of the format and a zero, and
/// that has a write-ahead log exactly where its byte 18 is there and is two. Any
/// other file is unknown.
pub proof fn law_first_bytes_tell_the_kind(head: Seq<u8>)
    ensures
        ({
            let zstd = head.len() >= 4 && head[0] == 0x28 && head[1] == 0xb5 && head[2] == 0x2f
                && head[3] == 0xfd;
            let sqlite = head.len() >= 16 && head[15] == 0 && forall|i: int|
                0 <= i < 15 ==> (#[trigger] head[i]) as char == "SQLite format 3"@[i];
            let wal = head.len() >= 19 && head[18] == 2;
            &&& kind(head) is Compressed <==> zstd
            &&& kind(head) is RawWal <==> sqlite && wal
            &&& kind(head) is Raw <==> sqlite && !wal
            &&& kind(head) is Unknown <==> !zstd && !sqlite
        }),
{
    reveal_strlit("SQLite format 3");
    let magic = sqlite_magic();
    let name = "SQLite format 3"@;
    assert(name.len() == 15);
    if starts_with(head, zstd_magic()) {
        let start = head.take(4);
        assert(start[0] == head[0] && start[1] == head[1] && start[2] == head[2] && start[3]
            == head[3]);
    }
    if head.len() >= 4 && head[0] == 0x28 && head[1] == 0xb5 && head[2] == 0x2f && head[3] == 0xfd {
        assert(head.take(4) =~= zstd_magic());
    }
    assert forall|i: int| 0 <= i < 15 implies (#[trigger] magic[i]) as char == name[i] by {}
    if starts_with(head, magic) {
        assert forall|i: int| 0 <= i < 15 implies (#[trigger] head[i]) as char == name[i] by {
            assert(head.take(16)[i] == head[i]);
            assert(magic[i] as char == name[i]);
        }
        assert(head.take(16)[15] == head[15]);
    }
    if head.len() >= 16 && head[15] == 0 && forall|i: int|
        0 <= i < 15 ==> (#[trigger] head[i]) as char == name[i] {
        assert forall|i: int| 0 <= i < 16 implies head.take(16)[i] == #[trigger] magic[i] by {
            if i < 15 {
                assert(head[i] as char == name[i]);
                assert(magic[i] as char == name[i]);
            }
        }
        assert(head.take(16) =~= magic);
        assert(head[0] as char == name[0]);
    }
}

/// Snapshots are compressed at level nine, may unfold to a hundred times 1024 times
/// 1024 bytes, and are worked on by these statements.
pub proof fn law_snapshots_are_made_by_these_statements()
    ensures
        SNAPSHOT_LEVEL == 9,
        MAX_DECOMPRESSED_BYTES == 100 * 1024 * 1024,
        MERGE_LOG_SQL@ == "PRAGMA journal_mode = DELETE;"@,
        NO_MMAP_SQL@ == "PRAGMA mmap_size = 0;"@,
        META_PROBE@ == "SELECT COUNT(*) FROM sqlite_master WHERE type='table' AND name='meta'"@,
{
}

} // verus!
