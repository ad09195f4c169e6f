//! Reading what a snapshot says about itself. An inspection asks for one thing
//! after the other, takes what was seen, and ends with the snapshot's record or
//! with the reason why the file is none.

use crate::snapshot;
use crate::snapshot::MetaKey;
use crate::snapshot::SnapshotKind;
use crate::snapshot::SnapshotOrder;
use crate::text;
use vstd::prelude::*;

verus! {

/// What a snapshot says about itself.
pub struct SnapshotMeta {
    pub source_commit: String,
    pub source_url: Option<String>,
    pub created_at: i64,
    pub tool_version: String,
    pub schema_version: i32,
    pub includes_vec: bool,
    pub fetched_at: Option<i64>,
    pub node_count: i64,
    pub edge_count: i64,
    pub file_size_bytes: u64,
}

/// What tells a snapshot from any other database.
pub struct Identity {
    pub source_commit: String,
    pub source_url: Option<String>,
    pub created_at: i64,
    pub tool_version: String,
    pub schema_version: i32,
}

/// The content of an [`Identity`].
pub struct IdentityView {
    pub source_commit: Seq<char>,
    pub source_url: Option<Seq<char>>,
    pub created_at: int,
    pub tool_version: Seq<char>,
    pub schema_version: int,
}

/// The content of a [`SnapshotMeta`].
pub struct SnapshotMetaView {
    pub identity: IdentityView,
    pub includes_vec: bool,
    pub fetched_at: Option<int>,
    pub node_count: int,
    pub edge_count: int,
    pub file_size_bytes: int,
}

impl View for Identity {
    type V = IdentityView;

    open spec fn view(&self) -> IdentityView {
        IdentityView {
            source_commit: self.source_commit@,
            source_url: text::optional_text(self.source_url),
            created_at: self.created_at as int,
            tool_version: self.tool_version@,
            schema_version: self.schema_version as int,
        }
    }
}

impl View for SnapshotMeta {
    type V = SnapshotMetaView;

    open spec fn view(&self) -> SnapshotMetaView {
        SnapshotMetaView {
            identity: IdentityView {
                source_commit: self.source_commit@,
                source_url: text::optional_text(self.source_url),
                created_at: self.created_at as int,
                tool_version: self.tool_version@,
                schema_version: self.schema_version as int,
            },
            includes_vec: self.includes_vec,
            fetched_at: match self.fetched_at {
                Some(t) => Some(t as int),
                None => None,
            },
            node_count: self.node_count as int,
            edge_count: self.edge_count as int,
            file_size_bytes: self.file_size_bytes as int,
        }
    }
}

/// The records that identify a snapshot, as the database holds them.
pub struct IdentityRows {
    pub source_commit: Option<String>,
    pub source_url: Option<String>,
    pub created_at: Option<String>,
    pub tool_version: Option<String>,
    pub schema_version: Option<String>,
}

/// The other records of a snapshot, as the database holds them, and how many
/// symbols and edges it has, where they could be counted.
pub struct DetailRows {
    pub includes_vec: Option<String>,
    pub fetched_at: Option<String>,
    pub node_count: Option<i64>,
    pub edge_count: Option<i64>,
}

/// A text, or the empty one where there is none.
pub open spec fn text_or_empty(s: Option<String>) -> Seq<char> {
    match s {
        Some(t) => t@,
        None => seq![],
    }
}

/// The integer between `low` and `high` that a record spells, if it does.
pub open spec fn recorded_integer(s: Option<String>, low: int, high: int) -> Option<int> {
    match s {
        Some(t) => text::spelled_within(t@, low, high),
        None => None,
    }
}

/// A number, or zero where there is none.
pub open spec fn or_zero(n: Option<int>) -> int {
    match n {
        Some(v) => v,
        None => 0,
    }
}

/// What the records say, whether or not they are those of a snapshot.
pub open spec fn claimed(rows: IdentityRows) -> IdentityView {
    IdentityView {
        source_commit: text_or_empty(rows.source_commit),
        source_url: text::optional_text(rows.source_url),
        created_at: or_zero(recorded_integer(rows.created_at, i64::MIN as int, i64::MAX as int)),
        tool_version: text_or_empty(rows.tool_version),
        schema_version: or_zero(
            recorded_integer(rows.schema_version, i32::MIN as int, i32::MAX as int),
        ),
    }
}

/// Whether records are those of a snapshot. A database that holds none of a
/// snapshot's records has no schema version, no commit and no tool version.
pub open spec fn is_genuine(id: IdentityView) -> bool {
    id.schema_version != 0 || id.source_commit.len() > 0 || id.tool_version.len() > 0
}

/// What the records of a snapshot say; nothing where they are not those of one.
pub open spec fn identified(rows: IdentityRows) -> Option<IdentityView> {
    if is_genuine(claimed(rows)) {
        Some(claimed(rows))
    } else {
        None
    }
}

/// What a snapshot says about itself, all in all.
pub open spec fn described(size: int, id: IdentityView, rows: DetailRows) -> SnapshotMetaView {
    SnapshotMetaView {
        identity: id,
        includes_vec: text::optional_text(rows.includes_vec) == Some("true"@),
        fetched_at: recorded_integer(rows.fetched_at, i64::MIN as int, i64::MAX as int),
        node_count: match rows.node_count {
            Some(n) => n as int,
            None => 0,
        },
        edge_count: match rows.edge_count {
            Some(n) => n as int,
            None => 0,
        },
        file_size_bytes: size,
    }
}

/// Why a file is no snapshot.
#[derive(Debug, Clone, Copy, PartialEq, Eq, Structural)]
pub enum InspectError {
    /// The file has neither of the two formats.
    NotASnapshot,
    /// The file has the format of one, but not the records.
    Unreadable,
}

impl InspectError {
    /// The sentence that tells of the error, for the file of that name.
    pub open spec fn message_text(self, file: Seq<char>) -> Seq<char> {
        match self {
            InspectError::NotASnapshot => file
                + " is not a code-graph snapshot — expected zstd-compressed (.db.zst) or raw SQLite (.db)"@,
            InspectError::Unreadable => file
                + " is not a valid code-graph snapshot — meta is missing or unreadable (file may be truncated or corrupt)"@,
        }
    }

    /// The sentence that tells of the error, for the file of that name.
    pub fn message(&self, file: &str) -> (r: String)
        ensures
            r@ == self.message_text(file@),
    {
        let mut out = file.to_owned();
        match self {
            InspectError::NotASnapshot => {
                out.append(
                    " is not a code-graph snapshot — expected zstd-compressed (.db.zst) or raw SQLite (.db)",
                );
            },
            InspectError::Unreadable => {
                out.append(
                    " is not a valid code-graph snapshot — meta is missing or unreadable (file may be truncated or corrupt)",
                );
            },
        }
        out
    }
}

/// How the database of a snapshot is to be opened.
#[derive(Debug, Clone, Copy, PartialEq, Eq, Structural)]
pub enum Access {
    /// Unfold the file into a temporary one of at most that many bytes, and open
    /// that.
    Decompress { cap: u64 },
    /// Copy the file to a temporary one, and open that.
    StageCopy,
    /// Open the file itself, for reading only.
    InPlace,
}

/// What an inspection asks for next, with what it knows so far.
pub enum Stage {
    /// The size of the file.
    Size,
    /// The first `want` bytes of the file.
    Head { size: u64, want: usize },
    /// That the database be opened.
    Open { size: u64, access: Access },
    /// How many tables are called `meta`.
    Probe { size: u64, in_place: bool },
    /// The records that identify a snapshot.
    Records { size: u64 },
    /// The other records, and the counts.
    Details { size: u64, identity: Identity },
    /// Nothing more.
    Done(Result<SnapshotMeta, InspectError>),
}

/// What was seen.
pub enum Observation {
    Size(u64),
    Head(Vec<u8>),
    Opened,
    /// How many tables are called `meta`; nothing where the database could not
    /// be read.
    Probed(Option<i64>),
    Records(IdentityRows),
    Details(DetailRows),
}

/// An inspection under way.
pub struct Inspection {
    /// The name of the file.
    pub file: String,
    /// How many bytes a compressed file may unfold to.
    pub cap: u64,
    pub stage: Stage,
}

/// Whether an inspection at that stage can make use of what was seen.
pub open spec fn awaits(stage: Stage, seen: Observation) -> bool {
    match (stage, seen) {
        (Stage::Size, Observation::Size(_)) => true,
        (Stage::Head { size, want }, Observation::Head(bytes)) => bytes@.len() == want,
        (Stage::Open { size, access }, Observation::Opened) => true,
        (Stage::Probe { size, in_place }, Observation::Probed(_)) => true,
        (Stage::Records { size }, Observation::Records(_)) => true,
        (Stage::Details { size, identity }, Observation::Details(_)) => true,
        _ => false,
    }
}

/// How a file of that kind is opened, if it is one that can be.
pub open spec fn access_for(what: SnapshotKind, cap: u64) -> Option<Access> {
    match what {
        SnapshotKind::Compressed => Some(Access::Decompress { cap }),
        SnapshotKind::RawWal => Some(Access::StageCopy),
        SnapshotKind::Raw => Some(Access::InPlace),
        SnapshotKind::Unknown => None,
    }
}

/// Whether `after` is where an inspection stands that was at `before` and has
/// seen `seen`.
pub open spec fn follows(before: Stage, seen: Observation, cap: u64, after: Stage) -> bool {
    match (before, seen) {
        (Stage::Size, Observation::Size(n)) => if n < 16 {
            after == Stage::Done(Err(InspectError::NotASnapshot))
        } else {
            after == (Stage::Head { size: n, want: snapshot::head_len(n as int) as usize })
        },
        (Stage::Head { size, want }, Observation::Head(bytes)) => match access_for(
            snapshot::kind(bytes@),
            cap,
        ) {
            Some(access) => after == (Stage::Open { size, access }),
            None => after == Stage::Done(Err(InspectError::NotASnapshot)),
        },
        (Stage::Open { size, access }, Observation::Opened) => after == (Stage::Probe {
            size,
            in_place: access is InPlace,
        }),
        (Stage::Probe { size, in_place }, Observation::Probed(found)) => match found {
            Some(n) => if n > 0 {
                after == (Stage::Records { size })
            } else {
                after == Stage::Done(Err(InspectError::Unreadable))
            },
            None => if in_place {
                after == (Stage::Open { size, access: Access::StageCopy })
            } else {
                after == Stage::Done(Err(InspectError::Unreadable))
            },
        },
        (Stage::Records { size }, Observation::Records(rows)) => match identified(rows) {
            Some(id) => after matches Stage::Details { size: same, identity } && same == size
                && identity@ == id,
            None => after == Stage::Done(Err(InspectError::Unreadable)),
        },
        (Stage::Details { size, identity }, Observation::Details(rows)) => after matches Stage::Done(
            Ok(meta),
        ) && meta@ == described(size as int, identity@, rows),
        _ => false,
    }
}

/// Starts the inspection of a file. A compressed one may unfold to as many bytes
/// as an installed snapshot may.
pub fn inspect(file: &str) -> (r: Inspection)
    ensures
        r.wf(),
        r.file@ == file@,
        r.cap == snapshot::MAX_DECOMPRESSED_BYTES,
        r.stage is Size,
{
    inspect_with_cap(file, snapshot::MAX_DECOMPRESSED_BYTES)
}

/// Starts the inspection of a file that may unfold to `cap` bytes.
pub fn inspect_with_cap(file: &str, cap: u64) -> (r: Inspection)
    ensures
        r.wf(),
        r.file@ == file@,
        r.cap == cap,
        r.stage is Size,
{
    Inspection { file: file.to_owned(), cap, stage: Stage::Size }
}

fn text_or_nothing(s: Option<String>) -> (r: String)
    ensures
        r@ == text_or_empty(s),
{
    match s {
        Some(t) => t,
        None => String::new(),
    }
}

fn read_records(rows: IdentityRows) -> (r: Option<Identity>)
    ensures
        match r {
            Some(id) => identified(rows) == Some(id@),
            None => identified(rows) is None,
        },
{
    let created_at: i64 = match &rows.created_at {
        Some(s) => match text::read_i64(s.as_str()) {
            Some(n) => n,
            None => 0,
        },
        None => 0,
    };
    let schema_version: i32 = match &rows.schema_version {
        Some(s) => match text::read_i32(s.as_str()) {
            Some(n) => n,
            None => 0,
        },
        None => 0,
    };
    let source_commit = text_or_nothing(rows.source_commit);
    let tool_version = text_or_nothing(rows.tool_version);
    if schema_version == 0 && source_commit.as_str().is_empty() && tool_version.as_str().is_empty() {
        return None;
    }
    Some(
        Identity {
            source_commit,
            source_url: rows.source_url,
            created_at,
            tool_version,
            schema_version,
        },
    )
}

fn describe(size: u64, id: Identity, rows: DetailRows) -> (r: SnapshotMeta)
    ensures
        r@ == described(size as int, id@, rows),
{
    let includes_vec = match &rows.includes_vec {
        Some(s) => text::same_text(s.as_str(), "true"),
        None => false,
    };
    let fetched_at: Option<i64> = match &rows.fetched_at {
        Some(s) => text::read_i64(s.as_str()),
        None => None,
    };
    let node_count: i64 = match rows.node_count {
        Some(n) => n,
        None => 0,
    };
    let edge_count: i64 = match rows.edge_count {
        Some(n) => n,
        None => 0,
    };
    SnapshotMeta {
        source_commit: id.source_commit,
        source_url: id.source_url,
        created_at: id.created_at,
        tool_version: id.tool_version,
        schema_version: id.schema_version,
        includes_vec,
        fetched_at,
        node_count,
        edge_count,
        file_size_bytes: size,
    }
}

impl Inspection {
    /// Whether what the inspection goes by, or ends with, are the records of a
    /// snapshot, and the number of bytes it asks for is the one its file has.
    pub open spec fn wf(self) -> bool {
        match self.stage {
            Stage::Head { size, want } => size >= 16 && want == snapshot::head_len(size as int),
            Stage::Details { size, identity } => is_genuine(identity@),
            Stage::Done(Ok(meta)) => is_genuine(meta@.identity),
            _ => true,
        }
    }

    /// Takes what was seen.
    pub fn advance(self, seen: Observation) -> (r: Inspection)
        requires
            self.wf(),
            awaits(self.stage, seen),
        ensures
            r.wf(),
            r.file == self.file,
            r.cap == self.cap,
            follows(self.stage, seen, self.cap, r.stage),
    {
        let Inspection { file, cap, stage } = self;
        let next = match (stage, seen) {
            (Stage::Size, Observation::Size(n)) => {
                if n < 16 {
                    Stage::Done(Err(InspectError::NotASnapshot))
                } else if n < 20 {
                    Stage::Head { size: n, want: n as usize }
                } else {
                    Stage::Head { size: n, want: 20 }
                }
            },
            (Stage::Head { size, want }, Observation::Head(bytes)) => match snapshot::classify(
                &bytes,
            ) {
                SnapshotKind::Compressed => Stage::Open { size, access: Access::Decompress { cap } },
                SnapshotKind::RawWal => Stage::Open { size, access: Access::StageCopy },
                SnapshotKind::Raw => Stage::Open { size, access: Access::InPlace },
                SnapshotKind::Unknown => Stage::Done(Err(InspectError::NotASnapshot)),
            },
            (Stage::Open { size, access }, Observation::Opened) => {
                let in_place = match access {
                    Access::InPlace => true,
                    _ => false,
                };
                Stage::Probe { size, in_place }
            },
            (Stage::Probe { size, in_place }, Observation::Probed(found)) => match found {
                Some(n) => if n > 0 {
                    Stage::Records { size }
                } else {
                    Stage::Done(Err(InspectError::Unreadable))
                },
                None => if in_place {
                    Stage::Open { size, access: Access::StageCopy }
                } else {
                    Stage::Done(Err(InspectError::Unreadable))
                },
            },
            (Stage::Records { size }, Observation::Records(rows)) => match read_records(rows) {
                Some(identity) => Stage::Details { size, identity },
                None => Stage::Done(Err(InspectError::Unreadable)),
            },
            (Stage::Details { size, identity }, Observation::Details(rows)) => Stage::Done(
                Ok(describe(size, identity, rows)),
            ),
            (stage, _) => stage,
        };
        Inspection { file, cap, stage: next }
    }
}

/// How many more things an inspection can ask for at most.
pub open spec fn steps_left(stage: Stage) -> nat {
    match stage {
        Stage::Size => 8,
        Stage::Head { .. } => 7,
        Stage::Open { size, access: Access::InPlace } => 6,
        Stage::Probe { size, in_place: true } => 5,
        Stage::Open { .. } => 4,
        Stage::Probe { .. } => 3,
        Stage::Records { .. } => 2,
        Stage::Details { .. } => 1,
        Stage::Done(_) => 0,
    }
}

/// Every inspection ends: each observation brings it closer to its end.
pub proof fn law_inspection_ends(before: Stage, seen: Observation, cap: u64, after: Stage)
    requires
        follows(before, seen, cap, after),
    ensures
        steps_left(after) < steps_left(before),
{
}

/// The file itself is opened only where it is a database without a write-ahead
/// log, and only before anything else was opened; a compressed file is unfolded
/// up to the cap and no further, and no other file is unfolded.
pub proof fn law_access_fits_the_file(before: Stage, seen: Observation, cap: u64, after: Stage)
    requires
        follows(before, seen, cap, after),
    ensures
        after matches Stage::Open { size, access } ==> {
            &&& access is InPlace <==> (seen matches Observation::Head(bytes) && snapshot::kind(
                bytes@,
            ) is Raw)
            &&& access is Decompress <==> (seen matches Observation::Head(bytes) && snapshot::kind(
                bytes@,
            ) is Compressed)
            &&& access matches Access::Decompress { cap: limit } ==> limit == cap
        },
{
}

/// A stage with another cap, where it has one.
pub open spec fn recapped(stage: Stage, cap: u64) -> Stage {
    match stage {
        Stage::Open { size, access: Access::Decompress { .. } } => Stage::Open {
            size,
            access: Access::Decompress { cap },
        },
        _ => stage,
    }
}

/// Whether these bytes are seen to be the head of a compressed file.
pub open spec fn shows_compressed(seen: Observation) -> bool {
    seen matches Observation::Head(bytes) && snapshot::kind(bytes@) is Compressed
}

/// Whatever is seen, unless it is the head of a compressed file, leads to the same
/// stage under every cap.
pub proof fn law_cap_concerns_compressed_files_alone(
    before: Stage,
    seen: Observation,
    cap: u64,
    other: u64,
    after: Stage,
)
    requires
        follows(before, seen, cap, after),
        !shows_compressed(seen),
    ensures
        follows(before, seen, other, after),
{
}

/// Whether an inspection under that cap goes through these stages when it sees
/// these things.
pub open spec fn is_run(cap: u64, stages: Seq<Stage>, seen: Seq<Observation>) -> bool {
    &&& stages.len() == seen.len() + 1
    &&& stages[0] is Size
    &&& forall|i: int|
        0 <= i < seen.len() ==> follows(stages[i], #[trigger] seen[i], cap, stages[i + 1])
}

/// A cap is for compressed files alone: any other file is inspected in the same
/// way, and with the same result, under every cap.
pub proof fn law_raw_file_is_not_capped(
    cap: u64,
    other: u64,
    stages: Seq<Stage>,
    seen: Seq<Observation>,
)
    requires
        is_run(cap, stages, seen),
        forall|i: int| 0 <= i < seen.len() ==> !shows_compressed(#[trigger] seen[i]),
    ensures
        is_run(other, stages, seen),
{
    assert forall|i: int| 0 <= i < seen.len() implies follows(
        stages[i],
        #[trigger] seen[i],
        other,
        stages[i + 1],
    ) by {
        law_cap_concerns_compressed_files_alone(stages[i], seen[i], cap, other, stages[i + 1]);
    }
}

/// A cap reaches the unfolding of a compressed file and nothing else: an
/// inspection that sees the same things under another cap goes through the same
/// stages, but for the cap that it hands on, and ends with the same result.
pub proof fn law_cap_only_bounds_the_unfolding(
    cap: u64,
    other: u64,
    stages: Seq<Stage>,
    seen: Seq<Observation>,
)
    requires
        is_run(cap, stages, seen),
    ensures
        is_run(other, stages.map_values(|s: Stage| recapped(s, other)), seen),
        stages.last() is Done ==> recapped(stages.last(), other) == stages.last(),
{
    let again = stages.map_values(|s: Stage| recapped(s, other));
    assert forall|i: int| 0 <= i < seen.len() implies follows(
        again[i],
        #[trigger] seen[i],
        other,
        again[i + 1],
    ) by {
        assert(follows(stages[i], seen[i], cap, stages[i + 1]));
        assert(again[i] == recapped(stages[i], other));
        assert(again[i + 1] == recapped(stages[i + 1], other));
    }
}

/// A database that cannot be read where it lies is copied and tried once more; one
/// that cannot be read as a copy is called unreadable, as is one without a table
/// for its records, however it was opened.
pub proof fn law_unreadable_in_place_is_tried_as_a_copy(
    size: u64,
    in_place: bool,
    found: Option<i64>,
    cap: u64,
    after: Stage,
)
    requires
        follows(Stage::Probe { size, in_place }, Observation::Probed(found), cap, after),
    ensures
        found is None && in_place ==> after == (Stage::Open { size, access: Access::StageCopy }),
        found is None && !in_place ==> after == Stage::Done(Err(InspectError::Unreadable)),
        found matches Some(n) ==> n <= 0 ==> after == Stage::Done(Err(InspectError::Unreadable)),
        found matches Some(n) ==> n > 0 ==> after == (Stage::Records { size }),
{
}

/// The text that is recorded under `key`, if any.
pub open spec fn record(meta: Seq<(MetaKey, Seq<char>)>, key: MetaKey) -> Option<Seq<char>>
    decreases meta.len(),
{
    if meta.len() == 0 {
        None
    } else if meta.last().0 == key {
        Some(meta.last().1)
    } else {
        record(meta.drop_last(), key)
    }
}

/// Whether the records that are read are those that were written.
pub open spec fn holds_records(
    rows: IdentityRows,
    details: DetailRows,
    meta: Seq<(MetaKey, Seq<char>)>,
) -> bool {
    &&& text::optional_text(rows.source_commit) == record(meta, MetaKey::SourceCommit)
    &&& text::optional_text(rows.source_url) == record(meta, MetaKey::SourceUrl)
    &&& text::optional_text(rows.created_at) == record(meta, MetaKey::CreatedAt)
    &&& text::optional_text(rows.tool_version) == record(meta, MetaKey::ToolVersion)
    &&& text::optional_text(rows.schema_version) == record(meta, MetaKey::SchemaVersion)
    &&& text::optional_text(details.includes_vec) == record(meta, MetaKey::IncludesVec)
    &&& text::optional_text(details.fetched_at) == record(meta, MetaKey::FetchedAt)
}

/// An inspection gives back what the making of a snapshot recorded: the commit,
/// the time, the versions and whether the vectors went along; and no address and
/// no time of a download. It holds unless the snapshot was made with schema
/// version zero, no commit and no tool version.
pub proof fn law_inspection_reads_back_what_was_recorded(
    order: SnapshotOrder,
    rows: IdentityRows,
    details: DetailRows,
    size: int,
)
    requires
        holds_records(rows, details, snapshot::recorded(order)),
        order.schema_version != 0 || order.source_commit@.len() > 0 || order.tool_version@.len()
            > 0,
    ensures
        identified(rows) == Some(
            IdentityView {
                source_commit: order.source_commit@,
                source_url: None,
                created_at: order.now as int,
                tool_version: order.tool_version@,
                schema_version: order.schema_version as int,
            },
        ),
        described(size, claimed(rows), details).includes_vec == order.include_vec,
        described(size, claimed(rows), details).fetched_at is None,
        described(size, claimed(rows), details).file_size_bytes == size,
{
    let meta = snapshot::recorded(order);
    reveal_with_fuel(record, 6);
    text::law_numeral_reads_back(order.now as int);
    text::law_numeral_reads_back(order.schema_version as int);
    reveal_strlit("true");
    reveal_strlit("false");
    assert("true"@.len() != "false"@.len());
}

/// The sentence that tells of an error names the file and what is amiss with it.
pub proof fn law_error_names_the_file(file: Seq<char>)
    ensures
        InspectError::NotASnapshot.message_text(file) == file
            + " is not a code-graph snapshot — expected zstd-compressed (.db.zst) or raw SQLite (.db)"@,
        InspectError::Unreadable.message_text(file) == file
            + " is not a valid code-graph snapshot — meta is missing or unreadable (file may be truncated or corrupt)"@,
{
}

/// A file below sixteen bytes is no snapshot; of any other the first twenty bytes
/// are asked for, or all there are.
pub proof fn law_small_file_is_no_snapshot(n: u64, cap: u64, after: Stage)
    requires
        follows(Stage::Size, Observation::Size(n), cap, after),
    ensures
        n < 16 ==> after == Stage::Done(Err(InspectError::NotASnapshot)),
        16 <= n <= 20 ==> after == (Stage::Head { size: n, want: n as usize }),
        n >= 20 ==> after == (Stage::Head { size: n, want: 20 }),
{
}

/// A file is opened by its kind: a compressed one unfolded up to the cap, a
/// database with a write-ahead log as a copy, one without in place, and any other
/// file not at all. What was opened is then asked for its table of records, and
/// whether that was the file itself is kept.
pub proof fn law_file_is_opened_by_its_kind(
    size: u64,
    want: usize,
    bytes: Vec<u8>,
    cap: u64,
    after: Stage,
    access: Access,
    later: Stage,
)
    requires
        follows(Stage::Head { size, want }, Observation::Head(bytes), cap, after),
        follows(Stage::Open { size, access }, Observation::Opened, cap, later),
    ensures
        snapshot::kind(bytes@) is Compressed ==> after == (Stage::Open {
            size,
            access: Access::Decompress { cap },
        }),
        snapshot::kind(bytes@) is RawWal ==> after == (Stage::Open {
            size,
            access: Access::StageCopy,
        }),
        snapshot::kind(bytes@) is Raw ==> after == (Stage::Open { size, access: Access::InPlace }),
        snapshot::kind(bytes@) is Unknown ==> after == Stage::Done(Err(InspectError::NotASnapshot)),
        later == (Stage::Probe { size, in_place: access == Access::InPlace }),
{
}

/// Whether `n` is what a record spells: zero where there is no record, where it
/// spells no integer, and where that does not lie between `low` and `high`.
pub open spec fn reads_as(record: Option<String>, low: int, high: int, n: int) -> bool {
    match record {
        Some(s) => match text::spelled_integer(s@) {
            Some(v) => if low <= v && v <= high {
                n == v
            } else {
                n == 0
            },
            None => n == 0,
        },
        None => n == 0,
    }
}

/// Records are refused exactly where they hold no commit, no tool version and no
/// schema version other than zero; else they are kept as they are read: the texts
/// as they stand, empty where a commit or a tool version is missing, and the
/// address exactly where there is one.
pub proof fn law_records_are_kept_as_they_stand(
    size: u64,
    rows: IdentityRows,
    cap: u64,
    after: Stage,
    schema: int,
)
    requires
        follows(Stage::Records { size }, Observation::Records(rows), cap, after),
        reads_as(rows.schema_version, i32::MIN as int, i32::MAX as int, schema),
    ensures
        ({
            let no_commit = rows.source_commit matches Some(s) ==> s@.len() == 0;
            let no_tool = rows.tool_version matches Some(s) ==> s@.len() == 0;
            &&& schema == 0 && no_commit && no_tool ==> after == Stage::Done(
                Err(InspectError::Unreadable),
            )
            &&& !(schema == 0 && no_commit && no_tool) ==> after is Details
            &&& after matches Stage::Details { size: same, identity } ==> {
                &&& same == size
                &&& rows.source_commit matches Some(s) ==> identity.source_commit@ == s@
                &&& rows.source_commit is None ==> identity.source_commit@.len() == 0
                &&& rows.tool_version matches Some(s) ==> identity.tool_version@ == s@
                &&& rows.tool_version is None ==> identity.tool_version@.len() == 0
                &&& rows.source_url is Some <==> identity.source_url is Some
                &&& rows.source_url matches Some(s) ==> identity.source_url->0@ == s@
                &&& reads_as(
                    rows.created_at,
                    i64::MIN as int,
                    i64::MAX as int,
                    identity.created_at as int,
                )
                &&& identity.schema_version == schema
            }
        }),
{
    if let Stage::Details { size: same, identity } = after {
        assert(identity@ == claimed(rows));
        assert(identity@.source_url == text::optional_text(rows.source_url));
        assert(text::optional_text(identity.source_url) == text::optional_text(rows.source_url));
    }
}

/// The last step keeps all that identifies the snapshot and the size of its file,
/// and adds the rest: vectors went along exactly where the record says `true`; the
/// time of a download is known exactly where the record spells one; and a count
/// that could not be made is zero.
pub proof fn law_details_are_added_to_the_identity(
    size: u64,
    identity: Identity,
    rows: DetailRows,
    cap: u64,
    after: Stage,
)
    requires
        follows(Stage::Details { size, identity }, Observation::Details(rows), cap, after),
    ensures
        after matches Stage::Done(Ok(meta)) && {
            &&& meta.source_commit@ == identity.source_commit@
            &&& meta.source_url is Some <==> identity.source_url is Some
            &&& identity.source_url matches Some(s) ==> meta.source_url->0@ == s@
            &&& meta.created_at == identity.created_at
            &&& meta.tool_version@ == identity.tool_version@
            &&& meta.schema_version == identity.schema_version
            &&& meta.includes_vec <==> (rows.includes_vec matches Some(s) && s@ == "true"@)
            &&& meta.fetched_at matches Some(t) ==> (rows.fetched_at matches Some(s)
                && text::spelled_integer(s@) == Some(t as int))
            &&& rows.fetched_at matches Some(s) ==> (text::spelled_integer(s@) matches Some(t) ==> (
            i64::MIN <= t <= i64::MAX ==> meta.fetched_at == Some(t as i64)))
            &&& rows.node_count matches Some(n) ==> meta.node_count == n
            &&& rows.node_count is None ==> meta.node_count == 0
            &&& rows.edge_count matches Some(n) ==> meta.edge_count == n
            &&& rows.edge_count is None ==> meta.edge_count == 0
            &&& meta.file_size_bytes == size
        },
{
    if let Stage::Done(Ok(meta)) = after {
        let said = described(size as int, identity@, rows);
        assert(meta@ == said);
        assert(meta@.identity == identity@);
        assert(text::optional_text(meta.source_url) == text::optional_text(identity.source_url));
        assert(meta@.fetched_at == said.fetched_at);
    }
}

/// The size that a stage goes by, where it goes by one.
pub open spec fn size_at(stage: Stage) -> Option<u64> {
    match stage {
        Stage::Head { size, .. } => Some(size),
        Stage::Open { size, .. } => Some(size),
        Stage::Probe { size, .. } => Some(size),
        Stage::Records { size } => Some(size),
        Stage::Details { size, .. } => Some(size),
        _ => None,
    }
}

proof fn lemma_size_is_kept(cap: u64, stages: Seq<Stage>, seen: Seq<Observation>, n: u64, i: int)
    requires
        is_run(cap, stages, seen),
        seen.len() > 0,
        seen[0] == Observation::Size(n),
        1 <= i < stages.len(),
    ensures
        size_at(stages[i]) is Some ==> size_at(stages[i]) == Some(n),
        stages[i] !is Size,
    decreases i,
{
    assert(follows(stages[i - 1], seen[i - 1], cap, stages[i - 1 + 1]));
    if i > 1 {
        lemma_size_is_kept(cap, stages, seen, n, i - 1);
    }
}

/// Whatever a file holds, an inspection that ends with a record of it has seen the
/// size of the file and, last, its records; and it reports these: the size, the
/// commit and the tool version, the address of the download exactly where one is
/// recorded, the times and the schema version that the records spell, and whether
/// vectors went along.
pub proof fn law_inspection_reports_what_it_saw(
    cap: u64,
    stages: Seq<Stage>,
    seen: Seq<Observation>,
    meta: SnapshotMeta,
)
    requires
        is_run(cap, stages, seen),
        stages.last() == Stage::Done(Ok(meta)),
    ensures
        seen.len() >= 3,
        seen[0] matches Observation::Size(n) && meta.file_size_bytes == n,
        seen[seen.len() - 2] is Records && seen[seen.len() - 1] is Details,
        ({
            let rows = seen[seen.len() - 2]->Records_0;
            let more = seen[seen.len() - 1]->Details_0;
            &&& rows.source_url is Some <==> meta.source_url is Some
            &&& rows.source_url matches Some(s) ==> meta.source_url->0@ == s@
            &&& rows.source_commit matches Some(s) ==> meta.source_commit@ == s@
            &&& rows.tool_version matches Some(s) ==> meta.tool_version@ == s@
            &&& reads_as(
                rows.created_at,
                i64::MIN as int,
                i64::MAX as int,
                meta.created_at as int,
            )
            &&& reads_as(
                rows.schema_version,
                i32::MIN as int,
                i32::MAX as int,
                meta.schema_version as int,
            )
            &&& meta.includes_vec <==> (more.includes_vec matches Some(s) && s@ == "true"@)
            &&& forall|t: i64|
                #![trigger text::signed_decimal(t as int)]
                more.fetched_at matches Some(s) && s@ == text::signed_decimal(t as int)
                    ==> meta.fetched_at == Some(t)
            &&& more.fetched_at is None ==> meta.fetched_at is None
        }),
{
    let last = seen.len() - 1;
    assert(stages[0] is Size);
    assert(last >= 0) by {
        if seen.len() == 0 {
            assert(stages.last() == stages[0]);
        }
    }
    assert(follows(stages[0], seen[0], cap, stages[1]));
    let n = seen[0]->Size_0;
    assert(seen[0] == Observation::Size(n));
    assert(follows(stages[last], seen[last], cap, stages[last + 1]));
    assert(stages[last] is Details);
    lemma_size_is_kept(cap, stages, seen, n, last);
    assert(last >= 1);
    assert(follows(stages[last - 1], seen[last - 1], cap, stages[last - 1 + 1]));
    assert(stages[last - 1] is Records);
    let size = stages[last - 1]->Records_size;
    let rows = seen[last - 1]->Records_0;
    let identity = stages[last]->identity;
    let more = seen[last]->Details_0;
    let schema = or_zero(recorded_integer(rows.schema_version, i32::MIN as int, i32::MAX as int));
    law_records_are_kept_as_they_stand(size, rows, cap, stages[last], schema);
    law_details_are_added_to_the_identity(n, identity, more, cap, stages.last());
    assert forall|t: i64|
        #![trigger text::signed_decimal(t as int)]
        more.fetched_at matches Some(s) && s@ == text::signed_decimal(t as int) implies meta.fetched_at
        == Some(t) by {
        text::law_numeral_reads_back(t as int);
    }
}

} // verus!
