//! What documents hand to one another: exported operations, and what can be
//! read of them without importing them.

use vstd::prelude::*;
use crate::doc::sound_doc;
use crate::doc::DocHandle;
use crate::doc::LoroDoc;
use crate::err::read_outside_error;
use crate::err::outside_error;
use crate::err::ErrorKind;
use crate::err::OutsideError;
use crate::undo::CounterSpan;
use crate::value::ID;

verus! {

/// The operations of the peer `peer` with the counters of `counter`.
#[derive(Clone, Copy, Debug, PartialEq, Eq, Structural, Hash)]
pub struct IdSpan {
    pub peer: u64,
    pub counter: CounterSpan,
}

/// How much of a document an export holds. A version is written as the peers
/// with the number of operations known of each; frontiers as the operations
/// that nothing known follows.
#[derive(Clone, Debug, PartialEq, Eq)]
pub enum ExportMode {
    /// State and history.
    Snapshot,
    /// The operations that the version `from` does not hold.
    Updates { from: Vec<(u64, i32)> },
    /// The operations of the given spans.
    UpdatesInRange { spans: Vec<IdSpan> },
    /// The state, with the history from `frontiers` on.
    ShallowSnapshot { frontiers: Vec<ID> },
    /// The state at `frontiers`, or now, without history.
    StateOnly { frontiers: Option<Vec<ID>> },
    /// State and history up to `version`.
    SnapshotAt { version: Vec<ID> },
}

/// The form in which exported bytes are written.
#[derive(Clone, Copy, Debug, PartialEq, Eq, Structural, Hash)]
pub enum EncodedBlobMode {
    Snapshot,
    OutdatedSnapshot,
    ShallowSnapshot,
    OutdatedRle,
    Updates,
}

/// The form that a number stands for: 0 snapshot, 1 outdated snapshot, 2 shallow
/// snapshot, 3 outdated updates, any other updates.
pub open spec fn blob_mode_of_code(c: u8) -> EncodedBlobMode {
    if c == 0 {
        EncodedBlobMode::Snapshot
    } else if c == 1 {
        EncodedBlobMode::OutdatedSnapshot
    } else if c == 2 {
        EncodedBlobMode::ShallowSnapshot
    } else if c == 3 {
        EncodedBlobMode::OutdatedRle
    } else {
        EncodedBlobMode::Updates
    }
}

impl EncodedBlobMode {
    /// The number that stands for the form.
    pub open spec fn code(self) -> u8 {
        match self {
            EncodedBlobMode::Snapshot => 0,
            EncodedBlobMode::OutdatedSnapshot => 1,
            EncodedBlobMode::ShallowSnapshot => 2,
            EncodedBlobMode::OutdatedRle => 3,
            EncodedBlobMode::Updates => 4,
        }
    }

    pub fn from_code(c: u8) -> (m: EncodedBlobMode)
        ensures
            m == blob_mode_of_code(c),
    {
        if c == 0 {
            EncodedBlobMode::Snapshot
        } else if c == 1 {
            EncodedBlobMode::OutdatedSnapshot
        } else if c == 2 {
            EncodedBlobMode::ShallowSnapshot
        } else if c == 3 {
            EncodedBlobMode::OutdatedRle
        } else {
            EncodedBlobMode::Updates
        }
    }
}

/// Whether `bytes` begin as exported bytes do: with the four letters `loro`,
/// sixteen bytes for a checksum and two for the number of the form.
pub open spec fn headed(bytes: Seq<u8>) -> bool {
    bytes.len() >= 22 && bytes[0] == 108 && bytes[1] == 111 && bytes[2] == 114 && bytes[3] == 111
}

/// The number of the form that the head of `bytes` gives, its high byte first:
/// 3 for a snapshot, 4 for operations alone.
pub open spec fn form_of(bytes: Seq<u8>) -> int {
    bytes[20] * 256 + bytes[21]
}

/// Whether bytes whose head gives the form `form` can say of themselves that
/// they are written as `mode`.
pub open spec fn reads_form(form: int, mode: EncodedBlobMode) -> bool {
    ||| (form == 3 && (mode == EncodedBlobMode::Snapshot || mode
        == EncodedBlobMode::ShallowSnapshot))
    ||| (form == 4 && mode == EncodedBlobMode::Updates)
}

/// Whether the operation `id` is one of those that the change `c` holds.
pub open spec fn holds_operation(c: ChangeMeta, id: ID) -> bool {
    c.id.peer == id.peer && c.id.counter <= id.counter && id.counter < c.id.counter + c.len
}

/// Whether every counter of these versions is one that an operation can have:
/// none below 0.
pub open spec fn versions_fit(v: Seq<(u64, i32)>) -> bool {
    forall|i: int| 0 <= i < v.len() ==> (#[trigger] v[i]).1 >= 0
}

/// Whether every counter of these operations is one that an operation can
/// have.
pub open spec fn ids_fit(v: Seq<ID>) -> bool {
    forall|i: int| 0 <= i < v.len() ==> (#[trigger] v[i]).counter >= 0
}

/// Whether both ends of each of these spans are counters that an operation can
/// have.
pub open spec fn spans_fit(v: Seq<IdSpan>) -> bool {
    forall|i: int| 0 <= i < v.len() ==> (#[trigger] v[i]).counter.start >= 0 && v[i].counter.end >= 0
}

/// Whether no counter of `v` lies below 0.
pub fn check_versions(v: &Vec<(u64, i32)>) -> (r: bool)
    ensures
        r == versions_fit(v@),
{
    let mut i: usize = 0;
    while i < v.len()
        invariant
            i <= v.len(),
            forall|j: int| 0 <= j < i ==> (#[trigger] v@[j]).1 >= 0,
        decreases v.len() - i,
    {
        if v[i].1 < 0 {
            return false;
        }
        i += 1;
    }
    true
}

/// Whether no counter of `v` lies below 0.
pub fn check_ids(v: &Vec<ID>) -> (r: bool)
    ensures
        r == ids_fit(v@),
{
    let mut i: usize = 0;
    while i < v.len()
        invariant
            i <= v.len(),
            forall|j: int| 0 <= j < i ==> (#[trigger] v@[j]).counter >= 0,
        decreases v.len() - i,
    {
        if v[i].counter < 0 {
            return false;
        }
        i += 1;
    }
    true
}

/// Whether no end of a span of `v` lies below 0.
pub fn check_spans(v: &Vec<IdSpan>) -> (r: bool)
    ensures
        r == spans_fit(v@),
{
    let mut i: usize = 0;
    while i < v.len()
        invariant
            i <= v.len(),
            forall|j: int|
                0 <= j < i ==> (#[trigger] v@[j]).counter.start >= 0 && v@[j].counter.end >= 0,
        decreases v.len() - i,
    {
        if v[i].counter.start < 0 || v[i].counter.end < 0 {
            return false;
        }
        i += 1;
    }
    true
}

impl ExportMode {
    /// Whether the mode names no operation that cannot be: none with a counter
    /// below 0.
    pub open spec fn numbered(self) -> bool {
        match self {
            ExportMode::Snapshot => true,
            ExportMode::Updates { from } => versions_fit(from@),
            ExportMode::UpdatesInRange { spans } => spans_fit(spans@),
            ExportMode::ShallowSnapshot { frontiers } => ids_fit(frontiers@),
            ExportMode::StateOnly { frontiers } => match frontiers {
                Some(f) => ids_fit(f@),
                None => true,
            },
            ExportMode::SnapshotAt { version } => ids_fit(version@),
        }
    }

    /// Whether the mode names no operation that cannot be.
    pub fn is_numbered(&self) -> (r: bool)
        ensures
            r == self.numbered(),
    {
        match self {
            ExportMode::Snapshot => true,
            ExportMode::Updates { from } => check_versions(from),
            ExportMode::UpdatesInRange { spans } => check_spans(spans),
            ExportMode::ShallowSnapshot { frontiers } => check_ids(frontiers),
            ExportMode::StateOnly { frontiers } => match frontiers {
                Some(f) => check_ids(f),
                None => true,
            },
            ExportMode::SnapshotAt { version } => check_ids(version),
        }
    }

    /// The number of the form in which an export of this mode is written.
    pub open spec fn form(self) -> int {
        match self {
            ExportMode::Updates { .. } => 4,
            ExportMode::UpdatesInRange { .. } => 4,
            _ => 3,
        }
    }
}

/// What exported bytes say of themselves.
#[derive(Clone, Debug, PartialEq, Eq)]
pub struct ImportBlobMetadata {
    /// For each peer in the bytes, the counter of its first operation in them.
    pub partial_start_vv: Vec<(u64, i32)>,
    /// For each peer in the bytes, the counter behind its last operation in them.
    pub partial_end_vv: Vec<(u64, i32)>,
    pub start_timestamp: i64,
    pub start_frontiers: Vec<ID>,
    pub end_timestamp: i64,
    pub change_num: u32,
    pub mode: EncodedBlobMode,
}

/// What a document knows of one of its changes.
#[derive(Clone, Debug, PartialEq, Eq)]
pub struct ChangeMeta {
    pub lamport: u32,
    pub id: ID,
    pub timestamp: i64,
    pub message: Option<String>,
    pub deps: Vec<ID>,
    pub len: usize,
}

/// A `loro::ExportMode` that owns what it holds.
#[verifier::external_body]
pub struct RawMode {
    raw: loro::ExportMode<'static>,
}

/// Whether the mode asks for operations alone, without the state.
pub uninterp spec fn asks_updates(m: RawMode) -> bool;

/// Whether `bytes` are what a document exported that holds nothing but what
/// documents made by their operations.
pub uninterp spec fn genuine(bytes: Seq<u8>) -> bool;

/// The number of the form in which an export of the mode `m` is written.
pub open spec fn form_asked(m: RawMode) -> int {
    if asks_updates(m) {
        4
    } else {
        3
    }
}

/// Builds `ExportMode::Snapshot`, which asks for the state.
#[verifier::external_body]
fn mode_snapshot() -> (m: RawMode)
    ensures
        !asks_updates(m),
{
    RawMode { raw: loro::ExportMode::Snapshot }
}

/// Builds `ExportMode::Updates` from the version that the pairs of a peer and a
/// counter make. It asks for operations alone.
#[verifier::external_body]
fn mode_updates(from: &Vec<(u64, i32)>) -> (m: RawMode)
    requires
        versions_fit(from@),
    ensures
        asks_updates(m),
{
    let version: loro::VersionVector = from.iter().copied().collect();
    RawMode { raw: loro::ExportMode::updates_owned(version) }
}

/// Builds `ExportMode::UpdatesInRange`, which asks for operations alone.
#[verifier::external_body]
fn mode_in_range(spans: &Vec<IdSpan>) -> (m: RawMode)
    requires
        spans_fit(spans@),
    ensures
        asks_updates(m),
{
    let spans: Vec<loro::IdSpan> = spans.iter().map(|s| {
        loro::IdSpan::new(s.peer, s.counter.start, s.counter.end)
    }).collect();
    RawMode { raw: loro::ExportMode::UpdatesInRange { spans: std::borrow::Cow::Owned(spans) } }
}

/// Builds `ExportMode::ShallowSnapshot`, which asks for the state.
#[verifier::external_body]
fn mode_shallow(frontiers: &Vec<ID>) -> (m: RawMode)
    requires
        ids_fit(frontiers@),
    ensures
        !asks_updates(m),
{
    let ids: Vec<loro::ID> = frontiers.iter().map(|x| loro::ID::new(x.peer, x.counter)).collect();
    RawMode { raw: loro::ExportMode::ShallowSnapshot(std::borrow::Cow::Owned(loro::Frontiers::from(ids))) }
}

/// Builds `ExportMode::StateOnly`, which asks for the state.
#[verifier::external_body]
fn mode_state(frontiers: &Option<Vec<ID>>) -> (m: RawMode)
    requires
        frontiers matches Some(f) ==> ids_fit(f@),
    ensures
        !asks_updates(m),
{
    let frontiers = frontiers.as_ref().map(|f| {
        let ids: Vec<loro::ID> = f.iter().map(|x| loro::ID::new(x.peer, x.counter)).collect();
        std::borrow::Cow::Owned(loro::Frontiers::from(ids))
    });
    RawMode { raw: loro::ExportMode::StateOnly(frontiers) }
}

/// Builds `ExportMode::SnapshotAt`, which asks for the state.
#[verifier::external_body]
fn mode_at(version: &Vec<ID>) -> (m: RawMode)
    requires
        ids_fit(version@),
    ensures
        !asks_updates(m),
{
    let ids: Vec<loro::ID> = version.iter().map(|x| loro::ID::new(x.peer, x.counter)).collect();
    RawMode { raw: loro::ExportMode::SnapshotAt { version: std::borrow::Cow::Owned(loro::Frontiers::from(ids)) } }
}

/// `LoroDoc::export`, for a mode that names no counter below 0: the bytes, or
/// `None` where the document cannot be exported so. Whatever follows it, the head of the bytes is written first:
/// the four letters, room for the checksum, and the number of the form, which
/// is 4 for the two modes that ask for operations alone and 3 for the others.
#[verifier::external_body]
fn raw_export(doc: &DocHandle, mode: RawMode) -> (r: Option<Vec<u8>>)
    ensures
        r matches Some(b) ==> headed(b@) && form_of(b@) == form_asked(mode),
        r matches Some(b) ==> !sound_doc(*doc) || genuine(b@),
{
    doc.raw.export(mode.raw).ok()
}

/// What `LoroDoc::decode_import_blob_meta` reads, the form as a number: 0
/// snapshot, 1 outdated snapshot, 2 shallow snapshot, 3 outdated updates, 4
/// updates.
pub struct RawBlobMeta {
    pub partial_start_vv: Vec<(u64, i32)>,
    pub partial_end_vv: Vec<(u64, i32)>,
    pub start_timestamp: i64,
    pub start_frontiers: Vec<ID>,
    pub end_timestamp: i64,
    pub change_num: u32,
    pub mode: u8,
}

/// What `LoroDoc::decode_import_blob_meta` reads in `bytes`, if it reads them:
/// the time of the first change and that of the last, the number of changes,
/// and the number of the form as `RawBlobMeta` has it. With `check`, bytes
/// whose checksum is wrong are not read.
pub uninterp spec fn blob_facts(bytes: Seq<u8>, check: bool) -> Option<(i64, i64, u32, u8)>;

/// The two times, the number of changes and the number of the form in `m`.
pub open spec fn facts_of(m: RawBlobMeta) -> (i64, i64, u32, u8) {
    (m.start_timestamp, m.end_timestamp, m.change_num, m.mode)
}

/// `LoroDoc::decode_import_blob_meta`, which reads the bytes and nothing else.
/// The versions come in the order in which their maps are walked. The head is
/// read first: bytes without it are refused with a decoding error. Of bytes
/// with a head only the forms 3 and 4 are read; those of the form 4 say that
/// they are updates, those of the form 3 that they are a snapshot or a shallow
/// one.
#[verifier::external_body]
fn raw_decode_meta(bytes: &[u8], check_checksum: bool) -> (r: Result<RawBlobMeta, loro::LoroError>)
    ensures
        r is Ok == blob_facts(bytes@, check_checksum) is Some,
        r matches Ok(m) ==> blob_facts(bytes@, check_checksum) == Some(facts_of(m)),
        r matches Ok(m) ==> headed(bytes@),
        r matches Ok(m) ==> reads_form(form_of(bytes@), blob_mode_of_code(m.mode)),
        r matches Err(e) ==> outside_error(e) == OutsideError::Other || headed(bytes@),
        r matches Ok(m) ==> m.mode <= 4,
{
    loro::LoroDoc::decode_import_blob_meta(bytes, check_checksum).map(|m| RawBlobMeta {
        partial_start_vv: m.partial_start_vv.iter().map(|(p, c)| (*p, *c)).collect(),
        partial_end_vv: m.partial_end_vv.iter().map(|(p, c)| (*p, *c)).collect(),
        start_timestamp: m.start_timestamp,
        start_frontiers: m.start_frontiers.iter().map(|x| ID { peer: x.peer, counter: x.counter }).collect(),
        end_timestamp: m.end_timestamp,
        change_num: m.change_num,
        mode: match m.mode {
            loro::EncodedBlobMode::Snapshot => 0,
            loro::EncodedBlobMode::OutdatedSnapshot => 1,
            loro::EncodedBlobMode::ShallowSnapshot => 2,
            loro::EncodedBlobMode::OutdatedRle => 3,
            loro::EncodedBlobMode::Updates => 4,
        },
    })
}

/// `LoroDoc::get_change`: what is known of the change that holds the operation
/// `id`. The change is looked up among those of the peer of `id`, as the one
/// whose counters, from its first on and as many as its length, take in that of
/// `id`. Whether there is one depends on what the document has committed; a
/// counter that no change of the peer takes in, as every counter below 0, finds
/// none.
#[verifier::external_body]
fn raw_get_change(doc: &DocHandle, id: ID) -> (r: Option<ChangeMeta>)
    ensures
        r matches Some(c) ==> holds_operation(c, id),
{
    doc.raw.get_change(loro::ID::new(id.peer, id.counter)).map(|c| ChangeMeta {
        lamport: c.lamport,
        id: ID { peer: c.id.peer, counter: c.id.counter },
        timestamp: c.timestamp,
        message: c.message.map(|m| m.to_string()),
        deps: c.deps.iter().map(|x| ID { peer: x.peer, counter: x.counter }).collect(),
        len: c.len,
    })
}

impl ImportBlobMetadata {
    /// What `raw` says, with the form by its name.
    pub fn from_raw(raw: RawBlobMeta) -> (m: ImportBlobMetadata)
        ensures
            m.partial_start_vv == raw.partial_start_vv,
            m.partial_end_vv == raw.partial_end_vv,
            m.start_timestamp == raw.start_timestamp,
            m.start_frontiers == raw.start_frontiers,
            m.end_timestamp == raw.end_timestamp,
            m.change_num == raw.change_num,
            m.mode == blob_mode_of_code(raw.mode),
    {
        ImportBlobMetadata {
            partial_start_vv: raw.partial_start_vv,
            partial_end_vv: raw.partial_end_vv,
            start_timestamp: raw.start_timestamp,
            start_frontiers: raw.start_frontiers,
            end_timestamp: raw.end_timestamp,
            change_num: raw.change_num,
            mode: EncodedBlobMode::from_code(raw.mode),
        }
    }
}

impl LoroDoc {
    /// Exports the document as `mode` says. `Other` where the document cannot be
    /// exported so, as with frontiers that it does not know, or where `mode`
    /// names an operation with a counter below 0. The bytes begin
    /// with the head of every export, in which the number of the form is 4
    /// where `mode` asks for operations alone and 3 where it asks for the state.
    pub fn export(&self, mode: ExportMode) -> (r: Result<Vec<u8>, ErrorKind>)
        ensures
            r matches Ok(b) ==> headed(b@) && form_of(b@) == mode.form(),
            r matches Ok(b) ==> (self.wf() ==> genuine(b@)),
            r matches Err(e) ==> e == ErrorKind::Other,
            !mode.numbered() ==> r is Err,
    {
        if !mode.is_numbered() {
            return Err(ErrorKind::Other);
        }
        let raw = match mode {
            ExportMode::Snapshot => mode_snapshot(),
            ExportMode::Updates { from } => mode_updates(&from),
            ExportMode::UpdatesInRange { spans } => mode_in_range(&spans),
            ExportMode::ShallowSnapshot { frontiers } => mode_shallow(&frontiers),
            ExportMode::StateOnly { frontiers } => mode_state(&frontiers),
            ExportMode::SnapshotAt { version } => mode_at(&version),
        };
        match raw_export(&self.inner, raw) {
            Some(b) => Ok(b),
            None => Err(ErrorKind::Other),
        }
    }

    /// What exported bytes say of themselves, read without importing them:
    /// whether they are read, and what is read of the times, of the number of
    /// changes and of the form, depends on the bytes and on `check_checksum`
    /// alone. Bytes that do not begin as exported bytes do are refused with
    /// `Other`. Of those that are read, the form that they report is one that
    /// the number in their head allows.
    pub fn decode_import_blob_meta(bytes: &[u8], check_checksum: bool) -> (r: Result<
        ImportBlobMetadata,
        ErrorKind,
    >)
        ensures
            r is Ok <==> blob_facts(bytes@, check_checksum) is Some,
            r matches Ok(m) ==> blob_facts(bytes@, check_checksum) == Some(
                (m.start_timestamp, m.end_timestamp, m.change_num, m.mode.code()),
            ),
            r matches Ok(m) ==> headed(bytes@) && reads_form(form_of(bytes@), m.mode),
            !headed(bytes@) ==> r == Err::<ImportBlobMetadata, ErrorKind>(ErrorKind::Other),
    {
        match raw_decode_meta(bytes, check_checksum) {
            Ok(raw) => Ok(ImportBlobMetadata::from_raw(raw)),
            Err(e) => Err(ErrorKind::from_outside(read_outside_error(&e))),
        }
    }

    /// What the document knows of the change that holds the operation `id`:
    /// a change of the same peer whose counters take in that of `id`. `None`
    /// where no change that the document has committed or merged holds it.
    pub fn get_change(&self, id: ID) -> (r: Option<ChangeMeta>)
        ensures
            r matches Some(c) ==> holds_operation(c, id),
    {
        raw_get_change(&self.inner, id)
    }
}

} // verus!
