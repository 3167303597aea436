//! Artifacts of the upload ledger: what may be recorded, what a claimed upload
//! must still be, and how a capture directory is reconciled with the ledger.

use vstd::prelude::*;

use crate::artifact;
use crate::artifact::{
    idempotency_key, is_generated_frame_filename, parse_generated_frame_filename,
};
use crate::digest;
use crate::digest::hash_bytes;
use crate::order;
use crate::path;
use crate::path::check_parent;
use crate::text::same_bytes;
use crate::upload_record;
use crate::upload_record::{
    check_timestamp, database_u64, job_id_from_database, optional_database_u16,
    optional_database_u64, sha256_from_database, validate_stored_identity, UploadJobId,
    UploadAuthorizationFingerprint, UploadJobRecord, UploadState, UploadStoreError,
};
use crate::upload_store;
use crate::upload_store::{ArtifactValues, ClaimedUpload, RecordDisposition, UploadStore};

verus! {

broadcast use vstd::string::group_string_axioms;

/// What a path refers to, without following a final symbolic link.
#[derive(Clone, Copy, Debug, PartialEq, Eq, Structural)]
pub enum PathKind {
    File,
    Symlink,
    Other,
}

/// What was seen of a finalized artifact. Facts that come after the first one
/// that refuses the artifact do not matter.
#[derive(Debug)]
pub struct ArtifactSighting {
    pub path: String,
    pub is_absolute: bool,
    pub is_utf8: bool,
    pub kind: PathKind,
    pub canonical_path: String,
    pub canonical_is_utf8: bool,
    pub file_name: Option<String>,
    pub opened_is_file: bool,
    pub opened_size: u64,
    pub contents: Vec<u8>,
}

/// Whether a name follows the grammar of generated frames.
pub open spec fn generated_name(name: Option<String>) -> bool {
    name matches Some(text) && exists|s: nat, m: nat, q: nat|
        artifact::names_frame(text@, s, m, q)
}

/// Why an artifact cannot be recorded, if it cannot.
pub open spec fn artifact_fault(
    sighting: ArtifactSighting,
    capture_root: Seq<char>,
) -> Option<UploadStoreError> {
    if !sighting.is_absolute {
        Some(UploadStoreError::ArtifactPathNotAbsolute(sighting.path))
    } else if !sighting.is_utf8 {
        Some(UploadStoreError::ArtifactPathNotUtf8(sighting.path))
    } else if sighting.kind == PathKind::Symlink {
        Some(UploadStoreError::ArtifactIsSymlink(sighting.path))
    } else if sighting.kind == PathKind::Other {
        Some(UploadStoreError::ArtifactNotRegularFile(sighting.path))
    } else if !path::is_parent(capture_root, sighting.canonical_path@) {
        Some(UploadStoreError::ArtifactOutsideCaptureRoot(sighting.canonical_path))
    } else if !sighting.canonical_is_utf8 {
        Some(UploadStoreError::ArtifactPathNotUtf8(sighting.canonical_path))
    } else if !generated_name(sighting.file_name) {
        Some(UploadStoreError::InvalidArtifactFilename(sighting.canonical_path))
    } else if !sighting.opened_is_file {
        Some(UploadStoreError::ArtifactNotRegularFile(sighting.canonical_path))
    } else {
        None
    }
}

impl ArtifactValues {
    /// What is recorded of a finalized artifact: its canonical path and name, its
    /// size, the digest of its contents, and the key derived from them. It has to
    /// stand directly in the capture directory.
    pub fn read(sighting: ArtifactSighting, capture_root: &str) -> (r: Result<
        Self,
        UploadStoreError,
    >)
        ensures
            match artifact_fault(sighting, capture_root@) {
                Some(error) => r == Err::<Self, UploadStoreError>(error),
                None => r matches Ok(values) && {
                    &&& values.artifact_path == sighting.canonical_path
                    &&& Some(values.filename) == sighting.file_name
                    &&& values.file_size == sighting.opened_size
                    &&& values.sha256@ == digest::sha256_digest(sighting.contents@)
                    &&& values.idempotency_key@ == artifact::upload_key(
                        values.filename@,
                        values.sha256@,
                    )
                },
            },
    {
        if !sighting.is_absolute {
            return Err(UploadStoreError::ArtifactPathNotAbsolute(sighting.path));
        }
        if !sighting.is_utf8 {
            return Err(UploadStoreError::ArtifactPathNotUtf8(sighting.path));
        }
        match sighting.kind {
            PathKind::Symlink => {
                return Err(UploadStoreError::ArtifactIsSymlink(sighting.path));
            },
            PathKind::Other => {
                return Err(UploadStoreError::ArtifactNotRegularFile(sighting.path));
            },
            PathKind::File => {},
        }
        if !check_parent(capture_root, sighting.canonical_path.as_str()) {
            return Err(UploadStoreError::ArtifactOutsideCaptureRoot(sighting.canonical_path));
        }
        if !sighting.canonical_is_utf8 {
            return Err(UploadStoreError::ArtifactPathNotUtf8(sighting.canonical_path));
        }
        let filename = match sighting.file_name {
            Some(name) => {
                if !is_generated_frame_filename(name.as_str()) {
                    return Err(UploadStoreError::InvalidArtifactFilename(sighting.canonical_path));
                }
                name
            },
            None => {
                return Err(UploadStoreError::InvalidArtifactFilename(sighting.canonical_path));
            },
        };
        if !sighting.opened_is_file {
            return Err(UploadStoreError::ArtifactNotRegularFile(sighting.canonical_path));
        }
        let sha256 = hash_bytes(sighting.contents.as_slice());
        let key = idempotency_key(filename.as_str(), &sha256);
        Ok(
            Self {
                artifact_path: sighting.canonical_path,
                filename,
                idempotency_key: key,
                file_size: sighting.opened_size,
                sha256,
            },
        )
    }
}

/// What was seen of a claimed artifact before it is sent.
#[derive(Debug)]
pub enum ClaimedSighting {
    Missing,
    Symlink,
    NotRegularFile,
    Opened { is_file: bool, size: u64, contents: Vec<u8> },
}

#[allow(inconsistent_fields)]
#[derive(Clone, Copy, Debug, PartialEq, Eq)]
pub enum ArtifactVerification {
    Verified,
    Missing,
    Symlink,
    NotRegularFile,
    SizeMismatch { expected: u64, actual: u64 },
    Sha256Mismatch { expected: [u8; 32], actual: [u8; 32] },
}

/// Whether a claimed artifact is still the file that was recorded.
pub open spec fn still_recorded(claim: ClaimedUpload, sighting: ClaimedSighting) -> bool {
    sighting matches ClaimedSighting::Opened { is_file, size, contents } && is_file && size
        == claim.file_size && digest::sha256_digest(contents@) == claim.sha256@
}

/// Verify the exact file that will be sent against what was recorded.
pub fn verify_claimed_artifact(claim: &ClaimedUpload, sighting: &ClaimedSighting) -> (r:
    ArtifactVerification)
    ensures
        r is Verified <==> still_recorded(*claim, *sighting),
        match *sighting {
            ClaimedSighting::Missing => r is Missing,
            ClaimedSighting::Symlink => r is Symlink,
            ClaimedSighting::NotRegularFile => r is NotRegularFile,
            ClaimedSighting::Opened { is_file, size, contents } => if !is_file {
                r is NotRegularFile
            } else if size != claim.file_size {
                r == (ArtifactVerification::SizeMismatch {
                    expected: claim.file_size,
                    actual: size,
                })
            } else if digest::sha256_digest(contents@) != claim.sha256@ {
                r matches ArtifactVerification::Sha256Mismatch { expected, actual } && expected
                    == claim.sha256 && actual@ == digest::sha256_digest(contents@)
            } else {
                r is Verified
            },
        },
{
    match sighting {
        ClaimedSighting::Missing => ArtifactVerification::Missing,
        ClaimedSighting::Symlink => ArtifactVerification::Symlink,
        ClaimedSighting::NotRegularFile => ArtifactVerification::NotRegularFile,
        ClaimedSighting::Opened { is_file, size, contents } => {
            if !*is_file {
                return ArtifactVerification::NotRegularFile;
            }
            if *size != claim.file_size {
                return ArtifactVerification::SizeMismatch {
                    expected: claim.file_size,
                    actual: *size,
                };
            }
            let actual = hash_bytes(contents.as_slice());
            if !same_bytes(actual.as_slice(), claim.sha256.as_slice()) {
                return ArtifactVerification::Sha256Mismatch { expected: claim.sha256, actual };
            }
            ArtifactVerification::Verified
        },
    }
}

/// One row of the stored job table.
#[derive(Debug)]
pub struct RawUploadJob {
    pub id: i64,
    pub artifact_path: String,
    pub filename: String,
    pub idempotency_key: String,
    pub file_size: i64,
    pub sha256: Vec<u8>,
    pub state: String,
    pub attempt_count: i64,
    pub next_attempt_at_ms: Option<i64>,
    pub last_http_status: Option<i64>,
    pub last_error: Option<String>,
    pub created_at_ms: i64,
    pub updated_at_ms: i64,
    pub completed_at_ms: Option<i64>,
    pub last_failure_at_ms: Option<i64>,
}

pub open spec fn optional_matches(raw: Option<i64>, value: Option<u64>) -> bool {
    match (raw, value) {
        (Some(a), Some(b)) => a == b,
        (None, None) => true,
        _ => false,
    }
}

pub open spec fn corrupt(column: &'static str, value: i64) -> UploadStoreError {
    UploadStoreError::CorruptInteger { column, value }
}

pub open spec fn negative(value: Option<i64>) -> bool {
    value matches Some(number) && number < 0
}

impl RawUploadJob {
    /// Whether a record says the same as this row.
    pub open spec fn reads_as(self, record: UploadJobRecord) -> bool {
        &&& record.job_id.0 == self.id
        &&& record.artifact_path == self.artifact_path
        &&& record.filename == self.filename
        &&& record.idempotency_key == self.idempotency_key
        &&& record.file_size == self.file_size
        &&& record.sha256@ == self.sha256@
        &&& record.state.name() == self.state@
        &&& record.attempt_count == self.attempt_count
        &&& optional_matches(self.next_attempt_at_ms, record.next_attempt_at_unix_ms)
        &&& match (self.last_http_status, record.last_http_status) {
            (Some(a), Some(b)) => a == b,
            (None, None) => true,
            _ => false,
        }
        &&& record.last_error == self.last_error
        &&& record.created_at_unix_ms == self.created_at_ms
        &&& record.updated_at_unix_ms == self.updated_at_ms
        &&& optional_matches(self.completed_at_ms, record.completed_at_unix_ms)
        &&& optional_matches(self.last_failure_at_ms, record.last_failure_at_unix_ms)
    }

    /// Whether the stored identity of this row is consistent.
    pub open spec fn identity_ok(self, capture_root: Seq<char>) -> bool {
        &&& path::is_absolute(self.artifact_path@)
        &&& path::is_child(self.artifact_path@, capture_root, self.filename@)
        &&& exists|s: nat, m: nat, q: nat| artifact::names_frame(self.filename@, s, m, q)
        &&& self.idempotency_key@ == artifact::upload_key(self.filename@, self.sha256@)
    }

    /// The first of a row's values, after its number and digest, that is out of
    /// range, if one is.
    pub open spec fn value_fault(self) -> Option<UploadStoreError> {
        if self.file_size < 0 {
            Some(corrupt("file_size", self.file_size))
        } else if forall|state: UploadState| (#[trigger] state.name()) != self.state@ {
            Some(UploadStoreError::CorruptState(self.state))
        } else if self.attempt_count < 0 {
            Some(corrupt("attempt_count", self.attempt_count))
        } else if negative(self.next_attempt_at_ms) {
            Some(corrupt("next_attempt_at_ms", self.next_attempt_at_ms->0))
        } else if self.last_http_status matches Some(code) && !(0 <= code <= u16::MAX) {
            Some(corrupt("last_http_status", self.last_http_status->0))
        } else if self.created_at_ms < 0 {
            Some(corrupt("created_at_ms", self.created_at_ms))
        } else if self.updated_at_ms < 0 {
            Some(corrupt("updated_at_ms", self.updated_at_ms))
        } else if negative(self.completed_at_ms) {
            Some(corrupt("completed_at_ms", self.completed_at_ms->0))
        } else if negative(self.last_failure_at_ms) {
            Some(corrupt("last_failure_at_ms", self.last_failure_at_ms->0))
        } else {
            None
        }
    }

    /// Why a row's number or digest cannot be read, if it cannot.
    pub open spec fn key_fault(self) -> Option<UploadStoreError> {
        if self.id <= 0 {
            Some(corrupt("id", self.id))
        } else if self.sha256@.len() != 32 {
            Some(UploadStoreError::CorruptArtifactIdentity(UploadJobId(self.id)))
        } else {
            None
        }
    }

    /// Why a row's digest cannot be read, if it cannot.
    pub open spec fn digest_fault(self) -> Option<UploadStoreError> {
        if self.sha256@.len() != 32 {
            Some(UploadStoreError::CorruptArtifactIdentity(UploadJobId(self.id)))
        } else {
            None
        }
    }

    /// Read the values of a stored row, whatever its number.
    pub fn into_row(self) -> (r: Result<UploadJobRecord, UploadStoreError>)
        ensures
            match r {
                Ok(record) => {
                    &&& self.digest_fault() is None
                    &&& self.value_fault() is None
                    &&& self.reads_as(record)
                },
                Err(error) => Some(error) == (if self.digest_fault() is Some {
                    self.digest_fault()
                } else {
                    self.value_fault()
                }),
            },
    {
        let job_id = UploadJobId(self.id);
        let sha256 = sha256_from_database(job_id, self.sha256)?;
        let file_size: u64 = database_u64("file_size", self.file_size)?;
        let state = UploadState::from_database(self.state)?;
        let attempt_count: u64 = database_u64("attempt_count", self.attempt_count)?;
        let next_attempt_at_unix_ms: Option<u64> = optional_database_u64(
            "next_attempt_at_ms",
            self.next_attempt_at_ms,
        )?;
        let last_http_status: Option<u16> = optional_database_u16(
            "last_http_status",
            self.last_http_status,
        )?;
        let created_at_unix_ms: u64 = database_u64("created_at_ms", self.created_at_ms)?;
        let updated_at_unix_ms: u64 = database_u64("updated_at_ms", self.updated_at_ms)?;
        let completed_at_unix_ms: Option<u64> = optional_database_u64(
            "completed_at_ms",
            self.completed_at_ms,
        )?;
        let last_failure_at_unix_ms: Option<u64> = optional_database_u64(
            "last_failure_at_ms",
            self.last_failure_at_ms,
        )?;
        Ok(
            UploadJobRecord {
                job_id,
                artifact_path: self.artifact_path,
                filename: self.filename,
                idempotency_key: self.idempotency_key,
                file_size,
                sha256,
                state,
                attempt_count,
                next_attempt_at_unix_ms,
                last_http_status,
                last_error: self.last_error,
                created_at_unix_ms,
                updated_at_unix_ms,
                completed_at_unix_ms,
                last_failure_at_unix_ms,
            },
        )
    }

    /// Read a stored row whose identity must be consistent.
    pub fn into_record(self, capture_root: &str) -> (r: Result<UploadJobRecord, UploadStoreError>)
        ensures
            match r {
                Ok(record) => {
                    &&& self.key_fault() is None
                    &&& self.identity_ok(capture_root@)
                    &&& self.value_fault() is None
                    &&& self.reads_as(record)
                },
                Err(error) => Some(error) == (if self.key_fault() is Some {
                    self.key_fault()
                } else if !self.identity_ok(capture_root@) {
                    Some(UploadStoreError::CorruptArtifactIdentity(UploadJobId(self.id)))
                } else {
                    self.value_fault()
                }),
            },
    {
        let job_id = job_id_from_database(self.id)?;
        let sha256 = sha256_from_database(job_id, self.sha256.clone())?;
        validate_stored_identity(
            job_id,
            self.artifact_path.as_str(),
            self.filename.as_str(),
            self.idempotency_key.as_str(),
            &sha256,
            capture_root,
        )?;
        self.into_row()
    }
}

/// What an entry of the capture directory is, without following symbolic links.
#[derive(Debug)]
pub enum ReconcileKind {
    RegularFile,
    Other,
    /// Inspecting the entry failed for this reason.
    Unreadable(String),
}

/// One entry of the capture directory.
#[derive(Debug)]
pub struct ReconcileEntry {
    pub path: String,
    pub path_is_utf8: bool,
    pub file_name: Option<String>,
    pub kind: ReconcileKind,
}

/// How many entries a reconciliation examined, and what became of those that are
/// generated frames of this ledger.
#[derive(Clone, Copy, Debug, PartialEq, Eq, Structural)]
pub struct ReconcileResult {
    pub examined: u64,
    pub eligible: u64,
    pub inserted: u64,
    pub already_recorded: u64,
}

#[derive(Clone, Copy, Debug, PartialEq, Eq, Structural)]
pub enum EntryClass {
    Ignored,
    /// Its path is not Unicode.
    Unreadable,
    Recorded,
    Unrecorded,
    /// What it is could not be told.
    Uninspected,
}

/// Whether a name is a generated frame captured at or after this time.
pub open spec fn captured_since(name: Option<String>, since: u64) -> bool {
    name matches Some(text) && exists|s: nat, m: nat, q: nat|
        #[trigger] artifact::names_frame(text@, s, m, q) && s * 1_000 + m >= since
}

/// What a directory entry is to a ledger.
pub open spec fn entry_class(store: UploadStore, entry: ReconcileEntry) -> EntryClass {
    if !captured_since(entry.file_name, store.activation_at_unix_ms) {
        EntryClass::Ignored
    } else if !entry.path_is_utf8 {
        EntryClass::Unreadable
    } else if store.knows(entry.path@) {
        EntryClass::Recorded
    } else {
        match entry.kind {
            ReconcileKind::RegularFile => EntryClass::Unrecorded,
            ReconcileKind::Other => EntryClass::Ignored,
            ReconcileKind::Unreadable(_) => EntryClass::Uninspected,
        }
    }
}

/// Why an entry stops a reconciliation, if it does.
pub open spec fn entry_fault(store: UploadStore, entry: ReconcileEntry) -> Option<
    UploadStoreError,
> {
    let job_id = store.jobs@[choose|i: int| store.records_path(entry.path@, i)].job_id;
    match (entry_class(store, entry), entry.kind) {
        (EntryClass::Recorded, _) => if job_id.0 <= 0 {
            Some(UploadStoreError::CorruptInteger { column: "id", value: job_id.0 })
        } else {
            None
        },
        (EntryClass::Unreadable, _) => Some(UploadStoreError::ArtifactPathNotUtf8(entry.path)),
        (EntryClass::Uninspected, ReconcileKind::Unreadable(source)) => Some(
            UploadStoreError::Io {
                operation: "inspect capture artifact",
                path: entry.path,
                source,
            },
        ),
        _ => None,
    }
}

/// Whether an entry is a capture of this ledger's time that no job stands for. One
/// whose kind could not be told counts as a capture.
pub open spec fn awaits_reconciliation(store: UploadStore, entry: ReconcileEntry) -> bool {
    &&& captured_since(entry.file_name, store.activation_at_unix_ms)
    &&& entry.kind !is Other
    &&& !(entry.path_is_utf8 && store.knows(entry.path@))
}

/// Whether a capture directory holds a capture that a crash kept from the ledger.
pub open spec fn has_crash_gap(store: UploadStore, entries: Seq<ReconcileEntry>) -> bool {
    exists|i: int| 0 <= i < entries.len() && awaits_reconciliation(store, #[trigger] entries[i])
}

/// Whether rebinding a ledger to an authorization came out as it has to: another
/// authorization is refused while an upload is unfinished or a capture awaits
/// reconciliation.
pub open spec fn is_rotation(
    before: UploadStore,
    after: UploadStore,
    entries: Seq<ReconcileEntry>,
    authorization: UploadAuthorizationFingerprint,
    r: Result<(), UploadStoreError>,
) -> bool {
    if before.authorization.0@ == authorization.0@ {
        r is Ok && after == before
    } else if upload_store::has_live_work(before.jobs@) || has_crash_gap(before, entries) {
        &&& r == Err::<(), UploadStoreError>(UploadStoreError::AuthorizationIdentityMismatch)
        &&& after == before
    } else {
        &&& r is Ok
        &&& after == (UploadStore { authorization, ..before })
    }
}

/// A ledger that was bound to another authorization has nothing left from before:
/// every job is terminal, so that none is ever claimed again, and the capture
/// directory holds nothing that a reconciliation would still record. A refused
/// rotation leaves the ledger as it was.
pub proof fn law_rotation_needs_drained_ledger(
    before: UploadStore,
    after: UploadStore,
    entries: Seq<ReconcileEntry>,
    authorization: UploadAuthorizationFingerprint,
    r: Result<(), UploadStoreError>,
)
    requires
        is_rotation(before, after, entries, authorization, r),
    ensures
        r is Err ==> after == before,
        after.authorization.0@ != before.authorization.0@ ==> {
            &&& r is Ok
            &&& after.authorization == authorization
            &&& after.jobs == before.jobs
            &&& forall|i: int|
                0 <= i < after.jobs@.len() ==> (#[trigger] after.jobs@[i]).state
                    == UploadState::Completed || after.jobs@[i].state
                    == UploadState::PermanentlyFailed
            &&& forall|now: u64| #[trigger] upload_store::none_due(after.jobs@, now)
            &&& forall|i: int|
                0 <= i < entries.len() ==> entry_class(after, #[trigger] entries[i])
                    != EntryClass::Unrecorded
        },
{
    if after.authorization.0@ != before.authorization.0@ {
        assert forall|i: int| 0 <= i < after.jobs@.len() implies ((
        #[trigger] after.jobs@[i]).state == UploadState::Completed || after.jobs@[i].state
            == UploadState::PermanentlyFailed) by {
            assert(!before.jobs@[i].state.live());
        }
        assert forall|i: int| 0 <= i < entries.len() implies entry_class(
            after,
            #[trigger] entries[i],
        ) != EntryClass::Unrecorded by {
            assert(!awaits_reconciliation(before, entries[i]));
            if before.knows(entries[i].path@) {
                let k = choose|k: int| #[trigger] before.records_path(entries[i].path@, k);
                assert(after.records_path(entries[i].path@, k));
            }
        }
    }
}

/// How many of the first `n` entries the ledger has already recorded.
pub open spec fn recorded_entries(
    store: UploadStore,
    entries: Seq<ReconcileEntry>,
    n: int,
) -> nat
    decreases n,
{
    if n <= 0 {
        0
    } else {
        recorded_entries(store, entries, n - 1) + if entry_class(store, entries[n - 1])
            == EntryClass::Recorded {
            1nat
        } else {
            0nat
        }
    }
}

/// The paths of those of the first `n` entries that are still to be recorded.
pub open spec fn unrecorded_paths(
    store: UploadStore,
    entries: Seq<ReconcileEntry>,
    n: int,
) -> Seq<String>
    decreases n,
{
    if n <= 0 {
        Seq::empty()
    } else {
        let before = unrecorded_paths(store, entries, n - 1);
        if entry_class(store, entries[n - 1]) == EntryClass::Unrecorded {
            before.push(entries[n - 1].path)
        } else {
            before
        }
    }
}

/// What a reconciliation found before anything is recorded.
#[derive(Debug)]
pub struct ReconcileScan {
    pub result: ReconcileResult,
    pub paths: Vec<String>,
}

impl UploadStore {
    fn classify_entry(&self, entry: &ReconcileEntry) -> (r: EntryClass)
        requires
            self.wf(),
        ensures
            r == entry_class(*self, *entry),
    {
        let captured: Option<u64> = match &entry.file_name {
            Some(name) => parse_generated_frame_filename(name.as_str()),
            None => None,
        };
        match captured {
            Some(at) => {
                proof {
                    let name = entry.file_name->0@;
                    let (s, m, q) = choose|s: nat, m: nat, q: nat| #[trigger]
                        artifact::names_frame(name, s, m, q) && at == s * 1_000 + m;
                    assert forall|s2: nat, m2: nat, q2: nat| #[trigger]
                        artifact::names_frame(name, s2, m2, q2) implies s2 * 1_000 + m2
                        == at by {
                        artifact::law_frame_name_is_injective(s, m, q, s2, m2, q2, name);
                    }
                }
                if at < self.activation_at_unix_ms {
                    return EntryClass::Ignored;
                }
            },
            None => {
                return EntryClass::Ignored;
            },
        }
        if !entry.path_is_utf8 {
            return EntryClass::Unreadable;
        }
        if self.check_known(entry.path.as_str()) {
            return EntryClass::Recorded;
        }
        match &entry.kind {
            ReconcileKind::RegularFile => EntryClass::Unrecorded,
            ReconcileKind::Other => EntryClass::Ignored,
            ReconcileKind::Unreadable(_) => EntryClass::Uninspected,
        }
    }

    fn check_awaits(&self, entry: &ReconcileEntry) -> (r: bool)
        requires
            self.wf(),
        ensures
            r == awaits_reconciliation(*self, *entry),
    {
        match self.classify_entry(entry) {
            EntryClass::Unrecorded | EntryClass::Uninspected => true,
            EntryClass::Unreadable => match &entry.kind {
                ReconcileKind::Other => false,
                _ => true,
            },
            EntryClass::Ignored | EntryClass::Recorded => false,
        }
    }

    fn check_crash_gap(&self, entries: &Vec<ReconcileEntry>) -> (r: bool)
        requires
            self.wf(),
        ensures
            r == has_crash_gap(*self, entries@),
    {
        let mut i: usize = 0;
        while i < entries.len()
            invariant
                i <= entries.len(),
                self.wf(),
                forall|k: int|
                    0 <= k < i ==> !awaits_reconciliation(*self, #[trigger] entries@[k]),
            decreases entries.len() - i,
        {
            if self.check_awaits(&entries[i]) {
                assert(awaits_reconciliation(*self, entries@[i as int]));
                return true;
            }
            i = i + 1;
        }
        false
    }

    /// Rebinds a drained ledger without discarding terminal history. Interrupted
    /// `in_progress` work is deliberately checked before recovery, and a capture
    /// that awaits reconciliation belongs to the old authorization.
    pub fn rotate_authorization_if_drained(
        &mut self,
        entries: &Vec<ReconcileEntry>,
        authorization_fingerprint: UploadAuthorizationFingerprint,
    ) -> (r: Result<(), UploadStoreError>)
        requires
            old(self).wf(),
        ensures
            final(self).wf(),
            old(self).history_kept(*final(self)),
            final(self).jobs == old(self).jobs,
            is_rotation(*old(self), *final(self), entries@, authorization_fingerprint, r),
    {
        if !self.authorization.same(&authorization_fingerprint) {
            if self.check_live_work() || self.check_crash_gap(entries) {
                return Err(UploadStoreError::AuthorizationIdentityMismatch);
            }
            self.authorization = authorization_fingerprint;
        }
        Ok(())
    }

    /// Compare the capture directory with the ledger: generated frames since the
    /// ledger was activated that it does not know are to be recorded, in the
    /// order of their paths.
    pub fn scan_capture_directory(
        &self,
        entries: &Vec<ReconcileEntry>,
        recorded_at_unix_ms: u64,
    ) -> (r: Result<ReconcileScan, UploadStoreError>)
        requires
            self.wf(),
        ensures
            match r {
                Ok(scan) => {
                    let n = entries@.len() as int;
                    &&& upload_record::fits_i64(recorded_at_unix_ms)
                    &&& forall|i: int|
                        0 <= i < n ==> entry_fault(*self, #[trigger] entries@[i]) is None
                    &&& scan.result.examined == n
                    &&& scan.result.already_recorded == recorded_entries(*self, entries@, n)
                    &&& scan.result.eligible == recorded_entries(*self, entries@, n)
                        + unrecorded_paths(*self, entries@, n).len()
                    &&& scan.result.inserted == 0
                    &&& scan.paths@ == order::ascending(unrecorded_paths(*self, entries@, n))
                },
                Err(error) => if !upload_record::fits_i64(recorded_at_unix_ms) {
                    error == UploadStoreError::TimestampOutOfRange(recorded_at_unix_ms)
                } else {
                    exists|i: int|
                        {
                            &&& 0 <= i < entries@.len()
                            &&& entry_fault(*self, #[trigger] entries@[i]) == Some(error)
                            &&& forall|j: int|
                                0 <= j < i ==> entry_fault(*self, #[trigger] entries@[j]) is None
                        }
                },
            },
    {
        check_timestamp(recorded_at_unix_ms)?;
        let mut recorded: u64 = 0;
        let mut paths: Vec<String> = Vec::new();
        let mut i: usize = 0;
        while i < entries.len()
            invariant
                self.wf(),
                i <= entries.len(),
                upload_record::fits_i64(recorded_at_unix_ms),
                recorded == recorded_entries(*self, entries@, i as int),
                recorded + paths@.len() <= i,
                paths@ == unrecorded_paths(*self, entries@, i as int),
                forall|j: int|
                    0 <= j < i ==> entry_fault(*self, #[trigger] entries@[j]) is None,
            decreases entries.len() - i,
        {
            match self.classify_entry(&entries[i]) {
                EntryClass::Ignored => {},
                EntryClass::Unreadable => {
                    let error = UploadStoreError::ArtifactPathNotUtf8(entries[i].path.clone());
                    assert(entry_fault(*self, entries@[i as int]) == Some(error));
                    return Err(error);
                },
                EntryClass::Uninspected => {
                    if let ReconcileKind::Unreadable(source) = &entries[i].kind {
                        let error = UploadStoreError::Io {
                            operation: "inspect capture artifact",
                            path: entries[i].path.clone(),
                            source: source.clone(),
                        };
                        assert(entry_fault(*self, entries@[i as int]) == Some(error));
                        return Err(error);
                    }
                },
                EntryClass::Recorded => {
                    proof {
                        self.lemma_one_job_for_path(entries@[i as int].path@);
                    }
                    match self.recorded_job_id(entries[i].path.as_str()) {
                        Ok(_) => {},
                        Err(error) => {
                            assert(entry_fault(*self, entries@[i as int]) == Some(error));
                            return Err(error);
                        },
                    }
                    recorded = recorded + 1;
                },
                EntryClass::Unrecorded => {
                    paths.push(entries[i].path.clone());
                },
            }
            i = i + 1;
        }
        let result = ReconcileResult {
            examined: entries.len() as u64,
            eligible: recorded + paths.len() as u64,
            inserted: 0,
            already_recorded: recorded,
        };
        Ok(ReconcileScan { result, paths: order::sort_paths(paths) })
    }
}

impl ReconcileResult {
    /// Count one artifact that was handed to the ledger.
    pub fn count(&mut self, disposition: RecordDisposition) -> (r: Result<(), UploadStoreError>)
        ensures
            ({
                let before = *old(self);
                let counted = match disposition {
                    RecordDisposition::Inserted => before.inserted,
                    RecordDisposition::AlreadyRecorded => before.already_recorded,
                };
                if counted == u64::MAX {
                    &&& r == Err::<(), UploadStoreError>(UploadStoreError::ReconcileCountOverflow)
                    &&& *final(self) == before
                } else {
                    &&& r is Ok
                    &&& *final(self) == (match disposition {
                        RecordDisposition::Inserted => ReconcileResult {
                            inserted: (before.inserted + 1) as u64,
                            ..before
                        },
                        RecordDisposition::AlreadyRecorded => ReconcileResult {
                            already_recorded: (before.already_recorded + 1) as u64,
                            ..before
                        },
                    })
                }
            }),
    {
        match disposition {
            RecordDisposition::Inserted => match self.inserted.checked_add(1) {
                Some(inserted) => {
                    self.inserted = inserted;
                    Ok(())
                },
                None => Err(UploadStoreError::ReconcileCountOverflow),
            },
            RecordDisposition::AlreadyRecorded => match self.already_recorded.checked_add(1) {
                Some(already_recorded) => {
                    self.already_recorded = already_recorded;
                    Ok(())
                },
                None => Err(UploadStoreError::ReconcileCountOverflow),
            },
        }
    }
}

/// Reconciliation is idempotent: once an entry's path is recorded, no later scan
/// of the same ledger offers it again.
pub proof fn law_reconciled_entry_stays_recorded(
    before: UploadStore,
    after: UploadStore,
    entry: ReconcileEntry,
    i: int,
)
    requires
        entry_class(before, entry) == EntryClass::Unrecorded || entry_class(before, entry)
            == EntryClass::Recorded,
        after.activation_at_unix_ms == before.activation_at_unix_ms,
        after.records_path(entry.path@, i),
    ensures
        entry_class(after, entry) == EntryClass::Recorded,
{
}

/// An artifact is recorded exactly where its path is absolute text and that of a regular
/// file, the file it leads to stands directly in the capture directory under a generated
/// name, and a file was opened there. What is recorded is that file.
pub proof fn law_artifact_is_recorded_as_it_is(
    sighting: ArtifactSighting,
    capture_root: &str,
    canonical: &str,
    inside: bool,
    name: &str,
    generated: bool,
    r: Result<ArtifactValues, UploadStoreError>,
)
    requires
        call_ensures(ArtifactValues::read, (sighting, capture_root), r),
        call_ensures(check_parent, (capture_root, canonical), inside),
        call_ensures(is_generated_frame_filename, (name,), generated),
        canonical@ == sighting.canonical_path@,
        sighting.file_name is Some ==> name@ == sighting.file_name->0@,
    ensures
        r is Ok <==> sighting.is_absolute && sighting.is_utf8 && sighting.kind is File && inside
            && sighting.canonical_is_utf8 && sighting.file_name is Some && generated
            && sighting.opened_is_file,
        r matches Ok(values) ==> values.artifact_path == sighting.canonical_path
            && sighting.file_name == Some(values.filename) && values.file_size
            == sighting.opened_size && values.sha256@ == digest::sha256_digest(sighting.contents@)
            && values.idempotency_key@ == artifact::upload_key(values.filename@, values.sha256@),
        r matches Err(UploadStoreError::ArtifactPathNotAbsolute(_)) <==> !sighting.is_absolute,
        r matches Err(UploadStoreError::ArtifactIsSymlink(_)) <==> sighting.is_absolute
            && sighting.is_utf8 && sighting.kind is Symlink,
        r matches Err(UploadStoreError::ArtifactOutsideCaptureRoot(_)) <==> sighting.is_absolute
            && sighting.is_utf8 && sighting.kind is File && !inside,
        r matches Err(UploadStoreError::InvalidArtifactFilename(_)) <==> sighting.is_absolute
            && sighting.is_utf8 && sighting.kind is File && inside && sighting.canonical_is_utf8 && (
        sighting.file_name is None || !generated),
{
    assert(generated_name(sighting.file_name) <==> sighting.file_name is Some
        && artifact::is_frame_name(sighting.file_name->0@));
}

/// A claimed artifact is sent exactly where it is still a regular file of the recorded
/// size and digest; otherwise it is told what it is instead.
pub proof fn law_claimed_artifact_is_still_the_recorded_one(
    claim: &ClaimedUpload,
    sighting: &ClaimedSighting,
    r: ArtifactVerification,
)
    requires
        call_ensures(verify_claimed_artifact, (claim, sighting), r),
    ensures
        r is Missing <==> sighting is Missing,
        r is Symlink <==> sighting is Symlink,
        *sighting matches ClaimedSighting::Opened { is_file, size, contents } ==> {
            &&& r is NotRegularFile <==> !is_file
            &&& r is SizeMismatch <==> is_file && size != claim.file_size
            &&& r is Sha256Mismatch <==> is_file && size == claim.file_size
                && digest::sha256_digest(contents@) != claim.sha256@
            &&& r is Verified <==> is_file && size == claim.file_size && digest::sha256_digest(
                contents@,
            ) == claim.sha256@
        },
        *sighting !is Opened ==> r !is Verified,
{
}

/// Whether the numbers of a row can be read.
pub open spec fn has_sound_numbers(row: RawUploadJob) -> bool {
    &&& row.file_size >= 0
    &&& row.attempt_count >= 0
    &&& row.created_at_ms >= 0
    &&& row.updated_at_ms >= 0
    &&& row.next_attempt_at_ms is None || row.next_attempt_at_ms->0 >= 0
    &&& row.completed_at_ms is None || row.completed_at_ms->0 >= 0
    &&& row.last_failure_at_ms is None || row.last_failure_at_ms->0 >= 0
    &&& row.last_http_status is None || 0 <= row.last_http_status->0 <= 65_535
}

/// Whether a row's state is one of the five.
pub open spec fn has_known_state(row: RawUploadJob) -> bool {
    row.state@ == "pending"@ || row.state@ == "in_progress"@ || row.state@ == "retrying"@
        || row.state@ == "completed"@ || row.state@ == "permanently_failed"@
}

proof fn lemma_value_fault(row: RawUploadJob)
    ensures
        row.value_fault() is None <==> has_sound_numbers(row) && has_known_state(row),
{
    if has_known_state(row) {
        let state = if row.state@ == "pending"@ {
            UploadState::Pending
        } else if row.state@ == "in_progress"@ {
            UploadState::InProgress
        } else if row.state@ == "retrying"@ {
            UploadState::Retrying
        } else if row.state@ == "completed"@ {
            UploadState::Completed
        } else {
            UploadState::PermanentlyFailed
        };
        assert(state.name() == row.state@);
    } else {
        assert forall|state: UploadState| (#[trigger] state.name()) != row.state@ by {}
    }
}

/// A row is read whole or not at all: where its number is positive, its digest has
/// thirty-two bytes, its identity is consistent, its state is known and its numbers can
/// be read. The record says what the row says.
pub proof fn law_row_is_read_whole(
    row: RawUploadJob,
    capture_root: &str,
    unnumbered: Result<UploadJobRecord, UploadStoreError>,
    r: Result<UploadJobRecord, UploadStoreError>,
)
    requires
        call_ensures(RawUploadJob::into_row, (row,), unnumbered),
        call_ensures(RawUploadJob::into_record, (row, capture_root), r),
    ensures
        unnumbered is Ok <==> row.sha256@.len() == 32 && has_sound_numbers(row) && has_known_state(
            row,
        ),
        r is Ok <==> unnumbered is Ok && row.id > 0 && path::is_absolute(row.artifact_path@)
            && path::is_child(row.artifact_path@, capture_root@, row.filename@)
            && artifact::is_frame_name(row.filename@) && row.idempotency_key@
            == artifact::upload_key(row.filename@, row.sha256@),
        r matches Ok(record) ==> {
            &&& record.job_id.0 == row.id
            &&& record.artifact_path == row.artifact_path
            &&& record.filename == row.filename
            &&& record.idempotency_key == row.idempotency_key
            &&& record.file_size == row.file_size
            &&& record.sha256@ == row.sha256@
            &&& record.state is Pending <==> row.state@ == "pending"@
            &&& record.state is InProgress <==> row.state@ == "in_progress"@
            &&& record.state is Retrying <==> row.state@ == "retrying"@
            &&& record.state is Completed <==> row.state@ == "completed"@
            &&& record.attempt_count == row.attempt_count
            &&& record.created_at_unix_ms == row.created_at_ms
            &&& record.updated_at_unix_ms == row.updated_at_ms
            &&& record.last_error == row.last_error
            &&& record.next_attempt_at_unix_ms is Some <==> row.next_attempt_at_ms is Some
            &&& record.next_attempt_at_unix_ms matches Some(at) ==> at == row.next_attempt_at_ms->0
            &&& record.completed_at_unix_ms is Some <==> row.completed_at_ms is Some
            &&& record.completed_at_unix_ms matches Some(at) ==> at == row.completed_at_ms->0
            &&& record.last_failure_at_unix_ms is Some <==> row.last_failure_at_ms is Some
            &&& record.last_failure_at_unix_ms matches Some(at) ==> at == row.last_failure_at_ms->0
            &&& record.last_http_status is Some <==> row.last_http_status is Some
            &&& record.last_http_status matches Some(code) ==> code == row.last_http_status->0
        },
{
    lemma_value_fault(row);
    reveal_strlit("pending");
    reveal_strlit("in_progress");
    reveal_strlit("retrying");
    reveal_strlit("completed");
    reveal_strlit("permanently_failed");
    assert(row.identity_ok(capture_root@) <==> path::is_absolute(row.artifact_path@)
        && path::is_child(row.artifact_path@, capture_root@, row.filename@)
        && artifact::is_frame_name(row.filename@) && row.idempotency_key@ == artifact::upload_key(
        row.filename@,
        row.sha256@,
    ));
    if let Ok(record) = r {
        assert(record.state.name().len() == row.state@.len());
        assert(record.state.name()[0] == row.state@[0]);
    }
}

/// Whether an entry was captured since a time, by what its name is read as.
proof fn lemma_captured_since(
    entry: ReconcileEntry,
    name: &str,
    time: Option<u64>,
    since: u64,
)
    requires
        call_ensures(parse_generated_frame_filename, (name,), time),
        entry.file_name is Some,
        name@ == entry.file_name->0@,
    ensures
        captured_since(entry.file_name, since) <==> time is Some && time->0 >= since,
{
    if let Some(at) = time {
        let (s, m, q) = choose|s: nat, m: nat, q: nat| #[trigger]
            artifact::names_frame(name@, s, m, q) && at == s * 1_000 + m;
        if captured_since(entry.file_name, since) {
            let (s2, m2, q2) = choose|s2: nat, m2: nat, q2: nat| #[trigger]
                artifact::names_frame(name@, s2, m2, q2) && s2 * 1_000 + m2 >= since;
            artifact::law_frame_name_is_injective(s, m, q, s2, m2, q2, name@);
        }
    } else {
        assert(artifact::names_no_frame(name@));
    }
}

/// Whether some job has a path.
pub open spec fn has_job_for(store: UploadStore, path: Seq<char>) -> bool {
    exists|i: int|
        0 <= i < store.jobs@.len() && (#[trigger] store.jobs@[i]).artifact_path@ == path
}

proof fn lemma_knows(store: UploadStore, path: Seq<char>)
    ensures
        store.knows(path) <==> has_job_for(store, path),
{
    if store.knows(path) {
        let i = choose|i: int| #[trigger] store.records_path(path, i);
        assert(store.jobs@[i].artifact_path@ == path);
    }
    if has_job_for(store, path) {
        let i = choose|i: int|
            0 <= i < store.jobs@.len() && (#[trigger] store.jobs@[i]).artifact_path@ == path;
        assert(store.records_path(path, i));
    }
}

/// Whether every job has reached its end.
pub open spec fn is_drained(store: UploadStore) -> bool {
    forall|i: int|
        0 <= i < store.jobs@.len() ==> (#[trigger] store.jobs@[i]).state is Completed
            || store.jobs@[i].state is PermanentlyFailed
}

pub proof fn lemma_drained(store: UploadStore)
    ensures
        is_drained(store) <==> !upload_store::has_live_work(store.jobs@),
{
}

/// A ledger takes another authorization only where every upload has reached its end and
/// no capture since its activation still waits for a job; a refusal changes nothing.
pub proof fn law_authorization_changes_on_a_drained_ledger(
    entries: &Vec<ReconcileEntry>,
    authorization: UploadAuthorizationFingerprint,
    e: int,
    name: &str,
    time: Option<u64>,
    r: Result<(), UploadStoreError>,
)
    requires
        call_ensures(parse_generated_frame_filename, (name,), time),
        0 <= e < entries@.len(),
        entries@[e].file_name is Some,
        name@ == entries@[e].file_name->0@,
    ensures
        forall|s: &mut UploadStore|
            #[trigger] call_ensures(
                UploadStore::rotate_authorization_if_drained,
                (s, entries, authorization),
                r,
            ) && s.wf() ==> {
                let same = s.authorization.0@ == authorization.0@;
                let waiting = time is Some && time->0 >= s.activation_at_unix_ms
                    && entries@[e].kind !is Other && !(entries@[e].path_is_utf8 && has_job_for(
                    *s,
                    entries@[e].path@,
                ));
                &&& same ==> r is Ok && *final(s) == *s
                &&& !same && !is_drained(*s) ==> r is Err
                &&& !same && waiting ==> r is Err
                &&& !same && is_drained(*s) && entries@.len() == 1 && !waiting ==> r is Ok
                &&& r is Ok ==> final(s).authorization.0@ == authorization.0@
                &&& r is Err ==> *final(s) == *s && r->Err_0
                    == UploadStoreError::AuthorizationIdentityMismatch
                &&& final(s).jobs == s.jobs
                &&& final(s).counts == s.counts
            },
{
    assert forall|s: &mut UploadStore|
        #[trigger] call_ensures(
            UploadStore::rotate_authorization_if_drained,
            (s, entries, authorization),
            r,
        ) && s.wf() implies {
        let same = s.authorization.0@ == authorization.0@;
        let waiting = time is Some && time->0 >= s.activation_at_unix_ms && entries@[e].kind
            !is Other && !(entries@[e].path_is_utf8 && has_job_for(*s, entries@[e].path@));
        &&& same ==> r is Ok && *final(s) == *s
        &&& !same && !is_drained(*s) ==> r is Err
        &&& !same && waiting ==> r is Err
        &&& !same && is_drained(*s) && entries@.len() == 1 && !waiting ==> r is Ok
        &&& r is Ok ==> final(s).authorization.0@ == authorization.0@
        &&& r is Err ==> *final(s) == *s && r->Err_0
            == UploadStoreError::AuthorizationIdentityMismatch
        &&& final(s).jobs == s.jobs
        &&& final(s).counts == s.counts
    } by {
        lemma_drained(*s);
        lemma_knows(*s, entries@[e].path@);
        lemma_captured_since(entries@[e], name, time, s.activation_at_unix_ms);
        let waiting = time is Some && time->0 >= s.activation_at_unix_ms && entries@[e].kind
            !is Other && !(entries@[e].path_is_utf8 && has_job_for(*s, entries@[e].path@));
        assert(awaits_reconciliation(*s, entries@[e]) <==> waiting);
        if entries@.len() == 1 && has_crash_gap(*s, entries@) {
            let i = choose|i: int|
                0 <= i < entries@.len() && awaits_reconciliation(*s, #[trigger] entries@[i]);
            assert(i == e);
        }
    }
}

proof fn lemma_unrecorded_path(
    store: UploadStore,
    entries: Seq<ReconcileEntry>,
    n: int,
    path: String,
)
    requires
        0 <= n <= entries.len(),
    ensures
        unrecorded_paths(store, entries, n).contains(path) <==> exists|i: int|
            0 <= i < n && (#[trigger] entries[i]).path == path && entry_class(store, entries[i])
                == EntryClass::Unrecorded,
    decreases n,
{
    if n > 0 {
        lemma_unrecorded_path(store, entries, n - 1, path);
        let before = unrecorded_paths(store, entries, n - 1);
        let all = unrecorded_paths(store, entries, n);
        if before.contains(path) {
            let at = choose|at: int| 0 <= at < before.len() && before[at] == path;
            assert(all[at] == path);
        }
        if entry_class(store, entries[n - 1]) == EntryClass::Unrecorded {
            assert(all.last() == entries[n - 1].path);
            if all.contains(path) && entries[n - 1].path != path {
                let at = choose|at: int| 0 <= at < all.len() && all[at] == path;
                assert(before[at] == path);
            }
        }
    }
}

proof fn lemma_same_paths(a: Seq<String>, b: Seq<String>, x: String)
    requires
        a.to_multiset() == b.to_multiset(),
    ensures
        a.contains(x) <==> b.contains(x),
{
    broadcast use vstd::seq_lib::group_to_multiset_ensures;

    assert(a.contains(x) <==> a.to_multiset().count(x) > 0);
    assert(b.contains(x) <==> b.to_multiset().count(x) > 0);
}

/// A scan examines every entry. It asks for each regular file whose name is read as a
/// time since the activation and whose path has no job, and for nothing else; what it
/// asks for and what is recorded already is eligible.
pub proof fn law_scan_asks_for_unknown_captures(
    store: &UploadStore,
    entries: &Vec<ReconcileEntry>,
    recorded_at_unix_ms: u64,
    e: int,
    name: &str,
    time: Option<u64>,
    r: Result<ReconcileScan, UploadStoreError>,
)
    requires
        call_ensures(
            UploadStore::scan_capture_directory,
            (store, entries, recorded_at_unix_ms),
            r,
        ),
        call_ensures(parse_generated_frame_filename, (name,), time),
        store.wf(),
        0 <= e < entries@.len(),
        entries@[e].file_name is Some,
        name@ == entries@[e].file_name->0@,
    ensures
        recorded_at_unix_ms > i64::MAX ==> r is Err,
        r matches Ok(scan) ==> {
            let unknown = time is Some && time->0 >= store.activation_at_unix_ms
                && entries@[e].path_is_utf8 && !has_job_for(*store, entries@[e].path@)
                && entries@[e].kind is RegularFile;
            &&& scan.result.examined == entries@.len()
            &&& scan.result.inserted == 0
            &&& scan.result.eligible == scan.result.already_recorded + scan.paths@.len()
            &&& unknown ==> scan.paths@.contains(entries@[e].path)
            &&& !unknown && (forall|i: int|
                0 <= i < entries@.len() && i != e ==> (#[trigger] entries@[i]).path
                    != entries@[e].path) ==> !scan.paths@.contains(entries@[e].path)
            &&& forall|p: int|
                0 <= p < scan.paths@.len() ==> exists|i: int|
                    0 <= i < entries@.len() && (#[trigger] entries@[i]).path
                        == #[trigger] scan.paths@[p] && entries@[i].kind is RegularFile
        },
{
    if let Ok(scan) = r {
        let n = entries@.len() as int;
        let found = unrecorded_paths(*store, entries@, n);
        order::law_ascending_keeps_all(found);
        lemma_knows(*store, entries@[e].path@);
        lemma_captured_since(entries@[e], name, time, store.activation_at_unix_ms);
        lemma_unrecorded_path(*store, entries@, n, entries@[e].path);
        lemma_same_paths(found, scan.paths@, entries@[e].path);
        assert forall|p: int| 0 <= p < scan.paths@.len() implies exists|i: int|
            0 <= i < entries@.len() && (#[trigger] entries@[i]).path == #[trigger] scan.paths@[p]
                && entries@[i].kind is RegularFile by {
            let path = scan.paths@[p];
            assert(scan.paths@.contains(path));
            lemma_unrecorded_path(*store, entries@, n, path);
            lemma_same_paths(found, scan.paths@, path);
            let i = choose|i: int|
                0 <= i < n && (#[trigger] entries@[i]).path == path && entry_class(
                    *store,
                    entries@[i],
                ) == EntryClass::Unrecorded;
            assert(entries@[i].path == scan.paths@[p] && entries@[i].kind is RegularFile);
        }
    }
}

/// What was inserted and what was known are counted apart, and neither overflows.
pub proof fn law_recordings_are_counted_apart(
    disposition: RecordDisposition,
    r: Result<(), UploadStoreError>,
)
    ensures
        forall|s: &mut ReconcileResult|
            #[trigger] call_ensures(ReconcileResult::count, (s, disposition), r) ==> {
                let full = if disposition is Inserted {
                    s.inserted == u64::MAX
                } else {
                    s.already_recorded == u64::MAX
                };
                &&& r is Err <==> full
                &&& r is Err ==> *final(s) == *s && r->Err_0
                    == UploadStoreError::ReconcileCountOverflow
                &&& r is Ok && disposition is Inserted ==> final(s).inserted == s.inserted + 1
                    && final(s).already_recorded == s.already_recorded
                &&& r is Ok && disposition is AlreadyRecorded ==> final(s).already_recorded
                    == s.already_recorded + 1 && final(s).inserted == s.inserted
                &&& final(s).examined == s.examined
                &&& final(s).eligible == s.eligible
            },
{
}

/// Whether an entry is a capture of the ledger's time that has a job.
pub open spec fn is_known_capture(store: UploadStore, entry: ReconcileEntry) -> bool {
    &&& captured_since(entry.file_name, store.activation_at_unix_ms)
    &&& entry.path_is_utf8
    &&& has_job_for(store, entry.path@)
}

proof fn lemma_recorded_entries(store: UploadStore, entries: Seq<ReconcileEntry>, n: int)
    requires
        0 <= n <= entries.len(),
    ensures
        recorded_entries(store, entries, n) == entries.take(n).filter(
            |entry: ReconcileEntry| is_known_capture(store, entry),
        ).len(),
    decreases n,
{
    reveal(Seq::filter);
    if n > 0 {
        lemma_recorded_entries(store, entries, n - 1);
        assert(entries.take(n).drop_last() =~= entries.take(n - 1));
        assert(entries.take(n).last() == entries[n - 1]);
        lemma_knows(store, entries[n - 1].path@);
    }
}

/// What a scan counts as recorded are the captures that have a job, and what it asks for
/// comes in the order of the paths.
pub proof fn law_scan_counts_known_captures(
    store: &UploadStore,
    entries: &Vec<ReconcileEntry>,
    recorded_at_unix_ms: u64,
    r: Result<ReconcileScan, UploadStoreError>,
    i: int,
    j: int,
)
    requires
        call_ensures(
            UploadStore::scan_capture_directory,
            (store, entries, recorded_at_unix_ms),
            r,
        ),
        store.wf(),
    ensures
        r matches Ok(scan) ==> scan.result.already_recorded == entries@.filter(
            |entry: ReconcileEntry| is_known_capture(*store, entry),
        ).len(),
        r matches Ok(scan) ==> (0 <= i < j < scan.paths@.len() ==> order::path_le(
            scan.paths@[i]@,
            scan.paths@[j]@,
        )),
{
    let n = entries@.len() as int;
    lemma_recorded_entries(*store, entries@, n);
    assert(entries@.take(n) =~= entries@);
    order::lemma_ascending(unrecorded_paths(*store, entries@, n));
}

/// A scan is refused for the first entry that refuses it: what follows makes no
/// difference.
pub proof fn law_first_refused_entry_refuses_the_scan(
    store: &UploadStore,
    entries: &Vec<ReconcileEntry>,
    more: &Vec<ReconcileEntry>,
    recorded_at_unix_ms: u64,
    r: Result<ReconcileScan, UploadStoreError>,
    s: Result<ReconcileScan, UploadStoreError>,
)
    requires
        call_ensures(
            UploadStore::scan_capture_directory,
            (store, entries, recorded_at_unix_ms),
            r,
        ),
        call_ensures(UploadStore::scan_capture_directory, (store, more, recorded_at_unix_ms), s),
        store.wf(),
        entries@.len() <= more@.len(),
        more@.take(entries@.len() as int) == entries@,
    ensures
        r is Err ==> s is Err && s->Err_0 == r->Err_0,
        s is Ok ==> r is Ok,
{
    if r is Err && upload_record::fits_i64(recorded_at_unix_ms) {
        let error = r->Err_0;
        let i = choose|i: int|
            {
                &&& 0 <= i < entries@.len()
                &&& entry_fault(*store, #[trigger] entries@[i]) == Some(error)
                &&& forall|j: int|
                    0 <= j < i ==> entry_fault(*store, #[trigger] entries@[j]) is None
            };
        assert(more@.take(entries@.len() as int)[i] == more@[i]);
        assert(entry_fault(*store, more@[i]) == Some(error));
        if s is Err {
            let other = s->Err_0;
            let k = choose|k: int|
                {
                    &&& 0 <= k < more@.len()
                    &&& entry_fault(*store, #[trigger] more@[k]) == Some(other)
                    &&& forall|j: int|
                        0 <= j < k ==> entry_fault(*store, #[trigger] more@[j]) is None
                };
            if k < i {
                assert(more@.take(entries@.len() as int)[k] == more@[k]);
                assert(entry_fault(*store, entries@[k]) is None);
            }
            assert(k == i);
        }
    }
}

} // verus!
