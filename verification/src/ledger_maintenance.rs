//! Offline maintenance of the upload ledger: verification, and migration from
//! the third to the fourth version of its schema.

use vstd::prelude::*;

use crate::digest;
use crate::hex;
use crate::hex::{parse_hex, push_hex};
use crate::ledger_rows;
use crate::ledger_rows::push_word;
use crate::ledger_schema;
use crate::ledger_schema::{
    v3_schema_sql, V3_SCHEMA_OBJECTS, V3_SCHEMA_SIGNATURE, V3_SCHEMA_VERSION,
};
use crate::path;
use crate::path::same_path;
use crate::random;
use crate::random::draw;
use crate::text::{chars_of, same_bytes, same_chars, same_text};
use crate::upload_record::UploadStoreError;
use crate::upload_schema;
use crate::upload_schema::{normalize_sql, APPLICATION_ID};

verus! {

broadcast use vstd::string::group_string_axioms;

/// The version of the schema that ledgers are migrated to.
pub const TARGET_SCHEMA_VERSION: i64 = 4;

/// Identifies one ledger among all of them.
#[derive(Clone, Copy, Debug, PartialEq, Eq)]
pub struct UploadLedgerId(pub [u8; 16]);

impl UploadLedgerId {
    /// The identity that a random source's answer stands for.
    pub fn from_source(source: Result<[u8; 16], getrandom::Error>) -> (r: Result<
        Self,
        LedgerMaintenanceError,
    >)
        ensures
            match source {
                Ok(bytes) => r == Ok::<Self, LedgerMaintenanceError>(UploadLedgerId(bytes)),
                Err(error) => r == Err::<Self, LedgerMaintenanceError>(
                    LedgerMaintenanceError::Random(error),
                ),
            },
    {
        match source {
            Ok(bytes) => Ok(UploadLedgerId(bytes)),
            Err(error) => Err(LedgerMaintenanceError::Random(error)),
        }
    }

    pub fn as_hex(self) -> (r: String)
        ensures
            r@ == hex::hex(self.0@),
    {
        let mut text = String::new();
        push_hex(&mut text, self.0.as_slice());
        assert(text@ =~= hex::hex(self.0@));
        text
    }

    /// Read an identity from bytes: exactly sixteen.
    pub fn from_bytes(bytes: &Vec<u8>) -> (r: Option<Self>)
        ensures
            match r {
                Some(id) => id.0@ == bytes@,
                None => bytes@.len() != 16,
            },
    {
        if bytes.len() != 16 {
            return None;
        }
        let mut id: [u8; 16] = [0u8; 16];
        let mut i: usize = 0;
        while i < 16
            invariant
                i <= 16,
                bytes@.len() == 16,
                forall|k: int| 0 <= k < i ==> id@[k] == bytes@[k],
            decreases 16 - i,
        {
            id[i] = bytes[i];
            i = i + 1;
        }
        assert(id@ =~= bytes@);
        Some(UploadLedgerId(id))
    }
}

/// A path that maintenance inspects.
#[derive(Clone, Copy, Debug, PartialEq, Eq, Structural)]
pub enum LedgerPathKind {
    ActiveLedger,
    Archive,
    RetiredLedger,
    GeneratedCapture,
}

/// How an earlier archive was left.
#[derive(Clone, Copy, Debug, PartialEq, Eq, Structural)]
pub enum PartialArchive {
    /// Archive and retired ledger are complete, but an active one exists too.
    ActiveBesideCompleted,
    /// A retired ledger exists without its verified archive.
    RetiredWithoutArchive,
    /// An archive exists, but both active and retired ledgers are absent.
    ArchiveAlone,
    ActiveAbsent,
    ArtifactMissing,
    /// Archive and retired ledger hold different contents.
    RetiredDiffers,
    /// The backup does not hold what the active ledger holds.
    BackupDiffers,
}

/// Why maintenance was refused.
#[derive(Debug)]
pub enum LedgerMaintenanceError {
    Lease(LedgerLeaseError),
    Random(getrandom::Error),
    Store(UploadStoreError),
    UnsupportedSchema { found: i64 },
    InvalidV3Schema,
    Integrity(String),
    CaptureRootMismatch,
    InvalidExpectedLedgerId,
    LedgerIdMismatch { expected: UploadLedgerId, actual: UploadLedgerId },
    LiveWork { count: u64 },
    PermanentFailures { count: u64 },
    CrashGap { path: String },
    UnsafePath { kind: LedgerPathKind, path: String },
    PartialArchive(PartialArchive),
    ActiveChangedAfterArchive,
    CheckpointBusy,
    JournalMode(String),
    SidecarPresent(String),
}

/// Why the lifecycle lease of a ledger was not acquired.
#[derive(Debug, PartialEq, Eq)]
pub enum LedgerLeaseError {
    /// Offline maintenance holds the ledger.
    MaintenanceActive { database: String },
    /// An agent holds the ledger.
    AgentActive,
    Lock { path: String },
}

/// What an attempt to lock the maintenance marker came to.
#[derive(Clone, Copy, Debug, PartialEq, Eq, Structural)]
pub enum LockOutcome {
    Acquired,
    WouldBlock,
    Failed,
}

/// Agents share the lease and maintenance holds it alone, so that whoever is
/// refused knows who is there.
pub fn lease_result(outcome: LockOutcome, exclusive: bool, database: &str, marker: &str) -> (r:
    Result<(), LedgerLeaseError>)
    ensures
        match outcome {
            LockOutcome::Acquired => r is Ok,
            LockOutcome::WouldBlock => if exclusive {
                r == Err::<(), LedgerLeaseError>(LedgerLeaseError::AgentActive)
            } else {
                r matches Err(LedgerLeaseError::MaintenanceActive { database: held }) && held@
                    == database@
            },
            LockOutcome::Failed => r matches Err(LedgerLeaseError::Lock { path }) && path@
                == marker@,
        },
{
    match outcome {
        LockOutcome::Acquired => Ok(()),
        LockOutcome::WouldBlock => {
            if exclusive {
                Err(LedgerLeaseError::AgentActive)
            } else {
                Err(LedgerLeaseError::MaintenanceActive { database: database.to_owned() })
            }
        },
        LockOutcome::Failed => Err(LedgerLeaseError::Lock { path: marker.to_owned() }),
    }
}

/// The file that the lifecycle lease locks.
pub fn maintenance_marker_path(database: &str) -> (r: String)
    ensures
        r@ == database@ + ".maintenance.lock"@,
{
    let mut path = database.to_owned();
    path.append(".maintenance.lock");
    path
}

/// How many jobs the metadata says are in each state.
#[derive(Clone, Copy, Debug, PartialEq, Eq, Structural)]
pub struct StoredCounts {
    pub pending: i64,
    pub in_progress: i64,
    pub retrying: i64,
    pub completed: i64,
    pub permanently_failed: i64,
}

/// What the fourth version adds to a job.
#[derive(Clone, Copy, Debug, PartialEq, Eq)]
pub struct JobExtension {
    pub delivery_binding: [u8; 32],
    pub job_revision: i64,
    pub requeue_count: i64,
    pub last_requeued_at_ms: Option<i64>,
}

/// A job as it is stored.
#[derive(Debug)]
pub struct LedgerJob {
    pub id: i64,
    pub artifact_path: String,
    pub filename: String,
    pub idempotency_key: String,
    pub file_size: i64,
    pub sha256: Vec<u8>,
    pub state: String,
    pub attempt_count: i64,
    pub next_attempt_at_ms: Option<i64>,
    pub last_http_status: Option<i64>,
    pub last_error: Option<String>,
    pub created_at_ms: i64,
    pub updated_at_ms: i64,
    pub completed_at_ms: Option<i64>,
    pub last_failure_at_ms: Option<i64>,
    pub extension: Option<JobExtension>,
}

/// The metadata of a ledger as it is stored. The third version has neither an
/// identity nor a revision.
#[derive(Debug)]
pub struct LedgerMetadata {
    pub schema_signature: String,
    pub capture_root: String,
    pub destination: String,
    pub authorization: Vec<u8>,
    pub ledger_id: Vec<u8>,
    pub ledger_revision: i64,
    pub counts: StoredCounts,
    pub last_success_at_ms: Option<i64>,
    pub last_failure_at_ms: Option<i64>,
    pub last_error: Option<String>,
}

/// What was read of a ledger, and the capture directory that it is to belong to.
/// `objects` holds the statement of each expected schema object in order.
#[derive(Debug)]
pub struct MaintainedLedger {
    pub integrity: String,
    pub application_id: i64,
    pub version: i64,
    pub object_count: i64,
    pub objects: Vec<Option<String>>,
    pub configured_root: String,
    pub metadata: LedgerMetadata,
    pub jobs: Vec<LedgerJob>,
    pub preactivation: Vec<String>,
}

/// The schema that ledgers are migrated to: its signature, the statement of each
/// object in order, and what sets its delivery bindings apart.
#[derive(Debug)]
pub struct TargetSchema {
    pub signature: String,
    pub objects: Vec<String>,
    pub delivery_binding_domain: Vec<u8>,
}

/// How many jobs are in a state.
pub open spec fn jobs_in(jobs: Seq<LedgerJob>, state: Seq<char>) -> nat
    decreases jobs.len(),
{
    if jobs.len() == 0 {
        0
    } else {
        jobs_in(jobs.drop_last(), state) + if jobs.last().state@ == state {
            1nat
        } else {
            0nat
        }
    }
}

/// Count the jobs in a state.
pub fn count_jobs(jobs: &Vec<LedgerJob>, state: &str) -> (r: u64)
    ensures
        r == jobs_in(jobs@, state@),
{
    let mut count: u64 = 0;
    let mut i: usize = 0;
    while i < jobs.len()
        invariant
            i <= jobs.len(),
            count == jobs_in(jobs@.take(i as int), state@),
            count <= i,
        decreases jobs.len() - i,
    {
        proof {
            assert(jobs@.take(i + 1).drop_last() =~= jobs@.take(i as int));
        }
        if same_text(jobs[i].state.as_str(), state) {
            count = count + 1;
        }
        i = i + 1;
    }
    assert(jobs@.take(i as int) =~= jobs@);
    count
}

/// Whether the metadata counts the jobs as they are.
pub open spec fn counts_agree(counts: StoredCounts, jobs: Seq<LedgerJob>) -> bool {
    &&& counts.pending == jobs_in(jobs, "pending"@)
    &&& counts.in_progress == jobs_in(jobs, "in_progress"@)
    &&& counts.retrying == jobs_in(jobs, "retrying"@)
    &&& counts.completed == jobs_in(jobs, "completed"@)
    &&& counts.permanently_failed == jobs_in(jobs, "permanently_failed"@)
}

fn count_is(stored: i64, jobs: &Vec<LedgerJob>, state: &str) -> (r: bool)
    ensures
        r == (stored == jobs_in(jobs@, state@)),
{
    let count: u64 = count_jobs(jobs, state);
    stored >= 0 && stored as u64 == count
}

/// Whether the stored counts are those of the jobs.
pub fn verify_aggregate_counts(counts: &StoredCounts, jobs: &Vec<LedgerJob>) -> (r: bool)
    ensures
        r == counts_agree(*counts, jobs@),
{
    count_is(counts.pending, jobs, "pending") && count_is(counts.in_progress, jobs, "in_progress")
        && count_is(counts.retrying, jobs, "retrying") && count_is(
        counts.completed,
        jobs,
        "completed",
    ) && count_is(counts.permanently_failed, jobs, "permanently_failed")
}

/// Whether the stored statement of an object is the expected one, up to
/// whitespace.
pub open spec fn object_matches(object: Option<String>, expected: Seq<char>) -> bool {
    object matches Some(sql) && upload_schema::normalized_sql(sql@)
        == upload_schema::normalized_sql(expected)
}

fn check_object(object: &Option<String>, expected: &str) -> (r: bool)
    ensures
        r == object_matches(*object, expected@),
{
    match object {
        Some(sql) => {
            let actual = normalize_sql(sql.as_str());
            let wanted = normalize_sql(expected);
            same_chars(actual.as_slice(), wanted.as_slice())
        },
        None => false,
    }
}

/// Whether a database holds exactly the objects of the third version.
pub open spec fn has_v3_objects(ledger: MaintainedLedger) -> bool {
    &&& ledger.object_count == V3_SCHEMA_OBJECTS
    &&& forall|i: int|
        0 <= i < V3_SCHEMA_OBJECTS ==> object_matches(
            #[trigger] ledger.objects@[i],
            ledger_schema::v3_expected_sql(i),
        )
}

/// Whether the stored capture directory is the configured one.
pub open spec fn belongs(ledger: MaintainedLedger) -> bool {
    path::path_key(ledger.metadata.capture_root@) == path::path_key(ledger.configured_root@)
}

/// Why one object is not as the schema has it, if it is not.
pub open spec fn object_fault(object: Option<String>, expected: Seq<char>) -> Option<
    UploadStoreError,
> {
    if object is None {
        Some(UploadStoreError::MissingSchema)
    } else if !object_matches(object, expected) {
        Some(UploadStoreError::InvalidSchema)
    } else {
        None
    }
}

/// The first fault among the first `n` objects of the target schema.
pub open spec fn target_objects_fault(
    ledger: MaintainedLedger,
    target: TargetSchema,
    n: int,
) -> Option<UploadStoreError>
    decreases n,
{
    if n <= 0 {
        None
    } else {
        match target_objects_fault(ledger, target, n - 1) {
            Some(error) => Some(error),
            None => object_fault(ledger.objects@[n - 1], target.objects@[n - 1]@),
        }
    }
}

/// Why a database does not have the target schema, if it does not.
pub open spec fn target_schema_fault(ledger: MaintainedLedger, target: TargetSchema) -> Option<
    UploadStoreError,
> {
    let n = target.objects@.len() as int;
    if ledger.application_id != APPLICATION_ID || ledger.object_count != n {
        Some(UploadStoreError::InvalidSchema)
    } else if target_objects_fault(ledger, target, n) is Some {
        target_objects_fault(ledger, target, n)
    } else if ledger.metadata.schema_signature@ != target.signature@ {
        Some(UploadStoreError::InvalidSchema)
    } else {
        None
    }
}

proof fn lemma_later_fault(ledger: MaintainedLedger, target: TargetSchema, i: int, n: int)
    requires
        0 <= i <= n,
        target_objects_fault(ledger, target, i) is Some,
    ensures
        target_objects_fault(ledger, target, n) == target_objects_fault(ledger, target, i),
    decreases n,
{
    if i < n {
        lemma_later_fault(ledger, target, i, n - 1);
    }
}

fn check_v3_objects(ledger: &MaintainedLedger) -> (r: bool)
    requires
        ledger.objects@.len() == V3_SCHEMA_OBJECTS,
    ensures
        r == has_v3_objects(*ledger),
{
    if ledger.object_count != V3_SCHEMA_OBJECTS as i64 {
        return false;
    }
    let mut i: usize = 0;
    while i < V3_SCHEMA_OBJECTS
        invariant
            i <= V3_SCHEMA_OBJECTS,
            ledger.objects@.len() == V3_SCHEMA_OBJECTS,
            ledger.object_count == V3_SCHEMA_OBJECTS,
            forall|j: int|
                0 <= j < i ==> object_matches(
                    #[trigger] ledger.objects@[j],
                    ledger_schema::v3_expected_sql(j),
                ),
        decreases V3_SCHEMA_OBJECTS - i,
    {
        if !check_object(&ledger.objects[i], v3_schema_sql(i)) {
            assert(!object_matches(
                ledger.objects@[i as int],
                ledger_schema::v3_expected_sql(i as int),
            ));
            return false;
        }
        i = i + 1;
    }
    true
}

fn check_target_schema(ledger: &MaintainedLedger, target: &TargetSchema) -> (r: Result<
    (),
    UploadStoreError,
>)
    requires
        ledger.objects@.len() == target.objects@.len(),
    ensures
        r == (match target_schema_fault(*ledger, *target) {
            Some(error) => Err::<(), UploadStoreError>(error),
            None => Ok::<(), UploadStoreError>(()),
        }),
{
    if ledger.application_id != APPLICATION_ID || ledger.object_count < 0
        || ledger.object_count as u64 != target.objects.len() as u64 {
        return Err(UploadStoreError::InvalidSchema);
    }
    let mut i: usize = 0;
    while i < target.objects.len()
        invariant
            i <= target.objects.len(),
            ledger.objects@.len() == target.objects@.len(),
            ledger.application_id == APPLICATION_ID,
            ledger.object_count == target.objects@.len(),
            target_objects_fault(*ledger, *target, i as int) is None,
        decreases target.objects.len() - i,
    {
        let ghost n = target.objects@.len() as int;
        if ledger.objects[i].is_none() {
            proof {
                lemma_later_fault(*ledger, *target, i + 1, n);
            }
            return Err(UploadStoreError::MissingSchema);
        }
        if !check_object(&ledger.objects[i], target.objects[i].as_str()) {
            proof {
                lemma_later_fault(*ledger, *target, i + 1, n);
            }
            return Err(UploadStoreError::InvalidSchema);
        }
        i = i + 1;
    }
    if !same_text(ledger.metadata.schema_signature.as_str(), target.signature.as_str()) {
        return Err(UploadStoreError::InvalidSchema);
    }
    Ok(())
}

/// Why a ledger is not one of the exact third version, if it is not.
pub open spec fn v3_fault(ledger: MaintainedLedger) -> Option<LedgerMaintenanceError> {
    if ledger.integrity@ != "ok"@ {
        Some(LedgerMaintenanceError::Integrity(ledger.integrity))
    } else if ledger.application_id != APPLICATION_ID || !has_v3_objects(ledger)
        || ledger.metadata.authorization@.len() != 32 || ledger.metadata.schema_signature@
        != V3_SCHEMA_SIGNATURE@ {
        Some(LedgerMaintenanceError::InvalidV3Schema)
    } else if !belongs(ledger) {
        Some(LedgerMaintenanceError::CaptureRootMismatch)
    } else if !counts_agree(ledger.metadata.counts, ledger.jobs@) {
        Some(LedgerMaintenanceError::InvalidV3Schema)
    } else {
        None
    }
}

/// Check that a ledger is one of the exact third version, and belongs to the
/// configured capture directory.
pub fn verify_v3(ledger: &MaintainedLedger) -> (r: Result<(), LedgerMaintenanceError>)
    requires
        ledger.objects@.len() == V3_SCHEMA_OBJECTS,
    ensures
        r == (match v3_fault(*ledger) {
            Some(error) => Err::<(), LedgerMaintenanceError>(error),
            None => Ok::<(), LedgerMaintenanceError>(()),
        }),
{
    if !same_text(ledger.integrity.as_str(), "ok") {
        return Err(LedgerMaintenanceError::Integrity(ledger.integrity.clone()));
    }
    if ledger.application_id != APPLICATION_ID {
        return Err(LedgerMaintenanceError::InvalidV3Schema);
    }
    if !check_v3_objects(ledger) {
        return Err(LedgerMaintenanceError::InvalidV3Schema);
    }
    if ledger.metadata.authorization.len() != 32 {
        return Err(LedgerMaintenanceError::InvalidV3Schema);
    }
    if !same_text(ledger.metadata.schema_signature.as_str(), V3_SCHEMA_SIGNATURE) {
        return Err(LedgerMaintenanceError::InvalidV3Schema);
    }
    if !same_path(ledger.metadata.capture_root.as_str(), ledger.configured_root.as_str()) {
        return Err(LedgerMaintenanceError::CaptureRootMismatch);
    }
    if !verify_aggregate_counts(&ledger.metadata.counts, &ledger.jobs) {
        return Err(LedgerMaintenanceError::InvalidV3Schema);
    }
    Ok(())
}

/// Why a ledger is not one of the target schema, if it is not.
pub open spec fn v4_fault(ledger: MaintainedLedger, target: TargetSchema) -> Option<
    LedgerMaintenanceError,
> {
    if ledger.integrity@ != "ok"@ {
        Some(LedgerMaintenanceError::Integrity(ledger.integrity))
    } else if !belongs(ledger) {
        Some(LedgerMaintenanceError::CaptureRootMismatch)
    } else if target_schema_fault(ledger, target) is Some {
        Some(LedgerMaintenanceError::Store(target_schema_fault(ledger, target)->0))
    } else if !counts_agree(ledger.metadata.counts, ledger.jobs@)
        || ledger.metadata.ledger_id@.len() != 16 {
        Some(LedgerMaintenanceError::Store(UploadStoreError::InvalidSchema))
    } else {
        None
    }
}

/// Check that a ledger is one of the target schema and belongs to the configured
/// capture directory; its identity.
pub fn verify_v4(ledger: &MaintainedLedger, target: &TargetSchema) -> (r: Result<
    UploadLedgerId,
    LedgerMaintenanceError,
>)
    requires
        ledger.objects@.len() == target.objects@.len(),
    ensures
        match v4_fault(*ledger, *target) {
            Some(error) => r == Err::<UploadLedgerId, LedgerMaintenanceError>(error),
            None => r matches Ok(id) && id.0@ == ledger.metadata.ledger_id@,
        },
{
    if !same_text(ledger.integrity.as_str(), "ok") {
        return Err(LedgerMaintenanceError::Integrity(ledger.integrity.clone()));
    }
    if !same_path(ledger.metadata.capture_root.as_str(), ledger.configured_root.as_str()) {
        return Err(LedgerMaintenanceError::CaptureRootMismatch);
    }
    if let Err(error) = check_target_schema(ledger, target) {
        return Err(LedgerMaintenanceError::Store(error));
    }
    if !verify_aggregate_counts(&ledger.metadata.counts, &ledger.jobs) {
        return Err(LedgerMaintenanceError::Store(UploadStoreError::InvalidSchema));
    }
    match UploadLedgerId::from_bytes(&ledger.metadata.ledger_id) {
        Some(id) => Ok(id),
        None => Err(LedgerMaintenanceError::Store(UploadStoreError::InvalidSchema)),
    }
}

/// The bytes whose digest binds a job to its destination and authorization.
pub open spec fn binding_preimage(
    domain: Seq<u8>,
    destination: Seq<char>,
    authorization: Seq<u8>,
) -> Seq<u8> {
    let bytes = vstd::utf8::encode_utf8(destination);
    domain + ledger_rows::word(bytes.len() as int) + bytes + authorization
}

pub fn delivery_binding(domain: &Vec<u8>, destination: &str, authorization: &Vec<u8>) -> (r: [u8;
    32])
    ensures
        r@ == digest::sha256_digest(
            binding_preimage(domain@, destination@, authorization@),
        ),
{
    let bytes = destination.as_bytes();
    let mut preimage: Vec<u8> = Vec::new();
    preimage.extend_from_slice(domain.as_slice());
    push_word(&mut preimage, bytes.len() as u64);
    preimage.extend_from_slice(bytes);
    preimage.extend_from_slice(authorization.as_slice());
    assert(preimage@ =~= binding_preimage(domain@, destination@, authorization@));
    digest::sha256(preimage.as_slice())
}

/// The bytes behind a delivery binding determine destination and authorization.
pub proof fn law_binding_preimage_is_injective(
    domain: Seq<u8>,
    destination_a: Seq<char>,
    authorization_a: Seq<u8>,
    destination_b: Seq<char>,
    authorization_b: Seq<u8>,
)
    requires
        vstd::utf8::encode_utf8(destination_a).len() <= u64::MAX,
        vstd::utf8::encode_utf8(destination_b).len() <= u64::MAX,
        binding_preimage(domain, destination_a, authorization_a) == binding_preimage(
            domain,
            destination_b,
            authorization_b,
        ),
    ensures
        destination_a == destination_b,
        authorization_a == authorization_b,
{
    let a = vstd::utf8::encode_utf8(destination_a);
    let b = vstd::utf8::encode_utf8(destination_b);
    let left = binding_preimage(domain, destination_a, authorization_a);
    let right = binding_preimage(domain, destination_b, authorization_b);
    assert(left.skip(domain.len() as int) =~= ledger_rows::word(a.len() as int) + a
        + authorization_a);
    assert(right.skip(domain.len() as int) =~= ledger_rows::word(b.len() as int) + b
        + authorization_b);
    ledger_rows::lemma_block_prefix(a, b, authorization_a, authorization_b);
    vstd::utf8::encode_utf8_decode_utf8(destination_a);
    vstd::utf8::encode_utf8_decode_utf8(destination_b);
}

/// A migrated job: all that was stored, bound to the ledger's delivery, in its
/// first revision and never requeued.
pub open spec fn is_migrated_job(old_job: LedgerJob, new_job: LedgerJob, binding: Seq<u8>) -> bool {
    &&& new_job == LedgerJob { extension: new_job.extension, ..old_job }
    &&& new_job.extension matches Some(extension) && extension.delivery_binding@ == binding
        && extension.job_revision == 1 && extension.requeue_count == 0
        && extension.last_requeued_at_ms is None
}

/// A migrated ledger: everything that was stored, under a new identity and in
/// the target schema.
pub open spec fn is_migrated(
    before: MaintainedLedger,
    after: MaintainedLedger,
    id: Seq<u8>,
    target: TargetSchema,
) -> bool {
    let binding = ledger_binding(before.metadata, target);
    &&& after.integrity == before.integrity
    &&& after.application_id == APPLICATION_ID
    &&& after.version == TARGET_SCHEMA_VERSION
    &&& after.object_count == target.objects@.len()
    &&& after.objects@.len() == target.objects@.len()
    &&& forall|i: int|
        0 <= i < target.objects@.len() ==> #[trigger] after.objects@[i] == Some(target.objects@[i])
    &&& after.configured_root == before.configured_root
    &&& after.metadata.schema_signature@ == target.signature@
    &&& after.metadata.ledger_id@ == id
    &&& after.metadata.ledger_revision == before.jobs@.len()
    &&& after.metadata == LedgerMetadata {
        schema_signature: after.metadata.schema_signature,
        ledger_id: after.metadata.ledger_id,
        ledger_revision: after.metadata.ledger_revision,
        ..before.metadata
    }
    &&& after.jobs@.len() == before.jobs@.len()
    &&& forall|i: int|
        0 <= i < before.jobs@.len() ==> is_migrated_job(
            before.jobs@[i],
            #[trigger] after.jobs@[i],
            binding,
        )
    &&& after.preactivation == before.preactivation
}

fn extend_jobs(jobs: Vec<LedgerJob>, binding: [u8; 32]) -> (r: Vec<LedgerJob>)
    ensures
        r@.len() == jobs@.len(),
        forall|i: int|
            0 <= i < jobs@.len() ==> is_migrated_job(jobs@[i], #[trigger] r@[i], binding@),
{
    let mut extended: Vec<LedgerJob> = Vec::new();
    let ghost all = jobs@;
    for job in it: jobs
        invariant
            it.seq() == all,
            extended@.len() == it.index(),
            forall|i: int|
                0 <= i < it.index() ==> is_migrated_job(all[i], #[trigger] extended@[i], binding@),
    {
        let mut next = job;
        next.extension = Some(
            JobExtension {
                delivery_binding: binding,
                job_revision: 1,
                requeue_count: 0,
                last_requeued_at_ms: None,
            },
        );
        extended.push(next);
    }
    extended
}

fn wanted_objects(objects: &Vec<String>) -> (r: Vec<Option<String>>)
    ensures
        r@.len() == objects@.len(),
        forall|i: int| 0 <= i < objects@.len() ==> #[trigger] r@[i] == Some(objects@[i]),
{
    let mut wanted: Vec<Option<String>> = Vec::new();
    let mut i: usize = 0;
    while i < objects.len()
        invariant
            i <= objects.len(),
            wanted@.len() == i,
            forall|j: int| 0 <= j < i ==> #[trigger] wanted@[j] == Some(objects@[j]),
        decreases objects.len() - i,
    {
        wanted.push(Some(objects[i].clone()));
        i = i + 1;
    }
    wanted
}

/// What a verified ledger of the third version becomes under a new identity.
pub fn migrate_v3_to_v4(ledger: MaintainedLedger, id: UploadLedgerId, target: &TargetSchema) -> (r:
    MaintainedLedger)
    requires
        ledger.jobs@.len() <= i64::MAX,
        target.objects@.len() <= i64::MAX,
    ensures
        is_migrated(ledger, r, id.0@, *target),
{
    let binding = delivery_binding(
        &target.delivery_binding_domain,
        ledger.metadata.destination.as_str(),
        &ledger.metadata.authorization,
    );
    let revision: i64 = ledger.jobs.len() as i64;
    let mut metadata = ledger.metadata;
    metadata.schema_signature = target.signature.clone();
    let mut ledger_id: Vec<u8> = Vec::new();
    ledger_id.extend_from_slice(id.0.as_slice());
    assert(ledger_id@ =~= id.0@);
    metadata.ledger_id = ledger_id;
    metadata.ledger_revision = revision;
    MaintainedLedger {
        integrity: ledger.integrity,
        application_id: APPLICATION_ID,
        version: TARGET_SCHEMA_VERSION,
        object_count: target.objects.len() as i64,
        objects: wanted_objects(&target.objects),
        configured_root: ledger.configured_root,
        metadata,
        jobs: extend_jobs(ledger.jobs, binding),
        preactivation: ledger.preactivation,
    }
}

proof fn lemma_same_states(a: Seq<LedgerJob>, b: Seq<LedgerJob>, state: Seq<char>)
    requires
        a.len() == b.len(),
        forall|i: int| 0 <= i < a.len() ==> a[i].state == (#[trigger] b[i]).state,
    ensures
        jobs_in(a, state) == jobs_in(b, state),
    decreases a.len(),
{
    if a.len() > 0 {
        assert(a[a.len() - 1].state == b[b.len() - 1].state);
        assert forall|i: int| 0 <= i < a.drop_last().len() implies a.drop_last()[i].state == (
        #[trigger] b.drop_last()[i]).state by {
            assert(a[i].state == b[i].state);
        }
        lemma_same_states(a.drop_last(), b.drop_last(), state);
    }
}

proof fn lemma_wanted_objects(
    ledger: MaintainedLedger,
    target: TargetSchema,
    n: int,
)
    requires
        n <= target.objects@.len(),
        forall|i: int|
            0 <= i < target.objects@.len() ==> #[trigger] ledger.objects@[i] == Some(
                target.objects@[i],
            ),
    ensures
        target_objects_fault(ledger, target, n) is None,
    decreases n,
{
    if n > 0 {
        lemma_wanted_objects(ledger, target, n - 1);
        assert(ledger.objects@[n - 1] == Some(target.objects@[n - 1]));
    }
}

/// A ledger that passed verification of the third version passes that of the
/// target schema once it is migrated.
pub proof fn law_migrated_ledger_verifies(
    before: MaintainedLedger,
    after: MaintainedLedger,
    id: Seq<u8>,
    target: TargetSchema,
)
    requires
        v3_fault(before) is None,
        id.len() == 16,
        is_migrated(before, after, id, target),
    ensures
        v4_fault(after, target) is None,
{
    assert forall|i: int| 0 <= i < before.jobs@.len() implies before.jobs@[i].state == (
    #[trigger] after.jobs@[i]).state by {}
    lemma_wanted_objects(after, target, target.objects@.len() as int);
    lemma_same_states(before.jobs@, after.jobs@, "pending"@);
    lemma_same_states(before.jobs@, after.jobs@, "in_progress"@);
    lemma_same_states(before.jobs@, after.jobs@, "retrying"@);
    lemma_same_states(before.jobs@, after.jobs@, "completed"@);
    lemma_same_states(before.jobs@, after.jobs@, "permanently_failed"@);
}

/// Whether a job carries a delivery binding.
pub open spec fn is_bound(job: LedgerJob, binding: Seq<u8>) -> bool {
    job.extension matches Some(extension) && extension.delivery_binding@ == binding
}

/// The delivery binding of the jobs of a ledger.
pub open spec fn ledger_binding(metadata: LedgerMetadata, target: TargetSchema) -> Seq<u8> {
    digest::sha256_digest(
        binding_preimage(
            target.delivery_binding_domain@,
            metadata.destination@,
            metadata.authorization@,
        ),
    )
}

/// Why what was written of a migrated ledger must be taken back, if it must:
/// it has to be of the target schema and of the same directory and destination,
/// with counts that agree with its jobs, the new identity, and no job that is bound
/// to another delivery.
pub open spec fn written_fault(
    written: MaintainedLedger,
    migrated: MaintainedLedger,
    target: TargetSchema,
) -> Option<UploadStoreError> {
    if target_schema_fault(written, target) is Some {
        target_schema_fault(written, target)
    } else if written.metadata.capture_root@ != migrated.metadata.capture_root@ {
        Some(UploadStoreError::CaptureRootMismatch)
    } else if written.metadata.destination@ != migrated.metadata.destination@ {
        Some(UploadStoreError::DestinationMismatch)
    } else if !counts_agree(written.metadata.counts, written.jobs@)
        || written.metadata.ledger_id@ != migrated.metadata.ledger_id@ || exists|i: int|
        0 <= i < written.jobs@.len() && !is_bound(
            #[trigger] written.jobs@[i],
            ledger_binding(migrated.metadata, target),
        ) {
        Some(UploadStoreError::InvalidSchema)
    } else {
        None
    }
}

fn all_bound(jobs: &Vec<LedgerJob>, binding: &[u8; 32]) -> (r: bool)
    ensures
        r == forall|i: int| 0 <= i < jobs@.len() ==> is_bound(#[trigger] jobs@[i], binding@),
{
    let mut i: usize = 0;
    while i < jobs.len()
        invariant
            i <= jobs.len(),
            forall|k: int| 0 <= k < i ==> is_bound(#[trigger] jobs@[k], binding@),
        decreases jobs.len() - i,
    {
        let bound = match &jobs[i].extension {
            Some(extension) => same_bytes(
                extension.delivery_binding.as_slice(),
                binding.as_slice(),
            ),
            None => false,
        };
        assert(bound == is_bound(jobs@[i as int], binding@));
        if !bound {
            return false;
        }
        i = i + 1;
    }
    true
}

/// Decide, while it can still be taken back, whether what was written of a
/// migrated ledger may stay.
pub fn verify_migrated(
    written: &MaintainedLedger,
    migrated: &MaintainedLedger,
    target: &TargetSchema,
) -> (r: Result<(), LedgerMaintenanceError>)
    requires
        written.objects@.len() == target.objects@.len(),
    ensures
        r == (match written_fault(*written, *migrated, *target) {
            Some(error) => Err::<(), LedgerMaintenanceError>(LedgerMaintenanceError::Store(error)),
            None => Ok::<(), LedgerMaintenanceError>(()),
        }),
{
    match check_target_schema(written, target) {
        Ok(()) => {},
        Err(error) => {
            return Err(LedgerMaintenanceError::Store(error));
        },
    }
    if !same_text(
        written.metadata.capture_root.as_str(),
        migrated.metadata.capture_root.as_str(),
    ) {
        return Err(LedgerMaintenanceError::Store(UploadStoreError::CaptureRootMismatch));
    }
    if !same_text(
        written.metadata.destination.as_str(),
        migrated.metadata.destination.as_str(),
    ) {
        return Err(LedgerMaintenanceError::Store(UploadStoreError::DestinationMismatch));
    }
    let binding = delivery_binding(
        &target.delivery_binding_domain,
        migrated.metadata.destination.as_str(),
        &migrated.metadata.authorization,
    );
    if !verify_aggregate_counts(&written.metadata.counts, &written.jobs) || !same_bytes(
        written.metadata.ledger_id.as_slice(),
        migrated.metadata.ledger_id.as_slice(),
    ) || !all_bound(&written.jobs, &binding) {
        return Err(LedgerMaintenanceError::Store(UploadStoreError::InvalidSchema));
    }
    Ok(())
}

/// A ledger that is read back as it was migrated may stay.
pub proof fn law_migrated_ledger_stays(
    before: MaintainedLedger,
    after: MaintainedLedger,
    id: Seq<u8>,
    target: TargetSchema,
)
    requires
        v3_fault(before) is None,
        id.len() == 16,
        is_migrated(before, after, id, target),
    ensures
        written_fault(after, after, target) is None,
{
    law_migrated_ledger_verifies(before, after, id, target);
    assert forall|i: int| 0 <= i < after.jobs@.len() implies is_bound(
        #[trigger] after.jobs@[i],
        ledger_binding(after.metadata, target),
    ) by {
        assert(is_migrated_job(
            before.jobs@[i],
            after.jobs@[i],
            ledger_binding(before.metadata, target),
        ));
    }
}

/// What a migration did.
#[derive(Debug, PartialEq, Eq)]
pub struct LedgerMigrationReport {
    pub database_path: String,
    pub ledger_id: String,
    pub migrated: bool,
}

/// What a migration did, and the ledger to store in place of the old one.
#[derive(Debug)]
pub struct LedgerMigration {
    pub report: LedgerMigrationReport,
    pub migrated: Option<MaintainedLedger>,
}

/// The number of schema objects that are read of a database of this version.
pub open spec fn objects_read(version: i64, target: TargetSchema) -> nat {
    if version == V3_SCHEMA_VERSION {
        V3_SCHEMA_OBJECTS as nat
    } else {
        target.objects@.len()
    }
}

/// Whether a migration came out as it has to for a ledger and the identity that
/// was drawn.
pub open spec fn is_migration(
    r: Result<LedgerMigration, LedgerMaintenanceError>,
    database_path: String,
    ledger: MaintainedLedger,
    target: TargetSchema,
    source: Result<[u8; 16], getrandom::Error>,
) -> bool {
    if ledger.version == V3_SCHEMA_VERSION {
        if v3_fault(ledger) is Some {
            r == Err::<LedgerMigration, LedgerMaintenanceError>(v3_fault(ledger)->0)
        } else {
            match source {
                Err(error) => r == Err::<LedgerMigration, LedgerMaintenanceError>(
                    LedgerMaintenanceError::Random(error),
                ),
                Ok(id) => {
                    &&& r is Ok
                    &&& r->Ok_0.report.database_path == database_path
                    &&& r->Ok_0.report.ledger_id@ == hex::hex(id@)
                    &&& r->Ok_0.report.migrated
                    &&& r->Ok_0.migrated is Some
                    &&& is_migrated(ledger, r->Ok_0.migrated->0, id@, target)
                },
            }
        }
    } else if ledger.version == TARGET_SCHEMA_VERSION {
        if v4_fault(ledger, target) is Some {
            r == Err::<LedgerMigration, LedgerMaintenanceError>(v4_fault(ledger, target)->0)
        } else {
            &&& r is Ok
            &&& r->Ok_0.report.database_path == database_path
            &&& r->Ok_0.report.ledger_id@ == hex::hex(ledger.metadata.ledger_id@)
            &&& !r->Ok_0.report.migrated
            &&& r->Ok_0.migrated is None
        }
    } else {
        r == Err::<LedgerMigration, LedgerMaintenanceError>(
            LedgerMaintenanceError::UnsupportedSchema { found: ledger.version },
        )
    }
}

/// Migrate a ledger of the exact third version under a fresh identity, accept
/// one of the target schema as it is, and refuse any other.
pub fn migrate_upload_ledger(
    database_path: String,
    ledger: MaintainedLedger,
    target: &TargetSchema,
) -> (r: Result<LedgerMigration, LedgerMaintenanceError>)
    requires
        ledger.objects@.len() == objects_read(ledger.version, *target),
        ledger.jobs@.len() <= i64::MAX,
        target.objects@.len() <= i64::MAX,
    ensures
        exists|source: Result<[u8; 16], getrandom::Error>| #[trigger]
            random::drawn(source) && is_migration(r, database_path, ledger, *target, source),
{
    migrate_with_identity(database_path, ledger, target, draw::<16>())
}

/// Migrate a ledger under the identity that a random source answered with.
pub fn migrate_with_identity(
    database_path: String,
    ledger: MaintainedLedger,
    target: &TargetSchema,
    source: Result<[u8; 16], getrandom::Error>,
) -> (r: Result<LedgerMigration, LedgerMaintenanceError>)
    requires
        ledger.objects@.len() == objects_read(ledger.version, *target),
        ledger.jobs@.len() <= i64::MAX,
        target.objects@.len() <= i64::MAX,
    ensures
        is_migration(r, database_path, ledger, *target, source),
{
    if ledger.version == V3_SCHEMA_VERSION {
        verify_v3(&ledger)?;
        let id = UploadLedgerId::from_source(source)?;
        let migrated = migrate_v3_to_v4(ledger, id, target);
        Ok(
            LedgerMigration {
                report: LedgerMigrationReport {
                    database_path,
                    ledger_id: id.as_hex(),
                    migrated: true,
                },
                migrated: Some(migrated),
            },
        )
    } else if ledger.version == TARGET_SCHEMA_VERSION {
        let id = verify_v4(&ledger, target)?;
        Ok(
            LedgerMigration {
                report: LedgerMigrationReport {
                    database_path,
                    ledger_id: id.as_hex(),
                    migrated: false,
                },
                migrated: None,
            },
        )
    } else {
        Err(LedgerMaintenanceError::UnsupportedSchema { found: ledger.version })
    }
}

/// Migrating a ledger again changes nothing, and reports the same identity.
pub proof fn law_migration_is_idempotent(
    first: Result<LedgerMigration, LedgerMaintenanceError>,
    second: Result<LedgerMigration, LedgerMaintenanceError>,
    database_path: String,
    ledger: MaintainedLedger,
    target: TargetSchema,
    drawn: [u8; 16],
    source: Result<[u8; 16], getrandom::Error>,
)
    requires
        ledger.version == V3_SCHEMA_VERSION,
        v3_fault(ledger) is None,
        is_migration(
            first,
            database_path,
            ledger,
            target,
            Ok::<[u8; 16], getrandom::Error>(drawn),
        ),
        is_migration(second, database_path, first->Ok_0.migrated->0, target, source),
    ensures
        second is Ok,
        !second->Ok_0.report.migrated,
        second->Ok_0.migrated is None,
        second->Ok_0.report.ledger_id@ == first->Ok_0.report.ledger_id@,
{
    law_migrated_ledger_verifies(ledger, first->Ok_0.migrated->0, drawn@, target);
}

/// Whether a text names a ledger: thirty-two lower-case hexadecimal digits.
pub open spec fn names_ledger(text: Seq<char>) -> bool {
    text.len() == 32 && forall|i: int|
        0 <= i < text.len() ==> hex::is_hex_digit(#[trigger] text[i])
}

pub fn parse_expected_ledger_id(value: &str) -> (r: Result<UploadLedgerId, LedgerMaintenanceError>)
    ensures
        match r {
            Ok(id) => hex::hex(id.0@) == value@,
            Err(error) => error is InvalidExpectedLedgerId,
        },
        r is Ok <==> names_ledger(value@),
{
    let chars = chars_of(value);
    match parse_hex(chars.as_slice()) {
        Some(bytes) => {
            proof {
                hex::law_hex_is_injective(bytes@, bytes@);
            }
            match UploadLedgerId::from_bytes(&bytes) {
                Some(id) => Ok(id),
                None => Err(LedgerMaintenanceError::InvalidExpectedLedgerId),
            }
        },
        None => {
            proof {
                if names_ledger(value@) {
                    hex::lemma_hex_covers(value@);
                }
            }
            Err(LedgerMaintenanceError::InvalidExpectedLedgerId)
        },
    }
}

/// Compare the identity that was asked for with the one that was found.
pub fn ensure_expected_id(expected: UploadLedgerId, actual: UploadLedgerId) -> (r: Result<
    (),
    LedgerMaintenanceError,
>)
    ensures
        r == (if expected.0@ == actual.0@ {
            Ok::<(), LedgerMaintenanceError>(())
        } else {
            Err::<(), LedgerMaintenanceError>(
                LedgerMaintenanceError::LedgerIdMismatch { expected, actual },
            )
        }),
{
    let mut i: usize = 0;
    while i < 16
        invariant
            i <= 16,
            forall|k: int| 0 <= k < i ==> expected.0@[k] == actual.0@[k],
        decreases 16 - i,
    {
        if expected.0[i] != actual.0[i] {
            assert(expected.0@[i as int] != actual.0@[i as int]);
            return Err(LedgerMaintenanceError::LedgerIdMismatch { expected, actual });
        }
        i = i + 1;
    }
    assert(expected.0@ =~= actual.0@);
    Ok(())
}

/// A lease is had exactly where the lock was acquired. Maintenance that has to wait
/// finds an agent; an agent that has to wait finds maintenance of its own ledger.
pub proof fn law_lease_tells_who_holds_it(
    outcome: LockOutcome,
    exclusive: bool,
    database: &str,
    marker: &str,
    r: Result<(), LedgerLeaseError>,
)
    requires
        call_ensures(lease_result, (outcome, exclusive, database, marker), r),
    ensures
        r is Ok <==> outcome is Acquired,
        r matches Err(LedgerLeaseError::AgentActive) <==> outcome is WouldBlock && exclusive,
        r matches Err(LedgerLeaseError::MaintenanceActive { .. }) <==> outcome is WouldBlock
            && !exclusive,
        r matches Err(LedgerLeaseError::MaintenanceActive { database: held }) ==> held@
            == database@,
        r matches Err(LedgerLeaseError::Lock { .. }) <==> outcome is Failed,
        r matches Err(LedgerLeaseError::Lock { path }) ==> path@ == marker@,
{
}

/// The jobs in a state.
pub open spec fn those_in(jobs: Seq<LedgerJob>, state: Seq<char>) -> Seq<LedgerJob> {
    jobs.filter(|job: LedgerJob| job.state@ == state)
}

proof fn lemma_those_in(jobs: Seq<LedgerJob>, state: Seq<char>)
    ensures
        jobs_in(jobs, state) == those_in(jobs, state).len(),
    decreases jobs.len(),
{
    reveal(Seq::filter);
    if jobs.len() > 0 {
        lemma_those_in(jobs.drop_last(), state);
    }
}

/// Jobs are counted by their state.
pub proof fn law_jobs_are_counted_by_state(jobs: &Vec<LedgerJob>, state: &str, r: u64)
    requires
        call_ensures(count_jobs, (jobs, state), r),
    ensures
        r == those_in(jobs@, state@).len(),
{
    lemma_those_in(jobs@, state@);
}

/// Whether stored counts are the numbers of jobs in each of the five states.
pub open spec fn counts_each_state(counts: StoredCounts, jobs: Seq<LedgerJob>) -> bool {
    &&& counts.pending == those_in(jobs, "pending"@).len()
    &&& counts.in_progress == those_in(jobs, "in_progress"@).len()
    &&& counts.retrying == those_in(jobs, "retrying"@).len()
    &&& counts.completed == those_in(jobs, "completed"@).len()
    &&& counts.permanently_failed == those_in(jobs, "permanently_failed"@).len()
}

proof fn lemma_counts_each_state(counts: StoredCounts, jobs: Seq<LedgerJob>)
    ensures
        counts_agree(counts, jobs) <==> counts_each_state(counts, jobs),
{
    lemma_those_in(jobs, "pending"@);
    lemma_those_in(jobs, "in_progress"@);
    lemma_those_in(jobs, "retrying"@);
    lemma_those_in(jobs, "completed"@);
    lemma_those_in(jobs, "permanently_failed"@);
}

/// Stored counts are right exactly where each is the number of jobs in its state.
pub proof fn law_counts_are_those_of_the_jobs(
    counts: &StoredCounts,
    jobs: &Vec<LedgerJob>,
    r: bool,
)
    requires
        call_ensures(verify_aggregate_counts, (counts, jobs), r),
    ensures
        r <==> counts_each_state(*counts, jobs@),
{
    lemma_counts_each_state(*counts, jobs@);
}

/// Whether a ledger holds the statements of a schema, up to whitespace, and no further
/// object.
pub open spec fn holds_statements(ledger: MaintainedLedger, statements: Seq<Seq<char>>) -> bool {
    &&& ledger.object_count == statements.len()
    &&& forall|i: int|
        0 <= i < statements.len() ==> (#[trigger] ledger.objects@[i]) is Some
            && upload_schema::normalized_sql(ledger.objects@[i]->0@)
            == upload_schema::normalized_sql(statements[i])
}

/// The statements of the third version.
pub open spec fn v3_statements() -> Seq<Seq<char>> {
    Seq::new(8, |i: int| ledger_schema::v3_expected_sql(i))
}

/// A ledger of the third version is accepted exactly where it is intact, has that
/// schema and no more, belongs to the configured directory, and counts its jobs right.
/// Each refusal tells which of these fails first.
pub proof fn law_third_version_is_accepted_whole(
    ledger: &MaintainedLedger,
    r: Result<(), LedgerMaintenanceError>,
)
    requires
        call_ensures(verify_v3, (ledger,), r),
        ledger.objects@.len() == 8,
    ensures
        ({
            let intact = ledger.integrity@ == "ok"@;
            let schema = ledger.application_id == 0x4150_4355 && holds_statements(
                *ledger,
                v3_statements(),
            ) && ledger.metadata.authorization@.len() == 32 && ledger.metadata.schema_signature@
                == V3_SCHEMA_SIGNATURE@;
            let at_home = path::path_key(ledger.metadata.capture_root@) == path::path_key(
                ledger.configured_root@,
            );
            let counted = counts_each_state(ledger.metadata.counts, ledger.jobs@);
            &&& r is Ok <==> intact && schema && at_home && counted
            &&& (r matches Err(LedgerMaintenanceError::Integrity(_))) <==> !intact
            &&& (r matches Err(LedgerMaintenanceError::CaptureRootMismatch)) <==> intact && schema
                && !at_home
            &&& (r matches Err(LedgerMaintenanceError::InvalidV3Schema)) <==> intact && (!schema || (
            at_home && !counted))
        }),
{
    lemma_counts_each_state(ledger.metadata.counts, ledger.jobs@);
    assert(has_v3_objects(*ledger) <==> holds_statements(*ledger, v3_statements())) by {
        if has_v3_objects(*ledger) {
            assert forall|i: int| 0 <= i < 8 implies (#[trigger] ledger.objects@[i]) is Some
                && upload_schema::normalized_sql(ledger.objects@[i]->0@)
                == upload_schema::normalized_sql(v3_statements()[i]) by {
                assert(object_matches(ledger.objects@[i], ledger_schema::v3_expected_sql(i)));
            }
        }
        if holds_statements(*ledger, v3_statements()) {
            assert forall|i: int| 0 <= i < 8 implies object_matches(
                #[trigger] ledger.objects@[i],
                ledger_schema::v3_expected_sql(i),
            ) by {
                assert(ledger.objects@[i] is Some && upload_schema::normalized_sql(
                    ledger.objects@[i]->0@,
                ) == upload_schema::normalized_sql(v3_statements()[i]));
            }
        }
    }
}

proof fn lemma_target_objects(ledger: MaintainedLedger, target: TargetSchema, n: int)
    requires
        0 <= n <= target.objects@.len(),
    ensures
        target_objects_fault(ledger, target, n) is None <==> forall|i: int|
            0 <= i < n ==> object_matches(#[trigger] ledger.objects@[i], target.objects@[i]@),
        target_objects_fault(ledger, target, n) matches Some(error) ==> error
            == UploadStoreError::MissingSchema || error == UploadStoreError::InvalidSchema,
        (exists|i: int| 0 <= i < n && (#[trigger] ledger.objects@[i]) is None)
            ==> target_objects_fault(ledger, target, n) is Some,
    decreases n,
{
    if n > 0 {
        lemma_target_objects(ledger, target, n - 1);
    }
}

/// A ledger of the target schema is accepted exactly where it is intact, belongs to the
/// configured directory, has that schema and no more, counts its jobs right, and has an
/// identity of sixteen bytes, which is the answer.
pub proof fn law_target_schema_is_accepted_whole(
    ledger: &MaintainedLedger,
    target: &TargetSchema,
    r: Result<UploadLedgerId, LedgerMaintenanceError>,
)
    requires
        call_ensures(verify_v4, (ledger, target), r),
        ledger.objects@.len() == target.objects@.len(),
    ensures
        ({
            let intact = ledger.integrity@ == "ok"@;
            let at_home = path::path_key(ledger.metadata.capture_root@) == path::path_key(
                ledger.configured_root@,
            );
            let schema = ledger.application_id == 0x4150_4355 && holds_statements(
                *ledger,
                target.objects@.map_values(|sql: String| sql@),
            ) && ledger.metadata.schema_signature@ == target.signature@;
            let counted = counts_each_state(ledger.metadata.counts, ledger.jobs@);
            &&& r is Ok <==> intact && at_home && schema && counted
                && ledger.metadata.ledger_id@.len() == 16
            &&& r matches Ok(id) ==> id.0@ == ledger.metadata.ledger_id@
            &&& (r matches Err(LedgerMaintenanceError::Integrity(_))) <==> !intact
            &&& (r matches Err(LedgerMaintenanceError::CaptureRootMismatch)) <==> intact && !at_home
        }),
{
    lemma_counts_each_state(ledger.metadata.counts, ledger.jobs@);
    let n = target.objects@.len() as int;
    lemma_target_objects(*ledger, *target, n);
    let statements = target.objects@.map_values(|sql: String| sql@);
    assert((forall|i: int|
        0 <= i < n ==> object_matches(#[trigger] ledger.objects@[i], target.objects@[i]@)) <==> (
    forall|i: int|
        0 <= i < statements.len() ==> (#[trigger] ledger.objects@[i]) is Some
            && upload_schema::normalized_sql(ledger.objects@[i]->0@)
            == upload_schema::normalized_sql(statements[i]))) by {
        assert(forall|i: int| 0 <= i < n ==> statements[i] == (#[trigger] target.objects@[i])@);
    }
}

/// A delivery is bound by the digest of the domain, the length of the destination in
/// eight bytes, the destination and the authorization.
pub proof fn law_binding_is_of_the_delivery(
    domain: &Vec<u8>,
    destination: &str,
    authorization: &Vec<u8>,
    r: [u8; 32],
)
    requires
        call_ensures(delivery_binding, (domain, destination, authorization), r),
    ensures
        exists|length: Seq<u8>|
            {
                let text = vstd::utf8::encode_utf8(destination@);
                &&& length.len() == 8
                &&& text.len() < 256 ==> (forall|i: int| 0 <= i < 7 ==> #[trigger] length[i] == 0)
                    && length[7] == text.len()
                &&& r@ == digest::sha256_digest(#[trigger] (domain@ + length) + text
                    + authorization@)
            },
{
    let text = vstd::utf8::encode_utf8(destination@);
    let length = ledger_rows::word(text.len() as int);
    ledger_rows::lemma_word_bytes(text.len() as int);
    assert(binding_preimage(domain@, destination@, authorization@) == (domain@ + length) + text
        + authorization@);
}

/// Migration keeps each job and all that the metadata tell, and adds: a binding to the
/// ledger's delivery, a first revision and no requeue for each job, and the schema, the
/// version and the identity of the ledger.
pub proof fn law_migration_keeps_what_was_stored(
    ledger: MaintainedLedger,
    id: UploadLedgerId,
    target: &TargetSchema,
    destination: &str,
    binding: [u8; 32],
    r: MaintainedLedger,
    i: int,
)
    requires
        call_ensures(migrate_v3_to_v4, (ledger, id, target), r),
        call_ensures(
            delivery_binding,
            (&target.delivery_binding_domain, destination, &ledger.metadata.authorization),
            binding,
        ),
        destination@ == ledger.metadata.destination@,
    ensures
        r.version == 4,
        r.application_id == 0x4150_4355,
        r.jobs@.len() == ledger.jobs@.len(),
        0 <= i < ledger.jobs@.len() ==> {
            let before = ledger.jobs@[i];
            let after = r.jobs@[i];
            &&& after.id == before.id
            &&& after.artifact_path == before.artifact_path
            &&& after.filename == before.filename
            &&& after.idempotency_key == before.idempotency_key
            &&& after.file_size == before.file_size
            &&& after.sha256 == before.sha256
            &&& after.state == before.state
            &&& after.attempt_count == before.attempt_count
            &&& after.next_attempt_at_ms == before.next_attempt_at_ms
            &&& after.last_http_status == before.last_http_status
            &&& after.last_error == before.last_error
            &&& after.created_at_ms == before.created_at_ms
            &&& after.updated_at_ms == before.updated_at_ms
            &&& after.completed_at_ms == before.completed_at_ms
            &&& after.last_failure_at_ms == before.last_failure_at_ms
            &&& after.extension matches Some(extension) && extension.delivery_binding@ == binding@
                && extension.job_revision == 1 && extension.requeue_count == 0
                && extension.last_requeued_at_ms is None
        },
        r.metadata.ledger_id@ == id.0@,
        r.metadata.ledger_revision == ledger.jobs@.len(),
        r.metadata.schema_signature@ == target.signature@,
        r.metadata.capture_root == ledger.metadata.capture_root,
        r.metadata.destination == ledger.metadata.destination,
        r.metadata.authorization == ledger.metadata.authorization,
        r.metadata.counts == ledger.metadata.counts,
        r.metadata.last_success_at_ms == ledger.metadata.last_success_at_ms,
        r.metadata.last_failure_at_ms == ledger.metadata.last_failure_at_ms,
        r.metadata.last_error == ledger.metadata.last_error,
        r.preactivation == ledger.preactivation,
{
    if 0 <= i < ledger.jobs@.len() {
        assert(is_migrated_job(
            ledger.jobs@[i],
            r.jobs@[i],
            ledger_binding(ledger.metadata, *target),
        ));
    }
}

/// Only a ledger of the third version that verifies is migrated, one of the target
/// schema that verifies is left as it is, and every other is refused.
pub proof fn law_migration_needs_a_verified_ledger(
    database_path: String,
    ledger: MaintainedLedger,
    target: &TargetSchema,
    source: Result<[u8; 16], getrandom::Error>,
    old_version: Result<(), LedgerMaintenanceError>,
    new_version: Result<UploadLedgerId, LedgerMaintenanceError>,
    r: Result<LedgerMigration, LedgerMaintenanceError>,
)
    requires
        call_ensures(migrate_with_identity, (database_path, ledger, target, source), r),
        call_ensures(verify_v3, (&ledger,), old_version),
        call_ensures(verify_v4, (&ledger, target), new_version),
    ensures
        r is Ok <==> (ledger.version == 3 && old_version is Ok && source is Ok) || (ledger.version
            == 4 && new_version is Ok),
        ledger.version == 3 && old_version is Err ==> r is Err && r->Err_0 == old_version->Err_0,
        ledger.version == 4 && new_version is Err ==> r is Err && r->Err_0 == new_version->Err_0,
        ledger.version == 3 && old_version is Ok && source is Err ==> (r matches Err(
            LedgerMaintenanceError::Random(_),
        )),
        ledger.version != 3 && ledger.version != 4 ==> (r matches Err(
            LedgerMaintenanceError::UnsupportedSchema { found },
        ) && found == ledger.version),
        r matches Ok(done) ==> done.report.database_path == database_path,
        r matches Ok(done) ==> (done.report.migrated <==> ledger.version == 3),
        r matches Ok(done) ==> (done.migrated is Some <==> ledger.version == 3),
        r matches Ok(done) ==> (source matches Ok(id) ==> (ledger.version == 3
            ==> done.report.ledger_id@ == hex::hex(id@) && done.migrated->0.metadata.ledger_id@
            == id@ && done.migrated->0.jobs@.len() == ledger.jobs@.len())),
        r matches Ok(done) ==> (ledger.version == 4 ==> done.report.ledger_id@ == hex::hex(
            ledger.metadata.ledger_id@,
        )),
{
}

/// A migrated ledger that was read back stays exactly where it has the target schema,
/// the directory, the destination and the identity it was given, counts its jobs right,
/// and binds each to the delivery.
pub proof fn law_written_ledger_is_held_to_the_migrated_one(
    written: &MaintainedLedger,
    migrated: &MaintainedLedger,
    target: &TargetSchema,
    destination: &str,
    binding: [u8; 32],
    r: Result<(), LedgerMaintenanceError>,
)
    requires
        call_ensures(verify_migrated, (written, migrated, target), r),
        call_ensures(
            delivery_binding,
            (&target.delivery_binding_domain, destination, &migrated.metadata.authorization),
            binding,
        ),
        destination@ == migrated.metadata.destination@,
        written.objects@.len() == target.objects@.len(),
    ensures
        r is Ok <==> {
            &&& written.application_id == 0x4150_4355
            &&& holds_statements(*written, target.objects@.map_values(|sql: String| sql@))
            &&& written.metadata.schema_signature@ == target.signature@
            &&& written.metadata.capture_root@ == migrated.metadata.capture_root@
            &&& written.metadata.destination@ == migrated.metadata.destination@
            &&& written.metadata.ledger_id@ == migrated.metadata.ledger_id@
            &&& counts_each_state(written.metadata.counts, written.jobs@)
            &&& forall|i: int|
                0 <= i < written.jobs@.len() ==> (#[trigger] written.jobs@[i]).extension is Some
                    && written.jobs@[i].extension->0.delivery_binding@ == binding@
        },
        r matches Err(error) ==> error is Store,
{
    lemma_counts_each_state(written.metadata.counts, written.jobs@);
    let n = target.objects@.len() as int;
    lemma_target_objects(*written, *target, n);
    let statements = target.objects@.map_values(|sql: String| sql@);
    assert((forall|i: int|
        0 <= i < n ==> object_matches(#[trigger] written.objects@[i], target.objects@[i]@)) <==> (
    forall|i: int|
        0 <= i < statements.len() ==> (#[trigger] written.objects@[i]) is Some
            && upload_schema::normalized_sql(written.objects@[i]->0@)
            == upload_schema::normalized_sql(statements[i]))) by {
        assert(forall|i: int| 0 <= i < n ==> statements[i] == (#[trigger] target.objects@[i])@);
    }
    assert(binding@ == ledger_binding(migrated.metadata, *target));
    assert((forall|i: int|
        0 <= i < written.jobs@.len() ==> (#[trigger] written.jobs@[i]).extension is Some
            && written.jobs@[i].extension->0.delivery_binding@ == binding@) <==> (forall|i: int|
        0 <= i < written.jobs@.len() ==> is_bound(#[trigger] written.jobs@[i], binding@)));
}

/// An expected identity is read exactly where it is thirty-two lower-case hexadecimal
/// digits, and is written the same again.
pub proof fn law_expected_identity_is_read(
    value: &str,
    r: Result<UploadLedgerId, LedgerMaintenanceError>,
)
    requires
        call_ensures(parse_expected_ledger_id, (value,), r),
    ensures
        r is Ok <==> value@.len() == 32 && forall|i: int|
            0 <= i < 32 ==> 48 <= (#[trigger] value@[i] as int) <= 57 || 97 <= (value@[i] as int)
                <= 102,
        r matches Err(error) ==> error is InvalidExpectedLedgerId,
        r matches Ok(id) ==> forall|text: String|
            call_ensures(UploadLedgerId::as_hex, (id,), text) ==> #[trigger] text@ == value@,
{
    assert(names_ledger(value@) <==> value@.len() == 32 && forall|i: int|
        0 <= i < 32 ==> 48 <= (#[trigger] value@[i] as int) <= 57 || 97 <= (value@[i] as int)
            <= 102) by {
        assert(forall|i: int|
            0 <= i < value@.len() ==> (hex::is_hex_digit(#[trigger] value@[i]) <==> (48 <= (
            value@[i] as int) <= 57 || 97 <= (value@[i] as int) <= 102)));
    }
}

/// The identity that was asked for is the one that was found, or the refusal names both.
pub proof fn law_other_ledger_is_refused(
    expected: UploadLedgerId,
    actual: UploadLedgerId,
    r: Result<(), LedgerMaintenanceError>,
)
    requires
        call_ensures(ensure_expected_id, (expected, actual), r),
    ensures
        r is Ok <==> forall|i: int|
            0 <= i < 16 ==> #[trigger] expected.0@[i] == actual.0@[i],
        r matches Err(error) ==> error == (LedgerMaintenanceError::LedgerIdMismatch {
            expected,
            actual,
        }),
{
    if forall|i: int| 0 <= i < 16 ==> #[trigger] expected.0@[i] == actual.0@[i] {
        assert(expected.0@ =~= actual.0@);
    }
}

/// An identity is sixteen bytes, as they are.
pub proof fn law_identity_is_its_bytes(bytes: &Vec<u8>, r: Option<UploadLedgerId>)
    requires
        call_ensures(UploadLedgerId::from_bytes, (bytes,), r),
    ensures
        r is Some <==> bytes@.len() == 16,
        r matches Some(id) ==> id.0@ == bytes@,
{
}

/// The lease of a ledger locks a file beside its database.
pub proof fn law_lease_locks_a_file_beside_the_database(database: &str, r: String)
    requires
        call_ensures(maintenance_marker_path, (database,), r),
    ensures
        r@ == database@ + ".maintenance.lock"@,
{
}

} // verus!
