//! Reading a stored ledger back: what its rows say, and whether that is a ledger.

use vstd::prelude::*;

use crate::text::same_text;
use crate::upload_artifact;
use crate::upload_artifact::RawUploadJob;
use crate::upload_record;
use crate::upload_record::{
    copy_text, database_u64, optional_database_u64, UploadAuthorizationFingerprint, UploadJobRecord,
    UploadState, UploadStateCounts, UploadStoreError,
};
use crate::upload_store;
use crate::upload_store::UploadStore;

verus! {

broadcast use vstd::string::group_string_axioms;

fn check_fits(value: u64) -> (r: bool)
    ensures
        r == upload_record::fits_i64(value),
{
    value <= i64::MAX as u64
}

fn check_optional_fits(value: Option<u64>) -> (r: bool)
    ensures
        r == upload_record::optional_fits(value),
{
    match value {
        Some(number) => check_fits(number),
        None => true,
    }
}

fn check_status(status: Option<u16>) -> (r: bool)
    ensures
        r == upload_record::status_ok(status),
{
    match status {
        Some(code) => 100 <= code && code <= 599,
        None => true,
    }
}

/// Whether a job satisfies what a stored job satisfies.
pub fn check_row(job: &UploadJobRecord) -> (r: bool)
    ensures
        r == job.wf(),
{
    (job.state == UploadState::Retrying) == job.next_attempt_at_unix_ms.is_some() && (job.state
        == UploadState::Completed) == job.completed_at_unix_ms.is_some() && check_status(
        job.last_http_status,
    ) && check_fits(job.file_size) && check_fits(job.attempt_count) && check_fits(
        job.created_at_unix_ms,
    ) && check_fits(job.updated_at_unix_ms) && check_optional_fits(job.next_attempt_at_unix_ms)
        && check_optional_fits(job.completed_at_unix_ms) && check_optional_fits(
        job.last_failure_at_unix_ms,
    )
}

fn check_rows(jobs: &Vec<UploadJobRecord>) -> (r: bool)
    ensures
        r == upload_store::rows_ok(jobs@),
{
    let mut i: usize = 0;
    while i < jobs.len()
        invariant
            i <= jobs.len(),
            forall|k: int| 0 <= k < i ==> (#[trigger] jobs@[k]).wf(),
        decreases jobs.len() - i,
    {
        if !check_row(&jobs[i]) {
            assert(!jobs@[i as int].wf());
            return false;
        }
        i = i + 1;
    }
    true
}

fn check_distinct(jobs: &Vec<UploadJobRecord>) -> (r: bool)
    ensures
        r == upload_store::distinct(jobs@),
{
    proof {
        reveal(upload_store::distinct);
    }
    let mut j: usize = 0;
    while j < jobs.len()
        invariant
            j <= jobs.len(),
            forall|a: int, b: int|
                0 <= a < b < j ==> upload_store::apart(#[trigger] jobs@[a], #[trigger] jobs@[b]),
        decreases jobs.len() - j,
    {
        let mut i: usize = 0;
        while i < j
            invariant
                i <= j < jobs.len(),
                forall|a: int|
                    0 <= a < i ==> upload_store::apart(#[trigger] jobs@[a], jobs@[j as int]),
            decreases j - i,
        {
            if jobs[i].job_id.0 == jobs[j].job_id.0 || same_text(
                jobs[i].artifact_path.as_str(),
                jobs[j].artifact_path.as_str(),
            ) || same_text(jobs[i].idempotency_key.as_str(), jobs[j].idempotency_key.as_str()) {
                proof {
                    reveal(upload_store::distinct);
                    assert(!upload_store::apart(jobs@[i as int], jobs@[j as int]));
                }
                return false;
            }
            i = i + 1;
        }
        j = j + 1;
    }
    true
}

fn check_counts_fit(counts: UploadStateCounts) -> (r: bool)
    ensures
        r == counts.fit(),
{
    check_fits(counts.pending) && check_fits(counts.in_progress) && check_fits(counts.retrying)
        && check_fits(counts.completed) && check_fits(counts.permanently_failed)
}

impl UploadStore {
    /// Whether this is what the schema lets a ledger be: no number, no artifact and
    /// no key occurs twice, and every value is in range.
    pub fn is_consistent(&self) -> (r: bool)
        ensures
            r == self.wf(),
    {
        if self.jobs.len() as u64 > i64::MAX as u64 {
            return false;
        }
        check_rows(&self.jobs) && check_distinct(&self.jobs) && check_counts_fit(self.counts)
            && check_fits(self.activation_at_unix_ms) && check_optional_fits(
            self.last_success_at_unix_ms,
        ) && check_optional_fits(self.last_failure_at_unix_ms)
    }
}

/// The stored metadata of a ledger.
#[derive(Debug)]
pub struct RawMetadata {
    pub capture_root: String,
    pub destination: String,
    pub authorization: Vec<u8>,
    pub activation_at_ms: i64,
    pub pending_count: i64,
    pub in_progress_count: i64,
    pub retrying_count: i64,
    pub completed_count: i64,
    pub permanently_failed_count: i64,
    pub last_success_at_ms: Option<i64>,
    pub last_failure_at_ms: Option<i64>,
    pub last_error: Option<String>,
}

impl RawMetadata {
    /// Whether a ledger says of itself what this metadata says.
    pub open spec fn reads_as(self, store: UploadStore) -> bool {
        &&& store.capture_root == self.capture_root
        &&& store.destination == self.destination
        &&& store.authorization.0@ == self.authorization@
        &&& store.activation_at_unix_ms == self.activation_at_ms
        &&& store.counts.pending == self.pending_count
        &&& store.counts.in_progress == self.in_progress_count
        &&& store.counts.retrying == self.retrying_count
        &&& store.counts.completed == self.completed_count
        &&& store.counts.permanently_failed == self.permanently_failed_count
        &&& upload_artifact::optional_matches(
            self.last_success_at_ms,
            store.last_success_at_unix_ms,
        )
        &&& upload_artifact::optional_matches(
            self.last_failure_at_ms,
            store.last_failure_at_unix_ms,
        )
        &&& store.last_error == self.last_error
    }

    /// The first value that is out of range, if one is.
    pub open spec fn fault(self) -> Option<UploadStoreError> {
        if self.authorization@.len() != 32 {
            Some(UploadStoreError::InvalidSchema)
        } else if self.activation_at_ms < 0 {
            Some(upload_artifact::corrupt("activation_at_ms", self.activation_at_ms))
        } else if self.pending_count < 0 {
            Some(upload_artifact::corrupt("pending count", self.pending_count))
        } else if self.in_progress_count < 0 {
            Some(upload_artifact::corrupt("in-progress count", self.in_progress_count))
        } else if self.retrying_count < 0 {
            Some(upload_artifact::corrupt("retrying count", self.retrying_count))
        } else if self.completed_count < 0 {
            Some(upload_artifact::corrupt("completed count", self.completed_count))
        } else if self.permanently_failed_count < 0 {
            Some(
                upload_artifact::corrupt("permanently-failed count", self.permanently_failed_count),
            )
        } else if upload_artifact::negative(self.last_success_at_ms) {
            Some(upload_artifact::corrupt("last_success_at_ms", self.last_success_at_ms->0))
        } else if upload_artifact::negative(self.last_failure_at_ms) {
            Some(upload_artifact::corrupt("last_failure_at_ms", self.last_failure_at_ms->0))
        } else {
            None
        }
    }

    fn into_store(self, jobs: Vec<UploadJobRecord>) -> (r: Result<UploadStore, UploadStoreError>)
        ensures
            match r {
                Ok(store) => self.fault() is None && self.reads_as(store) && store.jobs == jobs,
                Err(error) => self.fault() == Some(error),
            },
    {
        if self.authorization.len() != 32 {
            return Err(UploadStoreError::InvalidSchema);
        }
        let mut authorization: [u8; 32] = [0u8; 32];
        let mut i: usize = 0;
        while i < 32
            invariant
                i <= 32,
                self.authorization@.len() == 32,
                forall|k: int| 0 <= k < i ==> authorization@[k] == self.authorization@[k],
            decreases 32 - i,
        {
            authorization[i] = self.authorization[i];
            i = i + 1;
        }
        assert(authorization@ =~= self.authorization@);
        let activation_at_unix_ms: u64 = database_u64("activation_at_ms", self.activation_at_ms)?;
        let pending: u64 = database_u64("pending count", self.pending_count)?;
        let in_progress: u64 = database_u64("in-progress count", self.in_progress_count)?;
        let retrying: u64 = database_u64("retrying count", self.retrying_count)?;
        let completed: u64 = database_u64("completed count", self.completed_count)?;
        let permanently_failed: u64 = database_u64(
            "permanently-failed count",
            self.permanently_failed_count,
        )?;
        let last_success_at_unix_ms: Option<u64> = optional_database_u64(
            "last_success_at_ms",
            self.last_success_at_ms,
        )?;
        let last_failure_at_unix_ms: Option<u64> = optional_database_u64(
            "last_failure_at_ms",
            self.last_failure_at_ms,
        )?;
        Ok(
            UploadStore {
                capture_root: self.capture_root,
                destination: self.destination,
                authorization: UploadAuthorizationFingerprint(authorization),
                activation_at_unix_ms,
                jobs,
                counts: UploadStateCounts {
                    pending,
                    in_progress,
                    retrying,
                    completed,
                    permanently_failed,
                },
                last_success_at_unix_ms,
                last_failure_at_unix_ms,
                last_error: self.last_error,
            },
        )
    }
}

/// Why a row cannot be read, if it cannot.
pub open spec fn row_fault(row: RawUploadJob) -> Option<UploadStoreError> {
    if row.digest_fault() is Some {
        row.digest_fault()
    } else {
        row.value_fault()
    }
}

/// Whether the first of these rows that cannot be read is refused like this.
pub open spec fn is_first_row_fault(rows: Seq<RawUploadJob>, i: int, error: UploadStoreError) -> bool {
    &&& 0 <= i < rows.len()
    &&& row_fault(rows[i]) == Some(error)
    &&& forall|k: int| 0 <= k < i ==> row_fault(#[trigger] rows[k]) is None
}

/// Whether a ledger is what these rows say.
pub open spec fn is_stored_as(
    metadata: RawMetadata,
    rows: Seq<RawUploadJob>,
    store: UploadStore,
) -> bool {
    &&& metadata.reads_as(store)
    &&& store.jobs@.len() == rows.len()
    &&& forall|i: int| 0 <= i < rows.len() ==> rows[i].reads_as(#[trigger] store.jobs@[i])
}

/// Whether these rows say what the schema does not let a ledger be.
pub open spec fn stores_no_ledger(metadata: RawMetadata, rows: Seq<RawUploadJob>) -> bool {
    exists|store: UploadStore| #[trigger] is_stored_as(metadata, rows, store) && !store.wf()
}

fn read_rows(rows: Vec<RawUploadJob>) -> (r: Result<Vec<UploadJobRecord>, UploadStoreError>)
    ensures
        match r {
            Ok(jobs) => {
                &&& forall|i: int| 0 <= i < rows@.len() ==> row_fault(#[trigger] rows@[i]) is None
                &&& jobs@.len() == rows@.len()
                &&& forall|i: int|
                    0 <= i < rows@.len() ==> rows@[i].reads_as(#[trigger] jobs@[i])
            },
            Err(error) => exists|i: int| is_first_row_fault(rows@, i, error),
        },
{
    let mut jobs: Vec<UploadJobRecord> = Vec::new();
    let ghost all = rows@;
    for row in it: rows
        invariant
            it.seq() == all,
            jobs@.len() == it.index(),
            forall|i: int| 0 <= i < it.index() ==> row_fault(#[trigger] all[i]) is None,
            forall|i: int| 0 <= i < it.index() ==> all[i].reads_as(#[trigger] jobs@[i]),
    {
        let ghost i = it.index();
        match row.into_row() {
            Ok(job) => {
                jobs.push(job);
            },
            Err(error) => {
                assert(is_first_row_fault(all, i as int, error));
                return Err(error);
            },
        }
    }
    Ok(jobs)
}

/// Read a stored ledger. A value that is out of range is reported; rows that the
/// schema's own constraints rule out are not this schema's. Numbers may have gaps,
/// and the aggregates need not agree with the jobs.
pub fn read_ledger(metadata: RawMetadata, rows: Vec<RawUploadJob>) -> (r: Result<
    UploadStore,
    UploadStoreError,
>)
    ensures
        match r {
            Ok(store) => {
                &&& metadata.fault() is None
                &&& is_stored_as(metadata, rows@, store)
                &&& store.wf()
            },
            Err(error) => {
                ||| exists|i: int| is_first_row_fault(rows@, i, error)
                ||| metadata.fault() == Some(error)
                ||| error == UploadStoreError::InvalidSchema && stores_no_ledger(metadata, rows@)
            },
        },
{
    let jobs = read_rows(rows)?;
    let store = metadata.into_store(jobs)?;
    if store.is_consistent() {
        Ok(store)
    } else {
        assert(is_stored_as(metadata, rows@, store));
        Err(UploadStoreError::InvalidSchema)
    }
}

fn stored_time(time: Option<u64>) -> (r: Option<i64>)
    requires
        upload_record::optional_fits(time),
    ensures
        upload_artifact::optional_matches(r, time),
        !upload_artifact::negative(r),
{
    match time {
        Some(at) => Some(at as i64),
        None => None,
    }
}

/// The row that stores a job.
pub fn stored_row(job: &UploadJobRecord) -> (r: RawUploadJob)
    requires
        job.wf(),
    ensures
        r.reads_as(*job),
{
    let mut sha256: Vec<u8> = Vec::new();
    sha256.extend_from_slice(job.sha256.as_slice());
    assert(sha256@ =~= job.sha256@);
    RawUploadJob {
        id: job.job_id.0,
        artifact_path: job.artifact_path.clone(),
        filename: job.filename.clone(),
        idempotency_key: job.idempotency_key.clone(),
        file_size: job.file_size as i64,
        sha256,
        state: job.state.database_name().to_owned(),
        attempt_count: job.attempt_count as i64,
        next_attempt_at_ms: stored_time(job.next_attempt_at_unix_ms),
        last_http_status: match job.last_http_status {
            Some(code) => Some(code as i64),
            None => None,
        },
        last_error: copy_text(&job.last_error),
        created_at_ms: job.created_at_unix_ms as i64,
        updated_at_ms: job.updated_at_unix_ms as i64,
        completed_at_ms: stored_time(job.completed_at_unix_ms),
        last_failure_at_ms: stored_time(job.last_failure_at_unix_ms),
    }
}

/// The metadata that stores a ledger.
pub fn stored_metadata(store: &UploadStore) -> (r: RawMetadata)
    requires
        store.wf(),
    ensures
        r.reads_as(*store),
{
    let mut authorization: Vec<u8> = Vec::new();
    authorization.extend_from_slice(store.authorization.0.as_slice());
    assert(authorization@ =~= store.authorization.0@);
    RawMetadata {
        capture_root: store.capture_root.clone(),
        destination: store.destination.clone(),
        authorization,
        activation_at_ms: store.activation_at_unix_ms as i64,
        pending_count: store.counts.pending as i64,
        in_progress_count: store.counts.in_progress as i64,
        retrying_count: store.counts.retrying as i64,
        completed_count: store.counts.completed as i64,
        permanently_failed_count: store.counts.permanently_failed as i64,
        last_success_at_ms: stored_time(store.last_success_at_unix_ms),
        last_failure_at_ms: stored_time(store.last_failure_at_unix_ms),
        last_error: copy_text(&store.last_error),
    }
}

/// Whether two records say the same.
pub open spec fn same_record(a: UploadJobRecord, b: UploadJobRecord) -> bool {
    &&& a.sha256@ == b.sha256@
    &&& a == UploadJobRecord { sha256: a.sha256, ..b }
}

proof fn lemma_reads_alike(row: RawUploadJob, a: UploadJobRecord, b: UploadJobRecord)
    requires
        row.reads_as(a),
        row.reads_as(b),
    ensures
        same_record(a, b),
{
    upload_record::law_state_names_differ(a.state, b.state);
    assert(a.next_attempt_at_unix_ms == b.next_attempt_at_unix_ms);
    assert(a.last_http_status == b.last_http_status);
    assert(a.completed_at_unix_ms == b.completed_at_unix_ms);
    assert(a.last_failure_at_unix_ms == b.last_failure_at_unix_ms);
}

/// A ledger that was stored reads back: its rows have no fault, and whatever they
/// are read as is a ledger with the same jobs, aggregates and binding.
pub proof fn law_stored_ledger_reads_back(
    metadata: RawMetadata,
    rows: Seq<RawUploadJob>,
    store: UploadStore,
    read: UploadStore,
)
    requires
        store.wf(),
        is_stored_as(metadata, rows, store),
        is_stored_as(metadata, rows, read),
    ensures
        metadata.fault() is None,
        forall|i: int| 0 <= i < rows.len() ==> row_fault(#[trigger] rows[i]) is None,
        read.wf(),
        forall|i: int|
            0 <= i < rows.len() ==> same_record(#[trigger] read.jobs@[i], store.jobs@[i]),
        read.counts == store.counts,
        read.authorization.0@ == store.authorization.0@,
        read == (UploadStore { jobs: read.jobs, authorization: read.authorization, ..store }),
{
    let a = read.jobs@;
    let b = store.jobs@;
    assert forall|i: int| 0 <= i < rows.len() implies row_fault(#[trigger] rows[i]) is None by {
        assert(rows[i].reads_as(b[i]));
        assert(b[i].wf());
        assert(b[i].state.name() == rows[i].state@);
    }
    assert forall|i: int| 0 <= i < rows.len() implies same_record(#[trigger] a[i], b[i]) by {
        assert(rows[i].reads_as(b[i]));
        lemma_reads_alike(rows[i], a[i], b[i]);
    }
    assert(read.last_success_at_unix_ms == store.last_success_at_unix_ms);
    assert(read.last_failure_at_unix_ms == store.last_failure_at_unix_ms);
    assert(upload_store::rows_ok(a)) by {
        assert forall|i: int| 0 <= i < a.len() implies (#[trigger] a[i]).wf() by {
            assert(b[i].wf());
        }
    }
    reveal(upload_store::distinct);
    assert(upload_store::distinct(a)) by {
        assert forall|i: int, j: int| 0 <= i < j < a.len() implies upload_store::apart(
            #[trigger] a[i],
            #[trigger] a[j],
        ) by {
            assert(upload_store::apart(b[i], b[j]));
        }
    }
    assert(read.counts == store.counts);
}

/// A stored job is sound where it has a next attempt exactly while it is retrying and a
/// completion exactly once it is completed, its status is one of HTTP's, and its numbers
/// can be stored.
pub proof fn law_sound_job_fits_its_state(job: &UploadJobRecord, r: bool)
    requires
        call_ensures(check_row, (job,), r),
    ensures
        r <==> {
            &&& job.state is Retrying <==> job.next_attempt_at_unix_ms is Some
            &&& job.state is Completed <==> job.completed_at_unix_ms is Some
            &&& job.last_http_status is None || 100 <= job.last_http_status->0 <= 599
            &&& job.file_size <= i64::MAX
            &&& job.attempt_count <= i64::MAX
            &&& job.created_at_unix_ms <= i64::MAX
            &&& job.updated_at_unix_ms <= i64::MAX
            &&& job.next_attempt_at_unix_ms is None || job.next_attempt_at_unix_ms->0 <= i64::MAX
            &&& job.completed_at_unix_ms is None || job.completed_at_unix_ms->0 <= i64::MAX
            &&& job.last_failure_at_unix_ms is None || job.last_failure_at_unix_ms->0 <= i64::MAX
        },
{
}

/// A consistent ledger has no two jobs of the same number, the same artifact or the same
/// key, and no job that fits another state than its own.
pub proof fn law_consistent_ledger_has_distinct_jobs(
    store: &UploadStore,
    r: bool,
    i: int,
    j: int,
    sound: bool,
)
    requires
        call_ensures(UploadStore::is_consistent, (store,), r),
        0 <= i < j < store.jobs@.len(),
        call_ensures(check_row, (&store.jobs@[i],), sound),
    ensures
        r ==> store.jobs@[i].job_id != store.jobs@[j].job_id,
        r ==> store.jobs@[i].artifact_path@ != store.jobs@[j].artifact_path@,
        r ==> store.jobs@[i].idempotency_key@ != store.jobs@[j].idempotency_key@,
        r ==> sound,
        store.jobs@[i].job_id == store.jobs@[j].job_id ==> !r,
        store.jobs@[i].artifact_path@ == store.jobs@[j].artifact_path@ ==> !r,
        store.jobs@[i].idempotency_key@ == store.jobs@[j].idempotency_key@ ==> !r,
        !sound ==> !r,
{
    reveal(upload_store::distinct);
    reveal(upload_store::rows_ok);
    if r {
        assert(upload_store::apart(store.jobs@[i], store.jobs@[j]));
    }
}

/// What is read is what was stored: each number, each text and each job in its place.
/// Stored numbers that are negative, and an authorization of another length, are refused.
pub proof fn law_ledger_is_read_as_stored(
    metadata: RawMetadata,
    rows: Vec<RawUploadJob>,
    r: Result<UploadStore, UploadStoreError>,
    i: int,
)
    requires
        call_ensures(read_ledger, (metadata, rows), r),
    ensures
        r matches Ok(store) ==> {
            &&& store.capture_root == metadata.capture_root
            &&& store.destination == metadata.destination
            &&& store.authorization.0@ == metadata.authorization@
            &&& store.activation_at_unix_ms == metadata.activation_at_ms
            &&& store.counts.pending == metadata.pending_count
            &&& store.counts.in_progress == metadata.in_progress_count
            &&& store.counts.retrying == metadata.retrying_count
            &&& store.counts.completed == metadata.completed_count
            &&& store.counts.permanently_failed == metadata.permanently_failed_count
            &&& store.last_error == metadata.last_error
            &&& store.last_success_at_unix_ms is Some <==> metadata.last_success_at_ms is Some
            &&& store.last_success_at_unix_ms matches Some(at) ==> at
                == metadata.last_success_at_ms->0
            &&& store.last_failure_at_unix_ms is Some <==> metadata.last_failure_at_ms is Some
            &&& store.last_failure_at_unix_ms matches Some(at) ==> at
                == metadata.last_failure_at_ms->0
            &&& store.jobs@.len() == rows@.len()
            &&& 0 <= i < rows@.len() ==> {
                &&& store.jobs@[i].job_id.0 == rows@[i].id
                &&& store.jobs@[i].artifact_path == rows@[i].artifact_path
                &&& store.jobs@[i].filename == rows@[i].filename
                &&& store.jobs@[i].idempotency_key == rows@[i].idempotency_key
                &&& store.jobs@[i].file_size == rows@[i].file_size
                &&& store.jobs@[i].sha256@ == rows@[i].sha256@
                &&& store.jobs@[i].attempt_count == rows@[i].attempt_count
                &&& store.jobs@[i].state is Pending <==> rows@[i].state@ == "pending"@
                &&& store.jobs@[i].state is InProgress <==> rows@[i].state@ == "in_progress"@
                &&& store.jobs@[i].state is Retrying <==> rows@[i].state@ == "retrying"@
                &&& store.jobs@[i].state is Completed <==> rows@[i].state@ == "completed"@
                &&& store.jobs@[i].last_error == rows@[i].last_error
                &&& store.jobs@[i].created_at_unix_ms == rows@[i].created_at_ms
                &&& store.jobs@[i].updated_at_unix_ms == rows@[i].updated_at_ms
            }
        },
        metadata.authorization@.len() != 32 || metadata.activation_at_ms < 0
            || metadata.pending_count < 0 || metadata.in_progress_count < 0
            || metadata.retrying_count < 0 || metadata.completed_count < 0
            || metadata.permanently_failed_count < 0 ==> r is Err,
{
    reveal_strlit("pending");
    reveal_strlit("in_progress");
    reveal_strlit("retrying");
    reveal_strlit("completed");
    reveal_strlit("permanently_failed");
    if let Ok(store) = r {
        if 0 <= i < rows@.len() {
            assert(rows@[i].reads_as(store.jobs@[i]));
            let name = store.jobs@[i].state.name();
            assert(name.len() == rows@[i].state@.len());
            assert(name[0] == rows@[i].state@[0]);
        }
    }
}

/// A job that is stored reads back as it was.
pub proof fn law_stored_job_reads_back(
    job: &UploadJobRecord,
    row: RawUploadJob,
    r: Result<UploadJobRecord, UploadStoreError>,
)
    requires
        call_ensures(stored_row, (job,), row),
        call_ensures(RawUploadJob::into_row, (row,), r),
        job.wf(),
    ensures
        row.id == job.job_id.0,
        row.file_size == job.file_size,
        row.sha256@ == job.sha256@,
        r matches Ok(again) && {
            &&& again.job_id == job.job_id
            &&& again.artifact_path == job.artifact_path
            &&& again.filename == job.filename
            &&& again.idempotency_key == job.idempotency_key
            &&& again.file_size == job.file_size
            &&& again.sha256@ == job.sha256@
            &&& again.state == job.state
            &&& again.attempt_count == job.attempt_count
            &&& again.next_attempt_at_unix_ms == job.next_attempt_at_unix_ms
            &&& again.last_http_status == job.last_http_status
            &&& again.last_error == job.last_error
            &&& again.created_at_unix_ms == job.created_at_unix_ms
            &&& again.updated_at_unix_ms == job.updated_at_unix_ms
            &&& again.completed_at_unix_ms == job.completed_at_unix_ms
            &&& again.last_failure_at_unix_ms == job.last_failure_at_unix_ms
        },
{
    reveal_strlit("pending");
    reveal_strlit("in_progress");
    reveal_strlit("retrying");
    reveal_strlit("completed");
    reveal_strlit("permanently_failed");
    assert(job.state.name() == row.state@);
    if let Ok(again) = r {
        assert(again.state.name().len() == job.state.name().len());
        assert(again.state.name()[0] == job.state.name()[0]);
    }
}

/// The metadata of a ledger are stored number by number.
pub proof fn law_metadata_are_stored_as_they_are(store: &UploadStore, r: RawMetadata)
    requires
        call_ensures(stored_metadata, (store,), r),
        store.wf(),
    ensures
        r.capture_root == store.capture_root,
        r.destination == store.destination,
        r.authorization@ == store.authorization.0@,
        r.activation_at_ms == store.activation_at_unix_ms,
        r.pending_count == store.counts.pending,
        r.in_progress_count == store.counts.in_progress,
        r.retrying_count == store.counts.retrying,
        r.completed_count == store.counts.completed,
        r.permanently_failed_count == store.counts.permanently_failed,
        r.last_error == store.last_error,
        r.last_success_at_ms is Some <==> store.last_success_at_unix_ms is Some,
        r.last_success_at_ms matches Some(at) ==> at == store.last_success_at_unix_ms->0,
        r.last_failure_at_ms is Some <==> store.last_failure_at_unix_ms is Some,
        r.last_failure_at_ms matches Some(at) ==> at == store.last_failure_at_unix_ms->0,
{
}

} // verus!
