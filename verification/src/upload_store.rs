//! The durable upload ledger: every upload job and what has become of it.
//!
//! The ledger is a value that its owner keeps in step with durable storage. Jobs
//! are only ever added; their identity never changes; an attempt number, once
//! used, is never handed out again.

use vstd::prelude::*;

use crate::artifact;
use crate::path;
use crate::text::same_text;
use crate::upload_record;
use crate::upload_record::{
    check_timestamp, copy_text, job_id_from_database, validate_stored_identity,
    UploadAuthorizationFingerprint, UploadJobId, UploadJobRecord, UploadState, UploadStateCounts, UploadStoreError,
};

verus! {

broadcast use vstd::string::group_string_axioms;

/// A job handed out for one attempt. The attempt number fences it: no later
/// claim of the same job carries the same number.
#[derive(Debug, PartialEq, Eq)]
pub struct ClaimedUpload {
    pub job_id: UploadJobId,
    pub artifact_path: String,
    pub filename: String,
    pub idempotency_key: String,
    pub file_size: u64,
    pub sha256: [u8; 32],
    pub attempt_count: u64,
}

/// The ledger's state as its operators see it.
#[derive(Debug, PartialEq, Eq)]
pub struct UploadStoreSnapshot {
    pub counts: UploadStateCounts,
    pub last_success_at_unix_ms: Option<u64>,
    pub last_failure_at_unix_ms: Option<u64>,
    pub last_error: Option<String>,
    pub next_due_at_unix_ms: Option<u64>,
}

#[derive(Clone, Copy, Debug, PartialEq, Eq, Structural)]
pub enum RecordDisposition {
    Inserted,
    AlreadyRecorded,
}

#[derive(Clone, Copy, Debug, PartialEq, Eq, Structural)]
pub struct RecordArtifactResult {
    pub job_id: UploadJobId,
    pub disposition: RecordDisposition,
}

/// The ledger of one capture directory, bound to one destination and one
/// authorization.
#[derive(Debug)]
pub struct UploadStore {
    pub capture_root: String,
    pub destination: String,
    pub authorization: UploadAuthorizationFingerprint,
    pub activation_at_unix_ms: u64,
    pub jobs: Vec<UploadJobRecord>,
    pub counts: UploadStateCounts,
    pub last_success_at_unix_ms: Option<u64>,
    pub last_failure_at_unix_ms: Option<u64>,
    pub last_error: Option<String>,
}

/// Whether a time is known and not older than one that is already known.
pub open spec fn supersedes(time: Option<u64>, known: Option<u64>) -> bool {
    time matches Some(at) && (known matches Some(before) ==> at >= before)
}

pub fn check_supersedes(time: Option<u64>, known: Option<u64>) -> (r: bool)
    ensures
        r == supersedes(time, known),
{
    match (time, known) {
        (Some(at), Some(before)) => at >= before,
        (Some(_), None) => true,
        (None, _) => false,
    }
}

/// Whether the job at `i` has this number.
pub open spec fn has_number(jobs: Seq<UploadJobRecord>, number: i64, i: int) -> bool {
    0 <= i < jobs.len() && jobs[i].job_id.0 == number
}

/// Whether no job has this number.
pub open spec fn lacks_number(jobs: Seq<UploadJobRecord>, number: i64) -> bool {
    forall|i: int| !(#[trigger] has_number(jobs, number, i))
}

/// Whether this is the number that the next job gets: one more than the greatest,
/// or one in an empty ledger, or any free one where the greatest has no successor.
pub open spec fn is_next_number(jobs: Seq<UploadJobRecord>, number: i64) -> bool {
    if jobs.len() == 0 {
        number == 1
    } else if exists|i: int| #[trigger] has_number(jobs, i64::MAX, i) {
        number > 0 && forall|i: int| !(#[trigger] has_number(jobs, number, i))
    } else {
        &&& exists|i: int| 0 <= i < jobs.len() && (#[trigger] jobs[i]).job_id.0 == number - 1
        &&& forall|i: int| 0 <= i < jobs.len() ==> (#[trigger] jobs[i]).job_id.0 < number
    }
}

/// Whether every job satisfies what a stored job satisfies.
pub open spec fn rows_ok(jobs: Seq<UploadJobRecord>) -> bool {
    forall|i: int| 0 <= i < jobs.len() ==> (#[trigger] jobs[i]).wf()
}

/// Whether two jobs differ in their numbers, their artifacts and their keys.
pub open spec fn apart(a: UploadJobRecord, b: UploadJobRecord) -> bool {
    &&& a.job_id.0 != b.job_id.0
    &&& a.artifact_path@ != b.artifact_path@
    &&& a.idempotency_key@ != b.idempotency_key@
}

/// Whether no number, no artifact and no idempotency key occurs twice.
#[verifier::opaque]
pub open spec fn distinct(jobs: Seq<UploadJobRecord>) -> bool {
    forall|i: int, j: int| 0 <= i < j < jobs.len() ==> apart(#[trigger] jobs[i], #[trigger] jobs[j])
}

/// Whether this is the latest completion of some jobs.
#[verifier::opaque]
pub open spec fn latest_completion(jobs: Seq<UploadJobRecord>, latest: Option<u64>) -> bool {
    &&& forall|i: int|
        0 <= i < jobs.len() ==> ((#[trigger] jobs[i]).completed_at_unix_ms matches Some(at) ==> (
        latest matches Some(last) && at <= last))
    &&& latest matches Some(last) ==> exists|i: int|
        0 <= i < jobs.len() && (#[trigger] jobs[i]).completed_at_unix_ms == Some(last)
}

/// Whether no job failed later than this.
#[verifier::opaque]
pub open spec fn bounds_failures(jobs: Seq<UploadJobRecord>, latest: Option<u64>) -> bool {
    forall|i: int|
        0 <= i < jobs.len() ==> ((#[trigger] jobs[i]).last_failure_at_unix_ms matches Some(at) ==> (
        latest matches Some(last) && at <= last))
}

proof fn lemma_distinct_update(jobs: Seq<UploadJobRecord>, i: int, row: UploadJobRecord)
    requires
        distinct(jobs),
        0 <= i < jobs.len(),
        row.same_identity(jobs[i]),
    ensures
        distinct(jobs.update(i, row)),
{
    reveal(distinct);
    let after = jobs.update(i, row);
    assert forall|a: int, b: int| 0 <= a < b < after.len() implies apart(
        #[trigger] after[a],
        #[trigger] after[b],
    ) by {
        assert(apart(jobs[a], jobs[b]));
    }
}

/// The latest completion once a job that was not completed is replaced.
pub open spec fn completion_after(latest: Option<u64>, completed: Option<u64>) -> Option<u64> {
    if supersedes(completed, latest) {
        completed
    } else {
        latest
    }
}

proof fn lemma_completion_update(
    jobs: Seq<UploadJobRecord>,
    latest: Option<u64>,
    i: int,
    row: UploadJobRecord,
)
    requires
        latest_completion(jobs, latest),
        0 <= i < jobs.len(),
        jobs[i].completed_at_unix_ms is None,
    ensures
        latest_completion(
            jobs.update(i, row),
            completion_after(latest, row.completed_at_unix_ms),
        ),
{
    reveal(latest_completion);
    let after = jobs.update(i, row);
    let now = completion_after(latest, row.completed_at_unix_ms);
    assert forall|a: int| 0 <= a < after.len() implies ((
    #[trigger] after[a]).completed_at_unix_ms matches Some(at) ==> (now matches Some(last) && at
        <= last)) by {
        if a != i {
            assert(after[a] == jobs[a]);
        }
    }
    if now is Some {
        if now == latest && !supersedes(row.completed_at_unix_ms, latest) {
            let a = choose|a: int|
                0 <= a < jobs.len() && (#[trigger] jobs[a]).completed_at_unix_ms == latest;
            assert(after[a].completed_at_unix_ms == now);
        } else {
            assert(after[i].completed_at_unix_ms == now);
        }
    }
}

/// The latest failure once a job is replaced.
pub open spec fn failure_after(
    latest: Option<u64>,
    before: Option<u64>,
    failed: Option<u64>,
) -> Option<u64> {
    if failed != before && supersedes(failed, latest) {
        failed
    } else {
        latest
    }
}

proof fn lemma_failure_update(
    jobs: Seq<UploadJobRecord>,
    latest: Option<u64>,
    i: int,
    row: UploadJobRecord,
)
    requires
        bounds_failures(jobs, latest),
        0 <= i < jobs.len(),
    ensures
        bounds_failures(
            jobs.update(i, row),
            failure_after(latest, jobs[i].last_failure_at_unix_ms, row.last_failure_at_unix_ms),
        ),
{
    reveal(bounds_failures);
    let after = jobs.update(i, row);
    let now = failure_after(latest, jobs[i].last_failure_at_unix_ms, row.last_failure_at_unix_ms);
    assert forall|a: int| 0 <= a < after.len() implies ((
    #[trigger] after[a]).last_failure_at_unix_ms matches Some(at) ==> (now matches Some(last) && at
        <= last)) by {
        assert(jobs[a].last_failure_at_unix_ms matches Some(at) ==> (latest matches Some(last) && at
            <= last));
    }
}

impl UploadStore {
    /// What every stored ledger satisfies by its schema: no number, no artifact and
    /// no key occurs twice, and every value is in range.
    pub open spec fn wf(self) -> bool {
        let jobs = self.jobs@;
        &&& jobs.len() <= i64::MAX
        &&& rows_ok(jobs)
        &&& distinct(jobs)
        &&& self.counts.fit()
        &&& upload_record::fits_i64(self.activation_at_unix_ms)
        &&& upload_record::optional_fits(self.last_success_at_unix_ms)
        &&& upload_record::optional_fits(self.last_failure_at_unix_ms)
    }

    /// Whether the aggregates of a ledger agree with its jobs. A new ledger agrees,
    /// and so does what every operation makes of a ledger that agrees.
    pub open spec fn agrees(self) -> bool {
        let jobs = self.jobs@;
        &&& upload_record::counts_match(self.counts, jobs)
        &&& latest_completion(jobs, self.last_success_at_unix_ms)
        &&& bounds_failures(jobs, self.last_failure_at_unix_ms)
    }

    /// Whether another ledger has the same binding.
    pub open spec fn same_binding(self, other: Self) -> bool {
        &&& self.capture_root == other.capture_root
        &&& self.destination == other.destination
        &&& self.authorization == other.authorization
        &&& self.activation_at_unix_ms == other.activation_at_unix_ms
    }

    /// Whether `after` is this ledger with the job at `i` replaced by `row`, and
    /// the aggregates brought up to date.
    pub open spec fn row_written(self, after: Self, i: int, row: UploadJobRecord) -> bool {
        let before = self.jobs@[i];
        let failed_anew = row.last_failure_at_unix_ms != before.last_failure_at_unix_ms
            && supersedes(row.last_failure_at_unix_ms, self.last_failure_at_unix_ms);
        &&& self.same_binding(after)
        &&& after.jobs@ == self.jobs@.update(i, row)
        &&& self.counts.moved(after.counts, before.state, row.state)
        &&& after.last_success_at_unix_ms == (if row.completed_at_unix_ms
            != before.completed_at_unix_ms && supersedes(
            row.completed_at_unix_ms,
            self.last_success_at_unix_ms,
        ) {
            row.completed_at_unix_ms
        } else {
            self.last_success_at_unix_ms
        })
        &&& after.last_failure_at_unix_ms == (if failed_anew {
            row.last_failure_at_unix_ms
        } else {
            self.last_failure_at_unix_ms
        })
        &&& after.last_error == (if failed_anew {
            row.last_error
        } else {
            self.last_error
        })
    }

    /// Whether every job of this ledger is still in `after`, as the same artifact
    /// and with no attempt number taken back; what was completed or failed for
    /// good has not changed at all.
    pub open spec fn history_kept(self, after: Self) -> bool {
        &&& self.jobs@.len() <= after.jobs@.len()
        &&& forall|i: int|
            0 <= i < self.jobs@.len() ==> {
                &&& (#[trigger] after.jobs@[i]).same_identity(self.jobs@[i])
                &&& after.jobs@[i].attempt_count >= self.jobs@[i].attempt_count
                &&& !self.jobs@[i].state.live() ==> after.jobs@[i] == self.jobs@[i]
            }
    }

    /// Whether the job at `i` is the one that a claim was handed out for, and the
    /// claim is still the current one.
    pub open spec fn claims(self, claim: ClaimedUpload, i: int) -> bool {
        &&& has_number(self.jobs@, claim.job_id.0, i)
        &&& self.jobs@[i].state == UploadState::InProgress
        &&& self.jobs@[i].attempt_count == claim.attempt_count
    }

    /// The job that a claim was handed out for, if the claim is still the current
    /// one.
    pub open spec fn current_claim(self, claim: ClaimedUpload) -> Option<int> {
        if exists|i: int| self.claims(claim, i) {
            Some(choose|i: int| self.claims(claim, i))
        } else {
            None
        }
    }

    fn count_move(&mut self, from: UploadState, to: UploadState)
        requires
            old(self).counts.fit(),
            old(self).counts.can_move(from, to),
        ensures
            final(self).counts.fit(),
            final(self).jobs == old(self).jobs,
            old(self).same_binding(*final(self)),
            final(self).last_success_at_unix_ms == old(self).last_success_at_unix_ms,
            final(self).last_failure_at_unix_ms == old(self).last_failure_at_unix_ms,
            final(self).last_error == old(self).last_error,
            old(self).counts.moved(final(self).counts, from, to),
    {
        let mut counts = self.counts;
        if from == to {
            return ;
        }
        match from {
            UploadState::Pending => {
                counts.pending = counts.pending - 1;
            },
            UploadState::InProgress => {
                counts.in_progress = counts.in_progress - 1;
            },
            UploadState::Retrying => {
                counts.retrying = counts.retrying - 1;
            },
            UploadState::Completed => {
                counts.completed = counts.completed - 1;
            },
            UploadState::PermanentlyFailed => {
                counts.permanently_failed = counts.permanently_failed - 1;
            },
        }
        match to {
            UploadState::Pending => {
                counts.pending = counts.pending + 1;
            },
            UploadState::InProgress => {
                counts.in_progress = counts.in_progress + 1;
            },
            UploadState::Retrying => {
                counts.retrying = counts.retrying + 1;
            },
            UploadState::Completed => {
                counts.completed = counts.completed + 1;
            },
            UploadState::PermanentlyFailed => {
                counts.permanently_failed = counts.permanently_failed + 1;
            },
        }
        self.counts = counts;
    }

    /// Replace a job that is still live, and bring the aggregates up to
    /// date.
    fn write_row(&mut self, i: usize, row: UploadJobRecord)
        requires
            old(self).wf(),
            i < old(self).jobs@.len(),
            old(self).jobs@[i as int].state.live(),
            old(self).counts.can_move(old(self).jobs@[i as int].state, row.state),
            row.wf(),
            row.same_identity(old(self).jobs@[i as int]),
            row.attempt_count >= old(self).jobs@[i as int].attempt_count,
        ensures
            final(self).wf(),
            old(self).agrees() ==> final(self).agrees(),
            old(self).row_written(*final(self), i as int, row),
            old(self).history_kept(*final(self)),
    {
        let ghost before = *self;
        let ghost old_row = self.jobs@[i as int];
        let from = self.jobs[i].state;
        let to = row.state;
        let old_failure: Option<u64> = self.jobs[i].last_failure_at_unix_ms;
        let completed: Option<u64> = row.completed_at_unix_ms;
        let failure: Option<u64> = row.last_failure_at_unix_ms;
        let error = copy_text(&row.last_error);
        self.count_move(from, to);
        self.jobs.set(i, row);
        if completed.is_some() && check_supersedes(completed, self.last_success_at_unix_ms) {
            self.last_success_at_unix_ms = completed;
        }
        let failed_again = match (failure, old_failure) {
            (Some(now), Some(then)) => now != then,
            (Some(_), None) => true,
            (None, _) => false,
        };
        if failed_again && check_supersedes(failure, self.last_failure_at_unix_ms) {
            self.last_failure_at_unix_ms = failure;
            self.last_error = error;
        }
        proof {
            lemma_distinct_update(before.jobs@, i as int, row);
            if before.agrees() {
                upload_record::lemma_counts_moved(
                    before.jobs@,
                    i as int,
                    row,
                    before.counts,
                    self.counts,
                );
                lemma_completion_update(
                    before.jobs@,
                    before.last_success_at_unix_ms,
                    i as int,
                    row,
                );
                lemma_failure_update(before.jobs@, before.last_failure_at_unix_ms, i as int, row);
            }
        }
    }
}

/// What is recorded of a finalized artifact.
#[derive(Debug)]
pub struct ArtifactValues {
    pub artifact_path: String,
    pub filename: String,
    pub idempotency_key: String,
    pub file_size: u64,
    pub sha256: [u8; 32],
}

/// The job that a newly recorded artifact becomes.
pub open spec fn new_job(id: i64, values: ArtifactValues, at: u64) -> UploadJobRecord {
    UploadJobRecord {
        job_id: UploadJobId(id),
        artifact_path: values.artifact_path,
        filename: values.filename,
        idempotency_key: values.idempotency_key,
        file_size: values.file_size,
        sha256: values.sha256,
        state: UploadState::Pending,
        attempt_count: 0,
        next_attempt_at_unix_ms: None,
        last_http_status: None,
        last_error: None,
        created_at_unix_ms: at,
        updated_at_unix_ms: at,
        completed_at_unix_ms: None,
        last_failure_at_unix_ms: None,
    }
}

/// Whether the job at `i` is the first one due: due at this time, and before
/// every other such job or as early and with a smaller number.
pub open spec fn is_first_due(jobs: Seq<UploadJobRecord>, now: u64, i: int) -> bool {
    &&& 0 <= i < jobs.len()
    &&& jobs[i].claimable_at(now)
    &&& forall|j: int|
        0 <= j < jobs.len() && (#[trigger] jobs[j]).claimable_at(now) ==> jobs[i].due()
            < jobs[j].due() || (jobs[i].due() == jobs[j].due() && jobs[i].job_id.0
            <= jobs[j].job_id.0)
}

pub open spec fn none_due(jobs: Seq<UploadJobRecord>, now: u64) -> bool {
    forall|j: int| 0 <= j < jobs.len() ==> !(#[trigger] jobs[j]).claimable_at(now)
}

/// The claim of a job for its next attempt.
pub open spec fn claim_of(job: UploadJobRecord) -> ClaimedUpload {
    ClaimedUpload {
        job_id: job.job_id,
        artifact_path: job.artifact_path,
        filename: job.filename,
        idempotency_key: job.idempotency_key,
        file_size: job.file_size,
        sha256: job.sha256,
        attempt_count: (job.attempt_count + 1) as u64,
    }
}

/// A job once it has been claimed.
pub open spec fn claimed_row(job: UploadJobRecord, now: u64) -> UploadJobRecord {
    UploadJobRecord {
        state: UploadState::InProgress,
        attempt_count: (job.attempt_count + 1) as u64,
        next_attempt_at_unix_ms: None,
        updated_at_unix_ms: now,
        ..job
    }
}

/// A claimed job once it has been released: the attempt stays used.
pub open spec fn released_row(job: UploadJobRecord, now: u64) -> UploadJobRecord {
    UploadJobRecord {
        state: UploadState::Pending,
        next_attempt_at_unix_ms: None,
        updated_at_unix_ms: now,
        ..job
    }
}

pub open spec fn retrying_row(
    job: UploadJobRecord,
    at: u64,
    next: u64,
    status: Option<u16>,
    error: Option<String>,
) -> UploadJobRecord {
    UploadJobRecord {
        state: UploadState::Retrying,
        next_attempt_at_unix_ms: Some(next),
        last_http_status: status,
        last_error: error,
        updated_at_unix_ms: at,
        last_failure_at_unix_ms: Some(at),
        ..job
    }
}

pub open spec fn completed_row(job: UploadJobRecord, at: u64, status: u16) -> UploadJobRecord {
    UploadJobRecord {
        state: UploadState::Completed,
        next_attempt_at_unix_ms: None,
        last_http_status: Some(status),
        updated_at_unix_ms: at,
        completed_at_unix_ms: Some(at),
        ..job
    }
}

pub open spec fn failed_row(
    job: UploadJobRecord,
    at: u64,
    status: Option<u16>,
    error: Option<String>,
) -> UploadJobRecord {
    UploadJobRecord {
        state: UploadState::PermanentlyFailed,
        next_attempt_at_unix_ms: None,
        last_http_status: status,
        last_error: error,
        updated_at_unix_ms: at,
        last_failure_at_unix_ms: Some(at),
        ..job
    }
}

fn check_status(status: Option<u16>) -> (r: bool)
    ensures
        r == upload_record::status_ok(status),
{
    match status {
        Some(code) => 100 <= code && code <= 599,
        None => true,
    }
}

proof fn lemma_push_distinct(jobs: Seq<UploadJobRecord>, row: UploadJobRecord)
    requires
        distinct(jobs),
        forall|i: int| 0 <= i < jobs.len() ==> apart(#[trigger] jobs[i], row),
    ensures
        distinct(jobs.push(row)),
{
    reveal(distinct);
    let after = jobs.push(row);
    assert forall|i: int, j: int| 0 <= i < j < after.len() implies apart(
        #[trigger] after[i],
        #[trigger] after[j],
    ) by {
        assert(after[i] == jobs[i]);
        if j < jobs.len() {
            assert(after[j] == jobs[j]);
        }
    }
}

proof fn lemma_push_agrees(before: UploadStore, after: UploadStore, row: UploadJobRecord)
    requires
        before.agrees(),
        before.counts.pending < i64::MAX,
        before.job_added(after, row),
        row.state == UploadState::Pending,
        row.completed_at_unix_ms is None,
        row.last_failure_at_unix_ms is None,
    ensures
        after.agrees(),
{
    reveal(latest_completion);
    reveal(bounds_failures);
    let jobs = before.jobs@;
    let completion = before.last_success_at_unix_ms;
    let failure = before.last_failure_at_unix_ms;
    upload_record::lemma_count_push(jobs, row, UploadState::Pending);
    upload_record::lemma_count_push(jobs, row, UploadState::InProgress);
    upload_record::lemma_count_push(jobs, row, UploadState::Retrying);
    upload_record::lemma_count_push(jobs, row, UploadState::Completed);
    upload_record::lemma_count_push(jobs, row, UploadState::PermanentlyFailed);
    assert forall|a: int| 0 <= a < after.jobs@.len() implies ((
    #[trigger] after.jobs@[a]).completed_at_unix_ms matches Some(at) ==> (completion matches Some(
        last,
    ) && at <= last)) by {
        if a < jobs.len() {
            assert(after.jobs@[a] == jobs[a]);
        }
    }
    if completion is Some {
        let a = choose|a: int|
            0 <= a < jobs.len() && (#[trigger] jobs[a]).completed_at_unix_ms == completion;
        assert(after.jobs@[a].completed_at_unix_ms == completion);
    }
    assert forall|a: int| 0 <= a < after.jobs@.len() implies ((
    #[trigger] after.jobs@[a]).last_failure_at_unix_ms matches Some(at) ==> (failure matches Some(
        last,
    ) && at <= last)) by {
        if a < jobs.len() {
            assert(after.jobs@[a] == jobs[a]);
        }
    }
}

/// What the number of a recorded job comes to: only positive ones are handed out.
pub open spec fn numbered_result(job_id: UploadJobId, disposition: RecordDisposition) -> Result<
    RecordArtifactResult,
    UploadStoreError,
> {
    if job_id.0 > 0 {
        Ok(RecordArtifactResult { job_id, disposition })
    } else {
        Err(UploadStoreError::CorruptInteger { column: "id", value: job_id.0 })
    }
}

/// Whether recording an artifact came out as it has to. A job whose number is not
/// positive is refused only once its row is there.
pub open spec fn is_recording(
    before: UploadStore,
    after: UploadStore,
    values: ArtifactValues,
    at: u64,
    r: Result<RecordArtifactResult, UploadStoreError>,
) -> bool {
    if !upload_record::fits_i64(at) {
        &&& after == before
        &&& r == Err::<RecordArtifactResult, UploadStoreError>(
            UploadStoreError::TimestampOutOfRange(at),
        )
    } else if !upload_record::fits_i64(values.file_size) {
        &&& after == before
        &&& r == Err::<RecordArtifactResult, UploadStoreError>(
            UploadStoreError::ArtifactSizeOutOfRange(values.file_size),
        )
    } else if before.knows(values.artifact_path@) {
        &&& after == before
        &&& exists|i: int| #[trigger]
            before.records_path(values.artifact_path@, i) && r == numbered_result(
                before.jobs@[i].job_id,
                RecordDisposition::AlreadyRecorded,
            )
    } else if !before.accepts(values) {
        &&& after == before
        &&& r == Err::<RecordArtifactResult, UploadStoreError>(
            UploadStoreError::ConstraintViolation,
        )
    } else {
        exists|number: i64| #[trigger]
            is_next_number(before.jobs@, number) && before.job_added(
                after,
                new_job(number, values, at),
            ) && r == numbered_result(UploadJobId(number), RecordDisposition::Inserted)
    }
}

spec fn is_taken(jobs: Seq<UploadJobRecord>, number: int) -> bool {
    exists|i: int| 0 <= i < jobs.len() && (#[trigger] jobs[i]).job_id.0 == number
}

/// Numbers from one on that are all taken are no more than the jobs.
proof fn lemma_taken_numbers(jobs: Seq<UploadJobRecord>, count: int)
    requires
        0 <= count <= i64::MAX,
        forall|k: int| 1 <= k <= count ==> #[trigger] is_taken(jobs, k),
    ensures
        count <= jobs.len(),
{
    let numbers = jobs.map_values(|job: UploadJobRecord| job.job_id.0 as int);
    let taken = vstd::set_lib::set_int_range(1, count + 1);
    assert forall|k: int| taken.contains(k) implies numbers.to_set().contains(k) by {
        assert(is_taken(jobs, k));
        let i = choose|i: int| 0 <= i < jobs.len() && (#[trigger] jobs[i]).job_id.0 == k;
        assert(numbers[i] == k);
    }
    vstd::set_lib::lemma_int_range(1, count + 1);
    vstd::set_lib::lemma_len_subset(taken, numbers.to_set());
    numbers.lemma_cardinality_of_set();
}

impl UploadStore {
    /// Whether some job stands for this artifact path.
    pub open spec fn records_path(self, path: Seq<char>, i: int) -> bool {
        0 <= i < self.jobs@.len() && self.jobs@[i].artifact_path@ == path
    }

    /// Whether the ledger has a job for this path.
    pub open spec fn knows(self, path: Seq<char>) -> bool {
        exists|i: int| #[trigger] self.records_path(path, i)
    }

    /// Whether the ledger has room for an artifact that it does not know: its key
    /// is new, and one more job can be counted.
    pub open spec fn accepts(self, values: ArtifactValues) -> bool {
        &&& self.jobs@.len() < i64::MAX
        &&& self.counts.pending < i64::MAX
        &&& forall|i: int|
            0 <= i < self.jobs@.len() ==> (#[trigger] self.jobs@[i]).idempotency_key@
                != values.idempotency_key@
    }

    /// Whether `after` is this ledger with one more job that waits.
    pub open spec fn job_added(self, after: Self, row: UploadJobRecord) -> bool {
        &&& after.jobs@ == self.jobs@.push(row)
        &&& self.same_binding(after)
        &&& after.counts == (UploadStateCounts {
            pending: (self.counts.pending + 1) as u64,
            ..self.counts
        })
        &&& after.last_success_at_unix_ms == self.last_success_at_unix_ms
        &&& after.last_failure_at_unix_ms == self.last_failure_at_unix_ms
        &&& after.last_error == self.last_error
    }

    fn position_of_path(&self, artifact_path: &str) -> (r: Option<usize>)
        ensures
            match r {
                Some(i) => self.records_path(artifact_path@, i as int),
                None => !self.knows(artifact_path@),
            },
    {
        let mut i: usize = 0;
        while i < self.jobs.len()
            invariant
                i <= self.jobs.len(),
                forall|k: int| 0 <= k < i ==> !(#[trigger] self.records_path(artifact_path@, k)),
            decreases self.jobs.len() - i,
        {
            if same_text(self.jobs[i].artifact_path.as_str(), artifact_path) {
                assert(self.records_path(artifact_path@, i as int));
                return Some(i);
            }
            assert(!self.records_path(artifact_path@, i as int));
            i = i + 1;
        }
        None
    }

    pub(crate) fn check_known(&self, artifact_path: &str) -> (r: bool)
        ensures
            r == self.knows(artifact_path@),
    {
        self.position_of_path(artifact_path).is_some()
    }

    /// At most one job stands for a path.
    pub proof fn lemma_one_job_for_path(self, path: Seq<char>)
        requires
            self.wf(),
        ensures
            forall|i: int, j: int|
                #[trigger] self.records_path(path, i) && #[trigger] self.records_path(path, j)
                    ==> i == j,
    {
        reveal(distinct);
        assert forall|i: int, j: int|
            #[trigger] self.records_path(path, i) && #[trigger] self.records_path(
                path,
                j,
            ) implies i == j by {
            if i < j {
                assert(apart(self.jobs@[i], self.jobs@[j]));
            } else if j < i {
                assert(apart(self.jobs@[j], self.jobs@[i]));
            }
        }
    }

    /// The number of the job that stands for an artifact path.
    pub fn recorded_job_id(&self, artifact_path: &str) -> (r: Result<
        Option<UploadJobId>,
        UploadStoreError,
    >)
        requires
            self.wf(),
        ensures
            if self.knows(artifact_path@) {
                exists|i: int| #[trigger]
                    self.records_path(artifact_path@, i) && r == (if self.jobs@[i].job_id.0 > 0 {
                        Ok::<Option<UploadJobId>, UploadStoreError>(Some(self.jobs@[i].job_id))
                    } else {
                        Err::<Option<UploadJobId>, UploadStoreError>(
                            (UploadStoreError::CorruptInteger {
                                column: "id",
                                value: self.jobs@[i].job_id.0,
                            }),
                        )
                    })
            } else {
                r == Ok::<Option<UploadJobId>, UploadStoreError>(None)
            },
    {
        match self.position_of_path(artifact_path) {
            Some(i) => {
                let job_id = job_id_from_database(self.jobs[i].job_id.0)?;
                Ok(Some(job_id))
            },
            None => Ok(None),
        }
    }

    fn position_of_number(&self, number: i64) -> (r: Option<usize>)
        ensures
            match r {
                Some(i) => has_number(self.jobs@, number, i as int),
                None => forall|i: int| !(#[trigger] has_number(self.jobs@, number, i)),
            },
    {
        let mut i: usize = 0;
        while i < self.jobs.len()
            invariant
                i <= self.jobs.len(),
                forall|k: int| 0 <= k < i ==> !(#[trigger] has_number(self.jobs@, number, k)),
            decreases self.jobs.len() - i,
        {
            if self.jobs[i].job_id.0 == number {
                assert(has_number(self.jobs@, number, i as int));
                return Some(i);
            }
            assert(!has_number(self.jobs@, number, i as int));
            i = i + 1;
        }
        None
    }

    fn next_number(&self) -> (r: i64)
        requires
            self.jobs@.len() < i64::MAX,
        ensures
            is_next_number(self.jobs@, r),
            forall|i: int| 0 <= i < self.jobs@.len() ==> (#[trigger] self.jobs@[i]).job_id.0 != r,
    {
        if self.jobs.len() == 0 {
            return 1;
        }
        let mut greatest: i64 = self.jobs[0].job_id.0;
        let mut i: usize = 1;
        assert(has_number(self.jobs@, greatest, 0));
        while i < self.jobs.len()
            invariant
                1 <= i <= self.jobs.len(),
                forall|k: int| 0 <= k < i ==> (#[trigger] self.jobs@[k]).job_id.0 <= greatest,
                exists|k: int| #[trigger] has_number(self.jobs@, greatest, k),
            decreases self.jobs.len() - i,
        {
            if self.jobs[i].job_id.0 > greatest {
                greatest = self.jobs[i].job_id.0;
                assert(has_number(self.jobs@, greatest, i as int));
            }
            i = i + 1;
        }
        if greatest < i64::MAX {
            proof {
                let at = choose|k: int| #[trigger] has_number(self.jobs@, greatest, k);
                assert(self.jobs@[at].job_id.0 == greatest + 1 - 1);
            }
            return greatest + 1;
        }
        let mut number: i64 = 1;
        loop
            invariant
                1 <= number,
                self.jobs@.len() < i64::MAX,
                exists|i: int| #[trigger] has_number(self.jobs@, i64::MAX, i),
                number - 1 <= self.jobs@.len(),
                forall|k: int| 1 <= k < number ==> #[trigger] is_taken(self.jobs@, k),
            decreases self.jobs@.len() + 1 - number,
        {
            match self.position_of_number(number) {
                Some(at) => {
                    proof {
                        assert(self.jobs@[at as int].job_id.0 == number);
                        lemma_taken_numbers(self.jobs@, number as int);
                    }
                },
                None => {
                    assert forall|i: int| 0 <= i < self.jobs@.len() implies (
                    #[trigger] self.jobs@[i]).job_id.0 != number by {
                        assert(!has_number(self.jobs@, number, i));
                    }
                    return number;
                },
            }
            number = number + 1;
        }
    }

    fn has_key(&self, key: &str) -> (r: bool)
        ensures
            r == exists|i: int|
                0 <= i < self.jobs@.len() && (#[trigger] self.jobs@[i]).idempotency_key@ == key@,
    {
        let mut i: usize = 0;
        while i < self.jobs.len()
            invariant
                i <= self.jobs.len(),
                forall|k: int| 0 <= k < i ==> (#[trigger] self.jobs@[k]).idempotency_key@ != key@,
            decreases self.jobs.len() - i,
        {
            if same_text(self.jobs[i].idempotency_key.as_str(), key) {
                return true;
            }
            i = i + 1;
        }
        false
    }

    /// Record a finalized artifact as a pending job. An artifact that is already
    /// recorded keeps its job as it is.
    pub fn record_artifact(&mut self, values: ArtifactValues, recorded_at_unix_ms: u64) -> (r:
        Result<RecordArtifactResult, UploadStoreError>)
        requires
            old(self).wf(),
        ensures
            final(self).wf(),
            old(self).history_kept(*final(self)),
            old(self).agrees() ==> final(self).agrees(),
            is_recording(*old(self), *final(self), values, recorded_at_unix_ms, r),
    {
        let ghost before = *self;
        check_timestamp(recorded_at_unix_ms)?;
        if values.file_size > i64::MAX as u64 {
            return Err(UploadStoreError::ArtifactSizeOutOfRange(values.file_size));
        }
        if let Some(i) = self.position_of_path(values.artifact_path.as_str()) {
            let job_id = job_id_from_database(self.jobs[i].job_id.0)?;
            return Ok(
                RecordArtifactResult { job_id, disposition: RecordDisposition::AlreadyRecorded },
            );
        }
        if self.jobs.len() as u64 >= i64::MAX as u64 || self.counts.pending >= i64::MAX as u64
            || self.has_key(values.idempotency_key.as_str()) {
            return Err(UploadStoreError::ConstraintViolation);
        }
        let number: i64 = self.next_number();
        let ghost row = new_job(number, values, recorded_at_unix_ms);
        proof {
            let jobs = before.jobs@;
            assert forall|i: int| 0 <= i < jobs.len() implies apart(#[trigger] jobs[i], row) by {
                assert(!before.records_path(values.artifact_path@, i));
            }
            lemma_push_distinct(jobs, row);
        }
        self.counts.pending = self.counts.pending + 1;
        self.jobs.push(
            UploadJobRecord {
                job_id: UploadJobId(number),
                artifact_path: values.artifact_path,
                filename: values.filename,
                idempotency_key: values.idempotency_key,
                file_size: values.file_size,
                sha256: values.sha256,
                state: UploadState::Pending,
                attempt_count: 0,
                next_attempt_at_unix_ms: None,
                last_http_status: None,
                last_error: None,
                created_at_unix_ms: recorded_at_unix_ms,
                updated_at_unix_ms: recorded_at_unix_ms,
                completed_at_unix_ms: None,
                last_failure_at_unix_ms: None,
            },
        );
        proof {
            assert(self.jobs@ == before.jobs@.push(row));
            assert(before.job_added(*self, row));
            if before.agrees() {
                lemma_push_agrees(before, *self, row);
            }
        }
        let job_id = job_id_from_database(number)?;
        Ok(RecordArtifactResult { job_id, disposition: RecordDisposition::Inserted })
    }
}

proof fn lemma_one_claim(store: UploadStore, claim: ClaimedUpload, i: int)
    requires
        distinct(store.jobs@),
        store.claims(claim, i),
    ensures
        store.current_claim(claim) == Some(i),
{
    reveal(distinct);
    assert forall|k: int| store.claims(claim, k) implies k == i by {
        if k < i {
            assert(apart(store.jobs@[k], store.jobs@[i]));
        } else if i < k {
            assert(apart(store.jobs@[i], store.jobs@[k]));
        }
    }
}

impl UploadStore {
    /// Why the job at `i` cannot be claimed although it is due, if it cannot.
    pub open spec fn claim_fault(self, i: int) -> Option<UploadStoreError> {
        let job = self.jobs@[i];
        if job.job_id.0 <= 0 {
            Some(UploadStoreError::CorruptInteger { column: "id", value: job.job_id.0 })
        } else if !job.identity_ok(self.capture_root@) {
            Some(UploadStoreError::CorruptArtifactIdentity(job.job_id))
        } else if job.attempt_count == i64::MAX {
            Some(UploadStoreError::AttemptCountOverflow(job.job_id))
        } else if !self.counts.can_move(job.state, UploadState::InProgress) {
            Some(UploadStoreError::ConstraintViolation)
        } else {
            None
        }
    }

    fn first_due(&self, now: u64) -> (r: Option<usize>)
        ensures
            match r {
                Some(i) => is_first_due(self.jobs@, now, i as int),
                None => none_due(self.jobs@, now),
            },
    {
        let mut best: Option<usize> = None;
        let mut i: usize = 0;
        while i < self.jobs.len()
            invariant
                i <= self.jobs.len(),
                match best {
                    Some(b) => {
                        &&& b < i
                        &&& self.jobs@[b as int].claimable_at(now)
                        &&& forall|j: int|
                            0 <= j < i && (#[trigger] self.jobs@[j]).claimable_at(now) ==> (
                            self.jobs@[b as int].due() < self.jobs@[j].due() || (
                            self.jobs@[b as int].due() == self.jobs@[j].due()
                                && self.jobs@[b as int].job_id.0 <= self.jobs@[j].job_id.0))
                    },
                    None => forall|j: int|
                        0 <= j < i ==> !(#[trigger] self.jobs@[j]).claimable_at(now),
                },
            decreases self.jobs.len() - i,
        {
            let job = &self.jobs[i];
            if job.is_waiting() && job.due_at() <= now {
                best = match best {
                    Some(b) => if self.jobs[b].due_at() < job.due_at() || (self.jobs[b].due_at()
                        == job.due_at() && self.jobs[b].job_id.0 <= job.job_id.0) {
                        Some(b)
                    } else {
                        Some(i)
                    },
                    None => Some(i),
                };
            }
            i = i + 1;
        }
        best
    }

    /// Hand out the first due job for its next attempt. The attempt is counted
    /// before anything is sent, so that its number can never be used twice.
    pub fn claim_due(&mut self, now_unix_ms: u64) -> (r: Result<
        Option<ClaimedUpload>,
        UploadStoreError,
    >)
        requires
            old(self).wf(),
        ensures
            final(self).wf(),
            old(self).history_kept(*final(self)),
            old(self).agrees() ==> final(self).agrees(),
            match r {
                Ok(Some(claim)) => exists|i: int|
                    {
                        let job = old(self).jobs@[i];
                        &&& upload_record::fits_i64(now_unix_ms)
                        &&& #[trigger] is_first_due(old(self).jobs@, now_unix_ms, i)
                        &&& old(self).claim_fault(i) is None
                        &&& claim == claim_of(job)
                        &&& old(self).row_written(*final(self), i, claimed_row(job, now_unix_ms))
                        &&& final(self).current_claim(claim) == Some(i)
                    },
                Ok(None) => {
                    &&& upload_record::fits_i64(now_unix_ms)
                    &&& none_due(old(self).jobs@, now_unix_ms)
                    &&& *final(self) == *old(self)
                },
                Err(error) => {
                    &&& *final(self) == *old(self)
                    &&& if !upload_record::fits_i64(now_unix_ms) {
                        error == UploadStoreError::TimestampOutOfRange(now_unix_ms)
                    } else {
                        exists|i: int| #[trigger]
                            is_first_due(old(self).jobs@, now_unix_ms, i) && old(self).claim_fault(
                                i,
                            ) == Some(error)
                    }
                },
            },
    {
        let ghost before = *self;
        check_timestamp(now_unix_ms)?;
        let i: usize = match self.first_due(now_unix_ms) {
            Some(i) => i,
            None => {
                return Ok(None);
            },
        };
        let ghost job = before.jobs@[i as int];
        assert(is_first_due(before.jobs@, now_unix_ms, i as int));
        let job_id = job_id_from_database(self.jobs[i].job_id.0)?;
        let checked = validate_stored_identity(
            job_id,
            self.jobs[i].artifact_path.as_str(),
            self.jobs[i].filename.as_str(),
            self.jobs[i].idempotency_key.as_str(),
            &self.jobs[i].sha256,
            self.capture_root.as_str(),
        );
        if let Err(error) = checked {
            assert(!job.identity_ok(self.capture_root@));
            return Err(error);
        }
        assert(job.identity_ok(self.capture_root@));
        if self.jobs[i].attempt_count >= i64::MAX as u64 {
            return Err(UploadStoreError::AttemptCountOverflow(job_id));
        }
        if !self.counts.check_move(self.jobs[i].state, UploadState::InProgress) {
            return Err(UploadStoreError::ConstraintViolation);
        }
        let mut row = self.jobs[i].clone();
        row.state = UploadState::InProgress;
        row.attempt_count = row.attempt_count + 1;
        row.next_attempt_at_unix_ms = None;
        row.updated_at_unix_ms = now_unix_ms;
        let claim = ClaimedUpload {
            job_id,
            artifact_path: row.artifact_path.clone(),
            filename: row.filename.clone(),
            idempotency_key: row.idempotency_key.clone(),
            file_size: row.file_size,
            sha256: row.sha256,
            attempt_count: row.attempt_count,
        };
        assert(row == claimed_row(job, now_unix_ms));
        self.write_row(i, row);
        proof {
            lemma_one_claim(*self, claim, i as int);
        }
        Ok(Some(claim))
    }

    fn find_claim(&self, claim: &ClaimedUpload) -> (r: Result<usize, UploadStoreError>)
        requires
            self.wf(),
        ensures
            match r {
                Ok(i) => upload_record::fits_i64(claim.attempt_count) && self.current_claim(*claim)
                    == Some(i as int),
                Err(error) => if !upload_record::fits_i64(claim.attempt_count) {
                    error == UploadStoreError::AttemptCountOverflow(claim.job_id)
                } else {
                    self.current_claim(*claim) is None && error
                        == UploadStoreError::InvalidTransition(claim.job_id)
                },
            },
    {
        if claim.attempt_count > i64::MAX as u64 {
            return Err(UploadStoreError::AttemptCountOverflow(claim.job_id));
        }
        let i: usize = match self.position_of_number(claim.job_id.0) {
            Some(i) => i,
            None => {
                return Err(UploadStoreError::InvalidTransition(claim.job_id));
            },
        };
        proof {
            assert forall|k: int| self.claims(*claim, k) implies k == i by {
                reveal(distinct);
                if k < i {
                    assert(apart(self.jobs@[k], self.jobs@[i as int]));
                } else if i < k {
                    assert(apart(self.jobs@[i as int], self.jobs@[k]));
                }
            }
        }
        if self.jobs[i].state == UploadState::InProgress && self.jobs[i].attempt_count
            == claim.attempt_count {
            assert(self.claims(*claim, i as int));
            Ok(i)
        } else {
            Err(UploadStoreError::InvalidTransition(claim.job_id))
        }
    }

    /// What a transition of a claim to a state comes to before the claimed job is
    /// replaced: the job's position, or the error that leaves the ledger alone.
    pub open spec fn transition(
        self,
        claim: ClaimedUpload,
        times: Seq<u64>,
        to: UploadState,
        status: Option<u16>,
    ) -> Result<int, UploadStoreError> {
        if times.len() > 0 && !upload_record::fits_i64(times[0]) {
            Err(UploadStoreError::TimestampOutOfRange(times[0]))
        } else if times.len() > 1 && !upload_record::fits_i64(times[1]) {
            Err(UploadStoreError::TimestampOutOfRange(times[1]))
        } else if !upload_record::fits_i64(claim.attempt_count) {
            Err(UploadStoreError::AttemptCountOverflow(claim.job_id))
        } else {
            match self.current_claim(claim) {
                Some(i) => if upload_record::status_ok(status) && self.counts.can_move(
                    self.jobs@[i].state,
                    to,
                ) {
                    Ok(i)
                } else {
                    Err(UploadStoreError::ConstraintViolation)
                },
                None => Err(UploadStoreError::InvalidTransition(claim.job_id)),
            }
        }
    }

    fn check_transition(
        &self,
        claim: &ClaimedUpload,
        to: UploadState,
        status: Option<u16>,
    ) -> (r: Result<usize, UploadStoreError>)
        requires
            self.wf(),
        ensures
            match self.transition(*claim, Seq::empty(), to, status) {
                Ok(i) => r matches Ok(at) && at == i && self.claims(*claim, i),
                Err(error) => r == Err::<usize, UploadStoreError>(error),
            },
    {
        let i: usize = self.find_claim(claim)?;
        if !check_status(status) || !self.counts.check_move(self.jobs[i].state, to) {
            return Err(UploadStoreError::ConstraintViolation);
        }
        Ok(i)
    }

    /// Releases a claim that was fenced but never submitted to the HTTP
    /// transport. The attempt number deliberately remains consumed so a stale
    /// claimant can never acquire the same fencing token as a later claim.
    pub fn release_claim(&mut self, claim: &ClaimedUpload, now_unix_ms: u64) -> (r: Result<
        (),
        UploadStoreError,
    >)
        requires
            old(self).wf(),
        ensures
            final(self).wf(),
            old(self).history_kept(*final(self)),
            old(self).agrees() ==> final(self).agrees(),
            match old(self).transition(
                *claim,
                seq![now_unix_ms],
                UploadState::Pending,
                None,
            ) {
                Ok(i) => r is Ok && old(self).row_written(
                    *final(self),
                    i,
                    released_row(old(self).jobs@[i], now_unix_ms),
                ),
                Err(error) => r == Err::<(), UploadStoreError>(error) && *final(self) == *old(self),
            },
    {
        check_timestamp(now_unix_ms)?;
        let i: usize = self.check_transition(claim, UploadState::Pending, None)?;
        let mut row = self.jobs[i].clone();
        row.state = UploadState::Pending;
        row.next_attempt_at_unix_ms = None;
        row.updated_at_unix_ms = now_unix_ms;
        self.write_row(i, row);
        Ok(())
    }

    /// Schedule another attempt of a claimed job.
    pub fn mark_retrying(
        &mut self,
        claim: &ClaimedUpload,
        failed_at_unix_ms: u64,
        next_attempt_at_unix_ms: u64,
        http_status: Option<u16>,
        error: Option<String>,
    ) -> (r: Result<(), UploadStoreError>)
        requires
            old(self).wf(),
        ensures
            final(self).wf(),
            old(self).history_kept(*final(self)),
            old(self).agrees() ==> final(self).agrees(),
            match old(self).transition(
                *claim,
                seq![failed_at_unix_ms, next_attempt_at_unix_ms],
                UploadState::Retrying,
                http_status,
            ) {
                Ok(i) => r is Ok && old(self).row_written(
                    *final(self),
                    i,
                    retrying_row(
                        old(self).jobs@[i],
                        failed_at_unix_ms,
                        next_attempt_at_unix_ms,
                        http_status,
                        error,
                    ),
                ),
                Err(refused) => r == Err::<(), UploadStoreError>(refused) && *final(self) == *old(self),
            },
    {
        check_timestamp(failed_at_unix_ms)?;
        check_timestamp(next_attempt_at_unix_ms)?;
        let i: usize = self.check_transition(claim, UploadState::Retrying, http_status)?;
        let mut row = self.jobs[i].clone();
        row.state = UploadState::Retrying;
        row.next_attempt_at_unix_ms = Some(next_attempt_at_unix_ms);
        row.last_http_status = http_status;
        row.last_error = error;
        row.updated_at_unix_ms = failed_at_unix_ms;
        row.last_failure_at_unix_ms = Some(failed_at_unix_ms);
        self.write_row(i, row);
        Ok(())
    }

    /// Record that a claimed job was acknowledged.
    pub fn mark_completed(
        &mut self,
        claim: &ClaimedUpload,
        completed_at_unix_ms: u64,
        http_status: u16,
    ) -> (r: Result<(), UploadStoreError>)
        requires
            old(self).wf(),
        ensures
            final(self).wf(),
            old(self).history_kept(*final(self)),
            old(self).agrees() ==> final(self).agrees(),
            match old(self).transition(
                *claim,
                seq![completed_at_unix_ms],
                UploadState::Completed,
                Some(http_status),
            ) {
                Ok(i) => r is Ok && old(self).row_written(
                    *final(self),
                    i,
                    completed_row(old(self).jobs@[i], completed_at_unix_ms, http_status),
                ),
                Err(error) => r == Err::<(), UploadStoreError>(error) && *final(self) == *old(self),
            },
    {
        check_timestamp(completed_at_unix_ms)?;
        let i: usize = self.check_transition(claim, UploadState::Completed, Some(http_status))?;
        let mut row = self.jobs[i].clone();
        row.state = UploadState::Completed;
        row.next_attempt_at_unix_ms = None;
        row.last_http_status = Some(http_status);
        row.updated_at_unix_ms = completed_at_unix_ms;
        row.completed_at_unix_ms = Some(completed_at_unix_ms);
        self.write_row(i, row);
        Ok(())
    }

    /// Record that a claimed job can never succeed.
    pub fn mark_permanently_failed(
        &mut self,
        claim: &ClaimedUpload,
        failed_at_unix_ms: u64,
        http_status: Option<u16>,
        error: Option<String>,
    ) -> (r: Result<(), UploadStoreError>)
        requires
            old(self).wf(),
        ensures
            final(self).wf(),
            old(self).history_kept(*final(self)),
            old(self).agrees() ==> final(self).agrees(),
            match old(self).transition(
                *claim,
                seq![failed_at_unix_ms],
                UploadState::PermanentlyFailed,
                http_status,
            ) {
                Ok(i) => r is Ok && old(self).row_written(
                    *final(self),
                    i,
                    failed_row(old(self).jobs@[i], failed_at_unix_ms, http_status, error),
                ),
                Err(refused) => r == Err::<(), UploadStoreError>(refused) && *final(self) == *old(self),
            },
    {
        check_timestamp(failed_at_unix_ms)?;
        let i: usize = self.check_transition(claim, UploadState::PermanentlyFailed, http_status)?;
        let mut row = self.jobs[i].clone();
        row.state = UploadState::PermanentlyFailed;
        row.next_attempt_at_unix_ms = None;
        row.last_http_status = http_status;
        row.last_error = error;
        row.updated_at_unix_ms = failed_at_unix_ms;
        row.last_failure_at_unix_ms = Some(failed_at_unix_ms);
        self.write_row(i, row);
        Ok(())
    }
}

impl Clone for ClaimedUpload {
    fn clone(&self) -> (r: Self)
        ensures
            r == *self,
    {
        ClaimedUpload {
            job_id: self.job_id,
            artifact_path: self.artifact_path.clone(),
            filename: self.filename.clone(),
            idempotency_key: self.idempotency_key.clone(),
            file_size: self.file_size,
            sha256: self.sha256,
            attempt_count: self.attempt_count,
        }
    }
}

/// A job after an interrupted owner has been replaced: a job that was being
/// attempted waits again, with its attempt still used.
pub open spec fn recovered_row(job: UploadJobRecord) -> UploadJobRecord {
    if job.state == UploadState::InProgress {
        UploadJobRecord { state: UploadState::Pending, next_attempt_at_unix_ms: None, ..job }
    } else {
        job
    }
}

pub open spec fn recovered(jobs: Seq<UploadJobRecord>) -> Seq<UploadJobRecord> {
    jobs.map_values(|job: UploadJobRecord| recovered_row(job))
}

/// Recovering twice changes nothing more, and leaves no job in progress.
pub proof fn law_recovery_is_idempotent(jobs: Seq<UploadJobRecord>)
    ensures
        recovered(recovered(jobs)) == recovered(jobs),
        forall|i: int|
            0 <= i < jobs.len() ==> (#[trigger] recovered(jobs)[i]).state != UploadState::InProgress
                && recovered(jobs)[i].attempt_count == jobs[i].attempt_count,
{
    assert(recovered(recovered(jobs)) =~= recovered(jobs));
}

proof fn lemma_none_interrupted(jobs: Seq<UploadJobRecord>)
    requires
        forall|i: int|
            0 <= i < jobs.len() ==> (#[trigger] jobs[i]).state != UploadState::InProgress,
    ensures
        upload_record::count_in(jobs, UploadState::InProgress) == 0,
    decreases jobs.len(),
{
    if jobs.len() > 0 {
        assert forall|i: int| 0 <= i < jobs.drop_last().len() implies (
        #[trigger] jobs.drop_last()[i]).state != UploadState::InProgress by {
            assert(jobs[i].state != UploadState::InProgress);
        }
        lemma_none_interrupted(jobs.drop_last());
    }
}

/// Whether some job has reached neither success nor permanent failure.
pub open spec fn has_live_work(jobs: Seq<UploadJobRecord>) -> bool {
    exists|i: int| 0 <= i < jobs.len() && (#[trigger] jobs[i]).state.live()
}

/// Whether this is the earliest time at which a waiting job is due.
pub open spec fn is_next_due(jobs: Seq<UploadJobRecord>, next: Option<u64>) -> bool {
    match next {
        Some(at) => {
            &&& exists|i: int|
                0 <= i < jobs.len() && (#[trigger] jobs[i]).state.waits() && jobs[i].due() == at
            &&& forall|i: int|
                0 <= i < jobs.len() && (#[trigger] jobs[i]).state.waits() ==> at <= jobs[i].due()
        },
        None => forall|i: int| 0 <= i < jobs.len() ==> !(#[trigger] jobs[i]).state.waits(),
    }
}

fn count_jobs_in(jobs: &Vec<UploadJobRecord>, state: UploadState) -> (r: u64)
    ensures
        r == upload_record::count_in(jobs@, state),
        r <= jobs@.len(),
{
    let mut count: u64 = 0;
    let mut i: usize = 0;
    while i < jobs.len()
        invariant
            i <= jobs.len(),
            count <= i,
            count == upload_record::count_in(jobs@.take(i as int), state),
        decreases jobs.len() - i,
    {
        assert(jobs@.take(i + 1).drop_last() =~= jobs@.take(i as int));
        if jobs[i].state == state {
            count = count + 1;
        }
        i = i + 1;
    }
    assert(jobs@.take(i as int) =~= jobs@);
    count
}

impl UploadStore {
    /// Whether every interrupted attempt can be counted as waiting again.
    pub open spec fn can_recover(self) -> bool {
        let interrupted = upload_record::count_in(self.jobs@, UploadState::InProgress);
        &&& self.counts.in_progress >= interrupted
        &&& self.counts.pending + interrupted <= i64::MAX
    }

    /// Whether `after` is this ledger with every interrupted attempt waiting again.
    pub open spec fn is_recovered(self, after: Self) -> bool {
        let interrupted = upload_record::count_in(self.jobs@, UploadState::InProgress);
        &&& self.same_binding(after)
        &&& after.jobs@ == recovered(self.jobs@)
        &&& after.counts == (UploadStateCounts {
            pending: (self.counts.pending + interrupted) as u64,
            in_progress: (self.counts.in_progress - interrupted) as u64,
            ..self.counts
        })
        &&& after.last_success_at_unix_ms == self.last_success_at_unix_ms
        &&& after.last_failure_at_unix_ms == self.last_failure_at_unix_ms
        &&& after.last_error == self.last_error
    }

    /// Return every interrupted attempt to the queue.
    pub fn recover_interrupted_jobs(&mut self) -> (r: Result<(), UploadStoreError>)
        requires
            old(self).wf(),
        ensures
            final(self).wf(),
            old(self).history_kept(*final(self)),
            old(self).agrees() ==> r is Ok && final(self).agrees(),
            if old(self).can_recover() {
                r is Ok && old(self).is_recovered(*final(self))
            } else {
                r == Err::<(), UploadStoreError>(UploadStoreError::ConstraintViolation)
                    && *final(self) == *old(self)
            },
    {
        let ghost before = *self;
        let interrupted: u64 = count_jobs_in(&self.jobs, UploadState::InProgress);
        proof {
            if before.agrees() {
                upload_record::lemma_count_bounds(before.jobs@);
            }
        }
        if self.counts.in_progress < interrupted || self.counts.pending > i64::MAX as u64
            - interrupted {
            return Err(UploadStoreError::ConstraintViolation);
        }
        let ghost mut done: int = 0;
        let mut i: usize = 0;
        while i < self.jobs.len()
            invariant
                i <= self.jobs.len(),
                self.wf(),
                before.agrees() ==> self.agrees(),
                before.same_binding(*self),
                before.history_kept(*self),
                self.jobs@.len() == before.jobs@.len(),
                0 <= done,
                interrupted == upload_record::count_in(before.jobs@, UploadState::InProgress),
                upload_record::count_in(self.jobs@, UploadState::InProgress) + done
                    == interrupted,
                before.counts.in_progress >= interrupted,
                before.counts.pending + interrupted <= i64::MAX,
                self.counts == (UploadStateCounts {
                    pending: (before.counts.pending + done) as u64,
                    in_progress: (before.counts.in_progress - done) as u64,
                    ..before.counts
                }),
                forall|k: int|
                    0 <= k < i ==> #[trigger] self.jobs@[k] == recovered_row(before.jobs@[k]),
                forall|k: int|
                    i <= k < before.jobs@.len() ==> #[trigger] self.jobs@[k] == before.jobs@[k],
                self.last_success_at_unix_ms == before.last_success_at_unix_ms,
                self.last_failure_at_unix_ms == before.last_failure_at_unix_ms,
                self.last_error == before.last_error,
            decreases self.jobs.len() - i,
        {
            if self.jobs[i].state == UploadState::InProgress {
                let mut row = self.jobs[i].clone();
                row.state = UploadState::Pending;
                row.next_attempt_at_unix_ms = None;
                let ghost middle = *self;
                let ghost written = row;
                proof {
                    upload_record::lemma_count_update(
                        middle.jobs@,
                        i as int,
                        written,
                        UploadState::InProgress,
                    );
                }
                self.write_row(i, row);
                proof {
                    done = done + 1;
                    let (a, b) = (middle.counts, self.counts);
                    assert(b.of(UploadState::Pending) == b.pending);
                    assert(b.of(UploadState::InProgress) == b.in_progress);
                    assert(b.of(UploadState::Retrying) == b.retrying);
                    assert(b.of(UploadState::Completed) == b.completed);
                    assert(b.of(UploadState::PermanentlyFailed) == b.permanently_failed);
                    law_history_is_transitive(before, middle, *self);
                }
            }
            i = i + 1;
        }
        proof {
            assert(self.jobs@ =~= recovered(before.jobs@));
            lemma_none_interrupted(self.jobs@);
        }
        Ok(())
    }

    pub(crate) fn check_live_work(&self) -> (r: bool)
        ensures
            r == has_live_work(self.jobs@),
    {
        let mut i: usize = 0;
        while i < self.jobs.len()
            invariant
                i <= self.jobs.len(),
                forall|k: int| 0 <= k < i ==> !(#[trigger] self.jobs@[k]).state.live(),
            decreases self.jobs.len() - i,
        {
            if self.jobs[i].is_waiting() || self.jobs[i].state == UploadState::InProgress {
                return true;
            }
            i = i + 1;
        }
        false
    }

    fn next_due(&self) -> (r: Option<u64>)
        ensures
            is_next_due(self.jobs@, r),
    {
        let mut next: Option<u64> = None;
        let mut i: usize = 0;
        while i < self.jobs.len()
            invariant
                i <= self.jobs.len(),
                match next {
                    Some(at) => {
                        &&& exists|k: int|
                            0 <= k < i && (#[trigger] self.jobs@[k]).state.waits()
                                && self.jobs@[k].due() == at
                        &&& forall|k: int|
                            0 <= k < i && (#[trigger] self.jobs@[k]).state.waits() ==> at
                                <= self.jobs@[k].due()
                    },
                    None => forall|k: int|
                        0 <= k < i ==> !(#[trigger] self.jobs@[k]).state.waits(),
                },
            decreases self.jobs.len() - i,
        {
            if self.jobs[i].is_waiting() {
                let due: u64 = self.jobs[i].due_at();
                assert(self.jobs@[i as int].state.waits() && self.jobs@[i as int].due() == due);
                next = match next {
                    Some(at) => if at <= due {
                        Some(at)
                    } else {
                        Some(due)
                    },
                    None => Some(due),
                };
            }
            i = i + 1;
        }
        next
    }

    /// The counts of every state, the latest outcome of each kind, and when the
    /// next job is due.
    pub fn snapshot(&self) -> (r: UploadStoreSnapshot)
        requires
            self.wf(),
        ensures
            self.agrees() ==> upload_record::counts_match(r.counts, self.jobs@),
            r.counts == self.counts,
            r.last_success_at_unix_ms == self.last_success_at_unix_ms,
            r.last_failure_at_unix_ms == self.last_failure_at_unix_ms,
            r.last_error == self.last_error,
            is_next_due(self.jobs@, r.next_due_at_unix_ms),
    {
        UploadStoreSnapshot {
            counts: self.counts,
            last_success_at_unix_ms: self.last_success_at_unix_ms,
            last_failure_at_unix_ms: self.last_failure_at_unix_ms,
            last_error: copy_text(&self.last_error),
            next_due_at_unix_ms: self.next_due(),
        }
    }

    /// One job, if its stored identity is consistent.
    pub fn job(&self, job_id: UploadJobId) -> (r: Result<Option<UploadJobRecord>, UploadStoreError>)
        requires
            self.wf(),
        ensures
            r matches Ok(None) ==> lacks_number(self.jobs@, job_id.0),
            match r {
                Ok(None) => forall|i: int| !(#[trigger] has_number(self.jobs@, job_id.0, i)),
                Ok(Some(record)) => job_id.0 > 0 && exists|i: int| #[trigger]
                    has_number(self.jobs@, job_id.0, i) && self.jobs@[i].identity_ok(
                        self.capture_root@,
                    ) && record == self.jobs@[i],
                Err(error) => exists|i: int| #[trigger]
                    has_number(self.jobs@, job_id.0, i) && if job_id.0 <= 0 {
                        error == (UploadStoreError::CorruptInteger { column: "id", value: job_id.0 })
                    } else {
                        &&& !self.jobs@[i].identity_ok(self.capture_root@)
                        &&& error == UploadStoreError::CorruptArtifactIdentity(job_id)
                    },
            },
    {
        let i: usize = match self.position_of_number(job_id.0) {
            Some(i) => i,
            None => {
                return Ok(None);
            },
        };
        let job_id = job_id_from_database(job_id.0)?;
        let record = self.jobs[i].clone();
        let checked = validate_stored_identity(
            job_id,
            record.artifact_path.as_str(),
            record.filename.as_str(),
            record.idempotency_key.as_str(),
            &record.sha256,
            self.capture_root.as_str(),
        );
        match checked {
            Ok(()) => Ok(Some(record)),
            Err(error) => Err(error),
        }
    }
}

/// What one operation keeps of the ledger's history, and the next keeps after
/// it, both keep together.
pub proof fn law_history_is_transitive(a: UploadStore, b: UploadStore, c: UploadStore)
    requires
        a.history_kept(b),
        b.history_kept(c),
    ensures
        a.history_kept(c),
{
    assert forall|i: int| 0 <= i < a.jobs@.len() implies {
        &&& (#[trigger] c.jobs@[i]).same_identity(a.jobs@[i])
        &&& c.jobs@[i].attempt_count >= a.jobs@[i].attempt_count
        &&& !a.jobs@[i].state.live() ==> c.jobs@[i] == a.jobs@[i]
    } by {
        assert(b.jobs@[i].same_identity(a.jobs@[i]));
    }
}

/// A claim that a later claim of the same job has superseded can never again
/// change the ledger, whatever happens in between.
pub proof fn law_superseded_claim_is_refused(
    now: UploadStore,
    later: UploadStore,
    claim: ClaimedUpload,
    i: int,
)
    requires
        later.wf(),
        has_number(now.jobs@, claim.job_id.0, i),
        now.jobs@[i].attempt_count > claim.attempt_count,
        now.history_kept(later),
    ensures
        later.current_claim(claim) is None,
        forall|times: Seq<u64>, to: UploadState, status: Option<u16>|
            (#[trigger] later.transition(claim, times, to, status)) is Err,
{
    assert(later.jobs@[i].same_identity(now.jobs@[i]));
    assert forall|k: int| !later.claims(claim, k) by {
        if later.claims(claim, k) {
            reveal(distinct);
            if k < i {
                assert(apart(later.jobs@[k], later.jobs@[i]));
            } else if i < k {
                assert(apart(later.jobs@[i], later.jobs@[k]));
            }
        }
    }
}

/// No two claims of a job carry the same attempt number: whatever happens to a
/// claimed job, its next claim has a greater one.
pub proof fn law_attempt_numbers_are_never_reused(
    claimed: UploadStore,
    later: UploadStore,
    claim: ClaimedUpload,
    i: int,
)
    requires
        claimed.claims(claim, i),
        claimed.history_kept(later),
        later.jobs@[i].attempt_count < u64::MAX,
    ensures
        claim_of(later.jobs@[i]).attempt_count > claim.attempt_count,
{
    assert(later.jobs@[i].same_identity(claimed.jobs@[i]));
}

/// Where the aggregates agree with the jobs, every job is counted exactly once: the
/// state counts add up to the jobs.
pub proof fn law_counts_add_up(store: UploadStore)
    requires
        store.agrees(),
    ensures
        store.counts.pending + store.counts.in_progress + store.counts.retrying
            + store.counts.completed + store.counts.permanently_failed == store.jobs@.len(),
{
    upload_record::lemma_count_bounds(store.jobs@);
}

/// Where the aggregates agree with the jobs, no transition is refused for the sake of
/// a count: a current claim with a valid status always goes through.
pub proof fn law_agreeing_counts_refuse_nothing(
    store: UploadStore,
    claim: ClaimedUpload,
    i: int,
    times: Seq<u64>,
    to: UploadState,
    status: Option<u16>,
)
    requires
        store.wf(),
        store.agrees(),
        store.claims(claim, i),
        upload_record::fits_i64(claim.attempt_count),
        upload_record::status_ok(status),
        forall|k: int| 0 <= k < times.len() ==> upload_record::fits_i64(#[trigger] times[k]),
    ensures
        store.transition(claim, times, to, status) == Ok::<int, UploadStoreError>(i),
{
    lemma_one_claim(store, claim, i);
    upload_record::lemma_matching_counts_move(store.jobs@, i, store.counts, to);
}

/// Whether one job of a ledger changed and no other did, and the ledger is still
/// bound to the same directory, destination and authorization.
pub open spec fn only_job_changed(before: UploadStore, after: UploadStore, i: int) -> bool {
    &&& 0 <= i < before.jobs@.len()
    &&& after.jobs@.len() == before.jobs@.len()
    &&& forall|k: int|
        0 <= k < before.jobs@.len() && k != i ==> #[trigger] after.jobs@[k] == before.jobs@[k]
    &&& after.capture_root@ == before.capture_root@
    &&& after.destination@ == before.destination@
    &&& after.authorization.0@ == before.authorization.0@
    &&& after.activation_at_unix_ms == before.activation_at_unix_ms
    &&& after.jobs@[i].job_id == before.jobs@[i].job_id
    &&& after.jobs@[i].artifact_path@ == before.jobs@[i].artifact_path@
    &&& after.jobs@[i].filename@ == before.jobs@[i].filename@
    &&& after.jobs@[i].idempotency_key@ == before.jobs@[i].idempotency_key@
    &&& after.jobs@[i].file_size == before.jobs@[i].file_size
    &&& after.jobs@[i].sha256@ == before.jobs@[i].sha256@
    &&& after.jobs@[i].created_at_unix_ms == before.jobs@[i].created_at_unix_ms
}

/// Whether a claim is the one under which the job at `i` is being attempted.
pub open spec fn is_held(store: UploadStore, claim: ClaimedUpload, i: int) -> bool {
    &&& 0 <= i < store.jobs@.len()
    &&& store.jobs@[i].job_id.0 == claim.job_id.0
    &&& store.jobs@[i].state is InProgress
    &&& store.jobs@[i].attempt_count == claim.attempt_count
}

/// Whether a job waits for its first attempt or for another one.
pub open spec fn is_queued(job: UploadJobRecord) -> bool {
    job.state is Pending || job.state is Retrying
}

/// When a queued job's time comes: when it was recorded, or when its next attempt
/// was set for.
pub open spec fn turn_of(job: UploadJobRecord) -> u64 {
    if job.next_attempt_at_unix_ms is Some {
        job.next_attempt_at_unix_ms->0
    } else {
        job.created_at_unix_ms
    }
}

/// Whether a claim takes the job at `i`, whose time came first of all queued jobs.
pub open spec fn takes_first(
    before: UploadStore,
    after: UploadStore,
    now: u64,
    claim: ClaimedUpload,
    i: int,
) -> bool {
    let job = before.jobs@[i];
    &&& only_job_changed(before, after, i)
    &&& is_queued(job)
    &&& turn_of(job) <= now
    &&& forall|j: int|
        0 <= j < before.jobs@.len() && is_queued(#[trigger] before.jobs@[j]) ==> turn_of(job)
            < turn_of(before.jobs@[j]) || (turn_of(job) == turn_of(before.jobs@[j])
            && job.job_id.0 <= before.jobs@[j].job_id.0)
    &&& claim.job_id == job.job_id
    &&& claim.artifact_path@ == job.artifact_path@
    &&& claim.filename@ == job.filename@
    &&& claim.idempotency_key@ == job.idempotency_key@
    &&& claim.file_size == job.file_size
    &&& claim.sha256@ == job.sha256@
    &&& job.attempt_count < i64::MAX
    &&& claim.attempt_count == job.attempt_count + 1
    &&& is_held(after, claim, i)
    &&& after.jobs@[i].next_attempt_at_unix_ms is None
    &&& after.jobs@[i].updated_at_unix_ms == now
    &&& after.jobs@[i].last_http_status == job.last_http_status
    &&& after.jobs@[i].last_error == job.last_error
    &&& after.counts.in_progress == before.counts.in_progress + 1
    &&& after.counts.pending == before.counts.pending - if job.state is Pending {
        1int
    } else {
        0
    }
    &&& after.counts.retrying == before.counts.retrying - if job.state is Retrying {
        1int
    } else {
        0
    }
    &&& after.counts.completed == before.counts.completed
    &&& after.counts.permanently_failed == before.counts.permanently_failed
}

pub proof fn lemma_takes_first(
    before: UploadStore,
    after: UploadStore,
    now: u64,
    claim: ClaimedUpload,
    i: int,
)
    requires
        is_first_due(before.jobs@, now, i),
        before.claim_fault(i) is None,
        before.jobs@[i].attempt_count <= i64::MAX,
        claim == claim_of(before.jobs@[i]),
        before.row_written(after, i, claimed_row(before.jobs@[i], now)),
    ensures
        takes_first(before, after, now, claim, i),
{
    let counts = after.counts;
    assert(counts.of(UploadState::Pending) == counts.pending);
    assert(counts.of(UploadState::InProgress) == counts.in_progress);
    assert(counts.of(UploadState::Retrying) == counts.retrying);
    assert(counts.of(UploadState::Completed) == counts.completed);
    assert(counts.of(UploadState::PermanentlyFailed) == counts.permanently_failed);
    assert forall|j: int|
        0 <= j < before.jobs@.len() && is_queued(#[trigger] before.jobs@[j]) implies turn_of(
        before.jobs@[i],
    ) < turn_of(before.jobs@[j]) || (turn_of(before.jobs@[i]) == turn_of(before.jobs@[j])
        && before.jobs@[i].job_id.0 <= before.jobs@[j].job_id.0) by {
        if turn_of(before.jobs@[j]) <= now {
            assert(before.jobs@[j].claimable_at(now));
        }
    }
}

/// A claim is of the queued job whose time came first; it counts as one more
/// attempt, and nothing else of the ledger changes. Where no job is handed out, the
/// time of none has come.
pub proof fn law_claim_takes_the_job_due_longest(
    now: u64,
    r: Result<Option<ClaimedUpload>, UploadStoreError>,
)
    ensures
        forall|store: &mut UploadStore|
            #[trigger] call_ensures(UploadStore::claim_due, (store, now), r) && store.wf() ==> {
                &&& r matches Ok(Some(claim)) ==> exists|i: int|
                    #[trigger] takes_first(*store, *final(store), now, claim, i)
                &&& r matches Ok(None) ==> *final(store) == *store && forall|j: int|
                    0 <= j < store.jobs@.len() && is_queued(#[trigger] store.jobs@[j]) ==> now
                        < turn_of(store.jobs@[j])
                &&& r is Err ==> *final(store) == *store
            },
{
    assert forall|store: &mut UploadStore|
        #[trigger] call_ensures(
            UploadStore::claim_due,
            (store, now),
            r,
        ) && store.wf() && r is Ok && r->Ok_0 is Some implies exists|i: int|
        #[trigger] takes_first(*store, *final(store), now, r->Ok_0->0, i) by {
        let i = choose|i: int|
            #[trigger] is_first_due(store.jobs@, now, i) && store.claim_fault(i) is None
                && r->Ok_0->0 == claim_of(store.jobs@[i]) && store.row_written(
                *final(store),
                i,
                claimed_row(store.jobs@[i], now),
            );
        assert(store.jobs@[i].wf());
        lemma_takes_first(*store, *final(store), now, r->Ok_0->0, i);
        assert(takes_first(*store, *final(store), now, r->Ok_0->0, i));
    }
}

/// A ledger whose jobs are sound hands one out whenever the time of a queued job has
/// come.
pub proof fn law_due_job_is_handed_out(
    now: u64,
    j: int,
    r: Result<Option<ClaimedUpload>, UploadStoreError>,
)
    requires
        now <= i64::MAX,
    ensures
        forall|store: &mut UploadStore|
            #[trigger] call_ensures(UploadStore::claim_due, (store, now), r) && store.wf()
                && store.agrees() && 0 <= j < store.jobs@.len() && is_queued(store.jobs@[j])
                && turn_of(store.jobs@[j]) <= now && (forall|i: int|
                0 <= i < store.jobs@.len() ==> (#[trigger] store.jobs@[i]).job_id.0 > 0
                    && store.jobs@[i].attempt_count < i64::MAX && store.jobs@[i].identity_ok(
                    store.capture_root@,
                )) ==> r is Ok && r->Ok_0 is Some,
{
    assert forall|store: &mut UploadStore|
        #[trigger] call_ensures(UploadStore::claim_due, (store, now), r) && store.wf()
            && store.agrees() && 0 <= j < store.jobs@.len() && is_queued(store.jobs@[j])
            && turn_of(store.jobs@[j]) <= now && (forall|i: int|
            0 <= i < store.jobs@.len() ==> (#[trigger] store.jobs@[i]).job_id.0 > 0
                && store.jobs@[i].attempt_count < i64::MAX && store.jobs@[i].identity_ok(
                store.capture_root@,
            )) implies r is Ok && r->Ok_0 is Some by {
        assert(store.jobs@[j].claimable_at(now));
        if r is Err {
            let i = choose|i: int|
                #[trigger] is_first_due(store.jobs@, now, i) && store.claim_fault(i) == Some(
                    r->Err_0,
                );
            assert(store.jobs@[i].job_id.0 > 0);
            upload_record::lemma_matching_counts_move(
                store.jobs@,
                i,
                store.counts,
                UploadState::InProgress,
            );
        }
    }
}

/// Whether a held job left its attempt for another state, as the counts tell.
pub open spec fn is_settled_as(
    before: UploadStore,
    after: UploadStore,
    i: int,
    state: UploadState,
    at: u64,
) -> bool {
    &&& only_job_changed(before, after, i)
    &&& after.jobs@[i].state == state
    &&& after.jobs@[i].attempt_count == before.jobs@[i].attempt_count
    &&& after.jobs@[i].updated_at_unix_ms == at
    &&& after.counts.in_progress == before.counts.in_progress - 1
    &&& after.counts.pending == before.counts.pending + if state is Pending {
        1int
    } else {
        0
    }
    &&& after.counts.retrying == before.counts.retrying + if state is Retrying {
        1int
    } else {
        0
    }
    &&& after.counts.completed == before.counts.completed + if state is Completed {
        1int
    } else {
        0
    }
    &&& after.counts.permanently_failed == before.counts.permanently_failed
        + if state is PermanentlyFailed {
        1int
    } else {
        0
    }
}

/// An acknowledged upload is completed: the job that the claim holds, and no other.
pub proof fn law_completion_is_recorded(
    claim: &ClaimedUpload,
    i: int,
    at: u64,
    status: u16,
    r: Result<(), UploadStoreError>,
)
    requires
        at <= i64::MAX,
        100 <= status <= 599,
    ensures
        forall|store: &mut UploadStore|
            #[trigger] call_ensures(UploadStore::mark_completed, (store, claim, at, status), r)
                && store.wf() && store.agrees() && is_held(*store, *claim, i) ==> {
                &&& r is Ok
                &&& is_settled_as(*store, *final(store), i, UploadState::Completed, at)
                &&& final(store).jobs@[i].completed_at_unix_ms == Some(at)
                &&& final(store).jobs@[i].last_http_status == Some(status)
                &&& final(store).jobs@[i].next_attempt_at_unix_ms is None
                &&& final(store).jobs@[i].last_failure_at_unix_ms
                    == store.jobs@[i].last_failure_at_unix_ms
                &&& final(store).last_failure_at_unix_ms == store.last_failure_at_unix_ms
                &&& final(store).last_error == store.last_error
                &&& final(store).last_success_at_unix_ms matches Some(last) && last >= at && (last
                    == at || store.last_success_at_unix_ms == Some(last))
            },
{
    assert forall|store: &mut UploadStore|
        #[trigger] call_ensures(UploadStore::mark_completed, (store, claim, at, status), r)
            && store.wf() && store.agrees() && is_held(*store, *claim, i) implies r is Ok
        && store.row_written(*final(store), i, completed_row(store.jobs@[i], at, status))
        && is_settled_as(*store, *final(store), i, UploadState::Completed, at) by {
        assert(store.claims(*claim, i));
        law_agreeing_counts_refuse_nothing(
            *store,
            *claim,
            i,
            seq![at],
            UploadState::Completed,
            Some(status),
        );
        lemma_settled(*store, *final(store), i, completed_row(store.jobs@[i], at, status));
    }
}

proof fn lemma_settled(before: UploadStore, after: UploadStore, i: int, row: UploadJobRecord)
    requires
        0 <= i < before.jobs@.len(),
        before.jobs@[i].state is InProgress,
        !(row.state is InProgress),
        before.row_written(after, i, row),
        row.same_identity(before.jobs@[i]),
        row.attempt_count == before.jobs@[i].attempt_count,
    ensures
        is_settled_as(before, after, i, row.state, row.updated_at_unix_ms),
        after.jobs@[i] == row,
{
    let counts = after.counts;
    assert(counts.of(UploadState::Pending) == counts.pending);
    assert(counts.of(UploadState::InProgress) == counts.in_progress);
    assert(counts.of(UploadState::Retrying) == counts.retrying);
    assert(counts.of(UploadState::Completed) == counts.completed);
    assert(counts.of(UploadState::PermanentlyFailed) == counts.permanently_failed);
}

/// An upload that failed for now is to be repeated at the given time, with its
/// reason kept.
pub proof fn law_retry_is_recorded(
    claim: &ClaimedUpload,
    i: int,
    at: u64,
    next: u64,
    status: Option<u16>,
    error: Option<String>,
    r: Result<(), UploadStoreError>,
)
    requires
        at <= i64::MAX,
        next <= i64::MAX,
        status matches Some(code) ==> 100 <= code <= 599,
    ensures
        forall|store: &mut UploadStore|
            #[trigger] call_ensures(
                UploadStore::mark_retrying,
                (store, claim, at, next, status, error),
                r,
            ) && store.wf() && store.agrees() && is_held(*store, *claim, i) ==> {
                &&& r is Ok
                &&& is_settled_as(*store, *final(store), i, UploadState::Retrying, at)
                &&& final(store).jobs@[i].next_attempt_at_unix_ms == Some(next)
                &&& final(store).jobs@[i].last_http_status == status
                &&& final(store).jobs@[i].last_error == error
                &&& final(store).jobs@[i].last_failure_at_unix_ms == Some(at)
                &&& final(store).jobs@[i].completed_at_unix_ms is None
                &&& final(store).last_success_at_unix_ms == store.last_success_at_unix_ms
            },
{
    assert forall|store: &mut UploadStore|
        #[trigger] call_ensures(
            UploadStore::mark_retrying,
            (store, claim, at, next, status, error),
            r,
        ) && store.wf() && store.agrees() && is_held(*store, *claim, i) implies r is Ok
        && store.row_written(
        *final(store),
        i,
        retrying_row(store.jobs@[i], at, next, status, error),
    ) && is_settled_as(*store, *final(store), i, UploadState::Retrying, at)
        && store.jobs@[i].completed_at_unix_ms is None by {
        assert(store.claims(*claim, i));
        assert(store.jobs@[i].wf());
        law_agreeing_counts_refuse_nothing(
            *store,
            *claim,
            i,
            seq![at, next],
            UploadState::Retrying,
            status,
        );
        lemma_settled(
            *store,
            *final(store),
            i,
            retrying_row(store.jobs@[i], at, next, status, error),
        );
    }
}

/// An upload that can never succeed is given up, with its reason kept.
pub proof fn law_failure_is_recorded(
    claim: &ClaimedUpload,
    i: int,
    at: u64,
    status: Option<u16>,
    error: Option<String>,
    r: Result<(), UploadStoreError>,
)
    requires
        at <= i64::MAX,
        status matches Some(code) ==> 100 <= code <= 599,
    ensures
        forall|store: &mut UploadStore|
            #[trigger] call_ensures(
                UploadStore::mark_permanently_failed,
                (store, claim, at, status, error),
                r,
            ) && store.wf() && store.agrees() && is_held(*store, *claim, i) ==> {
                &&& r is Ok
                &&& is_settled_as(*store, *final(store), i, UploadState::PermanentlyFailed, at)
                &&& final(store).jobs@[i].next_attempt_at_unix_ms is None
                &&& final(store).jobs@[i].last_http_status == status
                &&& final(store).jobs@[i].last_error == error
                &&& final(store).jobs@[i].last_failure_at_unix_ms == Some(at)
                &&& final(store).jobs@[i].completed_at_unix_ms is None
                &&& final(store).last_success_at_unix_ms == store.last_success_at_unix_ms
            },
{
    assert forall|store: &mut UploadStore|
        #[trigger] call_ensures(
            UploadStore::mark_permanently_failed,
            (store, claim, at, status, error),
            r,
        ) && store.wf() && store.agrees() && is_held(*store, *claim, i) implies r is Ok
        && store.row_written(
        *final(store),
        i,
        failed_row(store.jobs@[i], at, status, error),
    ) && is_settled_as(*store, *final(store), i, UploadState::PermanentlyFailed, at)
        && store.jobs@[i].completed_at_unix_ms is None by {
        assert(store.claims(*claim, i));
        assert(store.jobs@[i].wf());
        law_agreeing_counts_refuse_nothing(
            *store,
            *claim,
            i,
            seq![at],
            UploadState::PermanentlyFailed,
            status,
        );
        lemma_settled(*store, *final(store), i, failed_row(store.jobs@[i], at, status, error));
    }
}

/// A claim that is given back leaves its job waiting, with the attempt used up.
pub proof fn law_release_returns_the_job(
    claim: &ClaimedUpload,
    i: int,
    at: u64,
    r: Result<(), UploadStoreError>,
)
    requires
        at <= i64::MAX,
    ensures
        forall|store: &mut UploadStore|
            #[trigger] call_ensures(UploadStore::release_claim, (store, claim, at), r)
                && store.wf() && store.agrees() && is_held(*store, *claim, i) ==> {
                &&& r is Ok
                &&& is_settled_as(*store, *final(store), i, UploadState::Pending, at)
                &&& final(store).jobs@[i].next_attempt_at_unix_ms is None
                &&& final(store).jobs@[i].last_failure_at_unix_ms
                    == store.jobs@[i].last_failure_at_unix_ms
                &&& final(store).jobs@[i].completed_at_unix_ms is None
                &&& final(store).last_success_at_unix_ms == store.last_success_at_unix_ms
                &&& final(store).last_failure_at_unix_ms == store.last_failure_at_unix_ms
                &&& final(store).last_error == store.last_error
            },
{
    assert forall|store: &mut UploadStore|
        #[trigger] call_ensures(UploadStore::release_claim, (store, claim, at), r) && store.wf()
            && store.agrees() && is_held(*store, *claim, i) implies r is Ok && store.row_written(
        *final(store),
        i,
        released_row(store.jobs@[i], at),
    ) && is_settled_as(*store, *final(store), i, UploadState::Pending, at)
        && store.jobs@[i].completed_at_unix_ms is None by {
        assert(store.claims(*claim, i));
        assert(store.jobs@[i].wf());
        law_agreeing_counts_refuse_nothing(
            *store,
            *claim,
            i,
            seq![at],
            UploadState::Pending,
            None,
        );
        lemma_settled(*store, *final(store), i, released_row(store.jobs@[i], at));
    }
}

/// A claim that holds no job changes nothing, whatever it reports.
pub proof fn law_stale_claim_changes_nothing(
    claim: &ClaimedUpload,
    at: u64,
    next: u64,
    status: u16,
    seen: Option<u16>,
    error: Option<String>,
    r: Result<(), UploadStoreError>,
)
    ensures
        forall|store: &mut UploadStore|
            #[trigger] call_ensures(UploadStore::mark_completed, (store, claim, at, status), r)
                && (forall|i: int| !#[trigger] is_held(*store, *claim, i)) ==> r is Err
                && *final(store) == *store,
        forall|store: &mut UploadStore|
            #[trigger] call_ensures(
                UploadStore::mark_retrying,
                (store, claim, at, next, seen, error),
                r,
            ) && (forall|i: int| !#[trigger] is_held(*store, *claim, i)) ==> r is Err
                && *final(store) == *store,
        forall|store: &mut UploadStore|
            #[trigger] call_ensures(
                UploadStore::mark_permanently_failed,
                (store, claim, at, seen, error),
                r,
            ) && (forall|i: int| !#[trigger] is_held(*store, *claim, i)) ==> r is Err
                && *final(store) == *store,
        forall|store: &mut UploadStore|
            #[trigger] call_ensures(UploadStore::release_claim, (store, claim, at), r) && (forall|
                i: int,
            | !#[trigger] is_held(*store, *claim, i)) ==> r is Err && *final(store) == *store,
{
    assert forall|store: UploadStore| (forall|i: int| !#[trigger] is_held(store, *claim, i))
        implies (#[trigger] store.current_claim(*claim)) is None by {
        assert forall|i: int| !store.claims(*claim, i) by {
            assert(!is_held(store, *claim, i));
        }
    }
}

/// An artifact is recorded once: a known path keeps its job, and a new one becomes a
/// job that waits for its first attempt, under a number of its own.
pub proof fn law_artifact_is_recorded_once(
    values: ArtifactValues,
    at: u64,
    r: Result<RecordArtifactResult, UploadStoreError>,
)
    requires
        at <= i64::MAX,
        values.file_size <= i64::MAX,
    ensures
        forall|store: &mut UploadStore, i: int|
            #[trigger] call_ensures(UploadStore::record_artifact, (store, values, at), r)
                && store.wf() && 0 <= i < store.jobs@.len() && (
            #[trigger] store.jobs@[i]).artifact_path@ == values.artifact_path@ ==> *final(store)
                == *store && (store.jobs@[i].job_id.0 > 0 ==> r == Ok::<
                RecordArtifactResult,
                UploadStoreError,
            >(
                RecordArtifactResult {
                    job_id: store.jobs@[i].job_id,
                    disposition: RecordDisposition::AlreadyRecorded,
                },
            )),
        forall|store: &mut UploadStore|
            #[trigger] call_ensures(UploadStore::record_artifact, (store, values, at), r)
                && store.wf() && store.counts.pending < i64::MAX && store.jobs@.len() < i64::MAX
                && (forall|i: int|
                0 <= i < store.jobs@.len() ==> (#[trigger] store.jobs@[i]).artifact_path@
                    != values.artifact_path@ && store.jobs@[i].idempotency_key@
                    != values.idempotency_key@ && 0 < store.jobs@[i].job_id.0) ==> {
                let n = store.jobs@.len() as int;
                let job = final(store).jobs@[n];
                &&& r is Ok
                &&& r->Ok_0.disposition is Inserted
                &&& r->Ok_0.job_id == job.job_id
                &&& job.job_id.0 > 0
                &&& forall|i: int|
                    0 <= i < n ==> (#[trigger] store.jobs@[i]).job_id.0 != job.job_id.0
                &&& final(store).jobs@.len() == n + 1
                &&& forall|i: int| 0 <= i < n ==> #[trigger] final(store).jobs@[i] == store.jobs@[i]
                &&& job.artifact_path@ == values.artifact_path@
                &&& job.filename@ == values.filename@
                &&& job.idempotency_key@ == values.idempotency_key@
                &&& job.file_size == values.file_size
                &&& job.sha256@ == values.sha256@
                &&& job.state is Pending
                &&& job.attempt_count == 0
                &&& job.created_at_unix_ms == at
                &&& job.updated_at_unix_ms == at
                &&& job.next_attempt_at_unix_ms is None
                &&& job.completed_at_unix_ms is None
                &&& job.last_failure_at_unix_ms is None
                &&& job.last_http_status is None
                &&& job.last_error is None
                &&& final(store).counts.pending == store.counts.pending + 1
                &&& final(store).counts.in_progress == store.counts.in_progress
                &&& final(store).counts.retrying == store.counts.retrying
                &&& final(store).counts.completed == store.counts.completed
                &&& final(store).counts.permanently_failed == store.counts.permanently_failed
                &&& (forall|i: int| 0 <= i < n ==> (#[trigger] store.jobs@[i]).job_id.0 < i64::MAX)
                    ==> forall|i: int|
                    0 <= i < n ==> (#[trigger] store.jobs@[i]).job_id.0 < job.job_id.0
            },
{
    assert forall|store: &mut UploadStore, i: int|
        #[trigger] call_ensures(UploadStore::record_artifact, (store, values, at), r)
            && store.wf() && 0 <= i < store.jobs@.len() && (
        #[trigger] store.jobs@[i]).artifact_path@ == values.artifact_path@ implies *final(store)
        == *store && (store.jobs@[i].job_id.0 > 0 ==> r == Ok::<
        RecordArtifactResult,
        UploadStoreError,
    >(
        RecordArtifactResult {
            job_id: store.jobs@[i].job_id,
            disposition: RecordDisposition::AlreadyRecorded,
        },
    )) by {
        assert(store.records_path(values.artifact_path@, i));
        store.lemma_one_job_for_path(values.artifact_path@);
    }
    assert forall|store: &mut UploadStore|
        #[trigger] call_ensures(UploadStore::record_artifact, (store, values, at), r)
            && store.wf() && store.counts.pending < i64::MAX && store.jobs@.len() < i64::MAX && (
        forall|i: int|
            0 <= i < store.jobs@.len() ==> (#[trigger] store.jobs@[i]).artifact_path@
                != values.artifact_path@ && store.jobs@[i].idempotency_key@
                != values.idempotency_key@ && 0 < store.jobs@[i].job_id.0) implies exists|
        number: i64,
    |
        #[trigger] is_next_number(store.jobs@, number) && number > 0 && store.job_added(
            *final(store),
            new_job(number, values, at),
        ) && r == Ok::<RecordArtifactResult, UploadStoreError>(
            RecordArtifactResult {
                job_id: UploadJobId(number),
                disposition: RecordDisposition::Inserted,
            },
        ) && (forall|i: int| !(#[trigger] has_number(store.jobs@, number, i))) by {
        assert(!store.knows(values.artifact_path@));
        let number = choose|number: i64|
            #[trigger] is_next_number(store.jobs@, number) && store.job_added(
                *final(store),
                new_job(number, values, at),
            ) && r == numbered_result(UploadJobId(number), RecordDisposition::Inserted);
        if store.jobs@.len() > 0 {
            assert(store.jobs@[0].job_id.0 > 0);
        }
        assert forall|i: int| !(#[trigger] has_number(store.jobs@, number, i)) by {}
        assert(number > 0);
    }
    assert forall|store: &mut UploadStore|
        #[trigger] call_ensures(UploadStore::record_artifact, (store, values, at), r)
            && store.wf() && store.counts.pending < i64::MAX && store.jobs@.len() < i64::MAX && (
        forall|i: int|
            0 <= i < store.jobs@.len() ==> (#[trigger] store.jobs@[i]).artifact_path@
                != values.artifact_path@ && store.jobs@[i].idempotency_key@
                != values.idempotency_key@ && 0 < store.jobs@[i].job_id.0) implies {
        let n = store.jobs@.len() as int;
        let job = final(store).jobs@[n];
        &&& forall|i: int| 0 <= i < n ==> (#[trigger] store.jobs@[i]).job_id.0 != job.job_id.0
        &&& (forall|i: int| 0 <= i < n ==> (#[trigger] store.jobs@[i]).job_id.0 < i64::MAX)
            ==> forall|i: int|
            0 <= i < n ==> (#[trigger] store.jobs@[i]).job_id.0 < job.job_id.0
    } by {
        let number = choose|number: i64|
            #[trigger] is_next_number(store.jobs@, number) && number > 0 && store.job_added(
                *final(store),
                new_job(number, values, at),
            ) && (forall|i: int| !(#[trigger] has_number(store.jobs@, number, i)));
        let n = store.jobs@.len() as int;
        assert(final(store).jobs@[n].job_id.0 == number);
        assert forall|i: int| 0 <= i < n implies (#[trigger] store.jobs@[i]).job_id.0
            != number by {
            assert(!has_number(store.jobs@, number, i));
        }
        if forall|i: int| 0 <= i < n ==> (#[trigger] store.jobs@[i]).job_id.0 < i64::MAX {
            assert forall|i: int| !has_number(store.jobs@, i64::MAX, i) by {}
        }
    }
}

/// After an interruption every job that was being attempted waits again, with its
/// attempt used up, and no other job changes.
pub proof fn law_interrupted_attempts_wait_again(r: Result<(), UploadStoreError>)
    ensures
        forall|store: &mut UploadStore|
            #[trigger] call_ensures(UploadStore::recover_interrupted_jobs, (store,), r)
                && store.wf() && store.agrees() ==> {
                &&& r is Ok
                &&& final(store).jobs@.len() == store.jobs@.len()
                &&& forall|i: int|
                    0 <= i < store.jobs@.len() && !((#[trigger] store.jobs@[i]).state
                        is InProgress) ==> final(store).jobs@[i] == store.jobs@[i]
                &&& forall|i: int|
                    0 <= i < store.jobs@.len() && (#[trigger] store.jobs@[i]).state is InProgress
                        ==> final(store).jobs@[i] == (UploadJobRecord {
                        state: UploadState::Pending,
                        next_attempt_at_unix_ms: None,
                        ..store.jobs@[i]
                    })
                &&& final(store).counts.in_progress == 0
                &&& final(store).counts.pending == store.counts.pending + store.counts.in_progress
                &&& final(store).counts.retrying == store.counts.retrying
                &&& final(store).counts.completed == store.counts.completed
                &&& final(store).counts.permanently_failed == store.counts.permanently_failed
            },
{
    assert forall|store: &mut UploadStore|
        #[trigger] call_ensures(UploadStore::recover_interrupted_jobs, (store,), r) && store.wf()
            && store.agrees() implies store.is_recovered(*final(store)) && r is Ok by {
        upload_record::lemma_count_bounds(store.jobs@);
    }
}

/// A snapshot tells when the next queued job's time comes, and of none where no job
/// is queued.
pub proof fn law_snapshot_tells_the_next_turn(store: &UploadStore, r: UploadStoreSnapshot)
    requires
        call_ensures(UploadStore::snapshot, (store,), r),
    ensures
        r.counts == store.counts,
        r.last_success_at_unix_ms == store.last_success_at_unix_ms,
        r.last_failure_at_unix_ms == store.last_failure_at_unix_ms,
        r.last_error == store.last_error,
        r.next_due_at_unix_ms is None <==> forall|i: int|
            0 <= i < store.jobs@.len() ==> !is_queued(#[trigger] store.jobs@[i]),
        r.next_due_at_unix_ms matches Some(at) ==> {
            &&& exists|i: int|
                0 <= i < store.jobs@.len() && is_queued(#[trigger] store.jobs@[i]) && turn_of(
                    store.jobs@[i],
                ) == at
            &&& forall|i: int|
                0 <= i < store.jobs@.len() && is_queued(#[trigger] store.jobs@[i]) ==> at
                    <= turn_of(store.jobs@[i])
        },
{
    if r.next_due_at_unix_ms is Some {
        let i = choose|i: int|
            0 <= i < store.jobs@.len() && (#[trigger] store.jobs@[i]).state.waits()
                && store.jobs@[i].due() == r.next_due_at_unix_ms->0;
        assert(is_queued(store.jobs@[i]));
    }
}

proof fn lemma_job_absent(
    store: &UploadStore,
    job_id: UploadJobId,
    r: Result<Option<UploadJobRecord>, UploadStoreError>,
    k: int,
)
    requires
        call_ensures(UploadStore::job, (store, job_id), r),
        has_number(store.jobs@, job_id.0, k),
    ensures
        !(r is Ok && r->Ok_0 is None),
{
}

/// A job is found by its number, where its stored identity is sound.
pub proof fn law_job_is_found_by_its_number(
    store: &UploadStore,
    job_id: UploadJobId,
    i: int,
    r: Result<Option<UploadJobRecord>, UploadStoreError>,
)
    requires
        call_ensures(UploadStore::job, (store, job_id), r),
        store.wf(),
        job_id.0 > 0,
    ensures
        r == Ok::<Option<UploadJobRecord>, UploadStoreError>(None) <==> forall|k: int|
            0 <= k < store.jobs@.len() ==> (#[trigger] store.jobs@[k]).job_id.0 != job_id.0,
        0 <= i < store.jobs@.len() && store.jobs@[i].job_id.0 == job_id.0
            && store.jobs@[i].identity_ok(store.capture_root@) ==> r == Ok::<
            Option<UploadJobRecord>,
            UploadStoreError,
        >(Some(store.jobs@[i])),
        0 <= i < store.jobs@.len() && store.jobs@[i].job_id.0 == job_id.0
            && !store.jobs@[i].identity_ok(store.capture_root@) ==> r is Err,
{
    assert forall|a: int, b: int|
        has_number(store.jobs@, job_id.0, a) && has_number(store.jobs@, job_id.0, b) implies a
        == b by {
        reveal(distinct);
        if a < b {
            assert(apart(store.jobs@[a], store.jobs@[b]));
        } else if b < a {
            assert(apart(store.jobs@[b], store.jobs@[a]));
        }
    }
    if 0 <= i < store.jobs@.len() && store.jobs@[i].job_id.0 == job_id.0 {
        assert(has_number(store.jobs@, job_id.0, i));
    }
    if forall|k: int|
        0 <= k < store.jobs@.len() ==> (#[trigger] store.jobs@[k]).job_id.0 != job_id.0 {
        assert forall|k: int| !has_number(store.jobs@, job_id.0, k) by {}
    }
    if r == Ok::<Option<UploadJobRecord>, UploadStoreError>(None) {
        assert forall|k: int| 0 <= k < store.jobs@.len() implies (
        #[trigger] store.jobs@[k]).job_id.0 != job_id.0 by {
            if store.jobs@[k].job_id.0 == job_id.0 {
                lemma_job_absent(store, job_id, r, k);
            }
        }
    }
}

/// A new job gets the first number, or the one after the greatest there is, as long as
/// there is one after it; and no number that another job has.
pub proof fn law_new_job_gets_a_new_number(
    values: ArtifactValues,
    at: u64,
    k: int,
    r: Result<RecordArtifactResult, UploadStoreError>,
)
    ensures
        forall|store: &mut UploadStore|
            #[trigger] call_ensures(UploadStore::record_artifact, (store, values, at), r)
                && store.wf() ==> (r matches Ok(result) ==> (result.disposition is Inserted ==> {
                &&& final(store).jobs@.last().job_id == result.job_id
                &&& store.jobs@.len() == 0 ==> result.job_id.0 == 1
                &&& 0 <= k < store.jobs@.len() ==> store.jobs@[k].job_id.0 != result.job_id.0
                &&& 0 <= k < store.jobs@.len() && lacks_number(store.jobs@, i64::MAX)
                    ==> store.jobs@[k].job_id.0 < result.job_id.0
                &&& store.jobs@.len() > 0 && lacks_number(store.jobs@, i64::MAX) ==> exists|i: int|
                    0 <= i < store.jobs@.len() && (#[trigger] store.jobs@[i]).job_id.0 + 1
                        == result.job_id.0
            })),
{
    assert forall|store: &mut UploadStore|
        #[trigger] call_ensures(UploadStore::record_artifact, (store, values, at), r) && store.wf()
            && r is Ok && r->Ok_0.disposition is Inserted implies {
        let result = r->Ok_0;
        &&& final(store).jobs@.last().job_id == result.job_id
        &&& store.jobs@.len() == 0 ==> result.job_id.0 == 1
        &&& 0 <= k < store.jobs@.len() ==> store.jobs@[k].job_id.0 != result.job_id.0
        &&& 0 <= k < store.jobs@.len() && lacks_number(store.jobs@, i64::MAX)
            ==> store.jobs@[k].job_id.0 < result.job_id.0
        &&& store.jobs@.len() > 0 && lacks_number(store.jobs@, i64::MAX) ==> exists|i: int|
            0 <= i < store.jobs@.len() && (#[trigger] store.jobs@[i]).job_id.0 + 1
                == result.job_id.0
    } by {
        assert(!store.knows(values.artifact_path@));
        let number = choose|number: i64| #[trigger]
            is_next_number(store.jobs@, number) && store.job_added(
                *final(store),
                new_job(number, values, at),
            ) && r == numbered_result(UploadJobId(number), RecordDisposition::Inserted);
        if 0 <= k < store.jobs@.len() {
            assert(has_number(store.jobs@, store.jobs@[k].job_id.0, k));
        }
        if exists|i: int| #[trigger] has_number(store.jobs@, i64::MAX, i) {
            assert(!lacks_number(store.jobs@, i64::MAX));
        } else if store.jobs@.len() > 0 {
            let i = choose|i: int|
                0 <= i < store.jobs@.len() && (#[trigger] store.jobs@[i]).job_id.0 == number - 1;
            assert(store.jobs@[i].job_id.0 + 1 == number);
        }
    }
}

/// The job of an artifact is found by its path, and none where no job has it.
pub proof fn law_job_is_found_by_its_path(
    store: &UploadStore,
    artifact_path: &str,
    i: int,
    r: Result<Option<UploadJobId>, UploadStoreError>,
)
    requires
        call_ensures(UploadStore::recorded_job_id, (store, artifact_path), r),
        store.wf(),
    ensures
        0 <= i < store.jobs@.len() && store.jobs@[i].artifact_path@ == artifact_path@
            && store.jobs@[i].job_id.0 > 0 ==> r == Ok::<Option<UploadJobId>, UploadStoreError>(
            Some(store.jobs@[i].job_id),
        ),
        (forall|k: int|
            0 <= k < store.jobs@.len() ==> (#[trigger] store.jobs@[k]).artifact_path@
                != artifact_path@) ==> r == Ok::<Option<UploadJobId>, UploadStoreError>(None),
        r matches Ok(Some(id)) ==> id.0 > 0,
{
    reveal(distinct);
    if 0 <= i < store.jobs@.len() && store.jobs@[i].artifact_path@ == artifact_path@ {
        assert(store.records_path(artifact_path@, i));
        let k = choose|k: int| #[trigger]
            store.records_path(artifact_path@, k) && r == (if store.jobs@[k].job_id.0 > 0 {
                Ok::<Option<UploadJobId>, UploadStoreError>(Some(store.jobs@[k].job_id))
            } else {
                Err::<Option<UploadJobId>, UploadStoreError>(
                    (UploadStoreError::CorruptInteger {
                        column: "id",
                        value: store.jobs@[k].job_id.0,
                    }),
                )
            });
        if k < i {
            assert(apart(store.jobs@[k], store.jobs@[i]));
        } else if i < k {
            assert(apart(store.jobs@[i], store.jobs@[k]));
        }
    }
    if forall|k: int|
        0 <= k < store.jobs@.len() ==> (#[trigger] store.jobs@[k]).artifact_path@
            != artifact_path@ {
        assert(!store.knows(artifact_path@));
    }
}

/// What is claimed can be sent: its number is positive, its path is that of its name in
/// the capture directory, and its key is that of its name and digest.
pub proof fn law_claimed_job_is_consistent(
    now: u64,
    r: Result<Option<ClaimedUpload>, UploadStoreError>,
)
    ensures
        forall|store: &mut UploadStore|
            #[trigger] call_ensures(UploadStore::claim_due, (store, now), r) && store.wf() ==> {
                &&& now > i64::MAX ==> r is Err
                &&& r is Err ==> *final(store) == *store
                &&& r matches Ok(Some(claim)) ==> {
                    &&& claim.job_id.0 > 0
                    &&& claim.attempt_count >= 1
                    &&& path::is_absolute(claim.artifact_path@)
                    &&& path::is_child(claim.artifact_path@, store.capture_root@, claim.filename@)
                    &&& artifact::is_frame_name(claim.filename@)
                    &&& claim.idempotency_key@ == artifact::upload_key(
                        claim.filename@,
                        claim.sha256@,
                    )
                }
            },
{
}

/// An outcome whose status is none of HTTP's is refused, and so is one that is dated out
/// of range; the ledger stays as it was.
pub proof fn law_impossible_outcome_is_refused(
    claim: &ClaimedUpload,
    at: u64,
    next: u64,
    status: u16,
    error: Option<String>,
    completed: Result<(), UploadStoreError>,
    failed: Result<(), UploadStoreError>,
    retried: Result<(), UploadStoreError>,
)
    ensures
        forall|store: &mut UploadStore|
            #[trigger] call_ensures(
                UploadStore::mark_completed,
                (store, claim, at, status),
                completed,
            ) && store.wf() && (status < 100 || status > 599 || at > i64::MAX) ==> completed is Err
                && *final(store) == *store,
        forall|store: &mut UploadStore|
            #[trigger] call_ensures(
                UploadStore::mark_permanently_failed,
                (store, claim, at, Some(status), error),
                failed,
            ) && store.wf() && (status < 100 || status > 599 || at > i64::MAX) ==> failed is Err
                && *final(store) == *store,
        forall|store: &mut UploadStore|
            #[trigger] call_ensures(
                UploadStore::mark_retrying,
                (store, claim, at, next, Some(status), error),
                retried,
            ) && store.wf() && (status < 100 || status > 599 || at > i64::MAX || next > i64::MAX)
                ==> retried is Err && *final(store) == *store,
{
}

/// A time is newer where it is known and none is, or where it is not earlier than the
/// one that is.
pub proof fn law_later_time_supersedes(time: Option<u64>, known: Option<u64>, r: bool)
    requires
        call_ensures(check_supersedes, (time, known), r),
    ensures
        time is None ==> !r,
        time is Some && known is None ==> r,
        time matches Some(at) ==> (known matches Some(before) ==> (r <==> at >= before)),
{
}

} // verus!
