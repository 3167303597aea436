//! The upload worker: how an attempt is prepared and judged, when it is repeated,
//! and what each step does to the ledger.

use std::sync::atomic::{AtomicBool, Ordering};
use std::sync::mpsc::SyncSender;
use std::sync::Arc;

use ureq::http::{HeaderMap, HeaderValue};
use vstd::prelude::*;

use crate::flag;
use crate::http;
use crate::http::{header_value, parse_retry_after, MAX_RETRY_DELAY_SECONDS};
use crate::number;
use crate::number::{max_u64, min_u64};
use crate::retention_worker;
use crate::retention_worker::{send_wake, WakeSend};
use crate::text;
use crate::text::push_decimal;
use crate::upload_artifact::ArtifactVerification;
use crate::upload_record;
use crate::upload_record::UploadStoreError;
use crate::upload_store;
use crate::upload_store::{ClaimedUpload, RecordDisposition, UploadStore, UploadStoreSnapshot};

verus! {

broadcast use vstd::string::group_string_axioms;

/// The longest the worker waits without looking at the ledger, in milliseconds.
pub const MAX_IDLE_POLL_MS: u64 = 100;

pub const MAX_RETRY_DELAY_MS: u64 = 300_000;

pub const FNV_OFFSET_BASIS: u64 = 0xcbf29ce484222325;

pub const FNV_PRIME: u64 = 0x100000001b3;

pub const MISSING_ARTIFACT_ERROR: &'static str = "artifact file is missing";

pub const UNOPENABLE_ARTIFACT_ERROR: &'static str = "artifact file could not be opened or verified";

pub const SYMLINK_ARTIFACT_ERROR: &'static str = "artifact path became a symbolic link";

pub const NON_FILE_ARTIFACT_ERROR: &'static str = "artifact path is not a regular file";

pub const ARTIFACT_SIZE_CHANGED_ERROR: &'static str =
    "artifact file size changed after it was recorded";

pub const ARTIFACT_CONTENT_CHANGED_ERROR: &'static str =
    "artifact file content changed after it was recorded";

pub const INVALID_HEADER_ERROR: &'static str =
    "artifact metadata cannot be represented as HTTP headers";

pub const TRANSPORT_ERROR: &'static str = "HTTP transport failed";

pub const RETRYABLE_HTTP_ERROR: &'static str = "HTTP endpoint requested a retry";

pub const PERMANENT_HTTP_ERROR: &'static str = "HTTP endpoint rejected the artifact";

pub const RETRY_TIME_ERROR: &'static str = "retry time cannot be represented safely";

/// What came of one attempt. A requested delay is given in seconds.
#[allow(inconsistent_fields)]
#[derive(Clone, Copy, Debug, PartialEq, Eq)]
pub enum AttemptOutcome {
    Success { status: u16 },
    Retry { status: Option<u16>, retry_after: Option<u64>, error: &'static str },
    Permanent { status: Option<u16>, error: &'static str },
}

impl AttemptOutcome {
    pub fn retry(status: Option<u16>, retry_after: Option<u64>, error: &'static str) -> (r: Self)
        ensures
            r == (AttemptOutcome::Retry { status, retry_after, error }),
    {
        AttemptOutcome::Retry { status, retry_after, error }
    }

    pub fn permanent(status: Option<u16>, error: &'static str) -> (r: Self)
        ensures
            r == (AttemptOutcome::Permanent { status, error }),
    {
        AttemptOutcome::Permanent { status, error }
    }
}

/// Whether an endpoint's status acknowledges the artifact.
pub open spec fn acknowledges(status: u16) -> bool {
    200 <= status <= 299
}

/// Whether an endpoint's status asks for another attempt.
pub open spec fn asks_for_retry(status: u16) -> bool {
    status == 408 || status == 425 || status == 429 || 500 <= status <= 599
}

/// The outcome that a response's status stands for.
pub open spec fn status_outcome(status: u16, retry_after: Option<u64>) -> AttemptOutcome {
    if acknowledges(status) {
        AttemptOutcome::Success { status }
    } else if asks_for_retry(status) {
        AttemptOutcome::Retry { status: Some(status), retry_after, error: RETRYABLE_HTTP_ERROR }
    } else {
        AttemptOutcome::Permanent { status: Some(status), error: PERMANENT_HTTP_ERROR }
    }
}

pub fn classify_status(status: u16, retry_after: Option<u64>) -> (r: AttemptOutcome)
    ensures
        r == status_outcome(status, retry_after),
{
    if 200 <= status && status <= 299 {
        AttemptOutcome::Success { status }
    } else if status == 408 || status == 425 || status == 429 || (500 <= status && status <= 599) {
        AttemptOutcome::retry(Some(status), retry_after, RETRYABLE_HTTP_ERROR)
    } else {
        AttemptOutcome::permanent(Some(status), PERMANENT_HTTP_ERROR)
    }
}

/// The outcome that a complete response stands for.
pub fn response_outcome(status: u16, headers: &HeaderMap<HeaderValue>) -> (r: AttemptOutcome)
    ensures
        r == status_outcome(
            status,
            if http::header_contents(*headers).contains_key("retry-after"@) {
                http::requested_delay(http::header_contents(*headers)["retry-after"@])
            } else {
                None
            },
        ),
{
    classify_status(status, parse_retry_after(headers))
}

/// The outcome of an attempt that got no response with headers: the endpoint's
/// status if it is known.
pub fn failed_request_outcome(status: Option<u16>) -> (r: AttemptOutcome)
    ensures
        r == (match status {
            Some(status) => status_outcome(status, None),
            None => AttemptOutcome::Retry {
                status: None,
                retry_after: None,
                error: TRANSPORT_ERROR,
            },
        }),
{
    match status {
        Some(status) => classify_status(status, None),
        None => AttemptOutcome::retry(None, None, TRANSPORT_ERROR),
    }
}

/// Why a claimed artifact must not be sent, if it must not: `None` of a
/// verification means that the file could not be opened or read.
pub open spec fn artifact_refusal(verification: Option<ArtifactVerification>) -> Option<
    AttemptOutcome,
> {
    match verification {
        None => Some(
            AttemptOutcome::Retry {
                status: None,
                retry_after: None,
                error: UNOPENABLE_ARTIFACT_ERROR,
            },
        ),
        Some(ArtifactVerification::Verified) => None,
        Some(ArtifactVerification::Missing) => Some(
            AttemptOutcome::Permanent { status: None, error: MISSING_ARTIFACT_ERROR },
        ),
        Some(ArtifactVerification::Symlink) => Some(
            AttemptOutcome::Permanent { status: None, error: SYMLINK_ARTIFACT_ERROR },
        ),
        Some(ArtifactVerification::NotRegularFile) => Some(
            AttemptOutcome::Permanent { status: None, error: NON_FILE_ARTIFACT_ERROR },
        ),
        Some(ArtifactVerification::SizeMismatch { .. }) => Some(
            AttemptOutcome::Permanent { status: None, error: ARTIFACT_SIZE_CHANGED_ERROR },
        ),
        Some(ArtifactVerification::Sha256Mismatch { .. }) => Some(
            AttemptOutcome::Permanent { status: None, error: ARTIFACT_CONTENT_CHANGED_ERROR },
        ),
    }
}

/// The headers of one upload request.
#[derive(Debug)]
pub struct UploadRequest {
    pub content_length: String,
    pub file_name: HeaderValue,
    pub idempotency_key: HeaderValue,
}

/// Prepare the request for a claimed artifact, or decide the attempt at once: a
/// file that is not exactly what was recorded is never sent.
pub fn prepare_request(
    claim: &ClaimedUpload,
    verification: Option<ArtifactVerification>,
) -> (r: Result<UploadRequest, AttemptOutcome>)
    ensures
        match artifact_refusal(verification) {
            Some(outcome) => r == Err::<UploadRequest, AttemptOutcome>(outcome),
            None => if !http::header_text(claim.filename@) || !http::header_text(
                claim.idempotency_key@,
            ) {
                r == Err::<UploadRequest, AttemptOutcome>(
                    (AttemptOutcome::Permanent { status: None, error: INVALID_HEADER_ERROR }),
                )
            } else {
                r matches Ok(request) && {
                    &&& request.content_length@ == text::decimal(claim.file_size as nat)
                    &&& http::header_bytes(request.file_name) == vstd::utf8::encode_utf8(
                        claim.filename@,
                    )
                    &&& http::header_bytes(request.idempotency_key) == vstd::utf8::encode_utf8(
                        claim.idempotency_key@,
                    )
                }
            },
        },
{
    match verification {
        None => {
            return Err(AttemptOutcome::retry(None, None, UNOPENABLE_ARTIFACT_ERROR));
        },
        Some(ArtifactVerification::Missing) => {
            return Err(AttemptOutcome::permanent(None, MISSING_ARTIFACT_ERROR));
        },
        Some(ArtifactVerification::Symlink) => {
            return Err(AttemptOutcome::permanent(None, SYMLINK_ARTIFACT_ERROR));
        },
        Some(ArtifactVerification::NotRegularFile) => {
            return Err(AttemptOutcome::permanent(None, NON_FILE_ARTIFACT_ERROR));
        },
        Some(ArtifactVerification::SizeMismatch { .. }) => {
            return Err(AttemptOutcome::permanent(None, ARTIFACT_SIZE_CHANGED_ERROR));
        },
        Some(ArtifactVerification::Sha256Mismatch { .. }) => {
            return Err(AttemptOutcome::permanent(None, ARTIFACT_CONTENT_CHANGED_ERROR));
        },
        Some(ArtifactVerification::Verified) => {},
    }
    let file_name = match header_value(claim.filename.as_str()) {
        Ok(value) => value,
        Err(_) => {
            return Err(AttemptOutcome::permanent(None, INVALID_HEADER_ERROR));
        },
    };
    let idempotency_key = match header_value(claim.idempotency_key.as_str()) {
        Ok(value) => value,
        Err(_) => {
            return Err(AttemptOutcome::permanent(None, INVALID_HEADER_ERROR));
        },
    };
    let mut content_length = String::new();
    push_decimal(&mut content_length, claim.file_size);
    assert(content_length@ =~= text::decimal(claim.file_size as nat));
    Ok(UploadRequest { content_length, file_name, idempotency_key })
}

/// The finalizer that spreads a seed over all bits.
pub open spec fn mixed(value: u64) -> u64 {
    let a = value ^ (value >> 30);
    let b = a.wrapping_mul(0xbf58476d1ce4e5b9);
    let c = b ^ (b >> 27);
    let d = c.wrapping_mul(0x94d049bb133111eb);
    d ^ (d >> 31)
}

pub fn mix64(value: u64) -> (r: u64)
    ensures
        r == mixed(value),
{
    let a: u64 = value ^ (value >> 30);
    let b: u64 = a.wrapping_mul(0xbf58476d1ce4e5b9);
    let c: u64 = b ^ (b >> 27);
    let d: u64 = c.wrapping_mul(0x94d049bb133111eb);
    d ^ (d >> 31)
}

/// The 64-bit FNV-1a hash.
pub open spec fn fnv1a_hash(bytes: Seq<u8>) -> u64
    decreases bytes.len(),
{
    if bytes.len() == 0 {
        FNV_OFFSET_BASIS
    } else {
        (fnv1a_hash(bytes.drop_last()) ^ bytes.last() as u64).wrapping_mul(FNV_PRIME)
    }
}

pub fn fnv1a(bytes: &[u8]) -> (r: u64)
    ensures
        r == fnv1a_hash(bytes@),
{
    let mut hash: u64 = FNV_OFFSET_BASIS;
    let mut i: usize = 0;
    while i < bytes.len()
        invariant
            i <= bytes.len(),
            hash == fnv1a_hash(bytes@.take(i as int)),
        decreases bytes.len() - i,
    {
        proof {
            assert(bytes@.take(i + 1).drop_last() =~= bytes@.take(i as int));
        }
        hash = (hash ^ bytes[i] as u64).wrapping_mul(FNV_PRIME);
        i = i + 1;
    }
    assert(bytes@.take(i as int) =~= bytes@);
    hash
}

/// How long to wait before each further attempt, in milliseconds.
#[derive(Debug)]
pub struct RetryPolicy {
    pub schedule: Vec<u64>,
}

/// The delay that the schedule gives before the next attempt.
pub open spec fn scheduled(schedule: Seq<u64>, attempt_count: u64) -> u64 {
    let index = number::spec_max(attempt_count - 1, 0);
    if index < schedule.len() {
        schedule[index]
    } else {
        schedule.last()
    }
}

/// The share of the scheduled delay to wait, in percent.
pub open spec fn jitter_percent(attempt_count: u64, jitter_seed: u64) -> int {
    80 + mixed(jitter_seed ^ (number::spec_max(attempt_count - 1, 0) as u64)) as int % 41
}

/// The delay before the next attempt: the scheduled one with its jitter, at least
/// what the endpoint asked for, and never more than five minutes.
pub open spec fn retry_delay(
    schedule: Seq<u64>,
    attempt_count: u64,
    jitter_seed: u64,
    retry_after: Option<u64>,
) -> int {
    let jittered = scheduled(schedule, attempt_count) * jitter_percent(attempt_count, jitter_seed)
        / 100;
    let requested = match retry_after {
        Some(seconds) => number::spec_min(seconds * 1_000, 300_000),
        None => 0,
    };
    number::spec_min(number::spec_max(jittered, requested), 300_000)
}

impl RetryPolicy {
    pub fn production() -> (r: Self)
        ensures
            r.schedule@ == seq![
                1_000u64,
                2_000u64,
                5_000u64,
                10_000u64,
                30_000u64,
                60_000u64,
                300_000u64,
            ],
    {
        let schedule: Vec<u64> = vec![1_000, 2_000, 5_000, 10_000, 30_000, 60_000, 300_000];
        Self { schedule }
    }

    pub fn delay(&self, attempt_count: u64, jitter_seed: u64, retry_after: Option<u64>) -> (r: u64)
        requires
            self.schedule@.len() > 0,
        ensures
            r == retry_delay(self.schedule@, attempt_count, jitter_seed, retry_after),
            r <= MAX_RETRY_DELAY_MS,
            retry_after matches Some(seconds) ==> r >= number::spec_min(seconds * 1_000, 300_000),
    {
        let retry_index: u64 = attempt_count.saturating_sub(1);
        let last: usize = self.schedule.len() - 1;
        let schedule_index: usize = if retry_index < last as u64 {
            retry_index as usize
        } else {
            last
        };
        let base: u64 = self.schedule[schedule_index];
        let percent: u64 = 80 + mix64(jitter_seed ^ retry_index) % 41;
        proof {
            lemma_jitter(base as int, percent as int);
        }
        let jittered: u128 = base as u128 * percent as u128 / 100;
        let jittered_ms: u64 = if jittered > MAX_RETRY_DELAY_MS as u128 {
            MAX_RETRY_DELAY_MS
        } else {
            jittered as u64
        };
        let requested_ms: u64 = match retry_after {
            Some(seconds) => min_u64(seconds, MAX_RETRY_DELAY_SECONDS) * 1_000,
            None => 0,
        };
        max_u64(jittered_ms, requested_ms)
    }
}

proof fn lemma_jitter(base: int, percent: int)
    by (nonlinear_arith)
    requires
        0 <= base <= u64::MAX,
        80 <= percent <= 120,
    ensures
        0 <= base * percent <= u64::MAX * 120,
        base * 80 <= base * percent <= base * 120,
{
}

/// Every delay stays within twenty percent of the schedule, unless the endpoint
/// asked for more or the five-minute limit applies.
pub proof fn law_delay_is_near_schedule(
    schedule: Seq<u64>,
    attempt_count: u64,
    jitter_seed: u64,
)
    requires
        schedule.len() > 0,
    ensures
        ({
            let base = scheduled(schedule, attempt_count);
            let delay = retry_delay(schedule, attempt_count, jitter_seed, None);
            &&& delay <= base * 120 / 100
            &&& delay >= number::spec_min(base * 80 / 100, 300_000)
        }),
{
    let base = scheduled(schedule, attempt_count) as int;
    let percent = jitter_percent(attempt_count, jitter_seed);
    lemma_jitter(base, percent);
}

/// How long to wait for a wake-up before the ledger is looked at again, in
/// milliseconds.
pub fn wait_until_due(next_due: Option<u64>, now: u64) -> (r: u64)
    ensures
        r == number::spec_min(
            match next_due {
                Some(due) => number::spec_max(due - now, 0),
                None => 100,
            },
            100,
        ),
{
    let until_due: u64 = match next_due {
        Some(due) => due.saturating_sub(now),
        None => MAX_IDLE_POLL_MS,
    };
    min_u64(until_due, MAX_IDLE_POLL_MS)
}

/// What observers are told of the ledger.
#[derive(Debug, PartialEq, Eq)]
pub struct UploadTelemetry {
    pub pending: u64,
    pub active: u64,
    pub retrying: u64,
    pub completed: u64,
    pub permanently_failed: u64,
    pub last_success_unix_ms: Option<u64>,
    pub last_failure_unix_ms: Option<u64>,
    pub last_error: Option<String>,
}

impl UploadTelemetry {
    pub fn from_snapshot(snapshot: UploadStoreSnapshot) -> (r: Self)
        ensures
            r.pending == snapshot.counts.pending,
            r.active == snapshot.counts.in_progress,
            r.retrying == snapshot.counts.retrying,
            r.completed == snapshot.counts.completed,
            r.permanently_failed == snapshot.counts.permanently_failed,
            r.last_success_unix_ms == snapshot.last_success_at_unix_ms,
            r.last_failure_unix_ms == snapshot.last_failure_at_unix_ms,
            r.last_error == snapshot.last_error,
    {
        Self {
            pending: snapshot.counts.pending,
            active: snapshot.counts.in_progress,
            retrying: snapshot.counts.retrying,
            completed: snapshot.counts.completed,
            permanently_failed: snapshot.counts.permanently_failed,
            last_success_unix_ms: snapshot.last_success_at_unix_ms,
            last_failure_unix_ms: snapshot.last_failure_at_unix_ms,
            last_error: snapshot.last_error,
        }
    }
}

#[derive(Clone, Copy, Debug, PartialEq, Eq, Structural)]
pub enum UploadEnqueueResult {
    Recorded,
    AlreadyRecorded,
    /// The artifact was recorded durably, but the worker has stopped and will
    /// not attempt it until upload service is restarted.
    WorkerStopped,
}

/// What an artifact that the ledger has taken is answered, once its worker was
/// woken. A full wake channel is success, because another wake is already pending
/// and the worker always drains all due jobs.
pub open spec fn enqueued(disposition: RecordDisposition, wake: WakeSend) -> UploadEnqueueResult {
    if wake == WakeSend::Disconnected {
        UploadEnqueueResult::WorkerStopped
    } else if disposition == RecordDisposition::Inserted {
        UploadEnqueueResult::Recorded
    } else {
        UploadEnqueueResult::AlreadyRecorded
    }
}

/// The answer to an artifact that the ledger has taken.
pub fn enqueue_result(disposition: RecordDisposition, wake: WakeSend) -> (r: UploadEnqueueResult)
    ensures
        r == enqueued(disposition, wake),
{
    if wake == WakeSend::Disconnected {
        UploadEnqueueResult::WorkerStopped
    } else {
        match disposition {
            RecordDisposition::Inserted => UploadEnqueueResult::Recorded,
            RecordDisposition::AlreadyRecorded => UploadEnqueueResult::AlreadyRecorded,
        }
    }
}

/// Why the worker had to give up.
#[derive(Debug, PartialEq, Eq)]
pub enum UploadError {
    Store(UploadStoreError),
    InvalidWakeCapacity,
    ClockBeforeUnixEpoch,
    ClockOutOfRange,
}

/// Whether the upload worker still serves its ledger.
#[derive(Debug)]
pub struct UploadHealth {
    pub stopped: Arc<AtomicBool>,
}

impl UploadHealth {
    pub fn is_stopped(&self) -> (r: bool)
        ensures
            flag::loaded(self.stopped, r),
    {
        self.stopped.load(Ordering::Acquire)
    }
}

/// The capture side's handle on the upload worker.
#[derive(Debug)]
pub struct UploadSink {
    pub wake_sender: SyncSender<()>,
    pub stop: Arc<AtomicBool>,
}

impl UploadSink {
    /// Whether this is the answer to an artifact that the ledger was handed: the
    /// ledger's own error stops the worker; a worker that has stopped, or that
    /// turns out to be out of reach, is reported as such.
    pub open spec fn answers(
        self,
        recorded: Result<RecordDisposition, UploadError>,
        answer: Result<UploadEnqueueResult, UploadError>,
    ) -> bool {
        match recorded {
            Err(error) => answer == Err::<UploadEnqueueResult, UploadError>(error) && flag::stored(
                self.stop,
                true,
            ),
            Ok(disposition) => {
                ||| flag::loaded(self.stop, true) && answer == Ok::<
                    UploadEnqueueResult,
                    UploadError,
                >(UploadEnqueueResult::WorkerStopped)
                ||| flag::loaded(self.stop, false) && exists|wake: WakeSend| #[trigger]
                    retention_worker::woken(self.wake_sender, wake) && answer == Ok::<
                        UploadEnqueueResult,
                        UploadError,
                    >(enqueued(disposition, wake)) && (wake == WakeSend::Disconnected
                        ==> flag::stored(self.stop, true))
            },
        }
    }

    /// The same flag, for observers of the worker.
    pub fn health(&self) -> (r: UploadHealth)
        ensures
            r.stopped == self.stop,
    {
        UploadHealth { stopped: self.stop.clone() }
    }

    /// Answer for an artifact that has been recorded durably, after a nonblocking
    /// wake-up of the worker. An artifact that could not be recorded stops the
    /// worker.
    pub fn try_enqueue(&self, recorded: Result<RecordDisposition, UploadError>) -> (r: Result<
        UploadEnqueueResult,
        UploadError,
    >)
        ensures
            self.answers(recorded, r),
    {
        let disposition = match recorded {
            Ok(disposition) => disposition,
            Err(error) => {
                self.signal_stop();
                return Err(error);
            },
        };
        let stopped = self.stop.load(Ordering::Acquire);
        assert(flag::loaded(self.stop, stopped));
        if stopped {
            return Ok(UploadEnqueueResult::WorkerStopped);
        }
        let wake = send_wake(&self.wake_sender);
        if wake == WakeSend::Disconnected {
            self.stop.store(true, Ordering::Release);
        }
        Ok(enqueue_result(disposition, wake))
    }

    /// Ask the worker to stop, and wake it.
    pub fn signal_stop(&self)
        ensures
            flag::stored(self.stop, true),
            exists|wake: WakeSend| retention_worker::woken(self.wake_sender, wake),
    {
        self.stop.store(true, Ordering::Release);
        let wake = send_wake(&self.wake_sender);
        assert(retention_worker::woken(self.wake_sender, wake));
    }
}

/// The time of a clock that shows so many milliseconds since the Unix epoch, or
/// that shows a time before it.
pub fn clock_unix_ms(since_epoch_ms: Option<u128>) -> (r: Result<u64, UploadError>)
    ensures
        r == (match since_epoch_ms {
            None => Err::<u64, UploadError>(UploadError::ClockBeforeUnixEpoch),
            Some(millis) => if millis <= u64::MAX {
                Ok::<u64, UploadError>(millis as u64)
            } else {
                Err::<u64, UploadError>(UploadError::ClockOutOfRange)
            },
        }),
{
    match since_epoch_ms {
        None => Err(UploadError::ClockBeforeUnixEpoch),
        Some(millis) => {
            if millis <= u64::MAX as u128 {
                Ok(millis as u64)
            } else {
                Err(UploadError::ClockOutOfRange)
            }
        },
    }
}

/// The worker needs room for at least one wake-up.
pub fn check_wake_capacity(wake_capacity: usize) -> (r: Result<(), UploadError>)
    ensures
        r == (if wake_capacity == 0 {
            Err::<(), UploadError>(UploadError::InvalidWakeCapacity)
        } else {
            Ok::<(), UploadError>(())
        }),
{
    if wake_capacity == 0 {
        Err(UploadError::InvalidWakeCapacity)
    } else {
        Ok(())
    }
}

/// What an attempt's outcome asks the ledger to do with the claimed job.
#[allow(inconsistent_fields)]
pub enum LedgerRequest {
    Complete { status: u16 },
    Fail { status: Option<u16>, error: &'static str },
    RetryAt { at: u64, status: Option<u16>, error: &'static str },
    /// The time of the next attempt cannot be represented.
    GiveUp { status: Option<u16> },
}

/// What an outcome asks of the ledger.
pub open spec fn ledger_request(
    schedule: Seq<u64>,
    claim: ClaimedUpload,
    outcome: AttemptOutcome,
    finished_at: u64,
) -> LedgerRequest {
    match outcome {
        AttemptOutcome::Success { status } => LedgerRequest::Complete { status },
        AttemptOutcome::Permanent { status, error } => LedgerRequest::Fail { status, error },
        AttemptOutcome::Retry { status, retry_after, error } => {
            let delay = retry_delay(
                schedule,
                claim.attempt_count,
                fnv1a_hash(vstd::utf8::encode_utf8(claim.idempotency_key@)),
                retry_after,
            );
            if finished_at + delay <= u64::MAX {
                LedgerRequest::RetryAt { at: (finished_at + delay) as u64, status, error }
            } else {
                LedgerRequest::GiveUp { status }
            }
        },
    }
}

/// The row that a ledger request makes of the claimed job.
pub open spec fn requested_row(
    job: upload_record::UploadJobRecord,
    request: LedgerRequest,
    finished_at: u64,
    row: upload_record::UploadJobRecord,
) -> bool {
    match request {
        LedgerRequest::Complete { status } => row == upload_store::completed_row(
            job,
            finished_at,
            status,
        ),
        LedgerRequest::Fail { status, error } => exists|text: String|
            text@ == error@ && row == #[trigger] upload_store::failed_row(
                job,
                finished_at,
                status,
                Some(text),
            ),
        LedgerRequest::GiveUp { status } => exists|text: String|
            text@ == RETRY_TIME_ERROR@ && row == #[trigger] upload_store::failed_row(
                job,
                finished_at,
                status,
                Some(text),
            ),
        LedgerRequest::RetryAt { at, status, error } => exists|text: String|
            text@ == error@ && row == #[trigger] upload_store::retrying_row(
                job,
                finished_at,
                at,
                status,
                Some(text),
            ),
    }
}

/// The state that a ledger request puts the claimed job in.
pub open spec fn request_state(request: LedgerRequest) -> upload_record::UploadState {
    match request {
        LedgerRequest::Complete { .. } => upload_record::UploadState::Completed,
        LedgerRequest::RetryAt { .. } => upload_record::UploadState::Retrying,
        LedgerRequest::Fail { .. } => upload_record::UploadState::PermanentlyFailed,
        LedgerRequest::GiveUp { .. } => upload_record::UploadState::PermanentlyFailed,
    }
}

/// The times that a ledger request writes, and the status it stores.
pub open spec fn request_times(request: LedgerRequest, finished_at: u64) -> Seq<u64> {
    match request {
        LedgerRequest::RetryAt { at, .. } => seq![finished_at, at],
        _ => seq![finished_at],
    }
}

pub open spec fn request_status(request: LedgerRequest) -> Option<u16> {
    match request {
        LedgerRequest::Complete { status } => Some(status),
        LedgerRequest::Fail { status, .. } => status,
        LedgerRequest::RetryAt { status, .. } => status,
        LedgerRequest::GiveUp { status } => status,
    }
}

/// Store what became of an attempt. Only the current claim of a job can; a job
/// whose next attempt cannot be dated fails for good, and the worker with it.
pub fn persist_outcome(
    store: &mut UploadStore,
    claim: &ClaimedUpload,
    outcome: AttemptOutcome,
    finished_at: u64,
    retry_policy: &RetryPolicy,
) -> (r: Result<(), UploadError>)
    requires
        old(store).wf(),
        retry_policy.schedule@.len() > 0,
    ensures
        final(store).wf(),
        old(store).history_kept(*final(store)),
        old(store).agrees() ==> final(store).agrees(),
        ({
            let request = ledger_request(
                retry_policy.schedule@,
                *claim,
                outcome,
                finished_at,
            );
            match old(store).transition(
                *claim,
                request_times(request, finished_at),
                request_state(request),
                request_status(request),
            ) {
                Err(error) => r == Err::<(), UploadError>(UploadError::Store(error))
                    && *final(store) == *old(store),
                Ok(i) => {
                    &&& r == (if request is GiveUp {
                        Err::<(), UploadError>(UploadError::ClockOutOfRange)
                    } else {
                        Ok::<(), UploadError>(())
                    })
                    &&& exists|row: upload_record::UploadJobRecord|
                        requested_row(old(store).jobs@[i], request, finished_at, row)
                            && #[trigger] old(store).row_written(*final(store), i, row)
                },
            }
        }),
{
    let stored = match outcome {
        AttemptOutcome::Success { status } => store.mark_completed(claim, finished_at, status),
        AttemptOutcome::Permanent { status, error } => store.mark_permanently_failed(
            claim,
            finished_at,
            status,
            Some(error.to_owned()),
        ),
        AttemptOutcome::Retry { status, retry_after, error } => {
            let delay: u64 = retry_policy.delay(
                claim.attempt_count,
                fnv1a(claim.idempotency_key.as_str().as_bytes()),
                retry_after,
            );
            match finished_at.checked_add(delay) {
                Some(at) => store.mark_retrying(
                    claim,
                    finished_at,
                    at,
                    status,
                    Some(error.to_owned()),
                ),
                None => {
                    let given_up = store.mark_permanently_failed(
                        claim,
                        finished_at,
                        status,
                        Some(RETRY_TIME_ERROR.to_owned()),
                    );
                    return match given_up {
                        Ok(()) => Err(UploadError::ClockOutOfRange),
                        Err(error) => Err(UploadError::Store(error)),
                    };
                },
            }
        },
    };
    match stored {
        Ok(()) => Ok(()),
        Err(error) => Err(UploadError::Store(error)),
    }
}

/// What the worker does next.
#[derive(Debug)]
pub enum UploadStep {
    Exit,
    /// Wait for a wake-up, for at most this many milliseconds.
    Wait(u64),
    Attempt(ClaimedUpload),
}

/// Whether this step follows from the ledger: an exit if the worker is stopping,
/// an attempt of the first due job, or a wait until one is due.
pub open spec fn is_next_step(
    before: UploadStore,
    after: UploadStore,
    stopping: bool,
    now: u64,
    step: UploadStep,
) -> bool {
    match step {
        UploadStep::Exit => stopping && after == before,
        UploadStep::Wait(millis) => {
            &&& !stopping
            &&& after == before
            &&& upload_store::none_due(before.jobs@, now)
            &&& exists|next: Option<u64>| #[trigger]
                upload_store::is_next_due(before.jobs@, next) && millis == number::spec_min(
                    match next {
                        Some(due) => number::spec_max(due - now, 0),
                        None => 100,
                    },
                    100,
                )
        },
        UploadStep::Attempt(claim) => !stopping && exists|i: int|
            {
                let job = before.jobs@[i];
                &&& #[trigger] upload_store::is_first_due(before.jobs@, now, i)
                &&& before.claim_fault(i) is None
                &&& claim == upload_store::claim_of(job)
                &&& before.row_written(after, i, upload_store::claimed_row(job, now))
            },
    }
}

/// Claim the first due job unless the worker is stopping.
pub fn next_upload_step(store: &mut UploadStore, stopping: bool, now_unix_ms: u64) -> (r: Result<
    UploadStep,
    UploadStoreError,
>)
    requires
        old(store).wf(),
    ensures
        final(store).wf(),
        old(store).history_kept(*final(store)),
        old(store).agrees() ==> final(store).agrees(),
        match r {
            Ok(step) => is_next_step(*old(store), *final(store), stopping, now_unix_ms, step),
            Err(error) => {
                &&& !stopping
                &&& *final(store) == *old(store)
                &&& if !upload_record::fits_i64(now_unix_ms) {
                    error == UploadStoreError::TimestampOutOfRange(now_unix_ms)
                } else {
                    exists|i: int| #[trigger]
                        upload_store::is_first_due(old(store).jobs@, now_unix_ms, i) && old(
                            store,
                        ).claim_fault(i) == Some(error)
                }
            },
        },
{
    if stopping {
        return Ok(UploadStep::Exit);
    }
    match store.claim_due(now_unix_ms) {
        Ok(Some(claim)) => Ok(UploadStep::Attempt(claim)),
        Ok(None) => {
            let snapshot = store.snapshot();
            Ok(UploadStep::Wait(wait_until_due(snapshot.next_due_at_unix_ms, now_unix_ms)))
        },
        Err(error) => Err(error),
    }
}

/// Give a fresh claim back if the worker was told to stop before sending it.
/// Returns whether it was given back.
pub fn release_if_stopping(
    store: &mut UploadStore,
    claim: &ClaimedUpload,
    stopping: bool,
    claimed_at_unix_ms: u64,
) -> (r: Result<bool, UploadStoreError>)
    requires
        old(store).wf(),
    ensures
        final(store).wf(),
        old(store).history_kept(*final(store)),
        old(store).agrees() ==> final(store).agrees(),
        if !stopping {
            r == Ok::<bool, UploadStoreError>(false) && *final(store) == *old(store)
        } else {
            match old(store).transition(
                *claim,
                seq![claimed_at_unix_ms],
                upload_record::UploadState::Pending,
                None,
            ) {
                Ok(i) => r == Ok::<bool, UploadStoreError>(true) && old(store).row_written(
                    *final(store),
                    i,
                    upload_store::released_row(old(store).jobs@[i], claimed_at_unix_ms),
                ),
                Err(error) => r == Err::<bool, UploadStoreError>(error) && *final(store) == *old(
                    store),
            }
        },
{
    if !stopping {
        return Ok(false);
    }
    match store.release_claim(claim, claimed_at_unix_ms) {
        Ok(()) => Ok(true),
        Err(error) => Err(error),
    }
}

/// When an attempt finished. Without a usable clock it is dated by its claim, so
/// that its outcome is stored all the same.
pub fn attempt_finished_at(claimed_at_unix_ms: u64, clock: Option<u64>) -> (r: u64)
    ensures
        r == (match clock {
            Some(now) => now,
            None => claimed_at_unix_ms,
        }),
{
    match clock {
        Some(now) => now,
        None => claimed_at_unix_ms,
    }
}

/// A claimed job's outcome is never lost: if the attempt's claim is current, its
/// job is afterwards completed, failed or retrying, and no longer in progress.
pub proof fn law_outcome_is_recorded(
    job: upload_record::UploadJobRecord,
    request: LedgerRequest,
    finished_at: u64,
    row: upload_record::UploadJobRecord,
)
    requires
        requested_row(job, request, finished_at, row),
    ensures
        row.state != upload_record::UploadState::InProgress,
        row.state != upload_record::UploadState::Pending,
        row.same_identity(job),
        row.attempt_count == job.attempt_count,
        request is Complete <==> row.state == upload_record::UploadState::Completed,
        request is RetryAt <==> row.state == upload_record::UploadState::Retrying,
{
}

/// Every status in the two hundreds means that the artifact was accepted; 408, 425,
/// 429 and the five hundreds ask for another attempt; every other status refuses the
/// artifact for good. The status is kept, and so is a requested delay.
pub proof fn law_status_decides_the_attempt(
    status: u16,
    retry_after: Option<u64>,
    r: AttemptOutcome,
)
    requires
        call_ensures(classify_status, (status, retry_after), r),
    ensures
        r is Success <==> 200 <= status <= 299,
        r is Retry <==> status == 408 || status == 425 || status == 429 || 500 <= status <= 599,
        r is Permanent <==> !(200 <= status <= 299 || status == 408 || status == 425 || status
            == 429 || 500 <= status <= 599),
        r matches AttemptOutcome::Success { status: kept } ==> kept == status,
        r matches AttemptOutcome::Retry { status: kept, retry_after: delay, .. } ==> kept == Some(
            status,
        ) && delay == retry_after,
        r matches AttemptOutcome::Permanent { status: kept, .. } ==> kept == Some(status),
{
}

/// A response is judged by its status, and its `Retry-After` header is the delay that
/// it asks for.
pub proof fn law_response_is_judged_by_its_status(
    status: u16,
    headers: &HeaderMap<HeaderValue>,
    delay: Option<u64>,
    r: AttemptOutcome,
)
    requires
        call_ensures(response_outcome, (status, headers), r),
        call_ensures(parse_retry_after, (headers,), delay),
    ensures
        r is Success <==> 200 <= status <= 299,
        r is Retry <==> status == 408 || status == 425 || status == 429 || 500 <= status <= 599,
        r matches AttemptOutcome::Success { status: kept } ==> kept == status,
        r matches AttemptOutcome::Retry { status: kept, retry_after, .. } ==> kept == Some(status)
            && retry_after == delay,
        r matches AttemptOutcome::Permanent { status: kept, .. } ==> kept == Some(status),
{
}

/// Without a response an attempt is repeated; with nothing but a status, the status
/// decides.
pub proof fn law_lost_response_is_retried(status: Option<u16>, r: AttemptOutcome)
    requires
        call_ensures(failed_request_outcome, (status,), r),
    ensures
        status is None ==> (r matches AttemptOutcome::Retry { status: kept, retry_after, .. }
            && kept is None && retry_after is None),
        status matches Some(code) ==> {
            &&& r is Success <==> 200 <= code <= 299
            &&& r is Retry <==> code == 408 || code == 425 || code == 429 || 500 <= code <= 599
            &&& r matches AttemptOutcome::Retry { status: kept, retry_after, .. } ==> kept == status
                && retry_after is None
        },
{
}

/// Only a verified artifact is sent. One that could not be opened is tried again
/// later, and one that is not what was recorded is given up. What is sent carries
/// the recorded size, name and key.
pub proof fn law_only_verified_artifacts_are_sent(
    claim: &ClaimedUpload,
    verification: Option<ArtifactVerification>,
    r: Result<UploadRequest, AttemptOutcome>,
)
    requires
        call_ensures(prepare_request, (claim, verification), r),
    ensures
        r is Ok ==> verification == Some(ArtifactVerification::Verified),
        verification is None ==> r is Err && r->Err_0 is Retry,
        verification is Some && !(verification->0 is Verified) ==> r is Err && r->Err_0
            is Permanent,
        verification == Some(ArtifactVerification::Verified) ==> (r is Ok <==> http::header_text(
            claim.filename@,
        ) && http::header_text(claim.idempotency_key@)),
        verification == Some(ArtifactVerification::Verified) && r is Err ==> r->Err_0 is Permanent,
        r matches Ok(request) ==> {
            &&& request.content_length@ == text::decimal(claim.file_size as nat)
            &&& http::header_bytes(request.file_name) == vstd::utf8::encode_utf8(claim.filename@)
            &&& http::header_bytes(request.idempotency_key) == vstd::utf8::encode_utf8(
                claim.idempotency_key@,
            )
        },
{
}

/// A repeated attempt waits for the scheduled delay of its number, or for the last
/// one, within a fifth either way; for as long as the endpoint asked for at least;
/// and never longer than five minutes.
pub proof fn law_retry_waits_as_scheduled(
    policy: &RetryPolicy,
    attempt: u64,
    seed: u64,
    retry_after: Option<u64>,
    step: int,
    r: u64,
)
    requires
        call_ensures(RetryPolicy::delay, (policy, attempt, seed, retry_after), r),
        0 <= step < policy.schedule@.len(),
        attempt == step + 1 || (attempt == 0 && step == 0) || (attempt > step + 1 && step
            == policy.schedule@.len() - 1),
    ensures
        r <= 300_000,
        100 * (r + 1) > 80 * policy.schedule@[step] || r == 300_000,
        retry_after matches Some(seconds) ==> r >= 300_000 || r >= 1_000 * seconds,
        retry_after is None ==> 100 * r <= 120 * policy.schedule@[step],
        retry_after matches Some(seconds) ==> 100 * r <= 120 * policy.schedule@[step] || r <= 1_000
            * seconds,
{
    let base = policy.schedule@[step];
    assert(scheduled(policy.schedule@, attempt) == base);
    let percent = jitter_percent(attempt, seed);
    lemma_jitter(base as int, percent);
}

/// The attempts of the released program are a second, two, five, ten, thirty
/// seconds, one minute and then five minutes apart.
pub proof fn law_released_schedule(policy: RetryPolicy, attempt: u64, seed: u64, r: u64)
    requires
        call_ensures(RetryPolicy::production, (), policy),
        call_ensures(RetryPolicy::delay, (&policy, attempt, seed, None), r),
    ensures
        attempt <= 1 ==> 800 <= r <= 1_200,
        attempt == 2 ==> 1_600 <= r <= 2_400,
        attempt == 3 ==> 4_000 <= r <= 6_000,
        attempt == 4 ==> 8_000 <= r <= 12_000,
        attempt == 5 ==> 24_000 <= r <= 36_000,
        attempt == 6 ==> 48_000 <= r <= 72_000,
        attempt >= 7 ==> 240_000 <= r <= 300_000,
{
    let base = scheduled(policy.schedule@, attempt);
    lemma_jitter(base as int, jitter_percent(attempt, seed));
}

/// The worker looks at its ledger when the next job is due, and at least every tenth
/// of a second.
pub proof fn law_worker_never_oversleeps(next_due: Option<u64>, now: u64, r: u64)
    requires
        call_ensures(wait_until_due, (next_due, now), r),
    ensures
        r <= 100,
        next_due is None ==> r == 100,
        next_due matches Some(due) ==> (due <= now ==> r == 0),
        next_due matches Some(due) ==> (now < due ==> now + r <= due && (r == 100 || now + r
            == due)),
{
}

/// What an attempt came to is what its job becomes: an accepted artifact is completed,
/// a refused one is given up, and any other waits for at least eight tenths of its
/// scheduled delay.
pub proof fn law_outcome_becomes_the_job(
    claim: &ClaimedUpload,
    i: int,
    outcome: AttemptOutcome,
    finished_at: u64,
    policy: &RetryPolicy,
    r: Result<(), UploadError>,
)
    requires
        policy.schedule@.len() > 0,
        finished_at <= i64::MAX - 300_000,
        outcome matches AttemptOutcome::Success { status } ==> 100 <= status <= 599,
        outcome matches AttemptOutcome::Retry { status, .. } ==> (status matches Some(code) ==> 100
            <= code <= 599),
        outcome matches AttemptOutcome::Permanent { status, .. } ==> (status matches Some(code)
            ==> 100 <= code <= 599),
    ensures
        forall|store: &mut UploadStore|
            #[trigger] call_ensures(
                persist_outcome,
                (store, claim, outcome, finished_at, policy),
                r,
            ) && store.wf() && store.agrees() && upload_store::is_held(*store, *claim, i) ==> {
                let job = final(store).jobs@[i];
                &&& r is Ok
                &&& upload_store::only_job_changed(*store, *final(store), i)
                &&& job.attempt_count == claim.attempt_count
                &&& job.updated_at_unix_ms == finished_at
                &&& outcome is Success <==> job.state is Completed
                &&& outcome is Permanent <==> job.state is PermanentlyFailed
                &&& outcome is Retry <==> job.state is Retrying
                &&& outcome matches AttemptOutcome::Success { status } ==> job.last_http_status
                    == Some(status) && job.completed_at_unix_ms == Some(finished_at)
                &&& outcome matches AttemptOutcome::Permanent { status, error }
                    ==> job.last_http_status == status && job.last_error is Some
                    && job.last_error->0@ == error@ && job.last_failure_at_unix_ms == Some(
                    finished_at,
                )
                &&& outcome matches AttemptOutcome::Retry { status, retry_after, error } ==> {
                    &&& job.last_http_status == status
                    &&& job.last_error is Some
                    &&& job.last_error->0@ == error@
                    &&& job.last_failure_at_unix_ms == Some(finished_at)
                    &&& job.next_attempt_at_unix_ms is Some
                    &&& finished_at <= job.next_attempt_at_unix_ms->0 <= finished_at + 300_000
                    &&& retry_after matches Some(seconds) ==> job.next_attempt_at_unix_ms->0
                        - finished_at >= 300_000 || job.next_attempt_at_unix_ms->0 - finished_at
                        >= 1_000 * seconds
                }
            },
{
    let request = ledger_request(policy.schedule@, *claim, outcome, finished_at);
    if outcome is Retry {
        let base = scheduled(policy.schedule@, claim.attempt_count);
        lemma_jitter(
            base as int,
            jitter_percent(
                claim.attempt_count,
                fnv1a_hash(vstd::utf8::encode_utf8(claim.idempotency_key@)),
            ),
        );
    }
    assert forall|store: &mut UploadStore|
        #[trigger] call_ensures(persist_outcome, (store, claim, outcome, finished_at, policy), r)
            && store.wf() && store.agrees() && upload_store::is_held(
            *store,
            *claim,
            i,
        ) implies r is Ok && upload_store::only_job_changed(*store, *final(store), i)
        && requested_row(
        store.jobs@[i],
        request,
        finished_at,
        final(store).jobs@[i],
    ) by {
        assert(store.claims(*claim, i));
        assert(store.jobs@[i].wf());
        upload_store::law_agreeing_counts_refuse_nothing(
            *store,
            *claim,
            i,
            request_times(request, finished_at),
            request_state(request),
            request_status(request),
        );
        let row = choose|row: upload_record::UploadJobRecord|
            requested_row(store.jobs@[i], request, finished_at, row)
                && #[trigger] store.row_written(*final(store), i, row);
        assert(final(store).jobs@[i] == row);
        law_outcome_is_recorded(store.jobs@[i], request, finished_at, row);
    }
}

/// An outcome that no claim holds a job for is refused, and the ledger stays as it
/// was.
pub proof fn law_outcome_of_a_lost_claim_is_refused(
    claim: &ClaimedUpload,
    outcome: AttemptOutcome,
    finished_at: u64,
    policy: &RetryPolicy,
    r: Result<(), UploadError>,
)
    ensures
        forall|store: &mut UploadStore|
            #[trigger] call_ensures(
                persist_outcome,
                (store, claim, outcome, finished_at, policy),
                r,
            ) && (forall|i: int| !#[trigger] upload_store::is_held(*store, *claim, i)) ==> r is Err
                && *final(store) == *store,
{
    assert forall|store: UploadStore|
        (forall|i: int| !#[trigger] upload_store::is_held(store, *claim, i)) implies (
    #[trigger] store.current_claim(*claim)) is None by {
        assert forall|i: int| !store.claims(*claim, i) by {
            assert(!upload_store::is_held(store, *claim, i));
        }
    }
}

/// A worker that is told to stop takes no further job; any other takes the one whose
/// time came first, and waits for at most a tenth of a second where there is none.
pub proof fn law_next_step_follows_the_queue(
    stopping: bool,
    now: u64,
    r: Result<UploadStep, UploadStoreError>,
)
    ensures
        forall|store: &mut UploadStore|
            #[trigger] call_ensures(next_upload_step, (store, stopping, now), r) && store.wf() ==> {
                &&& stopping ==> r == Ok::<UploadStep, UploadStoreError>(UploadStep::Exit)
                    && *final(store) == *store
                &&& r matches Ok(UploadStep::Exit) ==> stopping
                &&& r matches Ok(UploadStep::Attempt(claim)) ==> exists|i: int|
                    #[trigger] upload_store::takes_first(*store, *final(store), now, claim, i)
                &&& r matches Ok(UploadStep::Wait(millis)) ==> millis <= 100 && *final(store)
                    == *store && forall|j: int|
                    0 <= j < store.jobs@.len() && upload_store::is_queued(
                        #[trigger] store.jobs@[j],
                    ) ==> now < upload_store::turn_of(store.jobs@[j]) && now + millis
                        <= upload_store::turn_of(store.jobs@[j])
            },
{
    assert forall|store: &mut UploadStore|
        #[trigger] call_ensures(
            next_upload_step,
            (store, stopping, now),
            r,
        ) && store.wf() && r is Ok && r->Ok_0 is Attempt implies exists|i: int|
        #[trigger] upload_store::takes_first(
            *store,
            *final(store),
            now,
            r->Ok_0->Attempt_0,
            i,
        ) by {
        let claim = r->Ok_0->Attempt_0;
        let i = choose|i: int|
            {
                let job = store.jobs@[i];
                &&& #[trigger] upload_store::is_first_due(store.jobs@, now, i)
                &&& store.claim_fault(i) is None
                &&& claim == upload_store::claim_of(job)
                &&& store.row_written(*final(store), i, upload_store::claimed_row(job, now))
            };
        assert(store.jobs@[i].wf());
        upload_store::lemma_takes_first(*store, *final(store), now, claim, i);
    }
    assert forall|store: &mut UploadStore, j: int|
        #[trigger] call_ensures(next_upload_step, (store, stopping, now), r) && r is Ok
            && r->Ok_0 is Wait && 0 <= j < store.jobs@.len() && upload_store::is_queued(
            #[trigger] store.jobs@[j],
        ) implies now < upload_store::turn_of(store.jobs@[j]) && now + r->Ok_0->Wait_0
        <= upload_store::turn_of(store.jobs@[j]) by {
        assert(!store.jobs@[j].claimable_at(now));
        let millis = r->Ok_0->Wait_0;
        let next = choose|next: Option<u64>|
            #[trigger] upload_store::is_next_due(store.jobs@, next) && millis == number::spec_min(
                match next {
                    Some(due) => number::spec_max(due - now, 0),
                    None => 100,
                },
                100,
            );
        assert(store.jobs@[j].state.waits());
        assert(next is Some);
        assert(next->0 <= store.jobs@[j].due());
        let k = choose|k: int|
            0 <= k < store.jobs@.len() && (#[trigger] store.jobs@[k]).state.waits()
                && store.jobs@[k].due() == next->0;
        assert(!store.jobs@[k].claimable_at(now));
    }
}

/// A fresh claim is given back exactly where the worker is stopping.
pub proof fn law_stopping_worker_returns_its_claim(
    claim: &ClaimedUpload,
    i: int,
    stopping: bool,
    at: u64,
    r: Result<bool, UploadStoreError>,
)
    requires
        at <= i64::MAX,
    ensures
        forall|store: &mut UploadStore|
            #[trigger] call_ensures(release_if_stopping, (store, claim, stopping, at), r) ==> {
                &&& !stopping ==> r == Ok::<bool, UploadStoreError>(false) && *final(store)
                    == *store
                &&& stopping && store.wf() && store.agrees() && upload_store::is_held(
                    *store,
                    *claim,
                    i,
                ) ==> {
                    &&& r == Ok::<bool, UploadStoreError>(true)
                    &&& upload_store::only_job_changed(*store, *final(store), i)
                    &&& final(store).jobs@[i].state is Pending
                    &&& final(store).jobs@[i].attempt_count == store.jobs@[i].attempt_count
                    &&& final(store).jobs@[i].next_attempt_at_unix_ms is None
                }
            },
{
    assert forall|store: &mut UploadStore|
        #[trigger] call_ensures(release_if_stopping, (store, claim, stopping, at), r) && stopping
            && store.wf() && store.agrees() && upload_store::is_held(*store, *claim, i) implies r
        == Ok::<bool, UploadStoreError>(true) && upload_store::only_job_changed(
        *store,
        *final(store),
        i,
    ) && final(store).jobs@[i] == upload_store::released_row(store.jobs@[i], at) by {
        assert(store.claims(*claim, i));
        upload_store::law_agreeing_counts_refuse_nothing(
            *store,
            *claim,
            i,
            seq![at],
            upload_record::UploadState::Pending,
            None,
        );
    }
}

/// The hash of a key is taken byte by byte.
pub proof fn law_hash_takes_byte_by_byte(bytes: Seq<u8>, b: u8)
    ensures
        fnv1a_hash(Seq::empty()) == 0xcbf29ce484222325,
        fnv1a_hash(bytes.push(b)) == (fnv1a_hash(bytes) ^ b as u64).wrapping_mul(0x100000001b3),
{
    assert(bytes.push(b).drop_last() =~= bytes);
}

/// What the ledger has taken is reported as such, and a worker that is gone is
/// reported first.
pub proof fn law_enqueueing_is_answered(
    disposition: RecordDisposition,
    wake: WakeSend,
    r: UploadEnqueueResult,
)
    requires
        call_ensures(enqueue_result, (disposition, wake), r),
    ensures
        r is WorkerStopped <==> wake is Disconnected,
        r is Recorded <==> !(wake is Disconnected) && disposition is Inserted,
        r is AlreadyRecorded <==> !(wake is Disconnected) && disposition is AlreadyRecorded,
{
}

/// An attempt without a clock is dated by its claim.
pub proof fn law_attempt_is_dated(claimed_at: u64, clock: Option<u64>, r: u64)
    requires
        call_ensures(attempt_finished_at, (claimed_at, clock), r),
    ensures
        clock is None ==> r == claimed_at,
        clock matches Some(now) ==> r == now,
{
}

/// Observers are told of each count under its own name.
pub proof fn law_telemetry_tells_the_ledger(snapshot: UploadStoreSnapshot, r: UploadTelemetry)
    requires
        call_ensures(UploadTelemetry::from_snapshot, (snapshot,), r),
    ensures
        r.pending == snapshot.counts.pending,
        r.active == snapshot.counts.in_progress,
        r.retrying == snapshot.counts.retrying,
        r.completed == snapshot.counts.completed,
        r.permanently_failed == snapshot.counts.permanently_failed,
        r.last_success_unix_ms == snapshot.last_success_at_unix_ms,
        r.last_failure_unix_ms == snapshot.last_failure_at_unix_ms,
        r.last_error == snapshot.last_error,
{
}

/// Hashing nothing gives the basis, and one more byte is mixed in by the prime.
pub proof fn law_bytes_are_hashed_in_turn(
    bytes: &[u8],
    more: &[u8],
    b: u8,
    r: u64,
    s: u64,
)
    requires
        call_ensures(fnv1a, (bytes,), r),
        call_ensures(fnv1a, (more,), s),
        more@ == bytes@.push(b),
    ensures
        bytes@.len() == 0 ==> r == 0xcbf29ce484222325,
        s == (r ^ b as u64).wrapping_mul(0x100000001b3),
{
    law_hash_takes_byte_by_byte(bytes@, b);
    if bytes@.len() == 0 {
        assert(bytes@ =~= Seq::<u8>::empty());
    }
}

/// Mixing keeps zero, and is made of three shifts with two products between them.
pub proof fn law_mixing_keeps_zero(value: u64, r: u64)
    requires
        call_ensures(mix64, (value,), r),
    ensures
        value == 0 ==> r == 0,
        exists|b: u64, d: u64|
            b == (value ^ (value >> 30)).wrapping_mul(0xbf58476d1ce4e5b9) && d == (#[trigger] (b ^ (
            b >> 27))).wrapping_mul(0x94d049bb133111eb) && r == #[trigger] (d ^ (d >> 31)),
{
    let b = (value ^ (value >> 30)).wrapping_mul(0xbf58476d1ce4e5b9);
    let d = (b ^ (b >> 27)).wrapping_mul(0x94d049bb133111eb);
    assert(r == d ^ (d >> 31));
    assert(0u64 ^ (0u64 >> 30) == 0) by (bit_vector);
    assert(0u64 ^ (0u64 >> 27) == 0) by (bit_vector);
    assert(0u64 ^ (0u64 >> 31) == 0) by (bit_vector);
}

/// The queue of wake-ups holds at least one.
pub proof fn law_wake_queue_has_room(wake_capacity: usize, r: Result<(), UploadError>)
    requires
        call_ensures(check_wake_capacity, (wake_capacity,), r),
    ensures
        r is Ok <==> wake_capacity >= 1,
        r matches Err(error) ==> error is InvalidWakeCapacity,
{
}

/// An artifact that was not recorded stops uploads; one that was is answered by whether
/// the worker is there.
pub proof fn law_unrecorded_artifact_stops_uploads(
    sink: &UploadSink,
    recorded: Result<RecordDisposition, UploadError>,
    r: Result<UploadEnqueueResult, UploadError>,
)
    requires
        call_ensures(UploadSink::try_enqueue, (sink, recorded), r),
    ensures
        recorded is Err <==> r is Err,
        recorded is Err ==> r->Err_0 == recorded->Err_0 && flag::stored(sink.stop, true),
        r matches Ok(answer) ==> (answer is Recorded ==> recorded->Ok_0 is Inserted
            && flag::loaded(sink.stop, false)),
        r matches Ok(answer) ==> (answer is AlreadyRecorded ==> recorded->Ok_0 is AlreadyRecorded
            && flag::loaded(sink.stop, false)),
        r matches Ok(answer) ==> (answer is WorkerStopped ==> flag::loaded(sink.stop, true)
            || flag::stored(sink.stop, true)),
{
}

} // verus!
