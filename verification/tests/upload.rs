use std::sync::atomic::{AtomicBool, Ordering};
use std::sync::mpsc::{sync_channel, Receiver, TrySendError};
use std::sync::Arc;

use autopiercam::http::{
    bearer_authorization, checked_bearer_authorization, parse_retry_after, retry_after_seconds,
    upload_destination, BearerTokenError, EndpointError, MAX_RETRY_DELAY_SECONDS,
};
use autopiercam::retention_worker::WakeSend;
use autopiercam::upload::{
    attempt_finished_at, check_wake_capacity, classify_status, clock_unix_ms, enqueue_result,
    failed_request_outcome, fnv1a,
    next_upload_step, persist_outcome, prepare_request, release_if_stopping, response_outcome,
    wait_until_due, AttemptOutcome, RetryPolicy, UploadEnqueueResult, UploadError, UploadSink,
    UploadStep, UploadTelemetry, ARTIFACT_CONTENT_CHANGED_ERROR, ARTIFACT_SIZE_CHANGED_ERROR,
    INVALID_HEADER_ERROR, MAX_RETRY_DELAY_MS, MISSING_ARTIFACT_ERROR, NON_FILE_ARTIFACT_ERROR,
    RETRYABLE_HTTP_ERROR, RETRY_TIME_ERROR, SYMLINK_ARTIFACT_ERROR, TRANSPORT_ERROR,
    UNOPENABLE_ARTIFACT_ERROR,
};
use autopiercam::upload_artifact::{
    verify_claimed_artifact, ArtifactSighting, ArtifactVerification, ClaimedSighting, PathKind,
};
use autopiercam::upload_record::{UploadAuthorizationFingerprint, UploadState, UploadStoreError};
use autopiercam::upload_schema::{
    schema_sql, LedgerImage, StoredLedger, APPLICATION_ID, SCHEMA_OBJECTS, SCHEMA_SIGNATURE,
    SCHEMA_VERSION,
};
use autopiercam::upload_store::{
    ArtifactValues, ClaimedUpload, RecordDisposition, UploadStore,
};
use ureq::http::{HeaderMap, HeaderValue};

const TEST_DESTINATION: &str = "https://upload.example.test/camera/latest";
const CAPTURE: &str = "/var/lib/autopiercam/captures";

fn long_delay() -> RetryPolicy {
    RetryPolicy {
        schedule: vec![60_000],
    }
}

fn new_store() -> UploadStore {
    let empty = LedgerImage {
        user_version: 0,
        application_id: 0,
        object_count: 0,
        objects: vec![None; SCHEMA_OBJECTS],
        contents: None,
    };
    open(empty)
}

fn open(image: LedgerImage) -> UploadStore {
    UploadStore::open(
        image,
        &vec![],
        CAPTURE.to_owned(),
        TEST_DESTINATION,
        UploadAuthorizationFingerprint::anonymous(),
        0,
    )
    .unwrap()
    .store
}

/// The ledger as its next owner finds it.
fn restart(store: UploadStore) -> UploadStore {
    open(LedgerImage {
        user_version: SCHEMA_VERSION,
        application_id: APPLICATION_ID,
        object_count: SCHEMA_OBJECTS as i64,
        objects: (0..SCHEMA_OBJECTS)
            .map(|index| Some(schema_sql(index).to_owned()))
            .collect(),
        contents: Some(StoredLedger {
            schema_signature: SCHEMA_SIGNATURE.to_owned(),
            store,
        }),
    })
}

fn values(sequence: u64, contents: &[u8]) -> ArtifactValues {
    let name = format!("frame-1700000000-123-{sequence:06}.jpg");
    let path = format!("{CAPTURE}/{name}");
    ArtifactValues::read(ArtifactSighting {
        path: path.clone(),
        is_absolute: true,
        is_utf8: true,
        kind: PathKind::File,
        canonical_path: path,
        canonical_is_utf8: true,
        file_name: Some(name),
        opened_is_file: true,
        opened_size: contents.len() as u64,
        contents: contents.to_vec(),
    }, CAPTURE)
    .unwrap()
}

fn sink() -> (UploadSink, Receiver<()>) {
    let (wake_sender, wake_receiver) = sync_channel(1);
    let sink = UploadSink {
        wake_sender,
        stop: Arc::new(AtomicBool::new(false)),
    };
    (sink, wake_receiver)
}

fn enqueue(
    sink: &UploadSink,
    store: &mut UploadStore,
    sequence: u64,
    contents: &[u8],
    now: u64,
) -> Result<UploadEnqueueResult, UploadError> {
    let recorded = store
        .record_artifact(values(sequence, contents), now)
        .map(|result| result.disposition)
        .map_err(UploadError::Store);
    sink.try_enqueue(recorded)
}

fn claim(store: &mut UploadStore, now: u64) -> ClaimedUpload {
    match next_upload_step(store, false, now).unwrap() {
        UploadStep::Attempt(claim) => claim,
        other => panic!("{other:?}"),
    }
}

#[test]
fn fatal_worker_error_stops_health_while_later_intents_remain_durable() {
    let mut store = new_store();
    let (sink, wake_receiver) = sink();
    let health = sink.health();
    assert!(!health.is_stopped());

    assert_eq!(
        enqueue(&sink, &mut store, 1, b"first durable intent", 1_000),
        Ok(UploadEnqueueResult::Recorded)
    );
    // The worker claims the first artifact and dies before its outcome is known.
    claim(&mut store, 1_000);
    sink.stop.store(true, Ordering::Release);
    drop(wake_receiver);
    assert!(health.is_stopped());

    assert_eq!(
        enqueue(&sink, &mut store, 2, b"recorded after worker exit", 1_000),
        Ok(UploadEnqueueResult::WorkerStopped)
    );
    assert_eq!(store.snapshot().counts.total(), 2);

    let recovered = restart(store).snapshot();
    assert_eq!(recovered.counts.pending, 2);
    assert_eq!(recovered.counts.total(), 2);
}

#[test]
fn full_wake_channel_never_loses_durable_intent() {
    let mut store = new_store();
    let (sink, _wake_receiver) = sink();

    assert_eq!(
        enqueue(&sink, &mut store, 1, b"first", 1_000),
        Ok(UploadEnqueueResult::Recorded)
    );
    // Occupy the sole advisory wake slot. These records must still succeed.
    assert!(matches!(
        sink.wake_sender.try_send(()),
        Ok(()) | Err(TrySendError::Full(()))
    ));
    assert_eq!(
        enqueue(&sink, &mut store, 2, b"second", 1_000),
        Ok(UploadEnqueueResult::Recorded)
    );
    assert_eq!(
        enqueue(&sink, &mut store, 3, b"third", 1_000),
        Ok(UploadEnqueueResult::Recorded)
    );
    assert_eq!(store.snapshot().counts.total(), 3);

    let policy = RetryPolicy::production();
    let mut attempts = 0;
    while let UploadStep::Attempt(claim) = next_upload_step(&mut store, false, 1_000).unwrap() {
        attempts += 1;
        persist_outcome(
            &mut store,
            &claim,
            AttemptOutcome::Success { status: 204 },
            1_000,
            &policy,
        )
        .unwrap();
    }
    let final_state = UploadTelemetry::from_snapshot(store.snapshot());
    assert_eq!(final_state.completed, 3);
    assert_eq!(final_state.pending, 0);
    assert_eq!(attempts, 3);
    assert_eq!(
        enqueue(&sink, &mut store, 3, b"third", 1_000),
        Ok(UploadEnqueueResult::AlreadyRecorded)
    );
}

#[test]
fn an_unrecorded_artifact_stops_the_worker() {
    let mut store = new_store();
    let (sink, wake_receiver) = sink();
    assert_eq!(
        enqueue(&sink, &mut store, 1, b"late", u64::MAX),
        Err(UploadError::Store(UploadStoreError::TimestampOutOfRange(
            u64::MAX
        )))
    );
    assert!(sink.health().is_stopped());
    wake_receiver.try_recv().unwrap();
    assert_eq!(check_wake_capacity(0), Err(UploadError::InvalidWakeCapacity));
    assert_eq!(check_wake_capacity(1), Ok(()));
}

fn retry() -> AttemptOutcome {
    AttemptOutcome::retry(Some(503), None, RETRYABLE_HTTP_ERROR)
}

#[test]
fn shutdown_finishes_current_attempt_and_restart_obeys_persisted_retry() {
    let policy = long_delay();
    let mut store = new_store();
    store
        .record_artifact(values(10, b"retry me"), 10_000)
        .unwrap();
    let first = claim(&mut store, 10_000);

    // A stop races with the active request: its outcome is stored all the same.
    persist_outcome(&mut store, &first, retry(), 10_000, &policy).unwrap();
    assert!(matches!(
        next_upload_step(&mut store, true, 10_000),
        Ok(UploadStep::Exit)
    ));
    let retrying = UploadTelemetry::from_snapshot(store.snapshot());
    assert_eq!(retrying.retrying, 1);
    assert_eq!(retrying.active, 0);
    let due = store.snapshot().next_due_at_unix_ms.unwrap();
    assert!(due > 10_000);

    let mut store = restart(store);
    assert!(matches!(
        next_upload_step(&mut store, false, due - 1),
        Ok(UploadStep::Wait(1))
    ));
    let second = claim(&mut store, due);
    assert_eq!(second.attempt_count, 2);
    persist_outcome(
        &mut store,
        &second,
        AttemptOutcome::Success { status: 204 },
        due,
        &policy,
    )
    .unwrap();
    assert_eq!(store.snapshot().counts.completed, 1);
}

#[test]
fn prolonged_outage_survives_repeated_restarts_until_success() {
    let policy = long_delay();
    let mut store = new_store();
    store
        .record_artifact(
            values(11, b"retry across several worker lifetimes"),
            50_000,
        )
        .unwrap();
    let mut now = 50_000;
    let mut last_failure_at = 0;

    for expected_attempt in 1..=3 {
        store = restart(store);
        let attempt = claim(&mut store, now);
        assert_eq!(attempt.attempt_count, expected_attempt);
        persist_outcome(&mut store, &attempt, retry(), now, &policy).unwrap();
        let retrying = UploadTelemetry::from_snapshot(store.snapshot());
        assert_eq!(retrying.active, 0);
        assert_eq!(retrying.retrying, 1);
        assert_eq!(retrying.last_failure_unix_ms, Some(now));
        assert_eq!(retrying.last_error.as_deref(), Some(RETRYABLE_HTTP_ERROR));
        let due = store.snapshot().next_due_at_unix_ms.unwrap();
        assert!(due > now);
        last_failure_at = now;
        now = due;
    }

    let mut store = restart(store);
    let attempt = claim(&mut store, now);
    assert_eq!(attempt.attempt_count, 4);
    persist_outcome(
        &mut store,
        &attempt,
        AttemptOutcome::Success { status: 204 },
        now,
        &policy,
    )
    .unwrap();
    let completed = UploadTelemetry::from_snapshot(store.snapshot());
    assert_eq!(completed.completed, 1);
    assert_eq!(completed.retrying, 0);
    assert_eq!(completed.last_success_unix_ms, Some(now));
    assert_eq!(completed.last_failure_unix_ms, Some(last_failure_at));
}

#[test]
fn restart_recovers_an_abandoned_claim() {
    let mut store = new_store();
    store
        .record_artifact(values(20, b"recover me"), 20_000)
        .unwrap();
    let stale_claim = store.claim_due(20_000).unwrap().unwrap();
    assert_eq!(stale_claim.attempt_count, 1);

    let mut store = restart(store);
    let attempt = claim(&mut store, 20_000);
    assert_eq!(attempt.attempt_count, 2);
    let policy = RetryPolicy::production();
    let success = AttemptOutcome::Success { status: 204 };
    assert_eq!(
        persist_outcome(&mut store, &stale_claim, success, 20_000, &policy),
        Err(UploadError::Store(UploadStoreError::InvalidTransition(
            stale_claim.job_id
        )))
    );
    persist_outcome(&mut store, &attempt, success, 20_000, &policy).unwrap();
    assert_eq!(store.snapshot().counts.completed, 1);
}

/// One attempt whose artifact was found like this.
fn attempt(sequence: u64, contents: &[u8], now: u64, found: &ClaimedSighting) -> UploadTelemetry {
    let mut store = new_store();
    store
        .record_artifact(values(sequence, contents), now)
        .unwrap();
    let attempt = claim(&mut store, now);
    let outcome = match prepare_request(&attempt, Some(verify_claimed_artifact(&attempt, found))) {
        Ok(request) => panic!("{request:?}"),
        Err(outcome) => outcome,
    };
    persist_outcome(&mut store, &attempt, outcome, now, &RetryPolicy::production()).unwrap();
    UploadTelemetry::from_snapshot(store.snapshot())
}

#[test]
fn missing_artifact_becomes_a_safe_permanent_failure() {
    let failed = attempt(30, b"gone soon", 30_000, &ClaimedSighting::Missing);
    assert_eq!(failed.permanently_failed, 1);
    assert_eq!(failed.last_error.as_deref(), Some(MISSING_ARTIFACT_ERROR));
}

#[test]
fn replaced_artifact_becomes_a_safe_permanent_failure() {
    let failed = attempt(
        31,
        b"original bytes",
        31_000,
        &ClaimedSighting::Opened {
            is_file: true,
            size: 14,
            contents: b"replaced bytes".to_vec(),
        },
    );
    assert_eq!(failed.permanently_failed, 1);
    assert_eq!(
        failed.last_error.as_deref(),
        Some(ARTIFACT_CONTENT_CHANGED_ERROR)
    );
}

#[test]
fn status_retry_after_and_jitter_are_explicit_and_bounded() {
    assert_eq!(
        classify_status(204, None),
        AttemptOutcome::Success { status: 204 }
    );
    for status in [408, 425, 429, 500, 503, 599] {
        assert!(matches!(
            classify_status(status, None),
            AttemptOutcome::Retry {
                status: Some(found),
                ..
            } if found == status
        ));
    }
    for status in [300, 400, 401, 404, 409, 413] {
        assert!(matches!(
            classify_status(status, None),
            AttemptOutcome::Permanent {
                status: Some(found),
                ..
            } if found == status
        ));
    }

    let mut headers = HeaderMap::new();
    headers.insert(
        "Retry-After",
        HeaderValue::from_static("999999999999999999999"),
    );
    assert_eq!(parse_retry_after(&headers), Some(MAX_RETRY_DELAY_SECONDS));
    headers.insert(
        "Retry-After",
        HeaderValue::from_static("Wed, 21 Oct 2015 07:28:00 GMT"),
    );
    assert_eq!(parse_retry_after(&headers), None);

    let policy = RetryPolicy::production();
    let first = policy.delay(1, 42, None);
    assert_eq!(first, policy.delay(1, 42, None));
    assert!((800..=1_200).contains(&first));
    assert_eq!(policy.delay(100, 42, Some(999)), MAX_RETRY_DELAY_MS);
}

#[test]
fn responses_are_judged_with_their_header() {
    let mut headers = HeaderMap::new();
    assert_eq!(parse_retry_after(&headers), None);
    headers.insert("retry-after", HeaderValue::from_static(" 17\t"));
    assert_eq!(
        response_outcome(503, &headers),
        AttemptOutcome::retry(Some(503), Some(17), RETRYABLE_HTTP_ERROR)
    );
    assert_eq!(
        response_outcome(200, &headers),
        AttemptOutcome::Success { status: 200 }
    );
    assert_eq!(
        failed_request_outcome(None),
        AttemptOutcome::retry(None, None, TRANSPORT_ERROR)
    );
    assert_eq!(failed_request_outcome(Some(404)), classify_status(404, None));
    assert_eq!(retry_after_seconds(b""), None);
    assert_eq!(retry_after_seconds(b"1 2"), None);
    assert_eq!(retry_after_seconds(b"299"), Some(299));
}

#[test]
fn requests_carry_the_recorded_identity() {
    let mut store = new_store();
    store
        .record_artifact(values(40, b"jpeg bytes"), 40_000)
        .unwrap();
    let mut attempt = claim(&mut store, 40_000);
    let request = prepare_request(&attempt, Some(ArtifactVerification::Verified)).unwrap();
    assert_eq!(request.content_length, "10");
    assert_eq!(
        request.file_name.to_str().unwrap(),
        "frame-1700000000-123-000040.jpg"
    );
    assert_eq!(
        request.idempotency_key.to_str().unwrap(),
        attempt.idempotency_key
    );
    for (verification, error) in [
        (ArtifactVerification::Symlink, SYMLINK_ARTIFACT_ERROR),
        (ArtifactVerification::NotRegularFile, NON_FILE_ARTIFACT_ERROR),
        (
            ArtifactVerification::SizeMismatch {
                expected: 1,
                actual: 2,
            },
            ARTIFACT_SIZE_CHANGED_ERROR,
        ),
    ] {
        assert_eq!(
            prepare_request(&attempt, Some(verification)).unwrap_err(),
            AttemptOutcome::permanent(None, error)
        );
    }
    assert_eq!(
        prepare_request(&attempt, None).unwrap_err(),
        AttemptOutcome::retry(None, None, UNOPENABLE_ARTIFACT_ERROR)
    );
    attempt.filename = "line\nbreak".to_owned();
    assert_eq!(
        prepare_request(&attempt, Some(ArtifactVerification::Verified)).unwrap_err(),
        AttemptOutcome::permanent(None, INVALID_HEADER_ERROR)
    );
}

#[test]
fn bearer_tokens_stay_secret() {
    let authorization = bearer_authorization("contract-secret").unwrap();
    assert_eq!(authorization.as_bytes(), b"Bearer contract-secret");
    assert!(authorization.is_sensitive());
    assert!(!format!("{authorization:?}").contains("contract-secret"));
    assert_eq!(
        bearer_authorization("line\nbreak").unwrap_err(),
        BearerTokenError::Unrepresentable
    );
    assert_eq!(
        checked_bearer_authorization(" padded").unwrap_err(),
        BearerTokenError::EmptyOrPadded
    );
    assert_eq!(
        checked_bearer_authorization("").unwrap_err(),
        BearerTokenError::EmptyOrPadded
    );
    assert!(checked_bearer_authorization("token").is_ok());
}

#[test]
fn an_undatable_retry_fails_for_good() {
    let policy = long_delay();
    let mut store = new_store();
    store.record_artifact(values(50, b"late"), 1).unwrap();
    let attempt = claim(&mut store, 1);
    assert_eq!(
        persist_outcome(&mut store, &attempt, retry(), u64::MAX, &policy),
        Err(UploadError::Store(UploadStoreError::TimestampOutOfRange(
            u64::MAX
        )))
    );
    assert_eq!(RETRY_TIME_ERROR, "retry time cannot be represented safely");
    assert_eq!(
        store.job(attempt.job_id).unwrap().unwrap().state,
        UploadState::InProgress
    );
}

#[test]
fn a_stopping_worker_gives_its_claim_back() {
    let mut store = new_store();
    store.record_artifact(values(51, b"released"), 1).unwrap();
    let attempt = claim(&mut store, 1);
    assert_eq!(release_if_stopping(&mut store, &attempt, false, 2), Ok(false));
    assert_eq!(release_if_stopping(&mut store, &attempt, true, 2), Ok(true));
    assert_eq!(
        store.job(attempt.job_id).unwrap().unwrap().state,
        UploadState::Pending
    );
    assert_eq!(attempt_finished_at(5, None), 5);
    assert_eq!(attempt_finished_at(5, Some(6)), 6);
}

#[test]
fn idle_workers_look_at_the_ledger_again() {
    assert_eq!(wait_until_due(None, 0), 100);
    assert_eq!(wait_until_due(Some(5), 9), 0);
    assert_eq!(wait_until_due(Some(59), 9), 50);
    assert_eq!(wait_until_due(Some(u64::MAX), 0), 100);
    assert_eq!(fnv1a(b""), 0xcbf2_9ce4_8422_2325);
    assert_eq!(fnv1a(b"a"), 0xaf63_dc4c_8601_ec8c);
}

#[test]
fn attempts_are_dated_by_a_usable_clock() {
    assert_eq!(clock_unix_ms(Some(7)), Ok(7));
    assert_eq!(clock_unix_ms(None), Err(UploadError::ClockBeforeUnixEpoch));
    assert_eq!(
        clock_unix_ms(Some(1 << 64)),
        Err(UploadError::ClockOutOfRange)
    );
    assert_eq!(
        enqueue_result(RecordDisposition::AlreadyRecorded, WakeSend::Full),
        UploadEnqueueResult::AlreadyRecorded
    );
    assert_eq!(
        enqueue_result(RecordDisposition::Inserted, WakeSend::Disconnected),
        UploadEnqueueResult::WorkerStopped
    );
}

#[test]
fn a_destination_is_the_endpoint_as_it_is_written() {
    let (uri, destination) = upload_destination("https://upload.example.test").unwrap();
    assert_eq!(destination, "https://upload.example.test/");
    assert_eq!(uri.host(), Some("upload.example.test"));
    let (uri, destination) = upload_destination(TEST_DESTINATION).unwrap();
    assert_eq!(destination, TEST_DESTINATION);
    assert_eq!(uri.path(), "/camera/latest");
    for malformed in ["", "https://upload example.test/", "http://"] {
        assert_eq!(
            upload_destination(malformed).unwrap_err(),
            EndpointError::InvalidUri
        );
    }
}
