use std::cell::RefCell;

use autopiercam::artifact::{idempotency_key, IDEMPOTENCY_PREFIX};
use autopiercam::digest::sha256;
use autopiercam::retention::{RetentionAuthorization, RetentionCandidate};
use autopiercam::sweep::{
    ExactDeleteOutcome, FinalRetentionAuthority, ManagedArtifact, RetentionAuthority,
    RetentionDeletionOutcome, RetentionPlatform,
};
use autopiercam::upload_artifact::{
    verify_claimed_artifact, ArtifactSighting, ArtifactVerification, ClaimedSighting, PathKind,
    RawUploadJob, ReconcileEntry, ReconcileKind, ReconcileResult,
};
use autopiercam::upload_load::{read_ledger, stored_metadata, stored_row, RawMetadata};
use autopiercam::upload_record::{
    current_unix_time_ms, database_u64, job_id_from_database, normalize_destination, optional_database_u16,
    sha256_from_database, unix_ms_to_database, validate_stored_identity,
    UploadAuthorizationFingerprint, UploadJobId, UploadState, UploadStateCounts, UploadStoreError,
};
use autopiercam::upload_schema::{
    canonical_capture_root, check_journal_mode, check_locking_mode, check_synchronous,
    normalize_sql, schema_object, schema_sql, verify_schema, DirectorySighting, LedgerImage,
    StoredLedger, APPLICATION_ID, SCHEMA_OBJECTS, SCHEMA_SIGNATURE, SCHEMA_VERSION,
};
use autopiercam::upload_store::{
    ArtifactValues, RecordArtifactResult, RecordDisposition, UploadStore,
};

const TEST_DESTINATION: &str = "https://example.invalid/autopiercam/upload";
const CAPTURE: &str = "/var/lib/autopiercam/captures";
const ACTIVATION: u64 = 1_699_999_000_000;

/// A database without anything in it.
fn empty_image() -> LedgerImage {
    LedgerImage {
        user_version: 0,
        application_id: 0,
        object_count: 0,
        objects: vec![None; SCHEMA_OBJECTS],
        contents: None,
    }
}

/// What the database of an open ledger holds once its owner has gone.
fn image(store: UploadStore) -> LedgerImage {
    LedgerImage {
        user_version: SCHEMA_VERSION,
        application_id: APPLICATION_ID,
        object_count: SCHEMA_OBJECTS as i64,
        objects: (0..SCHEMA_OBJECTS)
            .map(|index| Some(schema_sql(index).to_owned()))
            .collect(),
        contents: Some(StoredLedger {
            schema_signature: SCHEMA_SIGNATURE.to_owned(),
            store,
        }),
    }
}

fn open_as(
    image: LedgerImage,
    destination: &str,
    authorization: UploadAuthorizationFingerprint,
) -> Result<UploadStore, UploadStoreError> {
    open_beside(image, &vec![], destination, authorization)
}

/// Open the ledger of a capture directory that holds these entries.
fn open_beside(
    image: LedgerImage,
    entries: &Vec<ReconcileEntry>,
    destination: &str,
    authorization: UploadAuthorizationFingerprint,
) -> Result<UploadStore, UploadStoreError> {
    UploadStore::open(
        image,
        entries,
        CAPTURE.to_owned(),
        destination,
        authorization,
        ACTIVATION,
    )
    .map(|opened| opened.store)
}

fn open() -> UploadStore {
    open_as(
        empty_image(),
        TEST_DESTINATION,
        UploadAuthorizationFingerprint::anonymous(),
    )
    .unwrap()
}

fn reopen(store: UploadStore) -> UploadStore {
    open_as(
        image(store),
        TEST_DESTINATION,
        UploadAuthorizationFingerprint::anonymous(),
    )
    .unwrap()
}

fn sighting_of(name: &str, contents: &[u8]) -> ArtifactSighting {
    let path = format!("{CAPTURE}/{name}");
    ArtifactSighting {
        path: path.clone(),
        is_absolute: true,
        is_utf8: true,
        kind: PathKind::File,
        canonical_path: path,
        canonical_is_utf8: true,
        file_name: Some(name.to_owned()),
        opened_is_file: true,
        opened_size: contents.len() as u64,
        contents: contents.to_vec(),
    }
}

fn sighting(sequence: u64, contents: &[u8]) -> ArtifactSighting {
    sighting_of(
        &format!("frame-1700000000-123-{sequence:06}.jpg"),
        contents,
    )
}

fn record(
    store: &mut UploadStore,
    sighting: ArtifactSighting,
    at: u64,
) -> Result<RecordArtifactResult, UploadStoreError> {
    let values = ArtifactValues::read(sighting, CAPTURE)?;
    store.record_artifact(values, at)
}

fn text(value: &str) -> Option<String> {
    Some(value.to_owned())
}

fn opened_file(contents: &[u8]) -> ClaimedSighting {
    ClaimedSighting::Opened {
        is_file: true,
        size: contents.len() as u64,
        contents: contents.to_vec(),
    }
}

#[test]
fn durable_lifecycle_persists_identity_retry_and_terminal_telemetry() {
    let contents = b"durable jpeg bytes";
    let mut store = open();

    let recorded = record(&mut store, sighting(1, contents), 100).unwrap();
    let first = store.claim_due(100).unwrap().unwrap();
    assert_eq!(first.job_id, recorded.job_id);
    assert_eq!(first.file_size, 18);
    assert_eq!(first.sha256, sha256(contents));
    assert_eq!(first.attempt_count, 1);
    assert_eq!(
        verify_claimed_artifact(&first, &opened_file(contents)),
        ArtifactVerification::Verified
    );
    store
        .mark_retrying(&first, 110, 500, Some(503), text("temporary"))
        .unwrap();
    let persisted = store.job(recorded.job_id).unwrap().unwrap();
    assert_eq!(persisted.state, UploadState::Retrying);
    assert_eq!(persisted.next_attempt_at_unix_ms, Some(500));
    assert_eq!(persisted.last_http_status, Some(503));
    assert_eq!(persisted.last_error.as_deref(), Some("temporary"));
    assert!(store.claim_due(499).unwrap().is_none());

    let second = store.claim_due(500).unwrap().unwrap();
    assert_eq!(second.attempt_count, 2);
    assert!(matches!(
        store.mark_completed(&first, 510, 204),
        Err(UploadStoreError::InvalidTransition(id)) if id == recorded.job_id
    ));
    store.mark_completed(&second, 510, 204).unwrap();
    let snapshot = store.snapshot();
    assert_eq!(snapshot.counts.completed, 1);
    assert_eq!(snapshot.counts.total(), 1);
    assert_eq!(snapshot.last_success_at_unix_ms, Some(510));
    assert_eq!(snapshot.last_failure_at_unix_ms, Some(110));
    assert_eq!(snapshot.last_error.as_deref(), Some("temporary"));
    assert_eq!(snapshot.next_due_at_unix_ms, None);

    let duplicate = record(&mut store, sighting(1, contents), 999).unwrap();
    assert_eq!(duplicate.job_id, recorded.job_id);
    assert_eq!(duplicate.disposition, RecordDisposition::AlreadyRecorded);
    assert_eq!(store.snapshot().counts.total(), 1);
}

#[test]
fn destination_is_normalized_bound_and_never_exposed_by_mismatch() {
    let destination = "https://example.invalid/upload?site=pier";
    let anonymous = UploadAuthorizationFingerprint::anonymous();
    let store = open_as(empty_image(), &format!("  {destination}  "), anonymous).unwrap();
    assert_eq!(store.destination, destination);

    let store = open_as(image(store), destination, anonymous).unwrap();
    assert!(matches!(
        open_as(image(store), "https://different.invalid/upload", anonymous),
        Err(UploadStoreError::DestinationMismatch)
    ));
    assert!(matches!(
        open_as(empty_image(), "  ", anonymous),
        Err(UploadStoreError::InvalidDestination)
    ));
}

#[test]
fn anonymous_and_bearer_authorization_identities_cannot_share_live_work() {
    let anonymous = UploadAuthorizationFingerprint::anonymous();
    let mut store = open_as(empty_image(), TEST_DESTINATION, anonymous).unwrap();
    assert_eq!(store.authorization.0.len(), 32);
    assert!(store.authorization == anonymous);
    record(&mut store, sighting(80, b"pending anonymous work"), 80).unwrap();

    let bearer = UploadAuthorizationFingerprint::for_bearer_token("account-a-secret");
    assert!(matches!(
        open_as(image(store), TEST_DESTINATION, bearer),
        Err(UploadStoreError::AuthorizationIdentityMismatch)
    ));
}

#[test]
fn bearer_token_identity_allows_same_token_and_rejects_rotation_with_live_work() {
    let original_token = "same-actual-token-from-either-environment-variable";
    let original = UploadAuthorizationFingerprint::for_bearer_token(original_token);
    let store = open_as(empty_image(), TEST_DESTINATION, original).unwrap();

    // The source environment-variable name is deliberately absent from the
    // identity API, so the same actual token remains equivalent.
    let mut store = open_as(
        image(store),
        TEST_DESTINATION,
        UploadAuthorizationFingerprint::for_bearer_token(original_token),
    )
    .unwrap();
    record(&mut store, sighting(81, b"pending bearer work"), 81).unwrap();
    let stored_text = format!("{store:?}");

    let error = match open_as(
        image(store),
        TEST_DESTINATION,
        UploadAuthorizationFingerprint::for_bearer_token("rotated-account-token"),
    ) {
        Ok(_) => panic!("a changed bearer token reopened the existing upload ledger"),
        Err(error) => error,
    };
    assert!(matches!(
        error,
        UploadStoreError::AuthorizationIdentityMismatch
    ));
    let error_text = format!("{error:?}");
    assert!(!error_text.contains(original_token));
    assert!(!error_text.contains("rotated-account-token"));
    assert!(!stored_text.contains(original_token));
}

#[test]
fn authorization_rotation_rebinds_a_drained_ledger_with_terminal_history() {
    let original = UploadAuthorizationFingerprint::for_bearer_token("original-token");
    let rotated = UploadAuthorizationFingerprint::for_bearer_token("rotated-token");
    let mut store = open_as(empty_image(), TEST_DESTINATION, original).unwrap();
    record(&mut store, sighting(82, b"terminal history"), 82).unwrap();
    let claim = store.claim_due(82).unwrap().unwrap();
    store.mark_completed(&claim, 83, 204).unwrap();
    record(&mut store, sighting(84, b"permanent terminal history"), 84).unwrap();
    let claim = store.claim_due(84).unwrap().unwrap();
    store
        .mark_permanently_failed(&claim, 85, Some(400), text("rejected"))
        .unwrap();

    let reopened = open_as(image(store), TEST_DESTINATION, rotated).unwrap();
    assert_eq!(reopened.snapshot().counts.completed, 1);
    assert_eq!(reopened.snapshot().counts.permanently_failed, 1);
    assert!(reopened.authorization == rotated);
}

#[test]
fn authorization_rotation_rejects_every_nonterminal_state_before_recovery() {
    for state in ["pending", "in_progress", "retrying"] {
        let original = UploadAuthorizationFingerprint::for_bearer_token("original-token");
        let mut store = open_as(empty_image(), TEST_DESTINATION, original).unwrap();
        record(&mut store, sighting(83, state.as_bytes()), 83).unwrap();
        if state != "pending" {
            let claim = store.claim_due(83).unwrap().unwrap();
            if state == "retrying" {
                store
                    .mark_retrying(&claim, 84, 1_000, Some(503), text("outage"))
                    .unwrap();
            }
        }

        assert!(matches!(
            open_as(
                image(store),
                TEST_DESTINATION,
                UploadAuthorizationFingerprint::for_bearer_token("rotated-token"),
            ),
            Err(UploadStoreError::AuthorizationIdentityMismatch)
        ));
    }
}

#[test]
fn reopen_recovers_in_progress_and_preserves_attempt_and_key() {
    let mut store = open();
    record(&mut store, sighting(2, b"recover"), 200).unwrap();
    let stale = store.claim_due(200).unwrap().unwrap();
    let mut reopened = reopen(store);
    let found = reopened.job(stale.job_id).unwrap().unwrap();
    assert_eq!(found.state, UploadState::Pending);
    assert_eq!(found.attempt_count, 1);
    let recovered = reopened.claim_due(200).unwrap().unwrap();
    assert_eq!(recovered.attempt_count, 2);
    assert_eq!(recovered.idempotency_key, stale.idempotency_key);
}

fn entry(name: &str, is_regular_file: bool) -> ReconcileEntry {
    ReconcileEntry {
        path: format!("{CAPTURE}/{name}"),
        path_is_utf8: true,
        file_name: Some(name.to_owned()),
        kind: if is_regular_file {
            ReconcileKind::RegularFile
        } else {
            ReconcileKind::Other
        },
    }
}

/// Scan the directory, then record each artifact that the ledger does not know.
fn reconcile(
    store: &mut UploadStore,
    entries: &Vec<ReconcileEntry>,
    at: u64,
) -> Result<ReconcileResult, UploadStoreError> {
    let scan = store.scan_capture_directory(entries, at)?;
    let readings = scan
        .paths
        .iter()
        .map(|path| {
            let name = path.rsplit('/').next().unwrap();
            ArtifactValues::read(sighting_of(name, name.as_bytes()), CAPTURE)
        })
        .collect();
    store.reconcile_capture_directory(entries, readings, at)
}

#[test]
fn reconciliation_uses_exact_generated_grammar_and_is_idempotent() {
    let future_seconds = ACTIVATION / 1_000 + 60;
    let mut entries = vec![
        entry(&format!("frame-{future_seconds}-001-000001.jpg"), true),
        entry(&format!("frame-{future_seconds}-999-1000000.jpeg"), true),
    ];
    for invalid in [
        "frame-loose.jpg",
        "frame-9999999999-01-000002.jpg",
        "frame-9999999999-001-00002.jpg",
        "frame-9999999999-001-000003.JPG",
        "other-9999999999-001-000004.jpg",
        "frame-9999999999-001-000005.png",
    ] {
        entries.push(entry(invalid, true));
    }
    entries.push(entry("nested", false));

    let mut store = open();
    let first = reconcile(&mut store, &entries, 300).unwrap();
    assert_eq!(first.examined, 9);
    assert_eq!(first.eligible, 2);
    assert_eq!(first.inserted, 2);
    assert_eq!(first.already_recorded, 0);
    let second = reconcile(&mut store, &entries, 400).unwrap();
    assert_eq!(second.eligible, 2);
    assert_eq!(second.inserted, 0);
    assert_eq!(second.already_recorded, 2);
    assert_eq!(store.snapshot().counts.pending, 2);
}

fn name_at(captured_at_ms: u64, sequence: u64) -> String {
    format!(
        "frame-{}-{:03}-{sequence:06}.jpg",
        captured_at_ms / 1_000,
        captured_at_ms % 1_000
    )
}

#[test]
fn activation_skips_history_but_reconciles_later_crash_gap_files() {
    let mut entries = vec![entry(&name_at(ACTIVATION - 60_000, 20), true)];
    let mut store = open();
    let activation = store.activation_at_unix_ms;
    assert_eq!(activation, ACTIVATION);
    let first = reconcile(&mut store, &entries, activation).unwrap();
    assert_eq!(first.eligible, 0);
    assert_eq!(store.snapshot().counts.total(), 0);

    entries.push(entry(&name_at(activation + 1, 22), true));
    entries.push(entry(&name_at(activation, 21), true));
    let mut reopened = reopen(store);
    assert_eq!(reopened.activation_at_unix_ms, activation);
    let reconciled = reconcile(&mut reopened, &entries, activation + 2).unwrap();
    assert_eq!(reconciled.eligible, 2);
    assert_eq!(reconciled.inserted, 2);
    let first_claim = reopened.claim_due(activation + 2).unwrap().unwrap();
    assert_eq!(
        reopened
            .job(first_claim.job_id)
            .unwrap()
            .unwrap()
            .artifact_path,
        format!("{CAPTURE}/{}", name_at(activation, 21))
    );
}

#[test]
fn reconciliation_skips_a_known_replaced_path_before_file_inspection() {
    let mut store = open();
    let activation = store.activation_at_unix_ms;
    let name = name_at(activation + 1, 23);
    record(
        &mut store,
        sighting_of(&name, b"recorded bytes"),
        activation + 1,
    )
    .unwrap();

    let result = reconcile(&mut store, &vec![entry(&name, false)], activation + 2).unwrap();
    assert_eq!(result.eligible, 1);
    assert_eq!(result.inserted, 0);
    assert_eq!(result.already_recorded, 1);
}

#[test]
fn a_capture_that_no_job_stands_for_keeps_the_authorization() {
    let first = UploadAuthorizationFingerprint::for_bearer_token("first");
    let second = UploadAuthorizationFingerprint::for_bearer_token("second");
    let mut store = open_as(empty_image(), TEST_DESTINATION, first).unwrap();
    let gap = vec![entry(&name_at(ACTIVATION + 1, 30), true)];
    assert_eq!(
        open_beside(image(store), &gap, TEST_DESTINATION, second).unwrap_err(),
        UploadStoreError::AuthorizationIdentityMismatch
    );

    store = open_as(empty_image(), TEST_DESTINATION, first).unwrap();
    assert_eq!(
        store.rotate_authorization_if_drained(&gap, second),
        Err(UploadStoreError::AuthorizationIdentityMismatch)
    );
    assert_eq!(store.authorization, first);
    assert_eq!(store.rotate_authorization_if_drained(&gap, first), Ok(()));

    let unreadable = vec![ReconcileEntry {
        kind: ReconcileKind::Unreadable("denied".to_owned()),
        ..entry(&name_at(ACTIVATION + 1, 30), true)
    }];
    assert_eq!(
        store.rotate_authorization_if_drained(&unreadable, second),
        Err(UploadStoreError::AuthorizationIdentityMismatch)
    );

    let harmless = vec![
        entry(&name_at(ACTIVATION - 1, 31), true),
        entry(&name_at(ACTIVATION + 1, 32), false),
        entry("notes.txt", true),
    ];
    let mut rotated = open_beside(image(store), &harmless, TEST_DESTINATION, second).unwrap();
    assert_eq!(rotated.authorization, second);

    reconcile(&mut rotated, &gap, ACTIVATION + 2).unwrap();
    let claim = rotated.claim_due(ACTIVATION + 2).unwrap().unwrap();
    assert_eq!(
        rotated.rotate_authorization_if_drained(&gap, first),
        Err(UploadStoreError::AuthorizationIdentityMismatch)
    );
    rotated.mark_completed(&claim, ACTIVATION + 3, 204).unwrap();
    assert_eq!(rotated.rotate_authorization_if_drained(&gap, first), Ok(()));
    assert_eq!(rotated.authorization, first);
    assert_eq!(rotated.claim_due(u64::MAX >> 1).unwrap(), None);
}

#[test]
fn reconciling_again_changes_nothing() {
    let entries = vec![
        entry(&name_at(ACTIVATION + 3, 3), true),
        entry(&name_at(ACTIVATION + 1, 1), true),
        entry(&name_at(ACTIVATION + 2, 2), false),
        entry(&name_at(ACTIVATION - 1, 4), true),
    ];
    let mut store = open();
    record(
        &mut store,
        sighting_of(&name_at(ACTIVATION + 3, 3), b"known"),
        ACTIVATION + 4,
    )
    .unwrap();
    let first = reconcile(&mut store, &entries, ACTIVATION + 5).unwrap();
    assert_eq!(
        first,
        ReconcileResult {
            examined: 4,
            eligible: 2,
            inserted: 1,
            already_recorded: 1,
        }
    );
    let counts = store.snapshot().counts;
    let again = reconcile(&mut store, &entries, ACTIVATION + 6).unwrap();
    assert_eq!(
        again,
        ReconcileResult {
            examined: 4,
            eligible: 2,
            inserted: 0,
            already_recorded: 2,
        }
    );
    assert_eq!(store.snapshot().counts, counts);
}

#[test]
fn a_reconciliation_stops_at_the_first_artifact_that_fails() {
    let names = [1, 2, 3].map(|sequence| name_at(ACTIVATION + sequence, sequence));
    let entries: Vec<ReconcileEntry> = names.iter().map(|name| entry(name, true)).collect();
    let mut store = open();
    let unread = || UploadStoreError::Io {
        operation: "open finalized artifact",
        path: format!("{CAPTURE}/{}", names[1]),
        source: "denied".to_owned(),
    };
    let readings = vec![
        ArtifactValues::read(sighting_of(&names[0], b"first"), CAPTURE),
        Err(unread()),
        ArtifactValues::read(sighting_of(&names[2], b"third"), CAPTURE),
    ];
    assert_eq!(
        store
            .reconcile_capture_directory(&entries, readings, ACTIVATION + 9)
            .unwrap_err(),
        unread()
    );
    assert_eq!(store.snapshot().counts.pending, 1);
    assert_eq!(store.jobs[0].filename, names[0]);

    let mut large = sighting_of(&names[1], b"second");
    large.opened_size = u64::MAX;
    let readings = vec![
        ArtifactValues::read(large, CAPTURE),
        ArtifactValues::read(sighting_of(&names[2], b"third"), CAPTURE),
    ];
    assert_eq!(
        store
            .reconcile_capture_directory(&entries, readings, ACTIVATION + 9)
            .unwrap_err(),
        UploadStoreError::ArtifactSizeOutOfRange(u64::MAX)
    );
    assert_eq!(store.snapshot().counts.pending, 1);
}

#[test]
fn unreadable_paths_and_late_times_stop_a_reconciliation() {
    let mut store = open();
    let mut unreadable = entry(&name_at(ACTIVATION, 1), true);
    unreadable.path_is_utf8 = false;
    let path = unreadable.path.clone();
    assert_eq!(
        store
            .scan_capture_directory(&vec![unreadable], 1)
            .unwrap_err(),
        UploadStoreError::ArtifactPathNotUtf8(path)
    );
    let uninspected = ReconcileEntry {
        kind: ReconcileKind::Unreadable("denied".to_owned()),
        ..entry(&name_at(ACTIVATION, 1), true)
    };
    let path = uninspected.path.clone();
    assert_eq!(
        reconcile(&mut store, &vec![uninspected], 1).unwrap_err(),
        UploadStoreError::Io {
            operation: "inspect capture artifact",
            path,
            source: "denied".to_owned(),
        }
    );
    assert_eq!(
        reconcile(&mut store, &Vec::new(), u64::MAX).unwrap_err(),
        UploadStoreError::TimestampOutOfRange(u64::MAX)
    );
    let mut full = ReconcileResult {
        examined: 0,
        eligible: 0,
        inserted: u64::MAX,
        already_recorded: 0,
    };
    assert_eq!(
        full.count(RecordDisposition::Inserted),
        Err(UploadStoreError::ReconcileCountOverflow)
    );
}

#[test]
fn artifacts_are_root_bound_and_changed_bytes_fail_verification() {
    let mut store = open();
    let mut outside = sighting_of("frame-1700000000-001-000010.jpg", b"outside");
    outside.canonical_path = "/elsewhere/frame-1700000000-001-000010.jpg".to_owned();
    assert!(matches!(
        record(&mut store, outside, 1),
        Err(UploadStoreError::ArtifactOutsideCaptureRoot(_))
    ));
    record(&mut store, sighting(11, b"same-size-a"), 1).unwrap();
    let claim = store.claim_due(1).unwrap().unwrap();
    assert_eq!(
        verify_claimed_artifact(&claim, &opened_file(b"same-size-b")),
        ArtifactVerification::Sha256Mismatch {
            expected: sha256(b"same-size-a"),
            actual: sha256(b"same-size-b"),
        }
    );
    assert!(matches!(
        verify_claimed_artifact(&claim, &opened_file(b"different-size")),
        ArtifactVerification::SizeMismatch {
            expected: 11,
            actual: 14
        }
    ));
    for (sighting, expected) in [
        (ClaimedSighting::Missing, ArtifactVerification::Missing),
        (ClaimedSighting::Symlink, ArtifactVerification::Symlink),
        (
            ClaimedSighting::NotRegularFile,
            ArtifactVerification::NotRegularFile,
        ),
    ] {
        assert_eq!(verify_claimed_artifact(&claim, &sighting), expected);
    }
}

#[test]
fn every_unfit_artifact_is_refused() {
    let fit = || sighting(90, b"fit");
    let path = fit().path;
    let refusal = |unfit: ArtifactSighting| ArtifactValues::read(unfit, CAPTURE).unwrap_err();

    let mut unfit = fit();
    unfit.is_absolute = false;
    assert_eq!(
        refusal(unfit),
        UploadStoreError::ArtifactPathNotAbsolute(path.clone())
    );
    let mut unfit = fit();
    unfit.is_utf8 = false;
    assert_eq!(
        refusal(unfit),
        UploadStoreError::ArtifactPathNotUtf8(path.clone())
    );
    let mut unfit = fit();
    unfit.kind = PathKind::Symlink;
    assert_eq!(
        refusal(unfit),
        UploadStoreError::ArtifactIsSymlink(path.clone())
    );
    let mut unfit = fit();
    unfit.kind = PathKind::Other;
    assert_eq!(
        refusal(unfit),
        UploadStoreError::ArtifactNotRegularFile(path.clone())
    );
    let mut unfit = fit();
    unfit.opened_is_file = false;
    assert_eq!(
        refusal(unfit),
        UploadStoreError::ArtifactNotRegularFile(path.clone())
    );
    let mut unfit = fit();
    unfit.file_name = None;
    assert_eq!(
        refusal(unfit),
        UploadStoreError::InvalidArtifactFilename(path)
    );
}

#[test]
fn aggregate_snapshot_tracks_every_transition_and_release_fencing() {
    let mut store = open();

    record(&mut store, sighting(30, b"completed"), 10).unwrap();
    let completed = store.claim_due(10).unwrap().unwrap();
    store.mark_completed(&completed, 11, 204).unwrap();

    record(&mut store, sighting(31, b"permanent"), 20).unwrap();
    let permanent = store.claim_due(20).unwrap().unwrap();
    store
        .mark_permanently_failed(&permanent, 21, Some(400), text("permanent"))
        .unwrap();

    record(&mut store, sighting(32, b"retrying"), 30).unwrap();
    let retrying = store.claim_due(30).unwrap().unwrap();
    store
        .mark_retrying(&retrying, 31, 300, Some(503), text("retry"))
        .unwrap();

    record(&mut store, sighting(33, b"active"), 40).unwrap();
    let active = store.claim_due(40).unwrap().unwrap();
    record(&mut store, sighting(34, b"pending"), 50).unwrap();

    let snapshot = store.snapshot();
    assert_eq!(
        snapshot.counts,
        UploadStateCounts {
            pending: 1,
            in_progress: 1,
            retrying: 1,
            completed: 1,
            permanently_failed: 1,
        }
    );
    assert_eq!(snapshot.last_success_at_unix_ms, Some(11));
    assert_eq!(snapshot.last_failure_at_unix_ms, Some(31));
    assert_eq!(snapshot.last_error.as_deref(), Some("retry"));
    assert_eq!(snapshot.next_due_at_unix_ms, Some(50));

    store.release_claim(&active, 60).unwrap();
    let released = store.snapshot();
    assert_eq!(released.counts.pending, 2);
    assert_eq!(released.counts.in_progress, 0);
    assert!(matches!(
        store.release_claim(&active, 61),
        Err(UploadStoreError::InvalidTransition(id)) if id == active.job_id
    ));
    let reclaimed = store.claim_due(60).unwrap().unwrap();
    assert_eq!(reclaimed.job_id, active.job_id);
    assert_eq!(reclaimed.attempt_count, active.attempt_count + 1);
    assert!(matches!(
        store.mark_completed(&active, 62, 204),
        Err(UploadStoreError::InvalidTransition(id)) if id == active.job_id
    ));
}

#[test]
fn idempotency_identity_uses_digest_and_filename() {
    let mut first_store = open();
    let first_id = record(&mut first_store, sighting(40, b"first bytes"), 1)
        .unwrap()
        .job_id;
    let second_name_id = record(&mut first_store, sighting(41, b"first bytes"), 1)
        .unwrap()
        .job_id;
    let first = first_store.job(first_id).unwrap().unwrap();
    let second_name = first_store.job(second_name_id).unwrap().unwrap();
    assert_ne!(first.idempotency_key, second_name.idempotency_key);
    assert_eq!(
        first.idempotency_key,
        idempotency_key(&first.filename, &first.sha256)
    );

    let mut second_store = open();
    let second_id = record(&mut second_store, sighting(40, b"different bytes"), 1)
        .unwrap()
        .job_id;
    let second = second_store.job(second_id).unwrap().unwrap();
    assert_eq!(first.filename, second.filename);
    assert_ne!(first.sha256, second.sha256);
    assert_ne!(first.idempotency_key, second.idempotency_key);
    assert!(first.idempotency_key.starts_with(IDEMPOTENCY_PREFIX));
    assert!(first.idempotency_key.ends_with(&first.filename));
}

#[test]
fn empty_unsupported_partial_tampered_and_wrong_root_schemas_are_handled() {
    let anonymous = UploadAuthorizationFingerprint::anonymous();
    assert!(open_as(empty_image(), TEST_DESTINATION, anonymous).is_ok());

    let mut partial = empty_image();
    partial.object_count = 1;
    assert!(matches!(
        open_as(partial, TEST_DESTINATION, anonymous),
        Err(UploadStoreError::MissingSchema)
    ));

    let mut future = empty_image();
    future.user_version = 99;
    assert!(matches!(
        open_as(future, TEST_DESTINATION, anonymous),
        Err(UploadStoreError::UnsupportedSchema { found: 99, .. })
    ));

    let mut unbound = empty_image();
    unbound.user_version = 1;
    assert!(matches!(
        open_as(unbound, TEST_DESTINATION, anonymous),
        Err(UploadStoreError::UnsupportedSchema {
            found: 1,
            supported: SCHEMA_VERSION,
        })
    ));

    let mut tampered = image(open());
    tampered.contents.as_mut().unwrap().schema_signature = "tampered".to_owned();
    assert!(matches!(
        open_as(tampered, TEST_DESTINATION, anonymous),
        Err(UploadStoreError::InvalidSchema)
    ));

    assert!(matches!(
        UploadStore::open(
            image(open()),
            &vec![],
            "/var/lib/autopiercam/other-captures".to_owned(),
            TEST_DESTINATION,
            anonymous,
            ACTIVATION,
        ),
        Err(UploadStoreError::CaptureRootMismatch)
    ));
}

#[test]
fn schema_objects_are_compared_without_their_spacing() {
    let mut spaced = image(open());
    spaced.objects[1] = Some(format!("  {}\n\n", schema_sql(1)));
    assert_eq!(verify_schema(&spaced, CAPTURE, TEST_DESTINATION), Ok(()));

    let mut changed = image(open());
    changed.objects[4] = Some(schema_sql(3).to_owned());
    assert_eq!(
        verify_schema(&changed, CAPTURE, TEST_DESTINATION),
        Err(UploadStoreError::InvalidSchema)
    );
    let mut missing = image(open());
    missing.objects[6] = None;
    assert_eq!(
        verify_schema(&missing, CAPTURE, TEST_DESTINATION),
        Err(UploadStoreError::MissingSchema)
    );
    let mut foreign = image(open());
    foreign.application_id = 1;
    assert_eq!(
        verify_schema(&foreign, CAPTURE, TEST_DESTINATION),
        Err(UploadStoreError::InvalidSchema)
    );
    let mut hollow = image(open());
    hollow.contents = None;
    assert_eq!(
        verify_schema(&hollow, CAPTURE, TEST_DESTINATION),
        Err(UploadStoreError::ConstraintViolation)
    );
    let words: String = normalize_sql(" CREATE\n TABLE  t ").into_iter().collect();
    assert_eq!(words, "CREATE TABLE t");
    assert_eq!(schema_object(2), ("index", "upload_jobs_due"));
}

#[test]
fn the_stated_schema_is_what_the_database_stores() {
    let database = rusqlite::Connection::open_in_memory().unwrap();
    for index in 0..SCHEMA_OBJECTS {
        database.execute_batch(schema_sql(index)).unwrap();
    }
    for index in 0..SCHEMA_OBJECTS {
        let (kind, name) = schema_object(index);
        let stored: String = database
            .query_row(
                "SELECT sql FROM sqlite_schema WHERE type = ?1 AND name = ?2",
                [kind, name],
                |row| row.get(0),
            )
            .unwrap();
        assert_eq!(normalize_sql(&stored), normalize_sql(schema_sql(index)));
    }
}

#[test]
fn overflow_and_invalid_names_are_rejected() {
    let mut store = open();
    assert!(matches!(
        record(
            &mut store,
            sighting_of("frame-not-generated.jpg", b"bad name"),
            1
        ),
        Err(UploadStoreError::InvalidArtifactFilename(_))
    ));
    assert!(matches!(
        record(&mut store, sighting(12, b"valid"), (i64::MAX as u64) + 1),
        Err(UploadStoreError::TimestampOutOfRange(_))
    ));
}

#[test]
fn impossible_rows_are_refused() {
    let mut store = open();
    let recorded = record(&mut store, sighting(13, b"bounds"), 1).unwrap();
    let claim = store.claim_due(1).unwrap().unwrap();
    assert_eq!(
        store.mark_completed(&claim, 2, 99),
        Err(UploadStoreError::ConstraintViolation)
    );
    assert_eq!(
        store.mark_retrying(&claim, 2, u64::MAX, None, None),
        Err(UploadStoreError::TimestampOutOfRange(u64::MAX))
    );
    assert_eq!(
        store.job(recorded.job_id).unwrap().unwrap().state,
        UploadState::InProgress
    );

    let mut large = sighting(14, b"large");
    large.opened_size = u64::MAX;
    assert_eq!(
        record(&mut store, large, 1),
        Err(UploadStoreError::ArtifactSizeOutOfRange(u64::MAX))
    );
    assert_eq!(store.job(UploadJobId(9)), Ok(None));
    store.jobs[0].attempt_count = i64::MAX as u64;
    store.jobs[0].state = UploadState::Pending;
    store.counts.pending = 1;
    store.counts.in_progress = 0;
    assert_eq!(
        store.claim_due(1).unwrap_err(),
        UploadStoreError::AttemptCountOverflow(recorded.job_id)
    );
}

fn raw(sequence: u64) -> RawUploadJob {
    let filename = format!("frame-1700000000-123-{sequence:06}.jpg");
    let digest = sha256(b"raw");
    RawUploadJob {
        id: 1,
        artifact_path: format!("{CAPTURE}/{filename}"),
        idempotency_key: idempotency_key(&filename, &digest),
        filename,
        file_size: 3,
        sha256: digest.to_vec(),
        state: "retrying".to_owned(),
        attempt_count: 2,
        next_attempt_at_ms: Some(9),
        last_http_status: Some(503),
        last_error: Some("outage".to_owned()),
        created_at_ms: 1,
        updated_at_ms: 8,
        completed_at_ms: None,
        last_failure_at_ms: Some(8),
    }
}

#[test]
fn stored_rows_read_back_or_are_reported_as_corrupt() {
    let read = raw(1).into_record(CAPTURE).unwrap();
    assert_eq!(read.state, UploadState::Retrying);
    assert_eq!(read.attempt_count, 2);
    assert_eq!(read.next_attempt_at_unix_ms, Some(9));

    let mut corrupt = raw(1);
    corrupt.idempotency_key.push('x');
    assert_eq!(
        corrupt.into_record(CAPTURE).unwrap_err(),
        UploadStoreError::CorruptArtifactIdentity(UploadJobId(1))
    );
    let mut corrupt = raw(1);
    corrupt.state = "lost".to_owned();
    assert_eq!(
        corrupt.into_record(CAPTURE).unwrap_err(),
        UploadStoreError::CorruptState("lost".to_owned())
    );
    let mut corrupt = raw(1);
    corrupt.file_size = -1;
    assert!(matches!(
        corrupt.into_record(CAPTURE).unwrap_err(),
        UploadStoreError::CorruptInteger { value: -1, .. }
    ));
    let mut corrupt = raw(1);
    corrupt.sha256.pop();
    assert_eq!(
        corrupt.into_record(CAPTURE).unwrap_err(),
        UploadStoreError::CorruptArtifactIdentity(UploadJobId(1))
    );
}

#[test]
fn database_values_are_checked() {
    assert_eq!(unix_ms_to_database(7), Ok(7));
    assert_eq!(
        unix_ms_to_database(u64::MAX),
        Err(UploadStoreError::TimestampOutOfRange(u64::MAX))
    );
    assert_eq!(job_id_from_database(1), Ok(UploadJobId(1)));
    assert!(matches!(
        job_id_from_database(0),
        Err(UploadStoreError::CorruptInteger { value: 0, .. })
    ));
    assert_eq!(database_u64("id", 5), Ok(5));
    assert!(matches!(
        optional_database_u16("last_http_status", Some(70_000)),
        Err(UploadStoreError::CorruptInteger { value: 70_000, .. })
    ));
    assert!(sha256_from_database(UploadJobId(1), vec![0; 31]).is_err());
    assert_eq!(
        normalize_destination("\u{3000}a\tb"),
        Err(UploadStoreError::InvalidDestination)
    );
    assert_eq!(
        normalize_destination("\u{3000}a b\n"),
        Ok("a b".to_owned())
    );
    let digest = sha256(b"raw");
    let name = "frame-1700000000-123-000001.jpg";
    assert!(validate_stored_identity(
        UploadJobId(1),
        &format!("{CAPTURE}/{name}"),
        name,
        &idempotency_key(name, &digest),
        &digest,
        CAPTURE
    )
    .is_ok());
    for elsewhere in [
        format!("{CAPTURE}/nested/{name}"),
        format!("/var/lib/autopiercam/other-captures/{name}"),
        format!("{CAPTURE}/frame-1700000000-123-000002.jpg"),
        name.to_owned(),
    ] {
        assert_eq!(
            validate_stored_identity(
                UploadJobId(1),
                &elsewhere,
                name,
                &idempotency_key(name, &digest),
                &digest,
                CAPTURE
            ),
            Err(UploadStoreError::CorruptArtifactIdentity(UploadJobId(1)))
        );
    }
    assert_eq!(
        UploadState::from_database(UploadState::PermanentlyFailed.database_name().to_owned()),
        Ok(UploadState::PermanentlyFailed)
    );
    let anonymous = UploadAuthorizationFingerprint::anonymous();
    assert!(!anonymous.same(&UploadAuthorizationFingerprint::for_bearer_token("")));
    assert_eq!(
        anonymous.0,
        sha256(b"autopiercam-upload-authorization-identity-v1\0anonymous\0")
    );
}

#[test]
fn stored_ledgers_read_back() {
    let mut store = open();
    record(&mut store, sighting(60, b"completed"), 10).unwrap();
    let claim = store.claim_due(10).unwrap().unwrap();
    store.mark_completed(&claim, 11, 204).unwrap();
    record(&mut store, sighting(61, b"retrying"), 20).unwrap();
    let claim = store.claim_due(20).unwrap().unwrap();
    store
        .mark_retrying(&claim, 21, 90, Some(503), text("outage"))
        .unwrap();
    assert!(store.is_consistent());

    let rows = || store.jobs.iter().map(stored_row).collect::<Vec<_>>();
    let read = read_ledger(stored_metadata(&store), rows()).unwrap();
    assert_eq!(read.jobs, store.jobs);
    assert_eq!(read.snapshot(), store.snapshot());
    assert_eq!(read.authorization, store.authorization);
    assert_eq!(read.destination, store.destination);

    let mut miscounted = stored_metadata(&store);
    miscounted.completed_count = 2;
    let read = read_ledger(miscounted, rows()).unwrap();
    assert_eq!(read.counts.completed, 2);
    let mut negative = stored_metadata(&store);
    negative.activation_at_ms = -1;
    assert_eq!(
        read_ledger(negative, rows()).unwrap_err(),
        UploadStoreError::CorruptInteger {
            column: "activation_at_ms",
            value: -1
        }
    );
    let mut misnumbered = rows();
    misnumbered[1].id = 7;
    let read = read_ledger(stored_metadata(&store), misnumbered).unwrap();
    assert_eq!(read.jobs[1].job_id, UploadJobId(7));
    assert_eq!(read.job(UploadJobId(7)).unwrap().unwrap().filename, store.jobs[1].filename);
    assert_eq!(read.job(UploadJobId(2)).unwrap(), None);
    let mut repeated = rows();
    repeated[1].id = 1;
    assert_eq!(
        read_ledger(stored_metadata(&store), repeated).unwrap_err(),
        UploadStoreError::InvalidSchema
    );
    let mut duplicated = rows();
    duplicated[1].artifact_path = duplicated[0].artifact_path.clone();
    assert_eq!(
        read_ledger(stored_metadata(&store), duplicated).unwrap_err(),
        UploadStoreError::InvalidSchema
    );
    let mut corrupt = rows();
    corrupt[0].attempt_count = -5;
    assert_eq!(
        read_ledger(stored_metadata(&store), corrupt).unwrap_err(),
        UploadStoreError::CorruptInteger {
            column: "attempt_count",
            value: -5
        }
    );
}

/// A ledger with one pending job, changed before it is read.
fn changed_ledger(change: impl FnOnce(&mut RawMetadata, &mut RawUploadJob)) -> UploadStore {
    let mut store = open();
    record(&mut store, sighting(70, b"pending"), 10).unwrap();
    let mut metadata = stored_metadata(&store);
    let mut row = stored_row(&store.jobs[0]);
    change(&mut metadata, &mut row);
    reopen(read_ledger(metadata, vec![row]).unwrap())
}

#[test]
fn job_numbers_follow_the_greatest_one() {
    let mut store = changed_ledger(|_, row| row.id = 41);
    let recorded = record(&mut store, sighting(71, b"next"), 11).unwrap();
    assert_eq!(recorded.job_id, UploadJobId(42));
    assert_eq!(recorded.disposition, RecordDisposition::Inserted);
    let again = record(&mut store, sighting(70, b"pending"), 12).unwrap();
    assert_eq!(again.job_id, UploadJobId(41));
    assert_eq!(store.claim_due(12).unwrap().unwrap().job_id, UploadJobId(41));

    let mut store = changed_ledger(|_, row| row.id = i64::MAX);
    let recorded = record(&mut store, sighting(71, b"next"), 11).unwrap();
    assert!(recorded.job_id.0 > 0 && recorded.job_id.0 < i64::MAX);

    let mut store = changed_ledger(|_, row| row.id = -3);
    assert_eq!(
        record(&mut store, sighting(70, b"pending"), 12).unwrap_err(),
        UploadStoreError::CorruptInteger {
            column: "id",
            value: -3
        }
    );
}

#[test]
fn miscounted_ledgers_open_and_refuse_what_their_counts_cannot_follow() {
    let mut store = changed_ledger(|metadata, _| metadata.pending_count = 0);
    assert_eq!(store.snapshot().counts.pending, 0);
    let before = store.jobs.clone();
    assert_eq!(
        store.claim_due(20).unwrap_err(),
        UploadStoreError::ConstraintViolation
    );
    assert_eq!(store.jobs, before);
    assert_eq!(store.snapshot().counts.pending, 0);

    let mut store = changed_ledger(|metadata, _| metadata.pending_count = 5);
    let claim = store.claim_due(20).unwrap().unwrap();
    assert_eq!(store.snapshot().counts.pending, 4);
    store.mark_completed(&claim, 21, 204).unwrap();
    assert_eq!(store.snapshot().counts.completed, 1);
}

#[test]
fn interrupted_jobs_stay_where_the_counts_cannot_follow() {
    let mut store = open();
    record(&mut store, sighting(72, b"claimed"), 10).unwrap();
    store.claim_due(10).unwrap().unwrap();
    let mut metadata = stored_metadata(&store);
    metadata.in_progress_count = 0;
    let rows = store.jobs.iter().map(stored_row).collect();
    let read = read_ledger(metadata, rows).unwrap();
    assert_eq!(
        open_as(
            image(read),
            TEST_DESTINATION,
            UploadAuthorizationFingerprint::anonymous(),
        )
        .unwrap_err(),
        UploadStoreError::ConstraintViolation
    );
}

#[test]
fn ledgers_are_durable_and_have_one_owner() {
    assert_eq!(check_journal_mode("WAL".to_owned()), Ok(()));
    assert_eq!(
        check_journal_mode("delete".to_owned()),
        Err(UploadStoreError::Configuration {
            name: "journal_mode=WAL",
            actual: "delete".to_owned()
        })
    );
    assert_eq!(check_locking_mode("exclusive".to_owned()), Ok(()));
    assert!(check_locking_mode("normal".to_owned()).is_err());
    assert_eq!(check_synchronous(2), Ok(()));
    assert_eq!(
        check_synchronous(-31),
        Err(UploadStoreError::Configuration {
            name: "synchronous=FULL",
            actual: "-31".to_owned()
        })
    );
    assert_eq!(
        check_synchronous(1),
        Err(UploadStoreError::Configuration {
            name: "synchronous=FULL",
            actual: "1".to_owned()
        })
    );
}

#[test]
fn capture_directories_are_absolute_and_readable() {
    let directory = |is_absolute: bool, canonical_is_utf8: bool| DirectorySighting {
        path: "captures".to_owned(),
        is_absolute,
        canonical_path: CAPTURE.to_owned(),
        canonical_is_utf8,
    };
    assert_eq!(
        canonical_capture_root(directory(true, true)),
        Ok(CAPTURE.to_owned())
    );
    assert_eq!(
        canonical_capture_root(directory(false, true)),
        Err(UploadStoreError::CaptureDirectoryNotAbsolute(
            "captures".to_owned()
        ))
    );
    assert_eq!(
        canonical_capture_root(directory(true, false)),
        Err(UploadStoreError::CaptureDirectoryNotUtf8(CAPTURE.to_owned()))
    );
}

#[test]
fn ledgers_are_dated_within_the_stored_range() {
    assert_eq!(current_unix_time_ms(None), Ok(0));
    assert_eq!(current_unix_time_ms(Some(5)), Ok(5));
    assert_eq!(
        current_unix_time_ms(Some(1 << 63)),
        Err(UploadStoreError::TimestampOutOfRange(1 << 63))
    );
    assert_eq!(
        current_unix_time_ms(Some(u128::MAX)),
        Err(UploadStoreError::TimestampOutOfRange(u64::MAX))
    );
}

/// Deletes whatever it is asked to, and remembers what it was to expect.
struct DeletingPlatform {
    expectations: RefCell<Vec<RetentionAuthorization>>,
}

impl RetentionPlatform for DeletingPlatform {
    fn available_bytes(&self, _directory: &str) -> Result<u64, String> {
        Ok(0)
    }

    fn inventory(&self, _directory: &str) -> Result<Vec<ManagedArtifact>, String> {
        Ok(Vec::new())
    }

    fn delete_exact(
        &self,
        _candidate: &RetentionCandidate,
        expectation: RetentionAuthorization,
    ) -> Result<ExactDeleteOutcome, String> {
        self.expectations.borrow_mut().push(expectation);
        Ok(ExactDeleteOutcome::Deleted)
    }
}

#[test]
fn only_completed_uploads_are_released_to_retention() {
    let mut store = open();
    let mut inventory = Vec::new();
    for sequence in 1..=5_u64 {
        record(&mut store, sighting(sequence, b"frame"), 10).unwrap();
        inventory.push(ManagedArtifact {
            path: store.jobs[sequence as usize - 1].artifact_path.clone(),
            captured_at_unix_ms: 1_700_000_000_123,
            file_size_bytes: 5,
        });
    }
    inventory.push(ManagedArtifact {
        path: format!("{CAPTURE}/frame-1700000000-123-000009.jpg"),
        captured_at_unix_ms: 1_700_000_000_123,
        file_size_bytes: 5,
    });
    let completed = store.claim_due(10).unwrap().unwrap();
    store.mark_completed(&completed, 11, 204).unwrap();
    let failed = store.claim_due(12).unwrap().unwrap();
    store
        .mark_permanently_failed(&failed, 13, Some(400), text("refused"))
        .unwrap();
    let retried = store.claim_due(14).unwrap().unwrap();
    store
        .mark_retrying(&retried, 15, 90, Some(503), text("outage"))
        .unwrap();
    store.claim_due(16).unwrap().unwrap();

    let released = RetentionAuthorization::reclaimable(Some(5), Some(sha256(b"frame")));
    let protected = RetentionAuthorization::protected();
    assert_eq!(
        store.classify_inventory(&inventory),
        Ok(vec![
            released, protected, protected, protected, protected, protected
        ])
    );

    let platform = DeletingPlatform {
        expectations: RefCell::new(Vec::new()),
    };
    let candidate = |index: usize, authorization: RetentionAuthorization| RetentionCandidate {
        path: inventory[index].path.clone(),
        captured_at_unix_ms: inventory[index].captured_at_unix_ms,
        file_size_bytes: inventory[index].file_size_bytes,
        authorization,
    };
    let other_digest = RetentionAuthorization::reclaimable(Some(5), Some(sha256(b"other")));
    for refused in [
        candidate(0, other_digest),
        candidate(0, RetentionAuthorization::reclaimable(Some(5), None)),
        candidate(0, protected),
        candidate(1, released),
        candidate(4, released),
        candidate(5, released),
    ] {
        assert_eq!(
            store.delete_if_still_authorized(&refused, &platform),
            Ok(RetentionDeletionOutcome::Protected)
        );
    }
    assert!(platform.expectations.borrow().is_empty());
    assert_eq!(
        store.delete_if_still_authorized(&candidate(0, released), &platform),
        Ok(RetentionDeletionOutcome::Deleted)
    );
    assert_eq!(*platform.expectations.borrow(), vec![released]);
}
