use autopiercam::digest::sha256;
use autopiercam::ledger_archive::{
    after_create, archive_extension, archive_upload_ledger, begin_archive, check_checkpoint,
    ensure_archive_ready, partial_archive_path, present_sidecar, retired_extension, sqlite_sidecars,
    unique_partial_path,
    verify_archive, ArchiveAction, ArchiveEvent, ArchiveRun, CaptureEntry, CreateOutcome,
    CreateStep, LedgerArchiveReport, LedgerCopy, Sighting, PARTIAL_ATTEMPTS,
};
use autopiercam::ledger_maintenance::{
    count_jobs, delivery_binding, ensure_expected_id, lease_result, maintenance_marker_path,
    migrate_upload_ledger, migrate_with_identity, parse_expected_ledger_id, verify_v3, verify_migrated, verify_v4,
    JobExtension, LedgerJob, LedgerLeaseError, LedgerMaintenanceError, LedgerMetadata,
    LedgerPathKind, LockOutcome, MaintainedLedger, PartialArchive, StoredCounts, TargetSchema,
    UploadLedgerId, TARGET_SCHEMA_VERSION,
};
use autopiercam::ledger_rows::{
    ledger_content, ledger_content_digest, LedgerRows, SqlValue, METADATA_QUERY,
};
use autopiercam::ledger_schema::{
    v3_schema_object, v3_schema_sql, V3_SCHEMA_OBJECTS, V3_SCHEMA_SIGNATURE, V3_SCHEMA_VERSION,
};
use autopiercam::upload_record::UploadStoreError;
use autopiercam::upload_schema::{normalize_sql, APPLICATION_ID};

const DESTINATION: &str = "https://example.invalid/upload";
const CAPTURE: &str = "/var/lib/autopiercam/captures";
const DATABASE: &str = "/var/lib/autopiercam/autopiercam.upload.sqlite3";
const ID: UploadLedgerId = UploadLedgerId([0x5a; 16]);

fn target() -> TargetSchema {
    TargetSchema {
        signature: "target-signature".to_owned(),
        objects: vec![
            "CREATE TABLE upload_metadata (singleton INTEGER PRIMARY KEY)".to_owned(),
            "CREATE TABLE upload_jobs (id INTEGER PRIMARY KEY)".to_owned(),
        ],
        delivery_binding_domain: b"delivery-binding\0".to_vec(),
    }
}

fn filename(sequence: u64) -> String {
    format!("frame-1700000000-123-{sequence:06}.jpg")
}

fn path(sequence: u64) -> String {
    format!("{CAPTURE}/{}", filename(sequence))
}

fn job(sequence: u64, state: &str) -> LedgerJob {
    LedgerJob {
        id: 1,
        artifact_path: path(sequence),
        filename: filename(sequence),
        idempotency_key: "migration-key".to_owned(),
        file_size: 17,
        sha256: vec![9; 32],
        state: state.to_owned(),
        attempt_count: 1,
        next_attempt_at_ms: None,
        last_http_status: Some(204),
        last_error: None,
        created_at_ms: 10,
        updated_at_ms: 11,
        completed_at_ms: Some(11),
        last_failure_at_ms: None,
        extension: None,
    }
}

fn counts(jobs: &[LedgerJob]) -> StoredCounts {
    let count = |state: &str| jobs.iter().filter(|job| job.state == state).count() as i64;
    StoredCounts {
        pending: count("pending"),
        in_progress: count("in_progress"),
        retrying: count("retrying"),
        completed: count("completed"),
        permanently_failed: count("permanently_failed"),
    }
}

fn v3(jobs: Vec<LedgerJob>) -> MaintainedLedger {
    MaintainedLedger {
        integrity: "ok".to_owned(),
        application_id: APPLICATION_ID,
        version: V3_SCHEMA_VERSION,
        object_count: V3_SCHEMA_OBJECTS as i64,
        objects: (0..V3_SCHEMA_OBJECTS)
            .map(|index| Some(v3_schema_sql(index).to_owned()))
            .collect(),
        configured_root: CAPTURE.to_owned(),
        metadata: LedgerMetadata {
            schema_signature: V3_SCHEMA_SIGNATURE.to_owned(),
            capture_root: CAPTURE.to_owned(),
            destination: DESTINATION.to_owned(),
            authorization: vec![7; 32],
            ledger_id: Vec::new(),
            ledger_revision: 0,
            counts: counts(&jobs),
            last_success_at_ms: Some(11),
            last_failure_at_ms: None,
            last_error: None,
        },
        jobs,
        preactivation: Vec::new(),
    }
}

fn v4(jobs: Vec<LedgerJob>) -> MaintainedLedger {
    migrate_with_identity(DATABASE.to_owned(), v3(jobs), &target(), Ok(ID.0))
        .unwrap()
        .migrated
        .unwrap()
}

fn rows(authorization: u8) -> LedgerRows {
    LedgerRows {
        metadata: vec![vec![SqlValue::Blob(vec![authorization; 32])]],
        jobs: vec![vec![SqlValue::Integer(1), SqlValue::Null]],
        preactivation: Vec::new(),
    }
}

fn entry(sequence: u64, regular: bool) -> CaptureEntry {
    CaptureEntry {
        filename: Some(filename(sequence)),
        path: Some(path(sequence)),
        shown_path: path(sequence),
        regular,
    }
}

fn copy(sequence: u64, authorization: u8) -> LedgerCopy {
    LedgerCopy {
        sighting: Sighting::Regular,
        path: "/archive".to_owned(),
        ledger: v4(vec![job(sequence, "completed")]),
        captures: vec![entry(sequence, true)],
        rows: rows(authorization),
    }
}

fn run() -> ArchiveRun {
    begin_archive(
        ID,
        DATABASE.to_owned(),
        "/archive".to_owned(),
        "/retired".to_owned(),
    )
}

fn inspect(active: bool, archive: bool, retired: bool) -> (ArchiveRun, ArchiveAction) {
    let sighting = |exists: bool| {
        if exists {
            Sighting::Regular
        } else {
            Sighting::Missing
        }
    };
    let mut archiving = run();
    let action = archive_upload_ledger(
        &mut archiving,
        ArchiveEvent::Inspected {
            active: sighting(active),
            archive: sighting(archive),
            retired: sighting(retired),
        },
        &target(),
    );
    (archiving, action)
}

/// Archive an active ledger as far as its being read.
fn archive_active(ledger: MaintainedLedger, captures: Vec<CaptureEntry>) -> ArchiveAction {
    let (mut archiving, action) = inspect(true, false, false);
    assert!(matches!(action, ArchiveAction::ReadActive));
    archive_upload_ledger(
        &mut archiving,
        ArchiveEvent::ActiveRead { ledger, captures },
        &target(),
    )
}

fn checkpointed(sequence: u64, authorization: u8) -> ArchiveEvent {
    ArchiveEvent::Checkpointed {
        busy: false,
        journal_mode: "DELETE".to_owned(),
        sidecar: None,
        ledger: v4(vec![job(sequence, "completed")]),
        captures: vec![entry(sequence, true)],
        rows: rows(authorization),
    }
}

/// Archive a completed ledger whose archive exists or does not, up to the action
/// after its archive was read.
fn archive_to_copy(
    sequence: u64,
    archive_exists: bool,
    archived: u8,
) -> (ArchiveRun, ArchiveAction) {
    let (mut archiving, _) = inspect(true, archive_exists, false);
    let ready = archive_upload_ledger(
        &mut archiving,
        ArchiveEvent::ActiveRead {
            ledger: v4(vec![job(sequence, "completed")]),
            captures: vec![entry(sequence, true)],
        },
        &target(),
    );
    assert!(matches!(ready, ArchiveAction::Checkpoint));
    let action = archive_upload_ledger(&mut archiving, checkpointed(sequence, 7), &target());
    if archive_exists {
        assert!(matches!(action, ArchiveAction::ReadArchive));
    } else {
        assert!(matches!(action, ArchiveAction::BackUp));
    }
    let action = archive_upload_ledger(
        &mut archiving,
        ArchiveEvent::ArchiveRead {
            copy: copy(sequence, archived),
            sha256: sha256(b"archive file"),
        },
        &target(),
    );
    (archiving, action)
}

/// Close and retire the active ledger.
fn retire(mut archiving: ArchiveRun) -> LedgerArchiveReport {
    let action = archive_upload_ledger(
        &mut archiving,
        ArchiveEvent::Closed { sidecar: None },
        &target(),
    );
    assert!(matches!(action, ArchiveAction::RetireActive));
    match archive_upload_ledger(&mut archiving, ArchiveEvent::Retired, &target()) {
        ArchiveAction::Report(report) => report,
        other => panic!("{other:?}"),
    }
}

fn refusal(action: ArchiveAction) -> LedgerMaintenanceError {
    match action {
        ArchiveAction::Refuse(error) => error,
        other => panic!("{other:?}"),
    }
}

#[test]
fn lease_excludes_live_and_offline_owners_without_deleting_marker() {
    let marker = maintenance_marker_path(DATABASE);
    let lease =
        |outcome: LockOutcome, exclusive: bool| lease_result(outcome, exclusive, DATABASE, &marker);
    assert_eq!(lease(LockOutcome::Acquired, false), Ok(()));
    assert_eq!(
        lease(LockOutcome::WouldBlock, true),
        Err(LedgerLeaseError::AgentActive)
    );
    assert_eq!(lease(LockOutcome::Acquired, true), Ok(()));
    assert_eq!(
        lease(LockOutcome::WouldBlock, false),
        Err(LedgerLeaseError::MaintenanceActive {
            database: DATABASE.to_owned()
        })
    );
    assert_eq!(
        lease(LockOutcome::Failed, false),
        Err(LedgerLeaseError::Lock {
            path: marker.clone()
        })
    );
    assert_eq!(
        marker,
        "/var/lib/autopiercam/autopiercam.upload.sqlite3.maintenance.lock"
    );
}

#[test]
fn exact_v3_migration_preserves_rows_and_v4_is_a_verified_noop() {
    let migration = migrate_upload_ledger(
        DATABASE.to_owned(),
        v3(vec![job(1, "completed")]),
        &target(),
    )
    .unwrap();
    assert!(migration.report.migrated);
    assert_eq!(migration.report.ledger_id.len(), 32);
    let migrated = migration.migrated.unwrap();
    assert_eq!(migrated.version, TARGET_SCHEMA_VERSION);
    let row = &migrated.jobs[0];
    assert_eq!(row.id, 1);
    assert_eq!(
        row.extension,
        Some(JobExtension {
            delivery_binding: delivery_binding(
                &target().delivery_binding_domain,
                DESTINATION,
                &vec![7; 32]
            ),
            job_revision: 1,
            requeue_count: 0,
            last_requeued_at_ms: None,
        })
    );
    assert_eq!(row.artifact_path, path(1));
    assert_eq!(row.idempotency_key, "migration-key");
    assert_eq!(migrated.metadata.ledger_revision, 1);

    let second = migrate_upload_ledger(DATABASE.to_owned(), migrated, &target()).unwrap();
    assert!(!second.report.migrated);
    assert!(second.migrated.is_none());
    assert_eq!(second.report.ledger_id, migration.report.ledger_id);
}

#[test]
fn migration_fails_closed_for_other_versions_and_tampered_v3() {
    let mut unsupported = v3(Vec::new());
    unsupported.version = 2;
    unsupported.objects.truncate(target().objects.len());
    assert!(matches!(
        migrate_upload_ledger(DATABASE.to_owned(), unsupported, &target()),
        Err(LedgerMaintenanceError::UnsupportedSchema { found: 2 })
    ));

    let mut tampered = v3(Vec::new());
    let missing = (0..V3_SCHEMA_OBJECTS)
        .find(|&index| v3_schema_object(index).1 == "upload_jobs_no_delete")
        .unwrap();
    tampered.objects[missing] = None;
    tampered.object_count -= 1;
    assert!(matches!(
        migrate_upload_ledger(DATABASE.to_owned(), tampered, &target()),
        Err(LedgerMaintenanceError::InvalidV3Schema)
    ));
}

#[test]
fn each_fault_of_an_old_ledger_is_told_apart() {
    let with = |change: fn(&mut MaintainedLedger)| {
        let mut ledger = v3(vec![job(1, "completed")]);
        change(&mut ledger);
        verify_v3(&ledger)
    };
    assert!(verify_v3(&v3(vec![job(1, "completed")])).is_ok());
    assert!(matches!(
        with(|ledger| ledger.integrity = "row 1 missing".to_owned()),
        Err(LedgerMaintenanceError::Integrity(text)) if text == "row 1 missing"
    ));
    assert!(matches!(
        with(|ledger| ledger.configured_root = "/elsewhere".to_owned()),
        Err(LedgerMaintenanceError::CaptureRootMismatch)
    ));
    for change in [
        (|ledger: &mut MaintainedLedger| ledger.application_id = 0) as fn(&mut MaintainedLedger),
        |ledger| ledger.metadata.schema_signature.push('x'),
        |ledger| ledger.metadata.authorization.push(0),
        |ledger| ledger.metadata.counts.completed = 2,
        |ledger| ledger.object_count = 9,
    ] {
        assert!(matches!(
            with(change),
            Err(LedgerMaintenanceError::InvalidV3Schema)
        ));
    }
}

#[test]
fn each_fault_of_a_current_ledger_is_told_apart() {
    let with = |change: fn(&mut MaintainedLedger)| {
        let mut ledger = v4(vec![job(1, "completed")]);
        change(&mut ledger);
        verify_v4(&ledger, &target())
    };
    assert_eq!(with(|_| {}).unwrap(), ID);
    assert!(matches!(
        with(|ledger| ledger.configured_root = "/elsewhere".to_owned()),
        Err(LedgerMaintenanceError::CaptureRootMismatch)
    ));
    for change in [
        (|ledger: &mut MaintainedLedger| ledger.metadata.ledger_id.push(0))
            as fn(&mut MaintainedLedger),
        |ledger| ledger.metadata.counts.pending = 1,
        |ledger| ledger.objects[0] = Some("CREATE TABLE other (id)".to_owned()),
        |ledger| ledger.object_count += 1,
        |ledger| ledger.metadata.schema_signature.push('x'),
    ] {
        assert!(matches!(
            with(change),
            Err(LedgerMaintenanceError::Store(
                UploadStoreError::InvalidSchema
            ))
        ));
    }
}

#[test]
fn a_missing_object_of_a_current_ledger_is_a_missing_schema() {
    let mut ledger = v4(vec![job(1, "completed")]);
    ledger.objects[0] = None;
    assert!(matches!(
        verify_v4(&ledger, &target()),
        Err(LedgerMaintenanceError::Store(
            UploadStoreError::MissingSchema
        ))
    ));
    // The first object that is wrong decides.
    let mut ledger = v4(vec![job(1, "completed")]);
    ledger.objects[0] = Some("CREATE TABLE other (id)".to_owned());
    let last = ledger.objects.len() - 1;
    ledger.objects[last] = None;
    assert!(matches!(
        verify_v4(&ledger, &target()),
        Err(LedgerMaintenanceError::Store(
            UploadStoreError::InvalidSchema
        ))
    ));
}

#[test]
fn the_capture_directory_is_compared_by_its_components() {
    let mut ledger = v4(vec![job(1, "completed")]);
    ledger.configured_root = format!("{CAPTURE}/");
    assert_eq!(verify_v4(&ledger, &target()).unwrap(), ID);
    ledger.configured_root = format!("{CAPTURE}/nested");
    assert!(matches!(
        verify_v4(&ledger, &target()),
        Err(LedgerMaintenanceError::CaptureRootMismatch)
    ));
}

#[test]
fn a_migration_is_taken_back_unless_it_reads_back() {
    let migrated = v4(vec![job(1, "completed"), job(2, "pending")]);
    let with = |change: fn(&mut MaintainedLedger)| {
        let mut written = v4(vec![job(1, "completed"), job(2, "pending")]);
        change(&mut written);
        verify_migrated(&written, &migrated, &target())
    };
    assert!(with(|_| {}).is_ok());
    for change in [
        (|ledger: &mut MaintainedLedger| ledger.metadata.ledger_id[0] ^= 1)
            as fn(&mut MaintainedLedger),
        |ledger| ledger.metadata.counts.pending = 2,
        |ledger| ledger.jobs[1].extension = None,
        |ledger| {
            if let Some(extension) = &mut ledger.jobs[0].extension {
                extension.delivery_binding[31] ^= 1;
            }
        },
        |ledger| ledger.metadata.schema_signature.push('x'),
    ] {
        assert!(matches!(
            with(change),
            Err(LedgerMaintenanceError::Store(
                UploadStoreError::InvalidSchema
            ))
        ));
    }
    assert!(matches!(
        with(|ledger| ledger.objects[0] = None),
        Err(LedgerMaintenanceError::Store(
            UploadStoreError::MissingSchema
        ))
    ));
    assert!(matches!(
        with(|ledger| ledger.metadata.capture_root.push('x')),
        Err(LedgerMaintenanceError::Store(
            UploadStoreError::CaptureRootMismatch
        ))
    ));
    assert!(matches!(
        with(|ledger| ledger.metadata.destination.push('x')),
        Err(LedgerMaintenanceError::Store(
            UploadStoreError::DestinationMismatch
        ))
    ));
}

#[test]
fn archive_refuses_live_permanent_and_crash_gap_work() {
    assert!(matches!(
        refusal(archive_active(
            v4(vec![job(2, "pending")]),
            vec![entry(2, true)]
        )),
        LedgerMaintenanceError::LiveWork { count: 1 }
    ));
    assert!(matches!(
        refusal(archive_active(
            v4(vec![job(3, "permanently_failed")]),
            vec![entry(3, true)]
        )),
        LedgerMaintenanceError::PermanentFailures { count: 1 }
    ));
    assert!(matches!(
        refusal(archive_active(v4(Vec::new()), vec![entry(4, true)])),
        LedgerMaintenanceError::CrashGap { path: gap } if gap == path(4)
    ));
}

#[test]
fn archive_accepts_retained_preactivation_but_rejects_unsafe_generated_entries() {
    let mut preactivation = v4(Vec::new());
    preactivation.preactivation.push(path(6));
    assert!(matches!(
        archive_active(preactivation, vec![entry(6, true)]),
        ArchiveAction::Checkpoint
    ));

    // A generated name on a directory, a link or a reparse point.
    assert!(matches!(
        refusal(archive_active(v4(Vec::new()), vec![entry(7, false)])),
        LedgerMaintenanceError::UnsafePath { path: found, kind: LedgerPathKind::GeneratedCapture }
            if found == path(7)
    ));

    let mut unnamed = entry(8, true);
    unnamed.filename = Some("unmanaged-target.jpg".to_owned());
    assert!(ensure_archive_ready(&v4(Vec::new()), &vec![unnamed]).is_ok());
    let mut unreadable = entry(9, true);
    unreadable.path = None;
    assert!(matches!(
        ensure_archive_ready(&v4(Vec::new()), &vec![unreadable]),
        Err(LedgerMaintenanceError::CrashGap { .. })
    ));
}

#[test]
fn maintenance_rejects_a_symlink_or_reparse_point_active_database() {
    for (active, archive, retired, kind, found) in [
        (
            Sighting::Unsafe,
            Sighting::Missing,
            Sighting::Missing,
            LedgerPathKind::ActiveLedger,
            DATABASE,
        ),
        (
            Sighting::Regular,
            Sighting::Unsafe,
            Sighting::Missing,
            LedgerPathKind::Archive,
            "/archive",
        ),
        (
            Sighting::Regular,
            Sighting::Missing,
            Sighting::Unsafe,
            LedgerPathKind::RetiredLedger,
            "/retired",
        ),
    ] {
        let action = archive_upload_ledger(
            &mut run(),
            ArchiveEvent::Inspected {
                active,
                archive,
                retired,
            },
            &target(),
        );
        assert!(matches!(
            refusal(action),
            LedgerMaintenanceError::UnsafePath { kind: seen, path }
                if seen == kind && path == found
        ));
    }
}

#[test]
fn archive_resumes_exact_copy_and_fails_closed_on_other_partial_states() {
    let (archiving, action) = archive_to_copy(20, true, 7);
    assert!(matches!(action, ArchiveAction::CloseActive));
    assert_eq!(retire(archiving).retired_path, "/retired");

    let (_, changed) = archive_to_copy(21, true, 8);
    assert!(matches!(
        refusal(changed),
        LedgerMaintenanceError::ActiveChangedAfterArchive
    ));

    for (active, archive, retired, expected) in [
        (false, true, false, PartialArchive::ArchiveAlone),
        (false, false, true, PartialArchive::RetiredWithoutArchive),
        (true, true, true, PartialArchive::ActiveBesideCompleted),
        (false, false, false, PartialArchive::ActiveAbsent),
    ] {
        assert!(matches!(
            refusal(inspect(active, archive, retired).1),
            LedgerMaintenanceError::PartialArchive(found) if found == expected
        ));
    }
}

#[test]
fn archive_is_verified_published_without_replace_and_active_is_retired_last() {
    let mut other = begin_archive(
        UploadLedgerId([0; 16]),
        DATABASE.to_owned(),
        "/archive".to_owned(),
        "/retired".to_owned(),
    );
    archive_upload_ledger(
        &mut other,
        ArchiveEvent::Inspected {
            active: Sighting::Regular,
            archive: Sighting::Missing,
            retired: Sighting::Missing,
        },
        &target(),
    );
    let mismatch = archive_upload_ledger(
        &mut other,
        ArchiveEvent::ActiveRead {
            ledger: v4(vec![job(5, "completed")]),
            captures: vec![entry(5, true)],
        },
        &target(),
    );
    assert!(matches!(
        refusal(mismatch),
        LedgerMaintenanceError::LedgerIdMismatch { .. }
    ));

    let (mut archiving, action) = archive_to_copy(5, false, 7);
    assert!(matches!(action, ArchiveAction::PublishBackup));
    let action = archive_upload_ledger(&mut archiving, ArchiveEvent::Published, &target());
    assert!(matches!(action, ArchiveAction::CloseActive));
    let report = retire(archiving);
    assert_eq!(report.ledger_id, ID.as_hex());
    assert_eq!(report.archive_path, "/archive");
    assert_eq!(
        report.sha256,
        UploadLedgerId(sha256(b"archive file")[..16].try_into().unwrap()).as_hex()
            + &UploadLedgerId(sha256(b"archive file")[16..].try_into().unwrap()).as_hex()
    );

    let (mut repeated, action) = inspect(false, true, true);
    assert!(matches!(action, ArchiveAction::ReadCompleted));
    let action = archive_upload_ledger(
        &mut repeated,
        ArchiveEvent::CompletedRead {
            archive: copy(5, 7),
            retired: copy(5, 7),
            sha256: sha256(b"archive file"),
        },
        &target(),
    );
    match action {
        ArchiveAction::Report(again) => assert_eq!(again, report),
        other => panic!("{other:?}"),
    }
}

#[test]
fn copies_that_differ_are_refused() {
    let (_, differs) = archive_to_copy(5, false, 8);
    assert!(matches!(
        refusal(differs),
        LedgerMaintenanceError::PartialArchive(PartialArchive::BackupDiffers)
    ));
    let (mut repeated, _) = inspect(false, true, true);
    let action = archive_upload_ledger(
        &mut repeated,
        ArchiveEvent::CompletedRead {
            archive: copy(5, 7),
            retired: copy(5, 8),
            sha256: sha256(b"archive file"),
        },
        &target(),
    );
    assert!(matches!(
        refusal(action),
        LedgerMaintenanceError::PartialArchive(PartialArchive::RetiredDiffers)
    ));
    let mut missing = copy(5, 7);
    missing.sighting = Sighting::Missing;
    assert!(matches!(
        verify_archive(&missing, &target()),
        Err(LedgerMaintenanceError::PartialArchive(
            PartialArchive::ArtifactMissing
        ))
    ));
}

#[test]
fn a_checkpoint_leaves_one_file() {
    assert!(check_checkpoint(false, "Delete".to_owned(), None).is_ok());
    assert!(matches!(
        check_checkpoint(true, "delete".to_owned(), None),
        Err(LedgerMaintenanceError::CheckpointBusy)
    ));
    assert!(matches!(
        check_checkpoint(false, "wal".to_owned(), None),
        Err(LedgerMaintenanceError::JournalMode(mode)) if mode == "wal"
    ));
    assert!(matches!(
        check_checkpoint(false, "delete".to_owned(), Some("db-wal".to_owned())),
        Err(LedgerMaintenanceError::SidecarPresent(path)) if path == "db-wal"
    ));
    let (mut archiving, _) = archive_to_copy(5, true, 7);
    let left = archive_upload_ledger(
        &mut archiving,
        ArchiveEvent::Closed {
            sidecar: Some("db-shm".to_owned()),
        },
        &target(),
    );
    assert!(matches!(
        refusal(left),
        LedgerMaintenanceError::SidecarPresent(path) if path == "db-shm"
    ));
}

#[test]
fn sidecars_stand_beside_their_database() {
    assert_eq!(
        sqlite_sidecars("a.db"),
        ("a.db-wal".to_owned(), "a.db-shm".to_owned())
    );
    assert_eq!(present_sidecar("a.db", false, false), None);
    assert_eq!(present_sidecar("a.db", true, true).unwrap(), "a.db-wal");
    assert_eq!(present_sidecar("a.db", false, true).unwrap(), "a.db-shm");
}

#[test]
fn identities_are_written_in_hexadecimal() {
    assert_eq!(ID.as_hex(), "5a".repeat(16));
    assert_eq!(parse_expected_ledger_id(&ID.as_hex()).unwrap(), ID);
    for invalid in ["", "5A5a5a5a5a5a5a5a5a5a5a5a5a5a5a5a", "5a5a"] {
        assert!(matches!(
            parse_expected_ledger_id(invalid),
            Err(LedgerMaintenanceError::InvalidExpectedLedgerId)
        ));
    }
    assert!(ensure_expected_id(ID, ID).is_ok());
    assert!(matches!(
        ensure_expected_id(ID, UploadLedgerId([0; 16])),
        Err(LedgerMaintenanceError::LedgerIdMismatch { expected, .. }) if expected == ID
    ));
    assert_eq!(UploadLedgerId::from_bytes(&vec![0x5a; 16]), Some(ID));
    assert_eq!(UploadLedgerId::from_bytes(&vec![0x5a; 15]), None);
    assert_eq!(
        archive_extension(ID),
        format!("upload.{}.archive.sqlite3", ID.as_hex())
    );
    assert_eq!(
        retired_extension(ID),
        format!("upload.{}.retired.sqlite3", ID.as_hex())
    );
}

#[test]
fn backups_get_fresh_names() {
    assert_eq!(
        partial_archive_path("/archive", &[1, 2, 3, 4, 5, 6, 7, 0xff]),
        "/archive.partial-01020304050607ff"
    );
    assert_ne!(
        unique_partial_path("/archive").unwrap(),
        unique_partial_path("/archive").unwrap()
    );
    assert_eq!(after_create(CreateOutcome::Created, 1), CreateStep::Use);
    assert_eq!(
        after_create(CreateOutcome::Exists, 1),
        CreateStep::TryAnother
    );
    assert_eq!(
        after_create(CreateOutcome::Exists, PARTIAL_ATTEMPTS),
        CreateStep::GiveUp
    );
    assert_eq!(after_create(CreateOutcome::Failed, 1), CreateStep::Fail);
}

#[test]
fn contents_are_digested_value_by_value() {
    let content = ledger_content(&rows(7));
    assert!(content
        .windows(METADATA_QUERY.len())
        .any(|window| window == METADATA_QUERY.as_bytes()));
    assert_eq!(ledger_content_digest(&rows(7)), sha256(&content));
    assert_ne!(
        ledger_content_digest(&rows(7)),
        ledger_content_digest(&rows(8))
    );
    let texts = |first: &str, second: &str| LedgerRows {
        metadata: vec![vec![
            SqlValue::Text(first.as_bytes().to_vec()),
            SqlValue::Text(second.as_bytes().to_vec()),
        ]],
        jobs: Vec::new(),
        preactivation: Vec::new(),
    };
    assert_ne!(
        ledger_content(&texts("ab", "c")),
        ledger_content(&texts("a", "bc"))
    );
}

#[test]
fn jobs_are_counted_by_state() {
    let jobs = vec![job(1, "completed"), job(2, "pending"), job(3, "completed")];
    assert_eq!(count_jobs(&jobs, "completed"), 2);
    assert_eq!(count_jobs(&jobs, "retrying"), 0);
}

#[test]
fn the_old_schema_is_what_the_database_stores() {
    let database = rusqlite::Connection::open_in_memory().unwrap();
    for index in 0..V3_SCHEMA_OBJECTS {
        database.execute_batch(v3_schema_sql(index)).unwrap();
    }
    for index in 0..V3_SCHEMA_OBJECTS {
        let (kind, name) = v3_schema_object(index);
        let stored: String = database
            .query_row(
                "SELECT sql FROM sqlite_schema WHERE type = ?1 AND name = ?2",
                [kind, name],
                |row| row.get(0),
            )
            .unwrap();
        assert_eq!(normalize_sql(&stored), normalize_sql(v3_schema_sql(index)));
    }
}
