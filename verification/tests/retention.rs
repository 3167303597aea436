use std::cell::{Cell, RefCell};
use std::sync::atomic::{AtomicBool, Ordering};
use std::sync::mpsc;
use std::sync::Arc;

use autopiercam::artifact::parse_generated_capture_filename;
use autopiercam::digest::sha256;
use autopiercam::retention::{
    plan_retention, quotas_satisfied, CaptureRetentionConfig, RetentionAuthorization,
    RetentionCandidate, RetentionPolicy,
};
use autopiercam::retention_worker::{
    after_sweep, after_wake, check_exact_delete, inventory_capture_directory, suspends_capture,
    wake_result, wants_contents, DeleteStep, DirectoryEntry, EntryKind, OpenedArtifact, OpenedFile,
    RetentionDeleteError, RetentionSink, RetentionStep,
    RetentionWakeResult, WakeEvent, WakeSend, RETENTION_WAKE_CAPACITY,
};
use autopiercam::sweep::{
    clock_unix_ms, relay_deletion, sweep_retention, ExactDeleteOutcome, FinalRetentionAuthority,
    LocalOnlyRetentionAuthority,
    ManagedArtifact, ProtectAllRetentionAuthority, RetentionAuthority, RetentionClock,
    RetentionClockError, RetentionDeletionOutcome, RetentionErrors, RetentionPlatform,
    RetentionPressure,
};

fn candidate(name: &str, captured_at_unix_ms: u64, bytes: u64) -> RetentionCandidate {
    RetentionCandidate {
        path: name.to_owned(),
        captured_at_unix_ms,
        file_size_bytes: bytes,
        authorization: RetentionAuthorization::reclaimable(Some(bytes), None),
    }
}

fn policy() -> RetentionPolicy {
    RetentionPolicy {
        max_age_ms: None,
        max_managed_bytes: None,
        min_free_bytes: None,
        keep_latest: false,
    }
}

#[test]
fn age_rule_removes_only_reclaimable_expired_artifacts() {
    let mut protected = candidate("protected.jpg", 0, 7);
    protected.protect();
    let plan = plan_retention(
        RetentionPolicy {
            max_age_ms: Some(1_000),
            ..policy()
        },
        2_000,
        None,
        vec![
            candidate("old.jpg", 1_000, 5),
            candidate("young.jpg", 1_001, 6),
            protected,
        ],
    );

    assert_eq!(
        plan.deletions
            .iter()
            .map(|candidate| candidate.path.as_str())
            .collect::<Vec<_>>(),
        vec!["old.jpg"]
    );
    assert_eq!(plan.managed_bytes, 18);
    assert_eq!(plan.protected_bytes, 7);
    assert_eq!(plan.reclaimable_bytes, 11);
    assert!(!plan.quota_blocked);
}

#[test]
fn byte_limits_reclaim_oldest_until_both_are_satisfied() {
    let plan = plan_retention(
        RetentionPolicy {
            max_managed_bytes: Some(20),
            min_free_bytes: Some(105),
            ..policy()
        },
        10_000,
        Some(100),
        vec![
            candidate("oldest.jpg", 1, 4),
            candidate("middle.jpg", 2, 6),
            candidate("newest.jpg", 3, 15),
        ],
    );

    assert_eq!(
        plan.deletions
            .iter()
            .map(|candidate| candidate.path.as_str())
            .collect::<Vec<_>>(),
        vec!["oldest.jpg", "middle.jpg"]
    );
    assert_eq!(plan.planned_reclaim_bytes, 10);
    assert_eq!(plan.projected_managed_bytes, 15);
    assert_eq!(plan.projected_free_bytes, Some(110));
    assert!(!plan.quota_blocked);
}

#[test]
fn keep_latest_overrides_age_and_quota_rules() {
    let plan = plan_retention(
        RetentionPolicy {
            max_age_ms: Some(1),
            max_managed_bytes: Some(0),
            keep_latest: true,
            ..policy()
        },
        100,
        None,
        vec![candidate("old.jpg", 1, 3), candidate("latest.jpg", 2, 5)],
    );

    assert_eq!(plan.deletions, vec![candidate("old.jpg", 1, 3)]);
    assert_eq!(plan.protected_bytes, 5);
    assert!(plan.quota_blocked);
}

#[test]
fn protected_bytes_block_quota_without_being_selected() {
    let mut protected = candidate("failed.jpg", 1, 10);
    protected.protect();
    let plan = plan_retention(
        RetentionPolicy {
            max_managed_bytes: Some(5),
            ..policy()
        },
        100,
        None,
        vec![protected],
    );

    assert!(plan.deletions.is_empty());
    assert_eq!(plan.protected_bytes, 10);
    assert!(plan.quota_blocked);
}

#[test]
fn missing_free_space_measurement_fails_minimum_free_quota_closed() {
    let plan = plan_retention(
        RetentionPolicy {
            min_free_bytes: Some(100),
            ..policy()
        },
        100,
        None,
        vec![candidate("frame.jpg", 1, 10)],
    );

    assert!(plan.deletions.is_empty());
    assert!(plan.quota_blocked);
}

#[test]
fn zero_retention_days_disable_age_in_policy_conversion() {
    let config = CaptureRetentionConfig {
        retention_days: 0,
        retention_max_bytes: None,
        retention_min_free_bytes: None,
        keep_latest: true,
    };
    let policy = RetentionPolicy::from_capture_config(&config);

    assert_eq!(policy.max_age_ms, None);
    assert!(!policy.needs_free_space());
    assert!(!policy.is_enabled());
}

#[test]
fn retention_days_count_in_milliseconds() {
    let policy = RetentionPolicy::from_capture_config(&CaptureRetentionConfig {
        retention_days: 3,
        retention_max_bytes: Some(7),
        retention_min_free_bytes: Some(9),
        keep_latest: false,
    });
    assert_eq!(policy.max_age_ms, Some(259_200_000));
    assert!(policy.needs_free_space() && policy.has_byte_quota() && policy.is_enabled());
    assert!(quotas_satisfied(policy, 7, Some(9)));
    assert!(!quotas_satisfied(policy, 8, Some(9)));
    assert!(!quotas_satisfied(policy, 7, Some(8)));
    assert!(!quotas_satisfied(policy, 7, None));
}

fn parse_test_frame_name(filename: &str) -> Option<u64> {
    let stem = filename.strip_suffix(".jpg")?;
    let millis = stem.strip_prefix("frame-")?;
    (!millis.is_empty() && millis.bytes().all(|byte| byte.is_ascii_digit()))
        .then(|| millis.parse().ok())
        .flatten()
}

fn entry(name: &str, kind: EntryKind) -> DirectoryEntry {
    DirectoryEntry {
        path: format!("captures/{name}"),
        file_name: Some(name.to_owned()),
        kind,
    }
}

fn unreadable() -> EntryKind {
    EntryKind::Unreadable {
        operation: "read capture artifact type".to_owned(),
        source: "access denied".to_owned(),
    }
}

#[test]
fn inventory_admits_only_regular_files_accepted_by_exact_parser() {
    let inventory = inventory_capture_directory(
        &vec![
            entry("frame-100.jpg", EntryKind::RegularFile(3)),
            entry("frame-200.jpeg", EntryKind::RegularFile(3)),
            entry("other.jpg", EntryKind::RegularFile(5)),
            entry("frame-300.jpg", EntryKind::Other),
        ],
        parse_test_frame_name,
    )
    .unwrap();

    assert_eq!(inventory.len(), 1);
    assert_eq!(inventory[0].path, "captures/frame-100.jpg");
    assert_eq!(inventory[0].captured_at_unix_ms, 100);
    assert_eq!(inventory[0].file_size_bytes, 3);
}

#[test]
fn inventories_are_sorted_by_path() {
    let inventory = inventory_capture_directory(
        &vec![
            entry("frame-1700000001-000-000001.jpg", EntryKind::RegularFile(1)),
            entry("frame-1700000000-999-000002.jpg", EntryKind::RegularFile(2)),
            entry("frame-1700000000-123-000003.jpg", EntryKind::Vanished),
            entry("frame-1700000000-123-000001.jpg", EntryKind::RegularFile(3)),
        ],
        parse_generated_capture_filename,
    )
    .unwrap();
    assert_eq!(
        inventory
            .iter()
            .map(|artifact| (artifact.captured_at_unix_ms, artifact.file_size_bytes))
            .collect::<Vec<_>>(),
        vec![
            (1_700_000_000_123, 3),
            (1_700_000_000_999, 2),
            (1_700_000_001_000, 1),
        ]
    );
}

#[test]
fn only_unreadable_captures_fail_an_inventory() {
    let nameless = DirectoryEntry {
        path: "captures/?".to_owned(),
        file_name: None,
        kind: unreadable(),
    };
    let unrelated = entry("other.jpg", unreadable());
    assert_eq!(
        inventory_capture_directory(&vec![nameless, unrelated], parse_test_frame_name),
        Ok(vec![])
    );
    assert_eq!(
        inventory_capture_directory(
            &vec![
                entry("frame-100.jpg", EntryKind::RegularFile(3)),
                entry("frame-200.jpg", unreadable()),
            ],
            parse_test_frame_name
        ),
        Err("read capture artifact type failed for captures/frame-200.jpg: access denied".to_owned())
    );
}

struct FixedClock(u64);

impl RetentionClock for FixedClock {
    fn now_unix_ms(&self) -> Result<u64, RetentionClockError> {
        Ok(self.0)
    }
}

struct BrokenClock;

impl RetentionClock for BrokenClock {
    fn now_unix_ms(&self) -> Result<u64, RetentionClockError> {
        Err(RetentionClockError::ClockBeforeUnixEpoch)
    }
}

struct RecordingPlatform {
    free_bytes: u64,
    probes_left: Cell<u32>,
    inventory: Vec<ManagedArtifact>,
    deleted: RefCell<Vec<String>>,
}

impl RecordingPlatform {
    fn new(free_bytes: u64, files: &[(u64, u64)]) -> Self {
        Self {
            free_bytes,
            probes_left: Cell::new(u32::MAX),
            inventory: files
                .iter()
                .map(|(at, bytes)| ManagedArtifact {
                    path: format!("frame-{at}.jpg"),
                    captured_at_unix_ms: *at,
                    file_size_bytes: *bytes,
                })
                .collect(),
            deleted: RefCell::new(Vec::new()),
        }
    }
}

impl RetentionPlatform for RecordingPlatform {
    fn available_bytes(&self, _directory: &str) -> Result<u64, String> {
        if self.probes_left.get() == 0 {
            return Err("injected post-delete probe failure".to_owned());
        }
        self.probes_left.set(self.probes_left.get() - 1);
        Ok(self.free_bytes)
    }

    fn inventory(&self, _directory: &str) -> Result<Vec<ManagedArtifact>, String> {
        Ok(self.inventory.clone())
    }

    fn delete_exact(
        &self,
        candidate: &RetentionCandidate,
        _expectation: RetentionAuthorization,
    ) -> Result<ExactDeleteOutcome, String> {
        self.deleted.borrow_mut().push(candidate.path.clone());
        Ok(ExactDeleteOutcome::Deleted)
    }
}

#[test]
fn sweep_reports_reclaimed_and_protected_bytes() {
    let platform = RecordingPlatform::new(1_000, &[(100, 3), (200, 5)]);
    let telemetry = sweep_retention(
        RetentionPolicy {
            max_age_ms: Some(50),
            ..policy()
        },
        "captures",
        &LocalOnlyRetentionAuthority,
        &platform,
        &FixedClock(175),
    );

    assert_eq!(telemetry.managed_bytes, 5);
    assert_eq!(telemetry.protected_bytes, 0);
    assert_eq!(telemetry.reclaimable_bytes, 5);
    assert_eq!(telemetry.reclaimed_file_count, 1);
    assert_eq!(telemetry.reclaimed_bytes, 3);
    assert!(!telemetry.blocked_pressure);
    assert_eq!(telemetry.pressure, RetentionPressure::Satisfied);
    assert_eq!(*platform.deleted.borrow(), vec!["frame-100.jpg".to_owned()]);
}

#[test]
fn failed_post_delete_free_space_probe_stays_blocked() {
    let platform = RecordingPlatform::new(8, &[(100, 3)]);
    platform.probes_left.set(1);
    let telemetry = sweep_retention(
        RetentionPolicy {
            min_free_bytes: Some(10),
            ..policy()
        },
        "captures",
        &LocalOnlyRetentionAuthority,
        &platform,
        &FixedClock(175),
    );

    assert_eq!(telemetry.reclaimed_file_count, 1);
    assert_eq!(telemetry.free_bytes, None);
    assert!(telemetry.blocked_pressure);
    assert_eq!(telemetry.pressure, RetentionPressure::Blocked);
    assert!(telemetry
        .error
        .as_deref()
        .is_some_and(|error| error.contains("post-delete probe failure")));
}

#[test]
fn a_sweep_without_a_clock_fails_closed() {
    let platform = RecordingPlatform::new(8, &[(100, 3)]);
    let telemetry = sweep_retention(
        RetentionPolicy {
            min_free_bytes: Some(10),
            ..policy()
        },
        "captures",
        &LocalOnlyRetentionAuthority,
        &platform,
        &BrokenClock,
    );
    assert!(telemetry.blocked_pressure);
    assert!(telemetry.error.is_some());
    assert!(platform.deleted.borrow().is_empty());
}

#[test]
fn retention_errors_are_bounded_and_report_omissions() {
    let mut errors = RetentionErrors::new();
    for index in 0..20 {
        errors.push(format!("error {index}: {}", "x".repeat(4_096)));
    }
    let error = errors.finish().unwrap();

    assert!(error.len() < 10_000);
    assert!(error.contains("12 additional retention error(s) omitted"));
    assert!(error.contains('…'));
}

struct ProtectNewestAuthority;

impl RetentionAuthority for ProtectNewestAuthority {
    fn classify_inventory(
        &self,
        inventory: &Vec<ManagedArtifact>,
    ) -> Result<Vec<RetentionAuthorization>, String> {
        Ok(inventory
            .iter()
            .map(|artifact| {
                if artifact.captured_at_unix_ms == 200 {
                    RetentionAuthorization::protected()
                } else {
                    RetentionAuthorization::reclaimable(Some(artifact.file_size_bytes), None)
                }
            })
            .collect())
    }
}

impl<P: RetentionPlatform> FinalRetentionAuthority<P> for ProtectNewestAuthority {
    fn delete_if_still_authorized(
        &self,
        candidate: &RetentionCandidate,
        platform: &P,
    ) -> Result<RetentionDeletionOutcome, String> {
        LocalOnlyRetentionAuthority.delete_if_still_authorized(candidate, platform)
    }
}

#[test]
fn authority_protection_can_make_byte_pressure_blocked() {
    let platform = RecordingPlatform::new(1_000, &[(100, 3), (200, 9)]);
    let telemetry = sweep_retention(
        RetentionPolicy {
            max_managed_bytes: Some(5),
            ..policy()
        },
        "captures",
        &ProtectNewestAuthority,
        &platform,
        &FixedClock(300),
    );

    assert_eq!(telemetry.managed_bytes, 9);
    assert_eq!(telemetry.protected_bytes, 9);
    assert_eq!(telemetry.reclaimable_bytes, 0);
    assert_eq!(telemetry.reclaimed_file_count, 1);
    assert!(telemetry.blocked_pressure);
    assert_eq!(telemetry.pressure, RetentionPressure::Blocked);
}

#[test]
fn protect_all_authority_never_deletes_prior_ledger_artifacts() {
    let platform = RecordingPlatform::new(1_000, &[(100, 8)]);
    let telemetry = sweep_retention(
        RetentionPolicy {
            max_managed_bytes: Some(0),
            ..policy()
        },
        "captures",
        &ProtectAllRetentionAuthority,
        &platform,
        &FixedClock(300),
    );

    assert_eq!(telemetry.managed_bytes, 8);
    assert_eq!(telemetry.protected_bytes, 8);
    assert_eq!(telemetry.reclaimable_bytes, 0);
    assert_eq!(telemetry.reclaimed_file_count, 0);
    assert!(telemetry.blocked_pressure);
    assert!(platform.deleted.borrow().is_empty());
}

struct RevokeAtDeletionAuthority;

impl RetentionAuthority for RevokeAtDeletionAuthority {
    fn classify_inventory(
        &self,
        inventory: &Vec<ManagedArtifact>,
    ) -> Result<Vec<RetentionAuthorization>, String> {
        Ok(inventory
            .iter()
            .map(|artifact| {
                RetentionAuthorization::reclaimable(Some(artifact.file_size_bytes), None)
            })
            .collect())
    }
}

impl<P: RetentionPlatform> FinalRetentionAuthority<P> for RevokeAtDeletionAuthority {
    fn delete_if_still_authorized(
        &self,
        _candidate: &RetentionCandidate,
        _platform: &P,
    ) -> Result<RetentionDeletionOutcome, String> {
        Ok(RetentionDeletionOutcome::Protected)
    }
}

#[test]
fn final_recheck_can_protect_a_planned_deletion() {
    let platform = RecordingPlatform::new(1_000, &[(100, 4)]);
    let telemetry = sweep_retention(
        RetentionPolicy {
            max_managed_bytes: Some(0),
            ..policy()
        },
        "captures",
        &RevokeAtDeletionAuthority,
        &platform,
        &FixedClock(300),
    );

    assert_eq!(telemetry.managed_bytes, 4);
    assert_eq!(telemetry.protected_bytes, 4);
    assert_eq!(telemetry.reclaimable_bytes, 0);
    assert_eq!(telemetry.reclaimed_file_count, 0);
    assert!(telemetry.blocked_pressure);
    assert!(platform.deleted.borrow().is_empty());
}

#[test]
fn wake_queue_is_bounded_and_coalesces() {
    let (wake_sender, wake_receiver) = mpsc::sync_channel(RETENTION_WAKE_CAPACITY);
    let stop = Arc::new(AtomicBool::new(false));
    let sink = RetentionSink {
        wake_sender,
        stop: Arc::clone(&stop),
        capture_suspended: Arc::new(AtomicBool::new(false)),
    };

    assert_eq!(sink.try_wake(), RetentionWakeResult::Queued);
    assert_eq!(sink.try_wake(), RetentionWakeResult::Coalesced);
    assert_eq!(wake_receiver.try_recv(), Ok(()));
    drop(wake_receiver);
    assert_eq!(sink.try_wake(), RetentionWakeResult::Stopped);
    assert!(stop.load(Ordering::Acquire));
}

fn worker_sink(blocked: bool) -> (RetentionSink, mpsc::Receiver<()>) {
    let (wake_sender, wake_receiver) = mpsc::sync_channel(RETENTION_WAKE_CAPACITY);
    let sink = RetentionSink {
        wake_sender,
        stop: Arc::new(AtomicBool::new(false)),
        capture_suspended: Arc::new(AtomicBool::new(blocked)),
    };
    (sink, wake_receiver)
}

#[test]
fn worker_publishes_initial_sweep_and_stops_cleanly() {
    let platform = RecordingPlatform::new(1_000, &[]);
    let initial = sweep_retention(
        policy(),
        "captures",
        &LocalOnlyRetentionAuthority,
        &platform,
        &FixedClock(300),
    );
    assert_eq!(initial.managed_bytes, 0);
    assert_eq!(initial.pressure, RetentionPressure::Satisfied);
    let (sink, _wake_receiver) = worker_sink(initial.blocked_pressure);
    assert!(!sink.is_stopped());
    assert!(!sink.capture_suspended());
    assert!(matches!(
        sink.try_wake(),
        RetentionWakeResult::Queued | RetentionWakeResult::Coalesced
    ));
    sink.stop.store(true, Ordering::Release);
    assert!(sink.is_stopped());
    assert!(sink.capture_suspended());
    assert_eq!(sink.try_wake(), RetentionWakeResult::Stopped);
}

#[test]
fn initial_blocked_sweep_suspends_capture_before_worker_returns() {
    let platform = RecordingPlatform::new(10, &[]);
    let initial = sweep_retention(
        RetentionPolicy {
            min_free_bytes: Some(11),
            ..policy()
        },
        "captures",
        &LocalOnlyRetentionAuthority,
        &platform,
        &FixedClock(300),
    );
    let (sink, _wake_receiver) = worker_sink(initial.blocked_pressure);
    assert!(sink.capture_suspended());
}

#[test]
fn a_stopped_or_blocked_worker_suspends_capture() {
    let (wake_sender, _wake_receiver) = mpsc::sync_channel(RETENTION_WAKE_CAPACITY);
    let sink = RetentionSink {
        wake_sender,
        stop: Arc::new(AtomicBool::new(false)),
        capture_suspended: Arc::new(AtomicBool::new(false)),
    };
    let shared = sink.clone();
    assert!(!shared.capture_suspended() && !shared.is_stopped());
    sink.capture_suspended.store(true, Ordering::Release);
    assert!(shared.capture_suspended());
    sink.capture_suspended.store(false, Ordering::Release);
    sink.stop.store(true, Ordering::Release);
    assert!(shared.is_stopped() && shared.capture_suspended());
    assert_eq!(shared.try_wake(), RetentionWakeResult::Stopped);
    assert!(suspends_capture(true, false) && !suspends_capture(false, false));
    assert_eq!(wake_result(WakeSend::Full), RetentionWakeResult::Coalesced);
}

#[test]
fn a_stop_during_a_sweep_asks_for_one_more() {
    assert_eq!(after_wake(WakeEvent::Woken), RetentionStep::Sweep);
    assert_eq!(after_wake(WakeEvent::TimedOut), RetentionStep::Sweep);
    assert_eq!(after_wake(WakeEvent::Disconnected), RetentionStep::Exit);
    assert_eq!(after_sweep(false, false), RetentionStep::Wait);
    assert_eq!(after_sweep(false, true), RetentionStep::Sweep);
    assert_eq!(after_sweep(true, true), RetentionStep::Exit);
}

fn opened_file(size: u64) -> OpenedFile {
    OpenedFile {
        is_file: true,
        is_reparse_point: false,
        size,
    }
}

fn opened(size: u64) -> OpenedArtifact {
    OpenedArtifact::File(opened_file(size))
}

#[test]
fn windows_exact_deletion_verifies_digest_before_marking_open_file() {
    let mut candidate = candidate("frame-100.jpg", 100, 8);
    candidate.authorization =
        RetentionAuthorization::reclaimable(Some(8), Some(sha256(b"artifact")));
    assert!(matches!(
        check_exact_delete(&candidate, candidate.authorization, opened(8), b"artifact"),
        Ok(DeleteStep::Delete)
    ));
}

#[test]
fn windows_exact_deletion_retains_digest_mismatch() {
    let mut candidate = candidate("frame-100.jpg", 100, 8);
    candidate.authorization = RetentionAuthorization::reclaimable(Some(8), Some([0x55; 32]));
    assert!(matches!(
        check_exact_delete(&candidate, candidate.authorization, opened(8), b"artifact"),
        Err(RetentionDeleteError::IdentityChanged { .. })
    ));
}

#[test]
fn only_plain_files_of_the_recorded_size_are_deleted() {
    let candidate = candidate("frame-100.jpg", 100, 8);
    let mut directory = opened_file(8);
    directory.is_file = false;
    let directory = OpenedArtifact::File(directory);
    assert!(matches!(
        check_exact_delete(&candidate, candidate.authorization, directory, b""),
        Err(RetentionDeleteError::UnsafeArtifact { path }) if path == "frame-100.jpg"
    ));
    let mut link = opened_file(8);
    link.is_reparse_point = true;
    let link = OpenedArtifact::File(link);
    assert!(check_exact_delete(&candidate, candidate.authorization, link, b"").is_err());
    let error = check_exact_delete(&candidate, candidate.authorization, opened(9), b"")
        .expect_err("another size");
    assert!(matches!(error, RetentionDeleteError::IdentityChanged { .. }));
    assert!(error.message().contains("frame-100.jpg"));
}

#[test]
fn artifacts_that_could_not_be_opened_are_not_deleted() {
    let candidate = candidate("frame-100.jpg", 100, 8);
    let decide = |opened: OpenedArtifact| {
        check_exact_delete(&candidate, candidate.authorization, opened, b"")
    };
    assert!(matches!(
        decide(OpenedArtifact::Absent),
        Ok(DeleteStep::Finish(ExactDeleteOutcome::AlreadyAbsent))
    ));
    assert!(matches!(
        decide(OpenedArtifact::Unsupported),
        Err(RetentionDeleteError::UnsupportedPlatform)
    ));
    assert_eq!(
        decide(OpenedArtifact::Unopened("denied".to_owned()))
            .unwrap_err()
            .message(),
        "open artifact without following reparse points failed for frame-100.jpg: denied"
    );
    assert_eq!(
        decide(OpenedArtifact::Unknown("denied".to_owned()))
            .unwrap_err()
            .message(),
        "read opened artifact metadata failed for frame-100.jpg: denied"
    );
}

#[test]
fn contents_are_read_only_where_they_decide() {
    let candidate = candidate("frame-100.jpg", 100, 8);
    let digest = Some(sha256(b"artifact"));
    let expecting =
        |size, digest| RetentionAuthorization::reclaimable(size, digest);
    assert!(wants_contents(&candidate, expecting(Some(8), digest), opened_file(8)));
    assert!(wants_contents(&candidate, expecting(None, digest), opened_file(8)));
    assert!(!wants_contents(&candidate, expecting(Some(8), None), opened_file(8)));
    assert!(!wants_contents(&candidate, expecting(Some(9), digest), opened_file(8)));
    assert!(!wants_contents(&candidate, expecting(Some(8), digest), opened_file(9)));
    let mut link = opened_file(8);
    link.is_reparse_point = true;
    assert!(!wants_contents(&candidate, expecting(Some(8), digest), link));
}

#[test]
fn deletions_are_relayed() {
    assert_eq!(
        relay_deletion(Ok(ExactDeleteOutcome::Deleted)),
        Ok(RetentionDeletionOutcome::Deleted)
    );
    assert_eq!(
        relay_deletion(Ok(ExactDeleteOutcome::AlreadyAbsent)),
        Ok(RetentionDeletionOutcome::AlreadyAbsent)
    );
    assert_eq!(
        relay_deletion(Err("denied".to_owned())),
        Err("denied".to_owned())
    );
}

#[test]
fn sweeps_are_dated_by_a_usable_clock() {
    assert_eq!(clock_unix_ms(Some(7)), Ok(7));
    assert_eq!(
        clock_unix_ms(None),
        Err(RetentionClockError::ClockBeforeUnixEpoch)
    );
    assert_eq!(
        clock_unix_ms(Some(1 << 64)),
        Err(RetentionClockError::ClockOutOfRange)
    );
}

#[test]
fn planning_again_without_what_was_deleted_selects_nothing() {
    let candidates = vec![
        candidate("c.jpg", 300, 4),
        candidate("a.jpg", 100, 4),
        candidate("b.jpg", 200, 4),
    ];
    let limits = RetentionPolicy {
        max_age_ms: Some(1_000),
        max_managed_bytes: Some(8),
        ..policy()
    };
    let plan = plan_retention(limits, 400, None, candidates);
    assert_eq!(plan.deletions.len(), 1);
    assert_eq!(plan.deletions[0].path, "a.jpg");
    let rest = vec![candidate("c.jpg", 300, 4), candidate("b.jpg", 200, 4)];
    assert!(plan_retention(limits, 400, None, rest).deletions.is_empty());
}

#[test]
fn plans_do_not_depend_on_the_order_of_the_listing() {
    let limits = RetentionPolicy {
        max_managed_bytes: Some(4),
        ..policy()
    };
    let paths = |candidates: Vec<RetentionCandidate>| {
        plan_retention(limits, 400, None, candidates)
            .deletions
            .iter()
            .map(|deletion| deletion.path.clone())
            .collect::<Vec<_>>()
    };
    let listed = paths(vec![
        candidate("a-b/x.jpg", 100, 4),
        candidate("a/x.jpg", 100, 4),
        candidate("c.jpg", 50, 4),
    ]);
    assert_eq!(listed, vec!["c.jpg", "a/x.jpg"]);
    assert_eq!(
        paths(vec![
            candidate("c.jpg", 50, 4),
            candidate("a/x.jpg", 100, 4),
            candidate("a-b/x.jpg", 100, 4),
        ]),
        listed
    );
}
