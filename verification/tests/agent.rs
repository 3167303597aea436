use autopiercam::camera::ImageType;
use autopiercam::capture::{
    after_capture_poll, attempt_result, before_capture_poll, check_enqueued, check_max_frames,
    check_woken, choose_retention_authority, first_error, ledger_artifact_paths, snapshot_pixels,
    AttemptErrors, AttemptPart, AuthorityChoice, CaptureFault, CaptureLoop, CapturePoll,
    CaptureProgress, CaptureRound, CompletedFrame, FrameMeta, PixelSource, PollOutcome,
    PublishFault, Readings, SendOutcome, SettleLoop, SettlePoll, SettleStep, WorkerHealth,
};
use autopiercam::control::AgentControl;
use autopiercam::exposure::{AutoLimits, FrameWait, Settling, WaitDecision, NANOS_PER_SECOND};
use autopiercam::monitor::{
    publish_attempt_result, AgentMonitor, AgentState, StatusExposure, StoragePressure,
    UploadAdminError, UploadAdminRegistry, UploadAdminSession,
};
use autopiercam::preview::PreviewHub;
use autopiercam::retention_worker::RetentionWakeResult;
use autopiercam::sweep::{RetentionPressure, RetentionTelemetry};
use autopiercam::upload::{UploadEnqueueResult, UploadTelemetry};

fn secs(seconds: u64) -> u128 {
    u128::from(seconds) * NANOS_PER_SECOND
}

fn protocol_capabilities() -> Vec<String> {
    vec!["uploads".to_owned(), "storage".to_owned()]
}

fn monitor() -> AgentMonitor {
    AgentMonitor::new(protocol_capabilities())
}

fn test_exposure_progress(session_generation: u64) -> CaptureProgress {
    CaptureProgress {
        wait: FrameWait::new(60_000_000),
        status: StatusExposure {
            session_generation,
            settling: true,
            exposure_us: 60_000_000,
            gain: 400,
            max_exposure_us: 60_000_000,
            settling_frames: 0,
            settling_min_frames: 6,
            wait_elapsed_ms: 0,
            frame_timeout_ms: 0,
        },
    }
}

fn limits() -> AutoLimits {
    AutoLimits {
        min_exposure_us: 32,
        max_exposure_us: 60_000_000,
        min_gain: 0,
        max_gain: 400,
        target_brightness: 100,
    }
}

fn readings(exposure_us: i64, gain: i64) -> Readings {
    Readings {
        exposure_us: Some(exposure_us),
        gain: Some(gain),
    }
}

fn meta() -> FrameMeta {
    FrameMeta {
        width: 2,
        height: 2,
        image_type: ImageType::Raw8,
    }
}

fn frame(value: u8) -> CompletedFrame {
    CompletedFrame {
        meta: meta(),
        data: vec![value; 4],
        captured_at_unix_ms: u64::from(value),
        exposure_us: 1_000,
        gain: 10,
    }
}

#[test]
fn timeout_fallback_retains_matching_complete_bytes_and_metadata() {
    let mut progress = test_exposure_progress(7);
    let mut scratch = vec![1, 2, 3, 4];
    let meta = meta();
    let frame = progress.completed_frame(meta, &mut scratch, secs(600), 1_700_000_000_000);
    let mut settling = Settling::new(6, limits());
    settling.observe_frame(
        secs(600),
        frame.exposure_us,
        frame.gain,
        4,
        0.0_f32.to_bits(),
    );
    // The final SDK read times out after touching its destination buffer.
    scratch.resize(16, 255);
    assert_eq!(
        settling.decision(&progress.wait, secs(605), false),
        WaitDecision::UseLatestFrame
    );
    assert_eq!(frame.meta, meta);
    assert_eq!(frame.data, [1, 2, 3, 4]);
    assert_eq!(frame.exposure_us, 60_000_000);
    assert_eq!(frame.gain, 400);
    assert!(frame.captured_at_unix_ms > 0);
}

#[test]
fn settling_counts_frames_without_entering_capturing() {
    let mut monitor = monitor();
    let mut hub = PreviewHub::new();
    let session = hub.begin_session();
    let mut progress = test_exposure_progress(session.generation());
    let mut raw = vec![100; 16];
    let _frame = progress.completed_frame(
        FrameMeta {
            width: 4,
            height: 4,
            image_type: ImageType::Raw8,
        },
        &mut raw,
        0,
        1,
    );
    progress.status.settling_frames = 1;
    monitor.settling_frame_captured();
    monitor.exposure_progress(progress.published(0));
    let status = monitor.snapshot();
    assert_eq!(status.state, AgentState::Starting);
    assert_eq!(status.frames_captured, 1);
    assert_eq!(status.frames_saved, 0);
    assert_eq!(monitor.capturing_generation(), 0);
    let exposure = status.exposure.unwrap();
    assert!(exposure.settling);
    assert_eq!(exposure.settling_frames, 1);
    assert_eq!(exposure.session_generation, session.generation());
    assert_eq!(exposure.frame_timeout_ms, 125_000);

    progress.status.settling = false;
    monitor.exposure_progress(progress.published(0));
    monitor.set_state(AgentState::Capturing);
    assert_eq!(monitor.snapshot().frames_captured, 1);
    assert_eq!(monitor.capturing_generation(), 1);
}

#[test]
fn exposure_progress_clears_on_stop_fault_and_restart() {
    let mut monitor = monitor();
    let progress = test_exposure_progress(42);
    for state in [AgentState::Stopping, AgentState::Idle, AgentState::Faulted] {
        monitor.exposure_progress(progress.published(0));
        assert!(monitor.snapshot().exposure.is_some());
        monitor.set_state(state);
        assert!(monitor.snapshot().exposure.is_none());
    }
    monitor.exposure_progress(progress.published(0));
    monitor.report_fault("camera disconnected".to_owned());
    assert!(monitor.snapshot().exposure.is_none());
    monitor.exposure_progress(progress.published(0));
    monitor.begin_attempt();
    assert!(monitor.snapshot().exposure.is_none());
}

#[test]
fn agent_control_tracks_pause_capture_and_shutdown_requests() {
    let control = AgentControl::new();
    let worker_view = control.clone();

    assert!(!worker_view.is_paused());
    control.pause();
    assert!(worker_view.is_paused());
    control.resume();
    assert!(!worker_view.is_paused());

    let generation = worker_view.capture_generation();
    control.capture_now();
    assert_ne!(worker_view.capture_generation(), generation);

    assert!(!worker_view.is_shutdown());
    control.shutdown();
    assert!(worker_view.is_shutdown());
}

#[test]
fn control_state_reads_every_control() {
    let control = AgentControl::default();
    control.pause();
    control.capture_now();
    control.capture_now();
    let state = control.state();
    assert!(!state.shutdown);
    assert!(state.paused);
    assert_eq!(state.capture_generation, 2);
}

#[test]
fn agent_monitor_publishes_cloneable_protocol_status() {
    let mut monitor = monitor();
    monitor.set_camera(7, "Test camera".to_owned());
    monitor.frame_captured(false);
    monitor.artifact_saved("captures/test.jpg".to_owned());
    monitor.upload_telemetry(UploadTelemetry {
        pending: 2,
        active: 1,
        retrying: 3,
        completed: 4,
        permanently_failed: 5,
        last_success_unix_ms: Some(10),
        last_failure_unix_ms: Some(20),
        last_error: Some("HTTP endpoint requested a retry".to_owned()),
    });
    monitor.retention_telemetry(RetentionTelemetry {
        swept_at_unix_ms: 30,
        managed_bytes: 1_000,
        protected_bytes: 600,
        reclaimable_bytes: 400,
        free_bytes: Some(2_000),
        reclaimed_file_count: 2,
        reclaimed_bytes: 300,
        blocked_pressure: true,
        pressure: RetentionPressure::Blocked,
        error: Some("protected uploads prevent cleanup".to_owned()),
    });

    let status = monitor.snapshot();
    assert_eq!(status.state, AgentState::Capturing);
    assert_eq!(status.camera.expect("camera").id, 7);
    assert_eq!(status.frames_captured, 1);
    assert_eq!(status.frames_saved, 1);
    assert_eq!(status.last_artifact.as_deref(), Some("captures/test.jpg"));
    let mut expected = protocol_capabilities();
    expected.push("camera.adaptive_exposure".to_owned());
    expected.push("camera.raw16".to_owned());
    expected.push("video.ffmpeg".to_owned());
    assert_eq!(status.capabilities, expected);
    let upload = status.upload.expect("upload telemetry");
    assert_eq!(upload.pending, 2);
    assert_eq!(upload.active, 1);
    assert_eq!(upload.retrying, 3);
    assert_eq!(upload.completed, 4);
    assert_eq!(upload.permanently_failed, 5);
    assert_eq!(upload.last_success_unix_ms, Some(10));
    assert_eq!(upload.last_failure_unix_ms, Some(20));
    assert_eq!(
        upload.last_error.as_deref(),
        Some("HTTP endpoint requested a retry")
    );
    let storage = status.storage.expect("storage telemetry");
    assert_eq!(storage.managed_bytes, 1_000);
    assert_eq!(storage.protected_bytes, 600);
    assert_eq!(storage.reclaimable_bytes, 400);
    assert_eq!(storage.free_bytes, Some(2_000));
    assert_eq!(storage.last_sweep_unix_ms, Some(30));
    assert_eq!(storage.last_reclaimed_files, 2);
    assert_eq!(storage.last_reclaimed_bytes, 300);
    assert_eq!(storage.pressure, StoragePressure::Blocked);
    assert!(storage.capture_suspended);
    assert_eq!(
        storage.last_error.as_deref(),
        Some("protected uploads prevent cleanup")
    );

    monitor.report_fault("camera disconnected".to_owned());
    monitor.begin_attempt();
    let retry_status = monitor.snapshot();
    assert_eq!(retry_status.state, AgentState::Starting);
    assert!(retry_status.camera.is_none());
    assert!(retry_status.last_error.is_none());
    assert!(retry_status.upload.is_none());
    assert!(retry_status.storage.is_none());
    assert_eq!(retry_status.frames_captured, 1);
    assert_eq!(retry_status.frames_saved, 1);
    assert_eq!(
        retry_status.last_artifact.as_deref(),
        Some("captures/test.jpg")
    );
}

#[test]
fn monitor_records_every_transition_into_capturing() {
    let mut monitor = monitor();
    assert_eq!(monitor.capturing_generation(), 0);

    monitor.set_state(AgentState::Capturing);
    assert_eq!(monitor.capturing_generation(), 1);
    monitor.frame_captured(false);
    assert_eq!(monitor.capturing_generation(), 1);
    monitor.frame_captured(true);
    assert_eq!(monitor.capturing_generation(), 1);
    monitor.frame_captured(false);
    assert_eq!(monitor.capturing_generation(), 2);
}

#[test]
fn controlled_attempt_completion_remains_stopping() {
    let mut monitor = monitor();
    let control = AgentControl::new();
    monitor.set_state(AgentState::Capturing);
    control.shutdown();

    publish_attempt_result(Ok(()), control.is_shutdown(), &mut monitor);

    assert_eq!(monitor.snapshot().state, AgentState::Stopping);
}

#[test]
fn attempts_end_idle_or_faulted() {
    let mut monitor = monitor();
    monitor.exposure_progress(test_exposure_progress(1).published(0));
    publish_attempt_result(Ok(()), false, &mut monitor);
    assert_eq!(monitor.snapshot().state, AgentState::Idle);
    assert!(monitor.snapshot().exposure.is_none());
    publish_attempt_result(Err("no camera".to_owned()), true, &mut monitor);
    let status = monitor.snapshot();
    assert_eq!(status.state, AgentState::Faulted);
    assert_eq!(status.last_error.as_deref(), Some("no camera"));
}

#[test]
fn stale_upload_registration_cannot_clear_its_replacement() {
    let mut registry = UploadAdminRegistry::new();
    assert_eq!(registry.register(), None);
    let first = registry.generation;
    assert_eq!(registry.register(), Some(first));
    let replacement = registry.generation;
    assert!(!registry.unregister(first));
    assert_eq!(registry.current, Some(replacement));
    assert!(registry.unregister(replacement));
    assert_eq!(registry.current, None);
}

#[test]
fn upload_registration_drains_inflight_leases_before_ledger_reopen() {
    let mut session = UploadAdminSession::new();
    session.acquire().unwrap();
    session.revoke();
    assert!(!session.is_idle());
    assert_eq!(session.acquire(), Err(UploadAdminError::ServiceUnavailable));
    assert!(session.release());
    assert!(session.is_idle());
}

#[test]
fn settle_loop_keeps_the_latest_frame_until_its_deadline() {
    let mut progress = CaptureProgress::new(readings(1_000_000, 5), limits(), 3, 6);
    assert_eq!(progress.status.settling_min_frames, 6);
    let mut settle = SettleLoop::new(8, limits(), &mut progress);
    assert_eq!(progress.status.settling_min_frames, 8);
    let step = settle.before_poll(&mut progress, readings(1_000_000, 5), 0, false, false);
    assert!(matches!(step, SettleStep::Poll(1_500)));
    assert_eq!(
        settle.after_poll(
            &mut progress,
            readings(1_000_000, 5),
            false,
            PollOutcome::TimedOut
        ),
        SettlePoll::Retry
    );
    assert_eq!(
        settle.after_poll(
            &mut progress,
            readings(1_000_000, 5),
            false,
            PollOutcome::Frame(meta())
        ),
        SettlePoll::Accept(meta())
    );
    let mut data = vec![9, 8, 7, 6];
    let (accepted, settled) = settle.accept_frame(
        &mut progress,
        meta(),
        &mut data,
        100,
        0.0_f32.to_bits(),
        secs(1),
        77,
    );
    assert!(!settled);
    assert!(data.is_empty());
    assert_eq!(accepted.data, [9, 8, 7, 6]);
    assert_eq!(progress.status.settling_frames, 1);
    assert!(settle.conclude(accepted, settled, false).is_none());
    // The deadline of eight and four more frames at the ceiling, plus five
    // seconds, with the stream kept alive until then.
    progress.wait.frame_received(secs(720));
    match settle.before_poll(&mut progress, readings(1_000_000, 5), secs(725), false, false) {
        SettleStep::UseLatestFrame(Some(latest)) => {
            assert_eq!(latest.data, [9, 8, 7, 6]);
            assert_eq!(latest.captured_at_unix_ms, 77);
        }
        step => panic!("{step:?}"),
    }
}

#[test]
fn settle_loop_reports_cancellation_stalls_and_a_stopped_recorder() {
    let mut progress = CaptureProgress::new(readings(10_000, 5), limits(), 0, 4);
    let mut settle = SettleLoop::new(4, limits(), &mut progress);
    assert!(matches!(
        settle.before_poll(&mut progress, readings(10_000, 5), 0, true, true),
        SettleStep::VideoStopped
    ));
    assert!(matches!(
        settle.before_poll(&mut progress, readings(10_000, 5), secs(6), false, true),
        SettleStep::Cancelled
    ));
    assert!(matches!(
        settle.before_poll(&mut progress, readings(10_000, 5), secs(6), false, false),
        SettleStep::Stalled(5_020, 0)
    ));
    assert_eq!(
        settle.after_poll(
            &mut progress,
            readings(10_000, 5),
            true,
            PollOutcome::Failed
        ),
        SettlePoll::Cancelled
    );
    assert_eq!(
        settle.after_poll(
            &mut progress,
            readings(10_000, 5),
            false,
            PollOutcome::Failed
        ),
        SettlePoll::Failed
    );
    assert_eq!(settle.conclude(frame(1), true, true), None);
    assert_eq!(settle.conclude(frame(2), true, false), Some(frame(2)));
}

#[test]
fn readings_that_fail_fall_back_to_the_ceiling_and_the_last_gain() {
    let none = Readings {
        exposure_us: None,
        gain: None,
    };
    let mut progress = CaptureProgress::new(none, limits(), 0, 0);
    assert_eq!(progress.status.exposure_us, 60_000_000);
    assert_eq!(progress.status.gain, 0);
    assert_eq!(progress.status.settling_min_frames, 4);
    progress.refresh(readings(-1, 12), limits());
    assert_eq!(progress.status.exposure_us, 60_000_000);
    progress.refresh(none, limits());
    assert_eq!(progress.status.gain, 12);
}

#[test]
fn capture_rounds_check_helpers_before_frames() {
    let healthy = WorkerHealth {
        video_finished: false,
        upload_stopped: false,
        retention_stopped: false,
    };
    let mut capture = CaptureLoop::new(frame(1), 0, 1_000, None);
    assert!(matches!(
        capture.begin_round(true, healthy),
        CaptureRound::Stop
    ));
    for (health, fault) in [
        (
            WorkerHealth {
                video_finished: true,
                upload_stopped: true,
                retention_stopped: true,
            },
            CaptureFault::VideoStopped,
        ),
        (
            WorkerHealth {
                video_finished: false,
                upload_stopped: true,
                retention_stopped: true,
            },
            CaptureFault::UploadStopped,
        ),
        (
            WorkerHealth {
                video_finished: false,
                upload_stopped: false,
                retention_stopped: true,
            },
            CaptureFault::RetentionStopped,
        ),
    ] {
        assert!(matches!(
            capture.begin_round(false, health),
            CaptureRound::Fail(found) if found == fault
        ));
    }
    match capture.begin_round(false, healthy) {
        CaptureRound::UseFrame(found) => assert_eq!(found, frame(1)),
        round => panic!("{round:?}"),
    }
    assert!(matches!(
        capture.begin_round(false, healthy),
        CaptureRound::Poll
    ));
}

#[test]
fn every_requested_still_is_taken_once_even_while_paused() {
    let mut capture = CaptureLoop::new(frame(1), 0, 1_000, None);
    // Two requests arrived before the first frame.
    assert!(capture.decide(0, true, 2, false).requested);
    assert!(capture.decide(0, true, 2, false).requested);
    let idle = capture.decide(0, true, 2, false);
    assert!(!idle.requested && !idle.periodic && !idle.is_wanted());
    assert!(!capture.decide(0, false, 2, true).is_wanted());
    assert!(capture.decide(0, false, 2, false).periodic);
}

#[test]
fn periodic_stills_keep_their_interval_and_the_frame_limit() {
    let mut capture = CaptureLoop::new(frame(1), 0, 1_000, Some(2));
    let first = capture.decide(0, false, 0, false);
    assert_eq!(capture.after_send(first, 0, SendOutcome::Queued), Ok(false));
    assert!(!capture.decide(secs(1) - 1, false, 0, false).periodic);
    let dropped = capture.decide(secs(1), false, 0, false);
    assert_eq!(
        capture.after_send(dropped, secs(1), SendOutcome::Full),
        Ok(false)
    );
    assert_eq!(capture.queued, 1);
    let last = capture.decide(secs(2), false, 0, false);
    assert_eq!(
        capture.after_send(last, secs(2), SendOutcome::Disconnected),
        Err(CaptureFault::WriterStopped)
    );
    assert_eq!(
        capture.after_send(last, secs(2), SendOutcome::Queued),
        Ok(true)
    );
    assert_eq!(capture.queued, 2);
}

#[test]
fn capture_polls_fail_at_the_exposure_deadline() {
    let mut progress = CaptureProgress::new(readings(10_000, 5), limits(), 0, 4);
    let reading = readings(10_000, 5);
    assert_eq!(
        before_capture_poll(&mut progress, reading, limits(), secs(1)),
        Ok(510)
    );
    assert_eq!(
        before_capture_poll(&mut progress, reading, limits(), secs(6)),
        Err(CaptureFault::Deadline(5_020))
    );
    assert_eq!(
        after_capture_poll(
            &mut progress,
            reading,
            limits(),
            secs(1),
            true,
            PollOutcome::Failed
        ),
        CapturePoll::Stop
    );
    assert_eq!(
        after_capture_poll(
            &mut progress,
            reading,
            limits(),
            secs(1),
            false,
            PollOutcome::TimedOut
        ),
        CapturePoll::Retry
    );
    assert_eq!(
        after_capture_poll(
            &mut progress,
            reading,
            limits(),
            secs(6),
            false,
            PollOutcome::TimedOut
        ),
        CapturePoll::Fail(CaptureFault::Deadline(5_020))
    );
    assert_eq!(
        after_capture_poll(
            &mut progress,
            reading,
            limits(),
            secs(6),
            false,
            PollOutcome::Frame(meta())
        ),
        CapturePoll::Accept(meta())
    );
    assert_eq!(
        after_capture_poll(
            &mut progress,
            reading,
            limits(),
            secs(6),
            false,
            PollOutcome::Failed
        ),
        CapturePoll::Fail(CaptureFault::Camera)
    );
}

#[test]
fn attempts_report_their_first_error_in_order() {
    let none = || AttemptErrors {
        video: None,
        capture: None,
        writer: None,
        retention: None,
        upload: None,
        preview: None,
    };
    assert_eq!(attempt_result(none()), Ok(()));
    let error = |text: &str| Some(text.to_owned());
    assert_eq!(
        attempt_result(AttemptErrors {
            preview: error("p"),
            upload: error("u"),
            ..none()
        }),
        Err((AttemptPart::Upload, "u".to_owned()))
    );
    assert_eq!(
        attempt_result(AttemptErrors {
            preview: error("p"),
            ..none()
        }),
        Err((AttemptPart::Preview, "p".to_owned()))
    );
    assert_eq!(
        attempt_result(AttemptErrors {
            retention: error("r"),
            upload: error("u"),
            ..none()
        }),
        Err((AttemptPart::Retention, "r".to_owned()))
    );
    assert_eq!(
        attempt_result(AttemptErrors {
            writer: error("w"),
            retention: error("r"),
            ..none()
        }),
        Err((AttemptPart::Writer, "w".to_owned()))
    );
    assert_eq!(
        attempt_result(AttemptErrors {
            capture: error("c"),
            writer: error("w"),
            ..none()
        }),
        Err((AttemptPart::Capture, "c".to_owned()))
    );
    assert_eq!(
        attempt_result(AttemptErrors {
            video: error("v"),
            capture: error("c"),
            ..none()
        }),
        Err((AttemptPart::Video, "v".to_owned()))
    );
    assert_eq!(first_error(None, error("stop")), error("stop"));
    assert_eq!(first_error(error("loop"), error("stop")), error("loop"));
}

#[test]
fn stopped_workers_end_the_writer() {
    assert_eq!(check_enqueued(UploadEnqueueResult::Recorded), Ok(()));
    assert_eq!(check_enqueued(UploadEnqueueResult::AlreadyRecorded), Ok(()));
    assert_eq!(
        check_enqueued(UploadEnqueueResult::WorkerStopped),
        Err(PublishFault::UploadStopped)
    );
    assert_eq!(check_woken(RetentionWakeResult::Coalesced), Ok(()));
    assert_eq!(
        check_woken(RetentionWakeResult::Stopped),
        Err(PublishFault::RetentionStopped)
    );
}

#[test]
fn prior_ledgers_protect_every_capture() {
    assert_eq!(
        choose_retention_authority(true, true),
        AuthorityChoice::UploadLedger
    );
    assert_eq!(
        choose_retention_authority(false, true),
        AuthorityChoice::ProtectAll
    );
    assert_eq!(
        choose_retention_authority(false, false),
        AuthorityChoice::LocalOnly
    );
    assert_eq!(
        ledger_artifact_paths("a.sqlite3"),
        [
            "a.sqlite3",
            "a.sqlite3-wal",
            "a.sqlite3-shm",
            "a.sqlite3.maintenance"
        ]
    );
}

#[test]
fn frame_limits_and_snapshot_formats_are_checked() {
    assert!(!check_max_frames(Some(0)));
    assert!(check_max_frames(Some(1)));
    assert!(check_max_frames(None));
    assert_eq!(
        snapshot_pixels(ImageType::Raw8),
        Some(PixelSource::Demosaic)
    );
    assert_eq!(snapshot_pixels(ImageType::Rgb24), Some(PixelSource::Rgb));
    assert_eq!(snapshot_pixels(ImageType::Y8), Some(PixelSource::Gray));
    assert_eq!(snapshot_pixels(ImageType::Raw16), None);
}
