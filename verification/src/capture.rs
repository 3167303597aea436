//! The camera loop: settling, continuous capture, and how an attempt ends.
//!
//! Each function here takes what was read from the camera, the clock and the
//! controls, and says what to do next. Points in time are nanoseconds since the
//! attempt started.

use vstd::prelude::*;

use crate::camera;
use crate::camera::{current_exposure, current_gain, ImageType};
use crate::exposure;
use crate::exposure::{
    duration_millis, poll_timeout_ms, AutoLimits, FrameWait, Settling, WaitDecision,
    NANOS_PER_MILLI,
};
use crate::monitor::StatusExposure;
use crate::number;
use crate::number::max_u32;
use crate::retention_worker::RetentionWakeResult;
use crate::upload::UploadEnqueueResult;

verus! {

broadcast use vstd::string::group_string_axioms;

/// The size and format of a frame.
#[derive(Clone, Copy, Debug, PartialEq, Eq, Structural)]
pub struct FrameMeta {
    pub width: u32,
    pub height: u32,
    pub image_type: ImageType,
}

/// A successful SDK sample owns its bytes so that a subsequent timed-out read can
/// never replace the image while leaving its old dimensions and telemetry.
#[derive(Debug, PartialEq, Eq)]
pub struct CompletedFrame {
    pub meta: FrameMeta,
    pub data: Vec<u8>,
    pub captured_at_unix_ms: u64,
    pub exposure_us: i64,
    pub gain: i64,
}

/// What the camera reported of its controls; nothing where a read failed.
#[derive(Clone, Copy, Debug, PartialEq, Eq, Structural)]
pub struct Readings {
    pub exposure_us: Option<i64>,
    pub gain: Option<i64>,
}

/// The exposure in progress, and the deadline of the frame in flight.
#[derive(Clone, Copy, Debug)]
pub struct CaptureProgress {
    pub wait: FrameWait,
    pub status: StatusExposure,
}

impl CaptureProgress {
    pub open spec fn refreshed(self, readings: Readings, limits: AutoLimits) -> Self {
        let exposure_us = camera::exposure_reading(
            readings.exposure_us,
            limits.max_exposure_us as int,
        ) as i64;
        CaptureProgress {
            wait: FrameWait {
                exposure_us,
                observed_exposure_us: number::spec_max(
                    self.wait.observed_exposure_us as int,
                    exposure_us as int,
                ) as i64,
                ..self.wait
            },
            status: StatusExposure {
                exposure_us,
                gain: match readings.gain {
                    Some(gain) => gain,
                    None => self.status.gain,
                },
                ..self.status
            },
        }
    }

    pub fn new(
        readings: Readings,
        limits: AutoLimits,
        session_generation: u64,
        minimum_frames: u32,
    ) -> (r: Self)
        ensures
            ({
                let exposure_us = camera::exposure_reading(
                    readings.exposure_us,
                    limits.max_exposure_us as int,
                ) as i64;
                &&& r.wait == FrameWait {
                    last_frame_at: 0,
                    exposure_us,
                    observed_exposure_us: exposure_us,
                    previous_frame_exposure_us: exposure_us,
                }
                &&& r.status == StatusExposure {
                    session_generation,
                    settling: true,
                    exposure_us,
                    gain: match readings.gain {
                        Some(gain) => gain,
                        None => limits.min_gain,
                    },
                    max_exposure_us: limits.max_exposure_us,
                    settling_frames: 0,
                    settling_min_frames: number::spec_max(minimum_frames as int, 4) as u32,
                    wait_elapsed_ms: 0,
                    frame_timeout_ms: 0,
                }
            }),
    {
        let exposure_us: i64 = current_exposure(readings.exposure_us, limits.max_exposure_us);
        let gain: i64 = current_gain(readings.gain, limits.min_gain);
        CaptureProgress {
            wait: FrameWait::new(exposure_us),
            status: StatusExposure {
                session_generation,
                settling: true,
                exposure_us,
                gain,
                max_exposure_us: limits.max_exposure_us,
                settling_frames: 0,
                settling_min_frames: max_u32(minimum_frames, 4),
                wait_elapsed_ms: 0,
                frame_timeout_ms: 0,
            },
        }
    }

    pub fn refresh(&mut self, readings: Readings, limits: AutoLimits)
        ensures
            *final(self) == old(self).refreshed(readings, limits),
            final(self).wait.deadline() >= old(self).wait.deadline(),
    {
        self.status.exposure_us = current_exposure(readings.exposure_us, limits.max_exposure_us);
        self.status.gain = current_gain(readings.gain, self.status.gain);
        self.wait.observe_exposure(self.status.exposure_us);
    }

    /// What clients see of the exposure at this moment.
    pub fn published(&self, now: u128) -> (r: StatusExposure)
        ensures
            r == (StatusExposure {
                wait_elapsed_ms: number::saturated_u64(
                    self.wait.elapsed_at(now as int) / 1_000_000,
                ) as u64,
                frame_timeout_ms: number::saturated_u64(self.wait.deadline() / 1_000_000) as u64,
                ..self.status
            }),
    {
        let mut status = self.status;
        status.wait_elapsed_ms = duration_millis(self.wait.elapsed(now));
        status.frame_timeout_ms = duration_millis(self.wait.timeout());
        status
    }

    /// Own the bytes of a complete frame with the telemetry that was current when
    /// it arrived, and wait for the next one.
    pub fn completed_frame(
        &mut self,
        meta: FrameMeta,
        data: &mut Vec<u8>,
        now: u128,
        captured_at_unix_ms: u64,
    ) -> (r: CompletedFrame)
        ensures
            *final(self) == (CaptureProgress {
                wait: exposure::wait_after_frame(old(self).wait, now),
                ..*old(self)
            }),
            final(data)@ == Seq::<u8>::empty(),
            r.meta == meta,
            r.data@ == old(data)@,
            r.captured_at_unix_ms == captured_at_unix_ms,
            r.exposure_us == old(self).status.exposure_us,
            r.gain == old(self).status.gain,
    {
        self.wait.frame_received(now);
        let mut taken: Vec<u8> = Vec::new();
        std::mem::swap(&mut taken, data);
        CompletedFrame {
            meta,
            data: taken,
            captured_at_unix_ms,
            exposure_us: self.status.exposure_us,
            gain: self.status.gain,
        }
    }
}

/// What a bounded SDK read came to.
#[derive(Clone, Copy, Debug, PartialEq, Eq, Structural)]
pub enum PollOutcome {
    Frame(FrameMeta),
    TimedOut,
    Failed,
}

/// What to do before an SDK read while exposure settles.
#[derive(Debug)]
pub enum SettleStep {
    /// Read a frame, blocking for at most so many milliseconds.
    Poll(i32),
    VideoStopped,
    Cancelled,
    Stalled(u64, u32),
    UseLatestFrame(Option<CompletedFrame>),
}

/// What to do after an SDK read while exposure settles.
#[derive(Clone, Copy, Debug, PartialEq, Eq, Structural)]
pub enum SettlePoll {
    Cancelled,
    Retry,
    Failed,
    Accept(FrameMeta),
}

/// The settling of one attempt, and the latest complete frame it saw.
#[derive(Debug)]
pub struct SettleLoop {
    pub settling: Settling,
    pub latest: Option<CompletedFrame>,
}

impl SettleLoop {
    /// A frame that was counted was also kept.
    pub open spec fn ready(self) -> bool {
        self.settling.received != 0 ==> self.latest is Some
    }

    pub fn new(minimum_frames: u32, limits: AutoLimits, progress: &mut CaptureProgress) -> (r: Self)
        ensures
            r.ready(),
            r.latest is None,
            r.settling.limits == limits,
            r.settling.minimum_frames == number::spec_max(minimum_frames as int, 4),
            r.settling.deadline == exposure::settling_budget(
                minimum_frames as int,
                limits.max_exposure_us as int,
            ),
            r.settling.previous is None,
            r.settling.stable_samples == 0,
            r.settling.received == 0,
            *final(progress) == (CaptureProgress {
                status: StatusExposure {
                    settling_min_frames: r.settling.minimum_frames,
                    ..old(progress).status
                },
                ..*old(progress)
            }),
    {
        let settling = Settling::new(minimum_frames, limits);
        progress.status.settling_min_frames = settling.minimum_frames();
        SettleLoop { settling, latest: None }
    }

    /// Refresh the deadline and decide whether to read on. Cancellation comes
    /// first, then a stalled stream, then the settling deadline, at which the
    /// latest complete frame is used.
    pub fn before_poll(
        &mut self,
        progress: &mut CaptureProgress,
        readings: Readings,
        now: u128,
        video_finished: bool,
        cancelled: bool,
    ) -> (r: SettleStep)
        requires
            old(self).ready(),
        ensures
            final(self).settling == old(self).settling,
            final(self).latest == (if r is UseLatestFrame {
                None
            } else {
                old(self).latest
            }),
            *final(progress) == (if video_finished {
                *old(progress)
            } else {
                old(progress).refreshed(readings, old(self).settling.limits)
            }),
            if video_finished {
                r == SettleStep::VideoStopped
            } else if cancelled {
                r == SettleStep::Cancelled
            } else if final(progress).wait.expired_at(now as int) {
                r == SettleStep::Stalled(
                    number::saturated_u64(final(progress).wait.deadline() / 1_000_000) as u64,
                    old(self).settling.received,
                )
            } else if now >= old(self).settling.deadline && old(self).settling.received != 0 {
                r == SettleStep::UseLatestFrame(old(self).latest) && old(self).latest is Some
            } else {
                r == SettleStep::Poll(
                    exposure::poll_timeout(final(progress).status.exposure_us as int) as i32,
                )
            },
    {
        if video_finished {
            return SettleStep::VideoStopped;
        }
        progress.refresh(readings, self.settling.limits);
        match self.settling.decision(&progress.wait, now, cancelled) {
            WaitDecision::Cancelled => SettleStep::Cancelled,
            WaitDecision::Stalled => SettleStep::Stalled(
                duration_millis(progress.wait.timeout()),
                self.settling.received(),
            ),
            WaitDecision::UseLatestFrame => SettleStep::UseLatestFrame(self.latest.take()),
            WaitDecision::Continue => SettleStep::Poll(poll_timeout_ms(progress.status.exposure_us)),
        }
    }

    /// Refresh the deadline after a read, unless the attempt was cancelled
    /// meanwhile. A read that timed out is retried: the deadline is checked
    /// before the next one.
    pub fn after_poll(
        &self,
        progress: &mut CaptureProgress,
        readings: Readings,
        cancelled: bool,
        outcome: PollOutcome,
    ) -> (r: SettlePoll)
        ensures
            *final(progress) == (if cancelled {
                *old(progress)
            } else {
                old(progress).refreshed(readings, self.settling.limits)
            }),
            r == (if cancelled {
                SettlePoll::Cancelled
            } else {
                match outcome {
                    PollOutcome::Frame(meta) => SettlePoll::Accept(meta),
                    PollOutcome::TimedOut => SettlePoll::Retry,
                    PollOutcome::Failed => SettlePoll::Failed,
                }
            }),
    {
        if cancelled {
            return SettlePoll::Cancelled;
        }
        progress.refresh(readings, self.settling.limits);
        match outcome {
            PollOutcome::Frame(meta) => SettlePoll::Accept(meta),
            PollOutcome::TimedOut => SettlePoll::Retry,
            PollOutcome::Failed => SettlePoll::Failed,
        }
    }

    /// Account for a complete frame; whether exposure settled with it. The
    /// clipped fraction is given by its single-precision bits.
    pub fn accept_frame(
        &mut self,
        progress: &mut CaptureProgress,
        meta: FrameMeta,
        data: &mut Vec<u8>,
        p90: u8,
        clipped_fraction_bits: u32,
        now: u128,
        captured_at_unix_ms: u64,
    ) -> (r: (CompletedFrame, bool))
        ensures
            final(data)@ == Seq::<u8>::empty(),
            r.0.meta == meta,
            r.0.data@ == old(data)@,
            r.0.captured_at_unix_ms == captured_at_unix_ms,
            r.0.exposure_us == old(progress).status.exposure_us,
            r.0.gain == old(progress).status.gain,
            r.1 == (final(self).settling.received >= old(self).settling.minimum_frames
                && final(self).settling.stable_samples >= 3 && now >= exposure::settle_not_before(
                r.0.exposure_us as int,
            ) && exposure::sample_usable(
                old(self).settling.limits,
                r.0.exposure_us as int,
                r.0.gain as int,
                p90 as int,
                clipped_fraction_bits,
            )),
            final(self).latest == old(self).latest,
            final(self).settling == (Settling {
                previous: Some((r.0.exposure_us, r.0.gain, p90)),
                stable_samples: old(self).settling.stable_run(
                    r.0.exposure_us as int,
                    r.0.gain as int,
                    p90 as int,
                ) as u32,
                received: number::saturated_u32(old(self).settling.received + 1) as u32,
                ..old(self).settling
            }),
            *final(progress) == (CaptureProgress {
                wait: exposure::wait_after_frame(old(progress).wait, now),
                status: StatusExposure {
                    settling_frames: final(self).settling.received,
                    ..old(progress).status
                },
            }),
    {
        let frame = progress.completed_frame(meta, data, now, captured_at_unix_ms);
        let settled = self.settling.observe_frame(
            now,
            frame.exposure_us,
            frame.gain,
            p90,
            clipped_fraction_bits,
        );
        progress.status.settling_frames = self.settling.received();
        (frame, settled)
    }

    /// End settling with a frame that settled without a further adjustment, else
    /// keep the frame as the latest one.
    pub fn conclude(&mut self, frame: CompletedFrame, settled: bool, adjusted: bool) -> (r: Option<
        CompletedFrame,
    >)
        ensures
            final(self).settling == old(self).settling,
            if settled && !adjusted {
                r == Some(frame) && final(self).latest == old(self).latest
            } else {
                r is None && final(self).latest == Some(frame) && final(self).ready()
            },
    {
        if settled && !adjusted {
            return Some(frame);
        }
        self.latest = Some(frame);
        None
    }
}

/// Why the capture loop ended with an error.
#[derive(Clone, Copy, Debug, PartialEq, Eq, Structural)]
pub enum CaptureFault {
    VideoStopped,
    UploadStopped,
    RetentionStopped,
    /// No frame came within the exposure deadline, in milliseconds.
    Deadline(u64),
    Camera,
    WriterStopped,
}

/// Which helpers of the capture loop have stopped.
#[derive(Clone, Copy, Debug, PartialEq, Eq, Structural)]
pub struct WorkerHealth {
    pub video_finished: bool,
    pub upload_stopped: bool,
    pub retention_stopped: bool,
}

/// What the capture loop does at the top of a round.
#[derive(Debug)]
pub enum CaptureRound {
    Stop,
    Fail(CaptureFault),
    UseFrame(CompletedFrame),
    Poll,
}

/// What the capture loop does after an SDK read.
#[derive(Clone, Copy, Debug, PartialEq, Eq, Structural)]
pub enum CapturePoll {
    Stop,
    Retry,
    Fail(CaptureFault),
    Accept(FrameMeta),
}

/// Why a frame becomes a still, if it does.
#[derive(Clone, Copy, Debug, PartialEq, Eq, Structural)]
pub struct StillDecision {
    pub requested: bool,
    pub periodic: bool,
}

impl StillDecision {
    pub fn is_wanted(&self) -> (r: bool)
        ensures
            r == (self.requested || self.periodic),
    {
        self.requested || self.periodic
    }
}

/// What became of a still that was handed to the writer.
#[derive(Clone, Copy, Debug, PartialEq, Eq, Structural)]
pub enum SendOutcome {
    Queued,
    Full,
    Disconnected,
}

/// The state of continuous capture.
#[derive(Debug)]
pub struct CaptureLoop {
    pub pending: Option<CompletedFrame>,
    pub seen_capture_generation: u64,
    pub next_capture: u128,
    pub interval: u128,
    pub queued: u64,
    pub max_frames: Option<u64>,
}

/// The number that follows, round the end of the range.
pub open spec fn next_generation(generation: u64) -> u64 {
    if generation == u64::MAX {
        0
    } else {
        (generation + 1) as u64
    }
}

impl CaptureLoop {
    /// Continuous capture starts with the frame that settling ended with. No
    /// request was seen yet, so that requests made during startup are kept.
    pub fn new(settled: CompletedFrame, now: u128, interval_ms: u64, max_frames: Option<u64>) -> (r:
        Self)
        ensures
            r.pending == Some(settled),
            r.seen_capture_generation == 0,
            r.next_capture == now,
            r.interval == interval_ms * 1_000_000,
            r.queued == 0,
            r.max_frames == max_frames,
    {
        CaptureLoop {
            pending: Some(settled),
            seen_capture_generation: 0,
            next_capture: now,
            interval: interval_ms as u128 * NANOS_PER_MILLI,
            queued: 0,
            max_frames,
        }
    }

    /// Begin a round: stop on shutdown, fail where a helper stopped, and use the
    /// frame that is already there before reading another.
    pub fn begin_round(&mut self, shutdown: bool, health: WorkerHealth) -> (r: CaptureRound)
        ensures
            if shutdown {
                r == CaptureRound::Stop && *final(self) == *old(self)
            } else if health.video_finished {
                r == CaptureRound::Fail(CaptureFault::VideoStopped) && *final(self) == *old(self)
            } else if health.upload_stopped {
                r == CaptureRound::Fail(CaptureFault::UploadStopped) && *final(self) == *old(self)
            } else if health.retention_stopped {
                r == CaptureRound::Fail(CaptureFault::RetentionStopped) && *final(self) == *old(
                    self,
                )
            } else {
                *final(self) == (CaptureLoop { pending: None, ..*old(self) }) && match old(
                    self,
                ).pending {
                    Some(frame) => r == CaptureRound::UseFrame(frame),
                    None => r == CaptureRound::Poll,
                }
            },
    {
        if shutdown {
            return CaptureRound::Stop;
        }
        if health.video_finished {
            return CaptureRound::Fail(CaptureFault::VideoStopped);
        }
        if health.upload_stopped {
            return CaptureRound::Fail(CaptureFault::UploadStopped);
        }
        if health.retention_stopped {
            return CaptureRound::Fail(CaptureFault::RetentionStopped);
        }
        match self.pending.take() {
            Some(frame) => CaptureRound::UseFrame(frame),
            None => CaptureRound::Poll,
        }
    }

    pub open spec fn decision(
        self,
        now: u128,
        paused: bool,
        capture_generation: u64,
        suspended: bool,
    ) -> StillDecision {
        StillDecision {
            requested: capture_generation != self.seen_capture_generation,
            periodic: !paused && !suspended && now >= self.next_capture,
        }
    }

    /// Decide whether a frame becomes a still: one was requested, or the interval
    /// has passed and capture is neither paused nor suspended.
    pub fn decide(&mut self, now: u128, paused: bool, capture_generation: u64, suspended: bool) -> (r:
        StillDecision)
        ensures
            r == old(self).decision(now, paused, capture_generation, suspended),
            *final(self) == (CaptureLoop {
                seen_capture_generation: if r.requested {
                    next_generation(old(self).seen_capture_generation)
                } else {
                    old(self).seen_capture_generation
                },
                ..*old(self)
            }),
    {
        let requested = capture_generation != self.seen_capture_generation;
        if requested {
            self.seen_capture_generation = self.seen_capture_generation.wrapping_add(1);
        }
        let periodic = !paused && !suspended && now >= self.next_capture;
        StillDecision { requested, periodic }
    }

    pub open spec fn sent(self, decision: StillDecision, now: u128, outcome: SendOutcome) -> Self {
        CaptureLoop {
            queued: if outcome == SendOutcome::Queued {
                (self.queued + 1) as u64
            } else {
                self.queued
            },
            next_capture: if decision.periodic {
                (now + self.interval) as u128
            } else {
                self.next_capture
            },
            ..self
        }
    }

    pub open spec fn limit_reached(self) -> bool {
        self.max_frames matches Some(limit) && self.queued >= limit
    }

    /// Account for a still that was handed to the writer; whether the loop is
    /// done. A full writer drops the still, and the schedule goes on.
    pub fn after_send(&mut self, decision: StillDecision, now: u128, outcome: SendOutcome) -> (r:
        Result<bool, CaptureFault>)
        requires
            old(self).queued < u64::MAX,
            now + old(self).interval <= u128::MAX,
        ensures
            if outcome == SendOutcome::Disconnected {
                r == Err::<bool, CaptureFault>(CaptureFault::WriterStopped) && *final(self) == *old(
                    self,
                )
            } else {
                r == Ok::<bool, CaptureFault>(final(self).limit_reached()) && *final(self) == old(
                    self,
                ).sent(decision, now, outcome)
            },
    {
        match outcome {
            SendOutcome::Queued => {
                self.queued = self.queued + 1;
            },
            SendOutcome::Full => {},
            SendOutcome::Disconnected => {
                return Err(CaptureFault::WriterStopped);
            },
        }
        if decision.periodic {
            self.next_capture = now + self.interval;
        }
        match self.max_frames {
            Some(limit) => Ok(self.queued >= limit),
            None => Ok(false),
        }
    }
}

/// Refresh the deadline before a read; how long the read may block, in
/// milliseconds, unless the deadline has passed.
pub fn before_capture_poll(
    progress: &mut CaptureProgress,
    readings: Readings,
    limits: AutoLimits,
    now: u128,
) -> (r: Result<i32, CaptureFault>)
    ensures
        *final(progress) == old(progress).refreshed(readings, limits),
        if final(progress).wait.expired_at(now as int) {
            r == Err::<i32, CaptureFault>(
                CaptureFault::Deadline(
                    number::saturated_u64(final(progress).wait.deadline() / 1_000_000) as u64,
                ),
            )
        } else {
            r == Ok::<i32, CaptureFault>(
                exposure::poll_timeout(final(progress).status.exposure_us as int) as i32,
            )
        },
{
    progress.refresh(readings, limits);
    if progress.wait.expired(now) {
        return Err(CaptureFault::Deadline(duration_millis(progress.wait.timeout())));
    }
    Ok(poll_timeout_ms(progress.status.exposure_us))
}

/// Refresh the deadline after a read, unless shutdown was asked for meanwhile. A
/// read that timed out is retried until the deadline has passed.
pub fn after_capture_poll(
    progress: &mut CaptureProgress,
    readings: Readings,
    limits: AutoLimits,
    now: u128,
    shutdown: bool,
    outcome: PollOutcome,
) -> (r: CapturePoll)
    ensures
        *final(progress) == (if shutdown {
            *old(progress)
        } else {
            old(progress).refreshed(readings, limits)
        }),
        r == (if shutdown {
            CapturePoll::Stop
        } else {
            match outcome {
                PollOutcome::Frame(meta) => CapturePoll::Accept(meta),
                PollOutcome::TimedOut => if final(progress).wait.expired_at(now as int) {
                    CapturePoll::Fail(
                        CaptureFault::Deadline(
                            number::saturated_u64(
                                final(progress).wait.deadline() / 1_000_000,
                            ) as u64,
                        ),
                    )
                } else {
                    CapturePoll::Retry
                },
                PollOutcome::Failed => CapturePoll::Fail(CaptureFault::Camera),
            }
        }),
{
    if shutdown {
        return CapturePoll::Stop;
    }
    progress.refresh(readings, limits);
    match outcome {
        PollOutcome::Frame(meta) => CapturePoll::Accept(meta),
        PollOutcome::TimedOut => {
            if progress.wait.expired(now) {
                CapturePoll::Fail(CaptureFault::Deadline(duration_millis(progress.wait.timeout())))
            } else {
                CapturePoll::Retry
            }
        },
        PollOutcome::Failed => CapturePoll::Fail(CaptureFault::Camera),
    }
}

/// How many requested stills are still owed.
pub open spec fn outstanding(seen: u64, requested: u64) -> int {
    if requested >= seen {
        requested - seen
    } else {
        requested - seen + 0x1_0000_0000_0000_0000
    }
}

/// Every request is served by exactly one frame, however many were made between
/// two frames, and while capture is paused or suspended too.
pub proof fn law_each_request_is_served_once(
    capture: CaptureLoop,
    now: u128,
    paused: bool,
    requested: u64,
    suspended: bool,
)
    ensures
        ({
            let decision = capture.decision(now, paused, requested, suspended);
            let owed = outstanding(capture.seen_capture_generation, requested);
            &&& decision.requested <==> owed > 0
            &&& decision.requested ==> outstanding(
                next_generation(capture.seen_capture_generation),
                requested,
            ) == owed - 1
        }),
{
}

/// While capture is paused or suspended, a frame becomes a still only on request.
pub proof fn law_paused_capture_needs_a_request(
    capture: CaptureLoop,
    now: u128,
    paused: bool,
    requested: u64,
    suspended: bool,
)
    requires
        paused || suspended,
    ensures
        !capture.decision(now, paused, requested, suspended).periodic,
{
}

/// Two periodic stills lie at least the interval apart.
pub proof fn law_periodic_stills_keep_the_interval(
    capture: CaptureLoop,
    first: u128,
    outcome: SendOutcome,
    second: u128,
    paused: bool,
    requested: u64,
    suspended: bool,
)
    requires
        first + capture.interval <= u128::MAX,
        capture.sent(
            StillDecision { requested: false, periodic: true },
            first,
            outcome,
        ).decision(second, paused, requested, suspended).periodic,
    ensures
        second >= first + capture.interval,
{
}

/// The loop ends with exactly the configured number of stills.
pub proof fn law_frame_limit_is_exact(
    capture: CaptureLoop,
    limit: u64,
    decision: StillDecision,
    now: u128,
    outcome: SendOutcome,
)
    requires
        capture.max_frames == Some(limit),
        capture.queued < limit,
    ensures
        capture.sent(decision, now, outcome).queued <= limit,
        capture.sent(decision, now, outcome).limit_reached() <==> capture.sent(
            decision,
            now,
            outcome,
        ).queued == limit,
{
}

/// The first error of two, in this order.
pub fn first_error(first: Option<String>, second: Option<String>) -> (r: Option<String>)
    ensures
        r == (if first is Some {
            first
        } else {
            second
        }),
{
    match first {
        Some(error) => Some(error),
        None => second,
    }
}

/// The part of an attempt that failed.
#[derive(Clone, Copy, Debug, PartialEq, Eq, Structural)]
pub enum AttemptPart {
    Video,
    Capture,
    Writer,
    Retention,
    Upload,
    Preview,
}

/// How each part of an attempt ended: its error, if it failed.
#[derive(Debug)]
pub struct AttemptErrors {
    pub video: Option<String>,
    pub capture: Option<String>,
    pub writer: Option<String>,
    pub retention: Option<String>,
    pub upload: Option<String>,
    pub preview: Option<String>,
}

/// The error that an attempt ends with: that of the video recorder, of capture,
/// of the still writer, of retention, of upload or of the preview, in this order.
pub fn attempt_result(errors: AttemptErrors) -> (r: Result<(), (AttemptPart, String)>)
    ensures
        match r {
            Ok(_) => errors.video is None && errors.capture is None && errors.writer is None
                && errors.retention is None && errors.upload is None && errors.preview is None,
            Err((part, error)) => match part {
                AttemptPart::Video => errors.video == Some(error),
                AttemptPart::Capture => errors.video is None && errors.capture == Some(error),
                AttemptPart::Writer => errors.video is None && errors.capture is None
                    && errors.writer == Some(error),
                AttemptPart::Retention => errors.video is None && errors.capture is None
                    && errors.writer is None && errors.retention == Some(error),
                AttemptPart::Upload => errors.video is None && errors.capture is None
                    && errors.writer is None && errors.retention is None && errors.upload == Some(
                    error,
                ),
                AttemptPart::Preview => errors.video is None && errors.capture is None
                    && errors.writer is None && errors.retention is None && errors.upload is None
                    && errors.preview == Some(error),
            },
        },
{
    if let Some(error) = errors.video {
        return Err((AttemptPart::Video, error));
    }
    if let Some(error) = errors.capture {
        return Err((AttemptPart::Capture, error));
    }
    if let Some(error) = errors.writer {
        return Err((AttemptPart::Writer, error));
    }
    if let Some(error) = errors.retention {
        return Err((AttemptPart::Retention, error));
    }
    if let Some(error) = errors.upload {
        return Err((AttemptPart::Upload, error));
    }
    match errors.preview {
        Some(error) => Err((AttemptPart::Preview, error)),
        None => Ok(()),
    }
}

/// Which worker stopped after an artifact was saved.
#[derive(Clone, Copy, Debug, PartialEq, Eq, Structural)]
pub enum PublishFault {
    UploadStopped,
    RetentionStopped,
}

/// A saved artifact is recorded whether or not it was known; a stopped upload
/// worker ends the attempt.
pub fn check_enqueued(result: UploadEnqueueResult) -> (r: Result<(), PublishFault>)
    ensures
        r == (if result == UploadEnqueueResult::WorkerStopped {
            Err::<(), PublishFault>(PublishFault::UploadStopped)
        } else {
            Ok::<(), PublishFault>(())
        }),
{
    match result {
        UploadEnqueueResult::Recorded | UploadEnqueueResult::AlreadyRecorded => Ok(()),
        UploadEnqueueResult::WorkerStopped => Err(PublishFault::UploadStopped),
    }
}

/// Retention that is woken or already awake goes on; a stopped worker ends the
/// attempt.
pub fn check_woken(result: RetentionWakeResult) -> (r: Result<(), PublishFault>)
    ensures
        r == (if result == RetentionWakeResult::Stopped {
            Err::<(), PublishFault>(PublishFault::RetentionStopped)
        } else {
            Ok::<(), PublishFault>(())
        }),
{
    if result == RetentionWakeResult::Stopped {
        Err(PublishFault::RetentionStopped)
    } else {
        Ok(())
    }
}

/// Who decides what retention may delete.
#[derive(Clone, Copy, Debug, PartialEq, Eq, Structural)]
pub enum AuthorityChoice {
    UploadLedger,
    ProtectAll,
    LocalOnly,
}

/// The ledger decides while uploads run. Where uploads are off but an earlier
/// ledger remains, every capture is protected.
pub fn choose_retention_authority(uploads_enabled: bool, ledger_remains: bool) -> (r:
    AuthorityChoice)
    ensures
        r == (if uploads_enabled {
            AuthorityChoice::UploadLedger
        } else if ledger_remains {
            AuthorityChoice::ProtectAll
        } else {
            AuthorityChoice::LocalOnly
        }),
{
    if uploads_enabled {
        AuthorityChoice::UploadLedger
    } else if ledger_remains {
        AuthorityChoice::ProtectAll
    } else {
        AuthorityChoice::LocalOnly
    }
}

/// The files that tell of an upload ledger: the database and what stands beside it.
pub open spec fn ledger_artifacts(database: Seq<char>) -> Seq<Seq<char>> {
    seq![database, database + "-wal"@, database + "-shm"@, database + ".maintenance"@]
}

/// Whether these are the files that tell of a ledger, in order.
pub open spec fn are_ledger_files(files: Seq<String>, database: Seq<char>) -> bool {
    files.len() == 4 && forall|i: int|
        0 <= i < 4 ==> (#[trigger] files[i])@ == ledger_artifacts(database)[i]
}

pub fn ledger_artifact_paths(database: &str) -> (r: Vec<String>)
    ensures
        r@.len() == 4,
        forall|i: int| 0 <= i < 4 ==> (#[trigger] r@[i])@ == ledger_artifacts(database@)[i],
        are_ledger_files(r@, database@),
{
    let mut paths: Vec<String> = Vec::new();
    paths.push(suffixed(database, ""));
    paths.push(suffixed(database, "-wal"));
    paths.push(suffixed(database, "-shm"));
    paths.push(suffixed(database, ".maintenance"));
    proof {
        reveal_strlit("");
        assert(database@ + ""@ =~= database@);
    }
    paths
}

fn suffixed(path: &str, suffix: &str) -> (r: String)
    ensures
        r@ == path@ + suffix@,
{
    let mut text = path.to_owned();
    text.append(suffix);
    text
}

/// Whether a frame limit is accepted: none, or at least one.
pub fn check_max_frames(max_frames: Option<u64>) -> (r: bool)
    ensures
        r == (max_frames != Some(0u64)),
{
    match max_frames {
        Some(limit) => limit != 0,
        None => true,
    }
}

/// How the bytes of a frame become RGB pixels.
#[derive(Clone, Copy, Debug, PartialEq, Eq, Structural)]
pub enum PixelSource {
    Demosaic,
    Rgb,
    Gray,
}

/// How a single snapshot is read; sixteen-bit frames are not supported there.
pub fn snapshot_pixels(image_type: ImageType) -> (r: Option<PixelSource>)
    ensures
        r == (match image_type {
            ImageType::Raw8 => Some(PixelSource::Demosaic),
            ImageType::Rgb24 => Some(PixelSource::Rgb),
            ImageType::Y8 => Some(PixelSource::Gray),
            ImageType::Raw16 => None,
        }),
{
    match image_type {
        ImageType::Raw8 => Some(PixelSource::Demosaic),
        ImageType::Rgb24 => Some(PixelSource::Rgb),
        ImageType::Y8 => Some(PixelSource::Gray),
        ImageType::Raw16 => None,
    }
}

/// What an exposure readback is taken for: itself where it is positive, else the
/// longest exposure, and at least a microsecond.
pub open spec fn reads_as(reading: Option<i64>, longest_us: i64, exposure_us: i64) -> bool {
    &&& reading matches Some(value) ==> (value > 0 ==> exposure_us == value)
    &&& (reading is None || reading->0 <= 0) ==> exposure_us >= 1 && exposure_us >= longest_us && (
    exposure_us == 1 || exposure_us == longest_us)
}

/// An attempt starts settling with what the camera reads, and with no frame.
pub proof fn law_attempt_starts_settling(
    readings: Readings,
    limits: AutoLimits,
    session_generation: u64,
    minimum_frames: u32,
    r: CaptureProgress,
)
    requires
        call_ensures(
            CaptureProgress::new,
            (readings, limits, session_generation, minimum_frames),
            r,
        ),
    ensures
        r.status.settling,
        r.status.settling_frames == 0,
        r.status.session_generation == session_generation,
        reads_as(readings.exposure_us, limits.max_exposure_us, r.status.exposure_us),
        r.wait.exposure_us == r.status.exposure_us,
        r.wait.observed_exposure_us == r.status.exposure_us,
        r.wait.previous_frame_exposure_us == r.status.exposure_us,
        r.wait.last_frame_at == 0,
        r.status.max_exposure_us == limits.max_exposure_us,
        readings.gain matches Some(gain) ==> r.status.gain == gain,
        readings.gain is None ==> r.status.gain == limits.min_gain,
        r.status.settling_min_frames >= 4,
        r.status.settling_min_frames >= minimum_frames,
        r.status.settling_min_frames == 4 || r.status.settling_min_frames == minimum_frames,
{
}

/// A refresh takes the latest readings over, and no reading lets a frame in flight
/// fail earlier.
pub proof fn law_refresh_takes_the_readings(readings: Readings, limits: AutoLimits)
    ensures
        forall|p: &mut CaptureProgress|
            #[trigger] call_ensures(CaptureProgress::refresh, (p, readings, limits), ()) ==> {
                &&& reads_as(
                    readings.exposure_us,
                    limits.max_exposure_us,
                    final(p).status.exposure_us,
                )
                &&& final(p).wait.exposure_us == final(p).status.exposure_us
                &&& final(p).wait.observed_exposure_us >= p.wait.observed_exposure_us
                &&& final(p).wait.observed_exposure_us >= final(p).status.exposure_us
                &&& final(p).wait.observed_exposure_us == p.wait.observed_exposure_us || final(p).wait.observed_exposure_us == final(p).status.exposure_us
                &&& final(p).wait.last_frame_at == p.wait.last_frame_at
                &&& readings.gain matches Some(gain) ==> final(p).status.gain == gain
                &&& readings.gain is None ==> final(p).status.gain == p.status.gain
                &&& final(p).status.settling == p.status.settling
                &&& final(p).status.settling_frames == p.status.settling_frames
                &&& final(p).status.max_exposure_us == p.status.max_exposure_us
            },
{
}

/// Clients see how long the frame has been waited for, and how long it may take, in
/// whole milliseconds.
pub proof fn law_published_wait_is_in_milliseconds(
    progress: &CaptureProgress,
    now: u128,
    r: StatusExposure,
)
    requires
        call_ensures(CaptureProgress::published, (progress, now), r),
        now < 1_000_000_000_000_000_000_000_000,
    ensures
        now < progress.wait.last_frame_at ==> r.wait_elapsed_ms == 0,
        now >= progress.wait.last_frame_at ==> r.wait_elapsed_ms * 1_000_000 <= now
            - progress.wait.last_frame_at < (r.wait_elapsed_ms + 1) * 1_000_000,
        r.frame_timeout_ms >= 5_000,
        500 * (r.frame_timeout_ms - 4_999) > progress.wait.observed_exposure_us,
        500 * (r.frame_timeout_ms - 4_999) > progress.wait.previous_frame_exposure_us,
        500 * (r.frame_timeout_ms - 5_000) <= 1 || 500 * (r.frame_timeout_ms - 5_000)
            <= progress.wait.observed_exposure_us || 500 * (r.frame_timeout_ms - 5_000)
            <= progress.wait.previous_frame_exposure_us,
        r.exposure_us == progress.status.exposure_us,
        r.gain == progress.status.gain,
        r.settling == progress.status.settling,
        r.settling_frames == progress.status.settling_frames,
        r.session_generation == progress.status.session_generation,
{
}

/// A complete frame owns the bytes it came with and the telemetry of its moment, and
/// the wait for the next one starts then.
pub proof fn law_complete_frame_owns_its_bytes(
    meta: FrameMeta,
    now: u128,
    captured_at_unix_ms: u64,
    r: CompletedFrame,
)
    ensures
        forall|p: &mut CaptureProgress, data: &mut Vec<u8>|
            #[trigger] call_ensures(
                CaptureProgress::completed_frame,
                (p, meta, data, now, captured_at_unix_ms),
                r,
            ) ==> {
                &&& r.data@ == data@
                &&& final(data)@.len() == 0
                &&& r.meta == meta
                &&& r.captured_at_unix_ms == captured_at_unix_ms
                &&& r.exposure_us == p.status.exposure_us
                &&& r.gain == p.status.gain
                &&& final(p).wait.last_frame_at == now
                &&& final(p).wait.previous_frame_exposure_us == p.wait.observed_exposure_us
                &&& final(p).wait.observed_exposure_us == p.wait.exposure_us
                &&& final(p).wait.exposure_us == p.wait.exposure_us
                &&& final(p).status == p.status
            },
{
}

/// Whether the frame in flight is overdue: nothing came for five seconds and twice the
/// longest exposure that it can have had.
pub open spec fn is_overdue(wait: FrameWait, now: int) -> bool {
    &&& now - wait.last_frame_at >= 5_000_002_000
    &&& now - wait.last_frame_at >= 5_000_000_000 + 2_000 * wait.observed_exposure_us
    &&& now - wait.last_frame_at >= 5_000_000_000 + 2_000 * wait.previous_frame_exposure_us
}

proof fn lemma_overdue(wait: FrameWait, now: int)
    requires
        now >= 0,
    ensures
        wait.expired_at(now) <==> is_overdue(wait, now),
{
}

/// While exposure settles, the attempt reads on until the recorder stops, it is
/// cancelled, a frame is overdue, or the time to settle is over and a frame is there,
/// in this order.
pub proof fn law_settling_reads_on_until_it_is_over(
    readings: Readings,
    now: u128,
    video_finished: bool,
    cancelled: bool,
    r: SettleStep,
)
    ensures
        forall|s: &mut SettleLoop, p: &mut CaptureProgress|
            #[trigger] call_ensures(
                SettleLoop::before_poll,
                (s, p, readings, now, video_finished, cancelled),
                r,
            ) ==> {
                let overdue = is_overdue(final(p).wait, now as int);
                let over = now >= s.settling.deadline && s.settling.received > 0;
                &&& r is VideoStopped <==> video_finished
                &&& r is Cancelled <==> !video_finished && cancelled
                &&& r is Stalled <==> !video_finished && !cancelled && overdue
                &&& r is UseLatestFrame <==> !video_finished && !cancelled && !overdue && over
                &&& r is Poll <==> !video_finished && !cancelled && !overdue && !over
                &&& r matches SettleStep::Stalled(_, received) ==> received == s.settling.received
                &&& r matches SettleStep::UseLatestFrame(frame) ==> frame == s.latest && frame
                    is Some
                &&& r matches SettleStep::Poll(millis) ==> 500 <= millis <= 2_000
                &&& final(s).settling == s.settling
                &&& r !is UseLatestFrame ==> final(s).latest == s.latest
            },
{
    assert forall|s: &mut SettleLoop, p: &mut CaptureProgress|
        #[trigger] call_ensures(
            SettleLoop::before_poll,
            (s, p, readings, now, video_finished, cancelled),
            r,
        ) implies {
        let overdue = is_overdue(final(p).wait, now as int);
        let over = now >= s.settling.deadline && s.settling.received > 0;
        &&& r is VideoStopped <==> video_finished
        &&& r is Cancelled <==> !video_finished && cancelled
        &&& r is Stalled <==> !video_finished && !cancelled && overdue
        &&& r is UseLatestFrame <==> !video_finished && !cancelled && !overdue && over
        &&& r is Poll <==> !video_finished && !cancelled && !overdue && !over
        &&& r matches SettleStep::Stalled(_, received) ==> received == s.settling.received
        &&& r matches SettleStep::UseLatestFrame(frame) ==> frame == s.latest && frame is Some
        &&& r matches SettleStep::Poll(millis) ==> 500 <= millis <= 2_000
        &&& final(s).settling == s.settling
        &&& r !is UseLatestFrame ==> final(s).latest == s.latest
    } by {
        lemma_overdue(final(p).wait, now as int);
    }
}

/// A read that came back while exposure settles: cancellation comes first, a frame is
/// accepted, a timeout is retried, and a failure is one.
pub proof fn law_settling_read_is_answered(
    s: &SettleLoop,
    readings: Readings,
    cancelled: bool,
    outcome: PollOutcome,
    r: SettlePoll,
)
    ensures
        forall|p: &mut CaptureProgress|
            #[trigger] call_ensures(SettleLoop::after_poll, (s, p, readings, cancelled, outcome), r)
                ==> {
                &&& cancelled <==> r is Cancelled
                &&& !cancelled && outcome is TimedOut <==> r is Retry
                &&& !cancelled && outcome is Failed <==> r is Failed
                &&& !cancelled && outcome is Frame <==> r is Accept
                &&& r matches SettlePoll::Accept(meta) ==> outcome == PollOutcome::Frame(meta)
                &&& cancelled ==> *final(p) == *p
                &&& !cancelled ==> reads_as(
                    readings.exposure_us,
                    s.settling.limits.max_exposure_us,
                    final(p).status.exposure_us,
                )
            },
{
}

/// A frame settles the exposure only where enough frames came, the last three were
/// steady, and five seconds went by; each is counted once.
pub proof fn law_settling_frame_is_counted(
    meta: FrameMeta,
    p90: u8,
    clipped_fraction_bits: u32,
    now: u128,
    captured_at_unix_ms: u64,
    r: (CompletedFrame, bool),
)
    ensures
        forall|s: &mut SettleLoop, p: &mut CaptureProgress, data: &mut Vec<u8>|
            #[trigger] call_ensures(
                SettleLoop::accept_frame,
                (s, p, meta, data, p90, clipped_fraction_bits, now, captured_at_unix_ms),
                r,
            ) ==> {
                &&& r.0.data@ == data@
                &&& r.0.exposure_us == p.status.exposure_us
                &&& r.0.gain == p.status.gain
                &&& r.0.captured_at_unix_ms == captured_at_unix_ms
                &&& s.settling.received < u32::MAX ==> final(s).settling.received
                    == s.settling.received + 1
                &&& final(p).status.settling_frames == final(s).settling.received
                &&& final(p).wait.last_frame_at == now
                &&& final(s).settling.previous == Some((p.status.exposure_us, p.status.gain, p90))
                &&& final(s).settling.minimum_frames == s.settling.minimum_frames
                &&& final(s).settling.deadline == s.settling.deadline
                &&& final(s).latest == s.latest
                &&& r.1 ==> final(s).settling.received >= s.settling.minimum_frames && final(s).settling.stable_samples >= 3 && now >= 5_000_000_000
                &&& s.settling.previous is None ==> !r.1
            },
{
}

/// A settled frame ends settling unless it led to a further adjustment; any other frame
/// is kept as the latest.
pub proof fn law_settling_ends_with_a_frame(
    frame: CompletedFrame,
    settled: bool,
    adjusted: bool,
    r: Option<CompletedFrame>,
)
    ensures
        forall|s: &mut SettleLoop|
            #[trigger] call_ensures(SettleLoop::conclude, (s, frame, settled, adjusted), r) ==> {
                &&& r is Some <==> settled && !adjusted
                &&& r matches Some(given) ==> given == frame
                &&& r is None ==> final(s).latest == Some(frame)
                &&& final(s).settling == s.settling
            },
{
}

/// A new settling loop has no frame, and waits for at least four.
pub proof fn law_settling_starts_empty(minimum_frames: u32, limits: AutoLimits, r: SettleLoop)
    ensures
        forall|p: &mut CaptureProgress|
            #[trigger] call_ensures(SettleLoop::new, (minimum_frames, limits, p), r) ==> {
                &&& r.latest is None
                &&& r.settling.received == 0
                &&& r.settling.stable_samples == 0
                &&& r.settling.previous is None
                &&& r.settling.limits == limits
                &&& r.settling.minimum_frames >= 4
                &&& r.settling.minimum_frames >= minimum_frames
                &&& r.settling.minimum_frames == 4 || r.settling.minimum_frames == minimum_frames
                &&& r.settling.deadline >= 5_000_000_000
                &&& 1 <= limits.max_exposure_us <= 1_000_000_000 ==> r.settling.deadline
                    == 5_000_000_000 + 1_000 * (limits.max_exposure_us * (
                r.settling.minimum_frames + 4))
                &&& final(p).status.settling_min_frames == r.settling.minimum_frames
                &&& final(p).wait == p.wait
            },
{
    assert forall|p: &mut CaptureProgress|
        #[trigger] call_ensures(SettleLoop::new, (minimum_frames, limits, p), r) && 1
            <= limits.max_exposure_us <= 1_000_000_000 implies r.settling.deadline == 5_000_000_000
        + 1_000 * (limits.max_exposure_us * (r.settling.minimum_frames + 4)) by {
        let frames = r.settling.minimum_frames + 4;
        let longest = limits.max_exposure_us as int;
        assert(0 <= longest * frames <= 1_000_000_000 * frames) by (nonlinear_arith)
            requires
                1 <= longest <= 1_000_000_000,
                frames >= 0,
        ;
    }
}

/// Continuous capture starts with the settled frame, which is due at once.
pub proof fn law_capture_starts_with_the_settled_frame(
    settled: CompletedFrame,
    now: u128,
    interval_ms: u64,
    max_frames: Option<u64>,
    r: CaptureLoop,
)
    requires
        call_ensures(CaptureLoop::new, (settled, now, interval_ms, max_frames), r),
    ensures
        r.pending == Some(settled),
        r.next_capture <= now,
        r.interval == interval_ms * 1_000_000,
        r.queued == 0,
        r.seen_capture_generation == 0,
        r.max_frames == max_frames,
{
}

/// A round stops on shutdown before all else, fails where a helper stopped, and takes
/// the frame that is there before it reads another.
pub proof fn law_round_uses_the_frame_that_is_there(
    shutdown: bool,
    health: WorkerHealth,
    r: CaptureRound,
)
    ensures
        forall|s: &mut CaptureLoop|
            #[trigger] call_ensures(CaptureLoop::begin_round, (s, shutdown, health), r) ==> {
                let sound = !health.video_finished && !health.upload_stopped
                    && !health.retention_stopped;
                &&& r is Stop <==> shutdown
                &&& r is Fail <==> !shutdown && !sound
                &&& r is UseFrame <==> !shutdown && sound && s.pending is Some
                &&& r is Poll <==> !shutdown && sound && s.pending is None
                &&& r matches CaptureRound::UseFrame(frame) ==> s.pending == Some(frame) && final(s).pending is None
                &&& r matches CaptureRound::Fail(fault) ==> {
                    &&& fault is VideoStopped <==> health.video_finished
                    &&& fault is UploadStopped <==> !health.video_finished && health.upload_stopped
                    &&& fault is RetentionStopped <==> !health.video_finished
                        && !health.upload_stopped
                }
                &&& r is Stop || r is Fail ==> final(s).pending == s.pending
                &&& final(s).queued == s.queued
                &&& final(s).next_capture == s.next_capture
                &&& final(s).seen_capture_generation == s.seen_capture_generation
                &&& final(s).interval == s.interval
                &&& final(s).max_frames == s.max_frames
            },
{
}

/// A frame becomes a still where one is requested, or where one is due and capture is
/// neither paused nor suspended. A decision uses up one request at most.
pub proof fn law_still_is_taken_when_asked_or_due(
    now: u128,
    paused: bool,
    capture_generation: u64,
    suspended: bool,
    r: StillDecision,
    wanted: bool,
)
    requires
        call_ensures(StillDecision::is_wanted, (&r,), wanted),
    ensures
        forall|s: &mut CaptureLoop|
            #[trigger] call_ensures(
                CaptureLoop::decide,
                (s, now, paused, capture_generation, suspended),
                r,
            ) ==> {
                &&& r.requested <==> capture_generation != s.seen_capture_generation
                &&& r.periodic <==> !paused && !suspended && now >= s.next_capture
                &&& wanted <==> r.requested || r.periodic
                &&& r.requested && s.seen_capture_generation < u64::MAX ==> final(s).seen_capture_generation == s.seen_capture_generation + 1
                &&& r.requested && s.seen_capture_generation == u64::MAX ==> final(s).seen_capture_generation == 0
                &&& !r.requested ==> final(s).seen_capture_generation == s.seen_capture_generation
                &&& final(s).next_capture == s.next_capture
                &&& final(s).queued == s.queued
                &&& final(s).pending == s.pending
            },
{
}

/// A still that was queued counts, one that was dropped does not; a periodic one moves
/// the schedule by the interval, a requested one does not; and the loop is done exactly
/// when as many as were asked for are queued.
pub proof fn law_sent_still_is_counted(
    decision: StillDecision,
    now: u128,
    outcome: SendOutcome,
    r: Result<bool, CaptureFault>,
)
    ensures
        forall|s: &mut CaptureLoop|
            #[trigger] call_ensures(CaptureLoop::after_send, (s, decision, now, outcome), r)
                && s.queued < u64::MAX && now + s.interval <= u128::MAX ==> {
                &&& r is Err <==> outcome is Disconnected
                &&& r matches Err(fault) ==> fault is WriterStopped && *final(s) == *s
                &&& outcome is Queued ==> final(s).queued == s.queued + 1
                &&& outcome is Full ==> final(s).queued == s.queued
                &&& outcome !is Disconnected && decision.periodic ==> final(s).next_capture == now
                    + s.interval
                &&& !decision.periodic ==> final(s).next_capture == s.next_capture
                &&& r matches Ok(done) ==> (done <==> (s.max_frames is Some && final(s).queued
                    >= s.max_frames->0))
                &&& final(s).seen_capture_generation == s.seen_capture_generation
                &&& final(s).interval == s.interval
                &&& final(s).max_frames == s.max_frames
                &&& final(s).pending == s.pending
            },
{
}

/// Before a read, capture fails exactly where the frame in flight is overdue; else it
/// reads for half a second to two seconds.
pub proof fn law_overdue_frame_fails_capture(
    readings: Readings,
    limits: AutoLimits,
    now: u128,
    r: Result<i32, CaptureFault>,
)
    ensures
        forall|p: &mut CaptureProgress|
            #[trigger] call_ensures(before_capture_poll, (p, readings, limits, now), r) ==> {
                &&& r is Err <==> is_overdue(final(p).wait, now as int)
                &&& r matches Err(fault) ==> fault is Deadline
                &&& r matches Ok(millis) ==> 500 <= millis <= 2_000
                &&& reads_as(
                    readings.exposure_us,
                    limits.max_exposure_us,
                    final(p).status.exposure_us,
                )
                &&& final(p).wait.last_frame_at == p.wait.last_frame_at
            },
{
    assert forall|p: &mut CaptureProgress|
        #[trigger] call_ensures(before_capture_poll, (p, readings, limits, now), r) implies (r is Err
        <==> is_overdue(final(p).wait, now as int)) by {
        lemma_overdue(final(p).wait, now as int);
    }
}

/// After a read, shutdown comes first, a frame is accepted, a failure is one, and a
/// timeout is retried until the frame in flight is overdue.
pub proof fn law_capture_read_is_answered(
    readings: Readings,
    limits: AutoLimits,
    now: u128,
    shutdown: bool,
    outcome: PollOutcome,
    r: CapturePoll,
)
    ensures
        forall|p: &mut CaptureProgress|
            #[trigger] call_ensures(
                after_capture_poll,
                (p, readings, limits, now, shutdown, outcome),
                r,
            ) ==> {
                let overdue = is_overdue(final(p).wait, now as int);
                &&& r is Stop <==> shutdown
                &&& r is Accept <==> !shutdown && outcome is Frame
                &&& r matches CapturePoll::Accept(meta) ==> outcome == PollOutcome::Frame(meta)
                &&& r is Retry <==> !shutdown && outcome is TimedOut && !overdue
                &&& r == CapturePoll::Fail(CaptureFault::Camera) <==> !shutdown && outcome is Failed
                &&& r is Fail <==> !shutdown && (outcome is Failed || (outcome is TimedOut
                    && overdue))
                &&& r matches CapturePoll::Fail(fault) ==> fault is Camera || fault is Deadline
                &&& shutdown ==> *final(p) == *p
            },
{
    assert forall|p: &mut CaptureProgress|
        #[trigger] call_ensures(
            after_capture_poll,
            (p, readings, limits, now, shutdown, outcome),
            r,
        ) implies {
        let overdue = is_overdue(final(p).wait, now as int);
        &&& r is Stop <==> shutdown
        &&& r is Accept <==> !shutdown && outcome is Frame
        &&& r matches CapturePoll::Accept(meta) ==> outcome == PollOutcome::Frame(meta)
        &&& r is Retry <==> !shutdown && outcome is TimedOut && !overdue
        &&& r == CapturePoll::Fail(CaptureFault::Camera) <==> !shutdown && outcome is Failed
        &&& r is Fail <==> !shutdown && (outcome is Failed || (outcome is TimedOut && overdue))
        &&& r matches CapturePoll::Fail(fault) ==> fault is Camera || fault is Deadline
        &&& shutdown ==> *final(p) == *p
    } by {
        lemma_overdue(final(p).wait, now as int);
    }
}

/// An attempt succeeds exactly where each part did, and else ends with an error of one
/// of its parts: the recorder's, else that of capture, else another.
pub proof fn law_attempt_fails_with_its_first_error(
    errors: AttemptErrors,
    r: Result<(), (AttemptPart, String)>,
)
    requires
        call_ensures(attempt_result, (errors,), r),
    ensures
        r is Ok <==> errors.video is None && errors.capture is None && errors.writer is None
            && errors.retention is None && errors.upload is None && errors.preview is None,
        errors.video matches Some(error) ==> r == Err::<(), (AttemptPart, String)>(
            (AttemptPart::Video, error),
        ),
        errors.video is None ==> (errors.capture matches Some(error) ==> r == Err::<
            (),
            (AttemptPart, String),
        >((AttemptPart::Capture, error))),
        errors.video is None && errors.capture is None ==> (errors.writer matches Some(error) ==> r
            == Err::<(), (AttemptPart, String)>((AttemptPart::Writer, error))),
        errors.video is None && errors.capture is None && errors.writer is None ==> (
        errors.retention matches Some(error) ==> r == Err::<(), (AttemptPart, String)>(
            (AttemptPart::Retention, error),
        )),
        errors.video is None && errors.capture is None && errors.writer is None && errors.retention
            is None ==> (errors.upload matches Some(error) ==> r == Err::<
            (),
            (AttemptPart, String),
        >((AttemptPart::Upload, error))),
        errors.preview is Some ==> r is Err,
{
}

/// The first of two errors is the one that counts.
pub proof fn law_first_error_counts(
    first: Option<String>,
    second: Option<String>,
    r: Option<String>,
)
    requires
        call_ensures(first_error, (first, second), r),
    ensures
        r is None <==> first is None && second is None,
        first is Some ==> r == first,
        first is None ==> r == second,
{
}

/// A saved artifact ends the attempt exactly where the worker that it goes to stopped.
pub proof fn law_stopped_worker_ends_the_attempt(
    enqueued: UploadEnqueueResult,
    checked: Result<(), PublishFault>,
    woken: RetentionWakeResult,
    awake: Result<(), PublishFault>,
)
    requires
        call_ensures(check_enqueued, (enqueued,), checked),
        call_ensures(check_woken, (woken,), awake),
    ensures
        checked is Err <==> enqueued is WorkerStopped,
        checked matches Err(fault) ==> fault is UploadStopped,
        awake is Err <==> woken is Stopped,
        awake matches Err(fault) ==> fault is RetentionStopped,
{
}

/// Captures may go by local rules alone only where nothing is uploaded and no ledger is
/// left.
pub proof fn law_ledger_outlives_uploads(
    uploads_enabled: bool,
    ledger_remains: bool,
    r: AuthorityChoice,
)
    requires
        call_ensures(choose_retention_authority, (uploads_enabled, ledger_remains), r),
    ensures
        r is UploadLedger <==> uploads_enabled,
        r is LocalOnly <==> !uploads_enabled && !ledger_remains,
        r is ProtectAll <==> !uploads_enabled && ledger_remains,
{
}

/// A frame limit is refused only where it is zero.
pub proof fn law_frame_limit_is_positive(max_frames: Option<u64>, r: bool)
    requires
        call_ensures(check_max_frames, (max_frames,), r),
    ensures
        max_frames is None ==> r,
        max_frames matches Some(limit) ==> (r <==> limit > 0),
{
}

/// Only sixteen-bit frames cannot become a snapshot.
pub proof fn law_snapshot_reads_every_eight_bit_format(
    image_type: ImageType,
    r: Option<PixelSource>,
)
    requires
        call_ensures(snapshot_pixels, (image_type,), r),
    ensures
        r is None <==> image_type is Raw16,
        r == Some(PixelSource::Demosaic) <==> image_type is Raw8,
        r == Some(PixelSource::Rgb) <==> image_type is Rgb24,
        r == Some(PixelSource::Gray) <==> image_type is Y8,
{
}

/// A ledger is told by its database, its log, its index and its maintenance marker.
pub proof fn law_ledger_is_told_by_its_files(database: &str, r: Vec<String>)
    requires
        call_ensures(ledger_artifact_paths, (database,), r),
    ensures
        r@.len() == 4,
        r@[0]@ == database@,
        r@[1]@ == database@ + "-wal"@,
        r@[2]@ == database@ + "-shm"@,
        r@[3]@ == database@ + ".maintenance"@,
{
    assert(are_ledger_files(r@, database@));
    assert(r@[0]@ == ledger_artifacts(database@)[0]);
    assert(r@[1]@ == ledger_artifacts(database@)[1]);
    assert(r@[2]@ == ledger_artifacts(database@)[2]);
    assert(r@[3]@ == ledger_artifacts(database@)[3]);
}

/// A frame that is accepted while settling is judged as the settling exposure judges it.
pub proof fn law_settling_frame_is_judged_by_its_exposure(
    meta: FrameMeta,
    p90: u8,
    clipped_fraction_bits: u32,
    now: u128,
    captured_at_unix_ms: u64,
    exposure_us: i64,
    gain: i64,
    r: (CompletedFrame, bool),
    settled: bool,
)
    ensures
        forall|
            s: &mut SettleLoop,
            p: &mut CaptureProgress,
            data: &mut Vec<u8>,
            judge: &mut Settling,
        |
            #[trigger] call_ensures(
                SettleLoop::accept_frame,
                (s, p, meta, data, p90, clipped_fraction_bits, now, captured_at_unix_ms),
                r,
            ) && #[trigger] call_ensures(
                Settling::observe_frame,
                (judge, now, exposure_us, gain, p90, clipped_fraction_bits),
                settled,
            ) && *judge == s.settling && p.status.exposure_us == exposure_us && p.status.gain
                == gain ==> {
                &&& r.1 == settled
                &&& final(s).settling == *final(judge)
            },
{
}

} // verus!
