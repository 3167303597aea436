//! Monotonic timing policy shared by startup settling and continuous capture.
//!
//! The SDK's short read timeout only bounds cancellation latency. It is not the
//! deadline for a complete exposure, which can span many such polls.
//!
//! Points in time and durations are whole nanoseconds since the camera attempt
//! started.

use vstd::prelude::*;

use crate::number;
use crate::number::{
    clamp_i64, distance_i64, distance_u8, magnitude, max_i64, max_u32, max_u64, saturating_add_i64,
    saturating_mul_i64, saturating_mul_u64, saturating_sub_i64, trunc_div_i64,
};

verus! {

pub const NANOS_PER_MICRO: u128 = 1_000;

pub const NANOS_PER_MILLI: u128 = 1_000_000;

pub const NANOS_PER_SECOND: u128 = 1_000_000_000;

/// The exposure and gain range that automatic exposure may use.
#[derive(Clone, Copy, Debug)]
pub struct AutoLimits {
    pub min_exposure_us: i64,
    pub max_exposure_us: i64,
    pub min_gain: i64,
    pub max_gain: i64,
    pub target_brightness: i64,
}

/// Whole milliseconds of a duration, saturating at `u64::MAX`.
pub fn duration_millis(nanos: u128) -> (r: u64)
    ensures
        r == number::saturated_u64(nanos as int / 1_000_000),
{
    let millis: u128 = nanos / NANOS_PER_MILLI;
    if millis > u64::MAX as u128 {
        u64::MAX
    } else {
        millis as u64
    }
}

/// How long one SDK read may block, in milliseconds.
pub open spec fn poll_timeout(exposure_us: int) -> int {
    number::clamped(number::spec_max(exposure_us, 1) / 1_000 + 500, 500, 2_000)
}

pub fn poll_timeout_ms(exposure_us: i64) -> (r: i32)
    ensures
        r == poll_timeout(exposure_us as int),
        500 <= r <= 2_000,
{
    let millis: i64 = max_i64(exposure_us, 1) / 1_000 + 500;
    clamp_i64(millis, 500, 2_000) as i32
}

/// A complete frame may take twice its exposure plus five seconds.
pub open spec fn frame_deadline(exposure_us: int) -> int {
    2 * number::spec_max(exposure_us, 1) * 1_000 + 5_000_000_000
}

fn frame_timeout(exposure_us: i64) -> (r: u128)
    ensures
        r == frame_deadline(exposure_us as int),
{
    let micros: u128 = max_i64(exposure_us, 1) as u128;
    micros * NANOS_PER_MICRO * 2 + 5 * NANOS_PER_SECOND
}

/// The deadline of the frame that the camera is currently exposing.
#[derive(Clone, Copy, Debug)]
pub struct FrameWait {
    pub last_frame_at: u128,
    pub exposure_us: i64,
    pub observed_exposure_us: i64,
    pub previous_frame_exposure_us: i64,
}

impl FrameWait {
    /// The longest exposure that the frame in flight may be using.
    pub open spec fn longest_exposure(self) -> int {
        number::spec_max(self.observed_exposure_us as int, self.previous_frame_exposure_us as int)
    }

    pub open spec fn deadline(self) -> int {
        frame_deadline(self.longest_exposure())
    }

    pub open spec fn elapsed_at(self, now: int) -> int {
        number::spec_max(now - self.last_frame_at, 0)
    }

    pub open spec fn expired_at(self, now: int) -> bool {
        self.elapsed_at(now) >= self.deadline()
    }

    pub fn new(exposure_us: i64) -> (r: Self)
        ensures
            r.last_frame_at == 0,
            r.exposure_us == number::spec_max(exposure_us as int, 1),
            r.observed_exposure_us == r.exposure_us,
            r.previous_frame_exposure_us == r.exposure_us,
    {
        let exposure_us: i64 = max_i64(exposure_us, 1);
        Self {
            last_frame_at: 0,
            exposure_us,
            observed_exposure_us: exposure_us,
            previous_frame_exposure_us: exposure_us,
        }
    }

    /// Never shorten an in-flight deadline when asynchronous SDK telemetry
    /// switches from a dark exposure to a bright one.
    pub fn observe_exposure(&mut self, exposure_us: i64)
        ensures
            final(self).exposure_us == number::spec_max(exposure_us as int, 1),
            final(self).observed_exposure_us == number::spec_max(
                old(self).observed_exposure_us as int,
                number::spec_max(exposure_us as int, 1),
            ),
            final(self).previous_frame_exposure_us == old(self).previous_frame_exposure_us,
            final(self).last_frame_at == old(self).last_frame_at,
            final(self).deadline() >= old(self).deadline(),
    {
        self.exposure_us = max_i64(exposure_us, 1);
        self.observed_exposure_us = max_i64(self.observed_exposure_us, self.exposure_us);
    }

    /// Start waiting for the next frame. One completed wait's telemetry is
    /// retained so that an already queued long exposure can drain; it is not
    /// fed back into itself, so that daylight frames recover a short deadline.
    pub fn frame_received(&mut self, now: u128)
        ensures
            final(self).last_frame_at == now,
            final(self).exposure_us == old(self).exposure_us,
            final(self).previous_frame_exposure_us == old(self).observed_exposure_us,
            final(self).observed_exposure_us == old(self).exposure_us,
    {
        self.last_frame_at = now;
        self.previous_frame_exposure_us = self.observed_exposure_us;
        self.observed_exposure_us = self.exposure_us;
    }

    pub fn elapsed(&self, now: u128) -> (r: u128)
        ensures
            r == self.elapsed_at(now as int),
    {
        if now >= self.last_frame_at {
            now - self.last_frame_at
        } else {
            0
        }
    }

    pub fn timeout(&self) -> (r: u128)
        ensures
            r == self.deadline(),
    {
        frame_timeout(max_i64(self.observed_exposure_us, self.previous_frame_exposure_us))
    }

    pub fn expired(&self, now: u128) -> (r: bool)
        ensures
            r == self.expired_at(now as int),
    {
        self.elapsed(now) >= self.timeout()
    }
}

/// The wait that follows `old` when a frame is received at `now`.
pub open spec fn wait_after_frame(old_wait: FrameWait, now: u128) -> FrameWait {
    FrameWait {
        last_frame_at: now,
        exposure_us: old_wait.exposure_us,
        previous_frame_exposure_us: old_wait.observed_exposure_us,
        observed_exposure_us: old_wait.exposure_us,
    }
}

/// Two frames in a row whose readbacks stay at the current exposure bring the
/// deadline back to that exposure, however dark earlier readbacks were.
pub proof fn law_deadline_recovers_after_two_frames(wait: FrameWait, first: u128, second: u128)
    ensures
        wait_after_frame(wait_after_frame(wait, first), second).deadline() == frame_deadline(
            wait.exposure_us as int,
        ),
{
}

/// A stream that stops producing frames always expires: no frame can be
/// awaited for longer than its deadline.
pub proof fn law_silent_stream_expires(wait: FrameWait, now: int)
    requires
        now >= wait.last_frame_at + wait.deadline(),
    ensures
        wait.expired_at(now),
{
}

/// What the settling loop does next.
#[derive(Clone, Copy, Debug, PartialEq, Eq, Structural)]
pub enum WaitDecision {
    Continue,
    Cancelled,
    Stalled,
    UseLatestFrame,
}

/// Whether a single-precision clipped fraction, given by its IEEE 754 bits, is
/// at most 0.05. Non-negative encodings are ordered like their values, every
/// negative number qualifies, and no NaN does.
pub open spec fn clipping_acceptable(bits: u32) -> bool {
    bits <= 0x3D4C_CCCD || 0x8000_0000 <= bits <= 0xFF80_0000
}

/// Progress of automatic exposure toward a usable first frame.
#[derive(Clone, Copy, Debug)]
pub struct Settling {
    pub limits: AutoLimits,
    pub deadline: u128,
    pub previous: Option<(i64, i64, u8)>,
    pub stable_samples: u32,
    pub received: u32,
    pub minimum_frames: u32,
}

/// The overall settling budget: the requested minimum must fit even if every
/// frame uses the ceiling, and four more frames allow the SDK to converge.
pub open spec fn settling_budget(minimum_frames: int, max_exposure_us: int) -> int {
    number::saturated_u64(number::spec_max(max_exposure_us, 1) * (number::spec_max(minimum_frames, 4) + 4)) * 1_000
        + 5_000_000_000
}

/// Whether a sample is close enough to the one before it.
pub open spec fn sample_stable(
    previous: Option<(i64, i64, u8)>,
    exposure_us: int,
    gain: int,
    p90: int,
) -> bool {
    match previous {
        Some((old_exposure, old_gain, old_p90)) => {
            &&& number::distance(old_exposure as int, exposure_us) <= number::spec_max(
                number::distance(exposure_us, 0) / 20,
                32,
            )
            &&& number::distance(old_gain as int, gain) <= 3
            &&& number::distance(old_p90 as int, p90) <= 3
        },
        None => false,
    }
}

/// The earliest time at which a sample with this exposure can settle.
pub open spec fn settle_not_before(exposure_us: int) -> int {
    number::spec_max(
        number::saturated_u64(number::saturated_u64(number::distance(exposure_us, 0) * 2) + 100_000) * 1_000,
        5_000_000_000,
    )
}

/// Whether a sample is usable: well exposed, or at an end of the range.
pub open spec fn sample_usable(
    limits: AutoLimits,
    exposure_us: int,
    gain: int,
    p90: int,
    clipped_fraction_bits: u32,
) -> bool {
    let dark_threshold = number::clamped(number::trunc_div(limits.target_brightness as int, 4), 8, 64);
    let dark_limit = number::trunc_div(number::saturated_i64(limits.max_exposure_us * 95), 100);
    let bright_limit = number::saturated_i64(
        limits.min_exposure_us + number::spec_max(number::trunc_div(limits.min_exposure_us as int, 20), 32),
    );
    ||| p90 >= dark_threshold && clipping_acceptable(clipped_fraction_bits)
    ||| exposure_us >= dark_limit && gain >= number::saturated_i64(limits.max_gain - 3)
    ||| exposure_us <= bright_limit && gain <= number::saturated_i64(limits.min_gain + 3)
}

impl Settling {
    /// Consecutive stable samples once this sample has been seen.
    pub open spec fn stable_run(self, exposure_us: int, gain: int, p90: int) -> int {
        if sample_stable(self.previous, exposure_us, gain, p90) {
            number::saturated_u32(self.stable_samples + 1)
        } else {
            0
        }
    }

    pub fn new(minimum_frames: u32, limits: AutoLimits) -> (r: Self)
        ensures
            r.limits == limits,
            r.minimum_frames == number::spec_max(minimum_frames as int, 4),
            r.deadline == settling_budget(minimum_frames as int, limits.max_exposure_us as int),
            r.previous is None,
            r.stable_samples == 0,
            r.received == 0,
    {
        let minimum_frames: u32 = max_u32(minimum_frames, 4);
        let exposure_count: u64 = minimum_frames as u64 + 4;
        let exposures_us: u64 = saturating_mul_u64(
            max_i64(limits.max_exposure_us, 1) as u64,
            exposure_count,
        );
        let deadline: u128 = exposures_us as u128 * NANOS_PER_MICRO + 5 * NANOS_PER_SECOND;
        Self {
            limits,
            deadline,
            previous: None,
            stable_samples: 0,
            received: 0,
            minimum_frames,
        }
    }

    pub fn minimum_frames(&self) -> (r: u32)
        ensures
            r == self.minimum_frames,
    {
        self.minimum_frames
    }

    pub fn received(&self) -> (r: u32)
        ensures
            r == self.received,
    {
        self.received
    }

    /// Cancellation and a stopped frame stream take precedence over using a
    /// cached frame. An otherwise healthy but unconverged stream may fall back
    /// to its latest complete sample at the overall settling deadline.
    pub fn decision(&self, wait: &FrameWait, now: u128, cancelled: bool) -> (r: WaitDecision)
        ensures
            r == (if cancelled {
                WaitDecision::Cancelled
            } else if wait.expired_at(now as int) {
                WaitDecision::Stalled
            } else if now >= self.deadline && self.received != 0 {
                WaitDecision::UseLatestFrame
            } else {
                WaitDecision::Continue
            }),
    {
        if cancelled {
            WaitDecision::Cancelled
        } else if wait.expired(now) {
            WaitDecision::Stalled
        } else if now >= self.deadline && self.received != 0 {
            WaitDecision::UseLatestFrame
        } else {
            WaitDecision::Continue
        }
    }

    /// Account for one complete frame and report whether exposure has settled.
    /// The clipped fraction is given by its single-precision bits.
    pub fn observe_frame(
        &mut self,
        now: u128,
        exposure_us: i64,
        gain: i64,
        p90: u8,
        clipped_fraction_bits: u32,
    ) -> (settled: bool)
        ensures
            final(self).limits == old(self).limits,
            final(self).deadline == old(self).deadline,
            final(self).minimum_frames == old(self).minimum_frames,
            final(self).received == number::saturated_u32(old(self).received + 1),
            final(self).previous == Some((exposure_us, gain, p90)),
            final(self).stable_samples == old(self).stable_run(
                exposure_us as int,
                gain as int,
                p90 as int,
            ),
            settled == {
                &&& final(self).received >= old(self).minimum_frames
                &&& final(self).stable_samples >= 3
                &&& now >= settle_not_before(exposure_us as int)
                &&& sample_usable(
                    old(self).limits,
                    exposure_us as int,
                    gain as int,
                    p90 as int,
                    clipped_fraction_bits,
                )
            },
    {
        self.received = self.received.saturating_add(1);
        let exposure_tolerance: u64 = max_u64(magnitude(exposure_us) / 20, 32);
        let stable = match self.previous {
            Some((old_exposure, old_gain, old_p90)) => {
                distance_i64(old_exposure, exposure_us) <= exposure_tolerance
                    && distance_i64(old_gain, gain) <= 3 && distance_u8(old_p90, p90) <= 3
            },
            None => false,
        };
        self.stable_samples = if stable {
            self.stable_samples.saturating_add(1)
        } else {
            0
        };
        self.previous = Some((exposure_us, gain, p90));
        let dynamic_minimum_us: u64 = saturating_mul_u64(magnitude(exposure_us), 2).saturating_add(
            100_000,
        );
        let dynamic_minimum: u128 = dynamic_minimum_us as u128 * NANOS_PER_MICRO;
        let dark_threshold: i64 = clamp_i64(
            trunc_div_i64(self.limits.target_brightness, 4),
            8,
            64,
        );
        let clipping_ok = clipped_fraction_bits <= 0x3D4C_CCCD || (0x8000_0000
            <= clipped_fraction_bits && clipped_fraction_bits <= 0xFF80_0000);
        let luma_acceptable = p90 as i64 >= dark_threshold && clipping_ok;
        let at_dark_limit = exposure_us >= trunc_div_i64(
            saturating_mul_i64(self.limits.max_exposure_us, 95),
            100,
        ) && gain >= saturating_sub_i64(self.limits.max_gain, 3);
        let at_bright_limit = exposure_us <= saturating_add_i64(
            self.limits.min_exposure_us,
            max_i64(trunc_div_i64(self.limits.min_exposure_us, 20), 32),
        ) && gain <= saturating_add_i64(self.limits.min_gain, 3);
        self.received >= self.minimum_frames && self.stable_samples >= 3 && now >= dynamic_minimum
            && now >= 5 * NANOS_PER_SECOND && (luma_acceptable || at_dark_limit || at_bright_limit)
    }
}

/// The requested minimum and four convergence frames fit the settling budget
/// even if every frame takes the longest exposure, as long as that many
/// microseconds can be represented.
pub proof fn law_budget_covers_requested_frames(
    minimum_frames: int,
    max_exposure_us: int,
    frames: int,
)
    requires
        0 <= minimum_frames <= u32::MAX,
        1 <= max_exposure_us <= i64::MAX,
        0 <= frames <= number::spec_max(minimum_frames, 4) + 4,
        max_exposure_us * (number::spec_max(minimum_frames, 4) + 4) <= u64::MAX,
    ensures
        frames * max_exposure_us * 1_000 < settling_budget(minimum_frames, max_exposure_us),
{
    let count = number::spec_max(minimum_frames, 4) + 4;
    assert(0 <= frames * max_exposure_us <= max_exposure_us * count) by (nonlinear_arith)
        requires
            0 <= frames <= count,
            1 <= max_exposure_us,
    ;
}

/// Settling cannot complete before four frames: three of them must each repeat
/// the sample before it.
pub proof fn law_settling_needs_stable_samples(
    first: Settling,
    samples: Seq<(i64, i64, u8)>,
    states: Seq<Settling>,
)
    requires
        first.previous is None,
        first.stable_samples == 0,
        states.len() == samples.len() + 1,
        states[0] == first,
        forall|i: int|
            0 <= i < samples.len() ==> (#[trigger] states[i + 1]).stable_samples
                == states[i].stable_run(
                samples[i].0 as int,
                samples[i].1 as int,
                samples[i].2 as int,
            ) && states[i + 1].previous == Some(samples[i]),
        samples.len() <= 3,
    ensures
        forall|i: int| 0 <= i <= samples.len() ==> (#[trigger] states[i]).stable_samples < 3,
{
    assert forall|i: int| 0 <= i <= samples.len() implies (#[trigger] states[i]).stable_samples
        < 3 by {
        if i >= 1 {
            assert(states[0int + 1].stable_samples == 0);
        }
        if i >= 2 {
            assert(states[1int + 1].stable_samples <= 1);
        }
        if i >= 3 {
            assert(states[2int + 1].stable_samples <= 2);
        }
    }
}

/// Exposure has settled at a frame exactly where enough frames came, the fourth of
/// them in a row shows the same picture, the camera had its time, and the picture
/// is good or cannot get better: it is bright enough without much clipping, or the
/// camera is at the long or at the short end of what it may do.
pub proof fn law_exposure_settles_on_a_steady_usable_picture(
    now: u128,
    exposure_us: i64,
    gain: i64,
    p90: u8,
    clipped_fraction_bits: u32,
    settled: bool,
)
    requires
        0 <= exposure_us <= 1_000_000_000_000_000,
    ensures
        forall|s: &mut Settling|
            #[trigger] call_ensures(
                Settling::observe_frame,
                (s, now, exposure_us, gain, p90, clipped_fraction_bits),
                settled,
            ) && 0 <= s.limits.min_exposure_us <= 1_000_000_000_000_000 && 0
                <= s.limits.max_exposure_us <= 1_000_000_000_000_000 && -1_000_000
                <= s.limits.min_gain <= 1_000_000 && -1_000_000 <= s.limits.max_gain
                <= 1_000_000 ==> (settled <==> {
                &&& final(s).received >= s.minimum_frames
                &&& final(s).stable_samples >= 3
                &&& now >= 5_000_000_000
                &&& now >= 2_000 * exposure_us + 100_000_000
                &&& {
                    ||| {
                        &&& p90 >= 8
                        &&& p90 >= 64 || 4 * p90 + 3 >= s.limits.target_brightness
                        &&& clipped_fraction_bits <= 0x3D4C_CCCD || 0x8000_0000
                            <= clipped_fraction_bits <= 0xFF80_0000
                    }
                    ||| {
                        &&& 100 * exposure_us > 95 * s.limits.max_exposure_us - 100
                        &&& gain >= s.limits.max_gain - 3
                    }
                    ||| {
                        &&& exposure_us - s.limits.min_exposure_us <= 32 || 20 * (exposure_us
                            - s.limits.min_exposure_us) <= s.limits.min_exposure_us
                        &&& gain <= s.limits.min_gain + 3
                    }
                }
            }),
{
    assert forall|s: &mut Settling|
        #[trigger] call_ensures(
            Settling::observe_frame,
            (s, now, exposure_us, gain, p90, clipped_fraction_bits),
            settled,
        ) && 0 <= s.limits.min_exposure_us <= 1_000_000_000_000_000 && 0 <= s.limits.max_exposure_us
            <= 1_000_000_000_000_000 && -1_000_000 <= s.limits.min_gain <= 1_000_000 && -1_000_000
            <= s.limits.max_gain <= 1_000_000 implies (settled <==> {
        &&& final(s).received >= s.minimum_frames
        &&& final(s).stable_samples >= 3
        &&& now >= 5_000_000_000
        &&& now >= 2_000 * exposure_us + 100_000_000
        &&& {
            ||| {
                &&& p90 >= 8
                &&& p90 >= 64 || 4 * p90 + 3 >= s.limits.target_brightness
                &&& clipped_fraction_bits <= 0x3D4C_CCCD || 0x8000_0000 <= clipped_fraction_bits
                    <= 0xFF80_0000
            }
            ||| {
                &&& 100 * exposure_us > 95 * s.limits.max_exposure_us - 100
                &&& gain >= s.limits.max_gain - 3
            }
            ||| {
                &&& exposure_us - s.limits.min_exposure_us <= 32 || 20 * (exposure_us
                    - s.limits.min_exposure_us) <= s.limits.min_exposure_us
                &&& gain <= s.limits.min_gain + 3
            }
        }
    }) by {
        assert(number::saturated_i64(s.limits.max_exposure_us * 95) == s.limits.max_exposure_us
            * 95);
    }
}

/// Whatever it looks like, a steady picture at the shortest exposure and lowest
/// gain, or at the longest exposure and highest gain, is the best there is.
pub proof fn law_the_ends_of_the_range_settle(
    now: u128,
    exposure_us: i64,
    gain: i64,
    p90: u8,
    clipped_fraction_bits: u32,
    settled: bool,
)
    ensures
        forall|s: &mut Settling|
            #[trigger] call_ensures(
                Settling::observe_frame,
                (s, now, exposure_us, gain, p90, clipped_fraction_bits),
                settled,
            ) && final(s).received >= s.minimum_frames && final(s).stable_samples >= 3 && now
                >= 5_000_000_000 && now >= 2_000 * exposure_us + 100_000_000 && now >= -2_000
                * exposure_us + 100_000_000 && ((exposure_us <= s.limits.min_exposure_us && gain
                <= s.limits.min_gain) || (0 <= s.limits.max_exposure_us <= exposure_us && gain
                >= s.limits.max_gain)) ==> settled,
{
}

/// Frames are counted, and a frame goes on with a steady run exactly where it is
/// near the one before it: within a twentieth or 32 microseconds of its exposure,
/// and within three steps of gain and brightness. Any other frame ends the run.
pub proof fn law_steady_frames_are_counted(
    now: u128,
    exposure_us: i64,
    gain: i64,
    p90: u8,
    clipped_fraction_bits: u32,
    settled: bool,
)
    requires
        exposure_us >= 0,
    ensures
        forall|s: &mut Settling|
            #[trigger] call_ensures(
                Settling::observe_frame,
                (s, now, exposure_us, gain, p90, clipped_fraction_bits),
                settled,
            ) && s.received < u32::MAX && s.stable_samples < u32::MAX ==> {
                &&& final(s).received == s.received + 1
                &&& final(s).minimum_frames == s.minimum_frames
                &&& final(s).limits == s.limits
                &&& final(s).deadline == s.deadline
                &&& final(s).previous == Some((exposure_us, gain, p90))
                &&& s.previous is None ==> final(s).stable_samples == 0
                &&& s.previous matches Some((e, g, p)) ==> final(s).stable_samples == if (-32 <= e
                    - exposure_us <= 32 || (20 * (e - exposure_us) <= exposure_us && 20 * (
                exposure_us - e) <= exposure_us)) && -3 <= g - gain <= 3 && -3 <= p - p90 <= 3 {
                    s.stable_samples + 1
                } else {
                    0
                }
            },
{
}

/// What settling starts from: at least four frames are asked for, and the budget is
/// five seconds and the longest exposure for each of them and for four more.
pub proof fn law_settling_budget_fits_the_frames(
    minimum_frames: u32,
    limits: AutoLimits,
    r: Settling,
)
    requires
        call_ensures(Settling::new, (minimum_frames, limits), r),
        1 <= limits.max_exposure_us <= 1_000_000_000,
    ensures
        r.limits == limits,
        minimum_frames >= 4 ==> r.minimum_frames == minimum_frames,
        minimum_frames <= 4 ==> r.minimum_frames == 4,
        r.deadline == 5_000_000_000 + 1_000 * (limits.max_exposure_us * (r.minimum_frames + 4)),
        r.received == 0,
        r.stable_samples == 0,
        r.previous is None,
{
    let count = r.minimum_frames + 4;
    assert(0 <= limits.max_exposure_us * count <= 1_000_000_000 * count) by (nonlinear_arith)
        requires
            1 <= limits.max_exposure_us <= 1_000_000_000,
            0 <= count,
    ;
}

/// Waiting goes on until it is cancelled, the stream stops or the budget is spent
/// with a frame at hand, in this order of precedence.
pub proof fn law_settling_wait_is_decided(
    settling: &Settling,
    wait: &FrameWait,
    now: u128,
    cancelled: bool,
    expired: bool,
    r: WaitDecision,
)
    requires
        call_ensures(Settling::decision, (settling, wait, now, cancelled), r),
        call_ensures(FrameWait::expired, (wait, now), expired),
    ensures
        cancelled <==> r is Cancelled,
        !cancelled && expired <==> r is Stalled,
        !cancelled && !expired && settling.received > 0 && now >= settling.deadline <==> r
            is UseLatestFrame,
        !cancelled && !expired && (settling.received == 0 || now < settling.deadline) <==> r
            is Continue,
{
}

/// A frame is overdue exactly five seconds and twice the longest exposure that it
/// may be using after the frame before it.
pub proof fn law_overdue_frame_has_had_twice_its_exposure(
    wait: &FrameWait,
    now: u128,
    timeout: u128,
    expired: bool,
)
    requires
        call_ensures(FrameWait::expired, (wait, now), expired),
        call_ensures(FrameWait::timeout, (wait,), timeout),
    ensures
        expired <==> now >= wait.last_frame_at + timeout,
        timeout >= 5_000_002_000,
        timeout >= 5_000_000_000 + 2_000 * wait.observed_exposure_us,
        timeout >= 5_000_000_000 + 2_000 * wait.previous_frame_exposure_us,
        timeout == 5_000_002_000 || timeout == 5_000_000_000 + 2_000 * wait.observed_exposure_us
            || timeout == 5_000_000_000 + 2_000 * wait.previous_frame_exposure_us,
{
}

/// The deadline of the frame in flight is never shortened by a shorter exposure
/// that the camera reports, and is at least that of a longer one.
pub proof fn law_reported_exposure_never_shortens_a_wait(exposure_us: i64)
    ensures
        forall|wait: &mut FrameWait|
            #[trigger] call_ensures(FrameWait::observe_exposure, (wait, exposure_us), ()) ==> {
                &&& final(wait).observed_exposure_us >= wait.observed_exposure_us
                &&& final(wait).observed_exposure_us >= exposure_us
                &&& final(wait).observed_exposure_us >= 1
                &&& final(wait).observed_exposure_us == wait.observed_exposure_us || final(wait).observed_exposure_us == exposure_us || final(wait).observed_exposure_us == 1
                &&& final(wait).exposure_us >= 1 && final(wait).exposure_us >= exposure_us && (
                final(wait).exposure_us == 1 || final(wait).exposure_us == exposure_us)
                &&& final(wait).previous_frame_exposure_us == wait.previous_frame_exposure_us
                &&& final(wait).last_frame_at == wait.last_frame_at
            },
{
}

/// A frame starts the next wait, which keeps the exposures of the one before it for
/// one frame and no longer.
pub proof fn law_frame_starts_the_next_wait(now: u128)
    ensures
        forall|wait: &mut FrameWait|
            #[trigger] call_ensures(FrameWait::frame_received, (wait, now), ()) ==> {
                &&& final(wait).last_frame_at == now
                &&& final(wait).exposure_us == wait.exposure_us
                &&& final(wait).observed_exposure_us == wait.exposure_us
                &&& final(wait).previous_frame_exposure_us == wait.observed_exposure_us
            },
{
}

/// One read blocks for half a second more than the exposure, but never for more
/// than two seconds.
pub proof fn law_reads_stay_cancellable(exposure_us: i64, r: i32)
    requires
        call_ensures(poll_timeout_ms, (exposure_us,), r),
    ensures
        exposure_us <= 0 ==> r == 500,
        0 <= exposure_us <= 1_500_000 ==> (r - 500) * 1_000 <= exposure_us < (r - 499) * 1_000,
        exposure_us >= 1_500_000 ==> r == 2_000,
{
}

/// A duration is counted in whole milliseconds.
pub proof fn law_milliseconds_are_whole(nanos: u128, r: u64)
    requires
        call_ensures(duration_millis, (nanos,), r),
    ensures
        nanos < 18_446_744_073_709_551_615_000_000 ==> r * 1_000_000 <= nanos < (r + 1)
            * 1_000_000,
        nanos >= 18_446_744_073_709_551_615_000_000 ==> r == u64::MAX,
{
}

/// What was waited is the time since the last frame, and none before it.
pub proof fn law_waiting_is_counted_from_the_last_frame(wait: &FrameWait, now: u128, r: u128)
    requires
        call_ensures(FrameWait::elapsed, (wait, now), r),
    ensures
        now >= wait.last_frame_at ==> wait.last_frame_at + r == now,
        now < wait.last_frame_at ==> r == 0,
{
}

} // verus!
