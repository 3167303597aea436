use autopiercam::exposure::{
    duration_millis, poll_timeout_ms, AutoLimits, FrameWait, Settling, WaitDecision,
    NANOS_PER_MILLI, NANOS_PER_SECOND,
};

fn limits(max_exposure_us: i64) -> AutoLimits {
    AutoLimits {
        min_exposure_us: 32,
        max_exposure_us,
        min_gain: 0,
        max_gain: 400,
        target_brightness: 100,
    }
}

fn secs(seconds: u64) -> u128 {
    u128::from(seconds) * NANOS_PER_SECOND
}

fn millis(milliseconds: u64) -> u128 {
    u128::from(milliseconds) * NANOS_PER_MILLI
}

#[test]
fn six_thirty_or_sixty_second_frames_fit_and_settle() {
    for seconds in [30, 60] {
        let exposure_us = seconds * 1_000_000;
        let mut settling = Settling::new(6, limits(exposure_us));
        let mut wait = FrameWait::new(exposure_us);
        for frame in 1..=6 {
            let now = secs(frame * seconds as u64);
            assert_eq!(settling.decision(&wait, now, false), WaitDecision::Continue);
            wait.frame_received(now);
            assert_eq!(
                settling.observe_frame(now, exposure_us, 400, 4, 0.0_f32.to_bits()),
                frame == 6
            );
        }
        assert_eq!(settling.received(), 6);
    }
}

#[test]
fn requested_minimum_and_four_convergence_frames_fit_the_budget() {
    let mut settling = Settling::new(20, limits(60_000_000));
    let mut wait = FrameWait::new(60_000_000);
    for frame in 1..=24 {
        let now = secs(frame * 60);
        assert_eq!(settling.decision(&wait, now, false), WaitDecision::Continue);
        wait.frame_received(now);
        settling.observe_frame(
            now,
            60_000_000,
            200,
            (frame % 2 * 255) as u8,
            1.0_f32.to_bits(),
        );
    }
    assert_eq!(
        settling.decision(&wait, secs(1445), false),
        WaitDecision::UseLatestFrame
    );
}

#[test]
fn daylight_deadline_expands_for_night_and_survives_bright_readback() {
    let mut wait = FrameWait::new(10_000);
    assert_eq!(wait.timeout(), millis(5020));
    wait.observe_exposure(30_000_000);
    assert_eq!(wait.timeout(), secs(65));
    wait.observe_exposure(60_000_000);
    wait.observe_exposure(10_000);
    assert_eq!(wait.timeout(), secs(125));
    assert!(!wait.expired(secs(60)));
    wait.frame_received(secs(60));
    assert_eq!(wait.timeout(), secs(125));
    wait.frame_received(secs(120));
    assert_eq!(wait.timeout(), millis(5020));
    assert!(wait.expired(secs(126)));
}

#[test]
fn no_frames_and_stalled_stream_have_a_finite_deadline() {
    let mut settling = Settling::new(6, limits(60_000_000));
    let mut wait = FrameWait::new(60_000_000);
    assert_eq!(
        settling.decision(&wait, secs(125), false),
        WaitDecision::Stalled
    );
    wait.frame_received(secs(60));
    settling.observe_frame(secs(60), 60_000_000, 200, 10, 0.0_f32.to_bits());
    assert_eq!(
        settling.decision(&wait, secs(185), false),
        WaitDecision::Stalled
    );
}

#[test]
fn cancellation_wins_even_at_fallback_and_stall_boundaries() {
    let mut settling = Settling::new(6, limits(60_000_000));
    let mut wait = FrameWait::new(60_000_000);
    wait.frame_received(secs(600));
    settling.observe_frame(secs(600), 60_000_000, 200, 10, 0.0_f32.to_bits());
    for seconds in [0, 30, 60, 605, 725] {
        assert_eq!(
            settling.decision(&wait, secs(seconds), true),
            WaitDecision::Cancelled
        );
    }
    for exposure in [0, 32, 10_000, 30_000_000, 60_000_000, i64::MAX] {
        assert!((500..=2000).contains(&poll_timeout_ms(exposure)));
    }
}

#[test]
fn changing_night_to_day_requires_new_stable_samples() {
    let mut settling = Settling::new(6, limits(60_000_000));
    let mut now: u128 = 0;
    for frame in 0..4 {
        now += secs(60);
        assert!(!settling.observe_frame(now, 60_000_000, 400, 4, 0.0_f32.to_bits()));
        assert_eq!(settling.received(), frame + 1);
    }
    for frame in 0..4 {
        now += secs(1);
        assert_eq!(
            settling.observe_frame(now, 10_000, 10, 100, 0.0_f32.to_bits()),
            frame == 3
        );
    }
}

#[test]
fn clipping_is_acceptable_up_to_a_twentieth() {
    for (fraction, acceptable) in [
        (0.0_f32, true),
        (0.049, true),
        (0.05, true),
        (0.050_001, false),
        (1.0, false),
        (-1.0, true),
        (f32::INFINITY, false),
        (f32::NEG_INFINITY, true),
        (f32::NAN, false),
    ] {
        let mut settling = Settling::new(4, limits(60_000_000));
        let mut settled = false;
        for frame in 1..=4 {
            settled = settling.observe_frame(
                secs(10 * frame),
                1_000_000,
                100,
                100,
                fraction.to_bits(),
            );
        }
        assert_eq!(settled, acceptable, "{fraction}");
    }
}

#[test]
fn poll_timeouts_follow_the_exposure_between_their_bounds() {
    assert_eq!(poll_timeout_ms(i64::MIN), 500);
    assert_eq!(poll_timeout_ms(700_000), 1_200);
    assert_eq!(poll_timeout_ms(1_500_000), 2_000);
}

#[test]
fn durations_saturate_in_milliseconds() {
    assert_eq!(duration_millis(1_999_999), 1);
    assert_eq!(duration_millis(u128::MAX), u64::MAX);
}

#[test]
fn four_frames_are_needed_to_settle() {
    let mut settling = Settling::new(1, limits(60_000_000));
    for frame in 1..=4 {
        let settled =
            settling.observe_frame(secs(61 * frame), 60_000_000, 400, 4, 0.0_f32.to_bits());
        assert_eq!(settled, frame == 4);
    }
    assert_eq!(settling.minimum_frames(), 4);
}
