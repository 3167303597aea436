use autopiercam::camera::{
    auto_exposure_limit_us, auto_exposure_limit_value, auto_limit_settings, check_ranges,
    configure_adaptive,
    core_bayer, plan_adaptation, plan_auto_ceiling, plan_auto_limits, plan_roi,
    seed_auto_exposure, seed_auto_gain, select_camera, select_configured_camera, set_if_available,
    AdaptiveRequest, BayerPattern, CameraInfo, ConfigureError, ControlCaps, ControlSetting,
    ControlType, ExposureSetting, ImageType, Roi, RoiError, SelectCameraError, SensorPattern,
};

fn caps(name: &str) -> ControlCaps {
    ControlCaps {
        name: name.to_owned(),
        description: "Maximum automatic exposure".to_owned(),
        min_value: 1,
        max_value: 60_000,
        default_value: 100,
        auto_supported: false,
        writable: true,
        control_type: ControlType::AutoMaxExposure,
    }
}

#[test]
fn runtime_millisecond_names_convert_thirty_and_sixty_second_limits() {
    for name in ["AutoExpMaxExpMS", "AutoExpMaxExpMs", "autoexpmaxexpms"] {
        let caps = caps(name);
        for (microseconds, milliseconds) in [(30_000_000, 30_000), (60_000_000, 60_000)] {
            assert_eq!(auto_exposure_limit_value(&caps, microseconds), milliseconds);
            assert_eq!(auto_exposure_limit_us(&caps, milliseconds), microseconds);
        }
        // The SDK's 60,000 ms ceiling is distinct from the camera's much
        // longer manual exposure capability.
        assert_eq!(auto_exposure_limit_us(&caps, caps.max_value), 60_000_000);
    }
}

#[test]
fn microsecond_controls_preserve_microsecond_resolution() {
    for name in ["AutoExpMaxExp", "AutoExpMaxExpUS"] {
        let caps = caps(name);
        for exposure_us in [1, 32, 999, 1_001, 30_000_000, 60_000_000, 2_000_000_000] {
            assert_eq!(auto_exposure_limit_value(&caps, exposure_us), exposure_us);
            assert_eq!(auto_exposure_limit_us(&caps, exposure_us), exposure_us);
        }
    }
}

#[test]
fn millisecond_quantization_is_reported_as_the_effective_limit() {
    let caps = caps("AutoExpMaxExpMS");
    for (requested_us, sdk_value, effective_us) in [
        (1, 1, 1_000),
        (999, 1, 1_000),
        (1_000, 1, 1_000),
        (1_001, 2, 2_000),
        (59_999_001, 60_000, 60_000_000),
        (60_000_000, 60_000, 60_000_000),
    ] {
        assert_eq!(auto_exposure_limit_value(&caps, requested_us), sdk_value);
        assert_eq!(auto_exposure_limit_us(&caps, sdk_value), effective_us);
    }
}

#[test]
fn extreme_capability_values_do_not_overflow_conversion() {
    let caps = caps("AutoExpMaxExpMS");
    assert_eq!(auto_exposure_limit_us(&caps, i64::MAX), i64::MAX);
    assert_eq!(auto_exposure_limit_value(&caps, i64::MAX), i64::MAX / 1_000);
}

fn control(control_type: ControlType, name: &str, min_value: i64, max_value: i64) -> ControlCaps {
    ControlCaps {
        name: name.to_owned(),
        description: String::new(),
        min_value,
        max_value,
        default_value: min_value + 1,
        auto_supported: true,
        writable: true,
        control_type,
    }
}

fn controls() -> Vec<ControlCaps> {
    vec![
        control(ControlType::Exposure, "Exposure", 32, 2_000_000_000),
        control(ControlType::Gain, "Gain", 0, 570),
        control(ControlType::AutoMaxExposure, "AutoExpMaxExpMS", 1, 60_000),
        control(ControlType::AutoMaxGain, "AutoExpMaxGain", 0, 400),
        control(
            ControlType::AutoTargetBrightness,
            "AutoExpTargetBrightness",
            50,
            160,
        ),
        control(ControlType::Flip, "Flip", 0, 3),
    ]
}

fn setting(control_type: ControlType, value: i64, automatic: bool) -> ControlSetting {
    ControlSetting {
        control_type,
        value,
        automatic,
    }
}

#[test]
fn automatic_mode_is_configured_within_the_confirmed_ceiling() {
    let controls = controls();
    assert_eq!(
        plan_auto_ceiling(&controls, 30_000_001, 500),
        Ok(setting(ControlType::AutoMaxExposure, 30_001, false))
    );
    // The camera confirms less than it was asked for.
    let limits = plan_auto_limits(&controls, 30_000_001, 500, 200, 20_000).unwrap();
    assert_eq!(limits.min_exposure_us, 32);
    assert_eq!(limits.max_exposure_us, 20_000_000);
    assert_eq!(limits.min_gain, 0);
    assert_eq!(limits.max_gain, 400);
    assert_eq!(limits.target_brightness, 160);
    assert_eq!(
        auto_limit_settings(&controls, &limits),
        vec![
            setting(ControlType::AutoMaxGain, 400, false),
            setting(ControlType::AutoTargetBrightness, 160, false),
            setting(ControlType::Flip, 0, false),
        ]
    );
    assert_eq!(
        seed_auto_exposure(&controls, &limits, Some(60_000_000)),
        Ok(Some(setting(ControlType::Exposure, 20_000_000, true)))
    );
    assert_eq!(
        seed_auto_exposure(&controls, &limits, None),
        Ok(Some(setting(ControlType::Exposure, 33, true)))
    );
    assert_eq!(
        seed_auto_gain(&controls, &limits, Some(570)),
        Ok(Some(setting(ControlType::Gain, 400, true)))
    );
    assert_eq!(
        seed_auto_gain(&Vec::new(), &limits, None),
        Err(ConfigureError::NoGainControl)
    );
    assert_eq!(
        seed_auto_exposure(&Vec::new(), &limits, None),
        Err(ConfigureError::NoExposureControl)
    );
    assert_eq!(
        seed_auto_exposure(&Vec::new(), &limits, Some(5)),
        Ok(None)
    );
}

#[test]
fn automatic_mode_needs_bounded_writable_controls() {
    assert_eq!(
        plan_auto_ceiling(&controls(), 0, 0),
        Err(ConfigureError::InvalidMaximum)
    );
    assert_eq!(
        plan_auto_ceiling(&controls(), 1, -1),
        Err(ConfigureError::InvalidMaximum)
    );
    for (index, error) in [
        (0, ConfigureError::NoExposureControl),
        (1, ConfigureError::NoGainControl),
        (2, ConfigureError::NoWritableCeiling),
    ] {
        let mut missing = controls();
        missing.remove(index);
        assert_eq!(plan_auto_ceiling(&missing, 1_000, 1), Err(error));
    }
    for (index, error) in [
        (0, ConfigureError::ExposureNotAutomatic),
        (1, ConfigureError::GainNotAutomatic),
        (2, ConfigureError::NoWritableCeiling),
    ] {
        let mut fixed = controls();
        fixed[index].writable = false;
        assert_eq!(plan_auto_ceiling(&fixed, 1_000, 1), Err(error));
    }
    assert!(matches!(
        plan_auto_limits(&controls(), 1_000, 1, 100, 0),
        Err(ConfigureError::CeilingOutsideLimits)
    ));
    assert!(matches!(
        plan_auto_limits(&controls(), 1_000, 1, 100, 60_001),
        Err(ConfigureError::CeilingOutsideLimits)
    ));
    let mut odd = controls();
    odd[0].min_value = -10;
    odd[2].min_value = -5;
    assert!(matches!(
        plan_auto_limits(&odd, 1_000, 1, 100, 0),
        Err(ConfigureError::CeilingNotPositive)
    ));
    assert_eq!(
        ConfigureError::NoGainControl.message(),
        "camera has no gain control"
    );
}

#[test]
fn adaptive_exposure_uses_manual_limits() {
    let request = AdaptiveRequest {
        min_exposure_us: 1,
        max_exposure_us: 50_000,
        max_gain: 900,
        target_brightness: 100,
    };
    let setup = configure_adaptive(&controls(), &request).unwrap();
    assert_eq!(setup.limits.min_exposure_us, 32);
    assert_eq!(setup.limits.max_exposure_us, 50_000);
    assert_eq!(setup.limits.max_gain, 570);
    assert_eq!(
        setup.settings,
        vec![
            setting(ControlType::Exposure, 50_000, false),
            setting(ControlType::Gain, 0, false),
            setting(ControlType::Flip, 0, false),
        ]
    );
    let mut fixed = controls();
    fixed[0].writable = false;
    assert!(matches!(
        configure_adaptive(&fixed, &request),
        Err(ConfigureError::NoManualExposure)
    ));
    let mut fixed = controls();
    fixed[1].writable = false;
    assert!(matches!(
        configure_adaptive(&fixed, &request),
        Err(ConfigureError::NoManualGain)
    ));
}

#[test]
fn unavailable_controls_are_left_alone() {
    let mut controls = controls();
    assert_eq!(
        set_if_available(&controls, ControlType::Flip, 9, false),
        Some(setting(ControlType::Flip, 3, false))
    );
    controls[5].auto_supported = false;
    assert_eq!(
        set_if_available(&controls, ControlType::Flip, 9, true),
        None
    );
    assert_eq!(
        set_if_available(&controls, ControlType::Other(17), 1, false),
        None
    );
}

#[test]
fn only_confined_controls_need_a_range() {
    let mut controls = controls();
    assert!(check_ranges(&controls));
    let mut empty = caps("empty");
    empty.control_type = ControlType::Other(17);
    empty.min_value = 1;
    empty.max_value = 0;
    controls.push(empty);
    assert!(check_ranges(&controls));
    let limits = plan_auto_limits(&controls, 30_000_001, 500, 200, 20_000).unwrap();
    assert_eq!(auto_limit_settings(&controls, &limits).len(), 3);
    controls[5].min_value = controls[5].max_value + 1;
    assert!(!check_ranges(&controls));
}

#[test]
fn adaptation_sets_exposure_before_gain() {
    let current = ExposureSetting {
        exposure_us: 100,
        gain: 1,
    };
    let next = ExposureSetting {
        exposure_us: 200,
        gain: 2,
    };
    assert!(plan_adaptation(current, current).is_empty());
    assert_eq!(
        plan_adaptation(current, next),
        vec![
            setting(ControlType::Exposure, 200, false),
            setting(ControlType::Gain, 2, false)
        ]
    );
}

fn camera(camera_id: i32, name: &str) -> CameraInfo {
    CameraInfo {
        camera_id,
        name: name.to_owned(),
        max_width: 1_937,
        max_height: 1_097,
        is_color: true,
        bayer_pattern: SensorPattern::Rg,
        supported_bins: vec![1, 2],
        supported_formats: vec![ImageType::Raw8, ImageType::Rgb24],
    }
}

#[test]
fn one_camera_is_selected() {
    let cameras = vec![camera(3, "ZWO ASI462MC"), camera(5, "ZWO ASI120MC")];
    assert_eq!(select_camera(&cameras, Some(5)), Ok(1));
    assert_eq!(
        select_camera(&cameras, Some(4)),
        Err(SelectCameraError::NotConnected(4))
    );
    assert_eq!(
        select_camera(&cameras, None),
        Err(SelectCameraError::Ambiguous(2))
    );
    assert_eq!(
        select_camera(&Vec::new(), None),
        Err(SelectCameraError::NoneConnected)
    );
    assert_eq!(select_camera(&vec![camera(9, "one")], None), Ok(0));

    assert_eq!(
        select_configured_camera(&cameras, None, &Some("asi120".to_owned())),
        Ok(1)
    );
    assert_eq!(select_configured_camera(&cameras, Some(3), &None), Ok(0));
    assert_eq!(
        select_configured_camera(&cameras, Some(3), &Some("120".to_owned())),
        Err(SelectCameraError::NoMatch)
    );
    assert_eq!(
        select_configured_camera(&cameras, None, &Some("ZWO".to_owned())),
        Err(SelectCameraError::SeveralMatches)
    );
}

#[test]
fn regions_follow_the_binned_sensor() {
    let info = camera(1, "ZWO ASI462MC");
    assert_eq!(
        plan_roi(&info, 2, None, Some(400), false),
        Ok(Roi {
            width: 968,
            height: 400,
            bin: 2,
            image_type: ImageType::Raw8
        })
    );
    assert_eq!(
        plan_roi(&info, 4, None, None, false),
        Err(RoiError::UnsupportedBin)
    );
    assert_eq!(
        plan_roi(&info, 1, None, None, true),
        Err(RoiError::UnsupportedFormat(ImageType::Raw16))
    );
    let mut odd = camera(1, "odd");
    odd.supported_bins.push(-1);
    assert_eq!(
        plan_roi(&odd, -1, None, None, false),
        Err(RoiError::BinNotPositive)
    );
    odd.is_color = false;
    assert_eq!(
        plan_roi(&odd, 1, None, None, false),
        Err(RoiError::NotColor)
    );
}

#[test]
fn bayer_patterns_are_known_or_refused() {
    assert_eq!(core_bayer(SensorPattern::Rg), Ok(BayerPattern::Rg));
    assert_eq!(core_bayer(SensorPattern::Bg), Ok(BayerPattern::Bg));
    assert_eq!(core_bayer(SensorPattern::Gr), Ok(BayerPattern::Gr));
    assert_eq!(core_bayer(SensorPattern::Gb), Ok(BayerPattern::Gb));
    assert_eq!(core_bayer(SensorPattern::Unknown(9)), Err(9));
}
