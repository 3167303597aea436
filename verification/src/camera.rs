//! Camera selection and exposure configuration within the limits that a camera
//! advertises.

use vstd::prelude::*;

use crate::exposure::AutoLimits;
use crate::number;
use crate::number::{
    clamp_i64, max_i64, saturating_add_i64, saturating_mul_i64, trunc_div_i64,
};
use crate::text::chars_of;
use crate::unicode;
use crate::unicode::{find_text, lower_text};

verus! {

broadcast use vstd::string::group_string_axioms;

/// A control of the camera SDK.
#[derive(Clone, Copy, Debug, PartialEq, Eq, Structural)]
pub enum ControlType {
    Gain,
    Exposure,
    Flip,
    AutoMaxGain,
    AutoMaxExposure,
    AutoTargetBrightness,
    Other(i32),
}

/// What a camera advertises of one of its controls.
#[derive(Debug, PartialEq, Eq)]
pub struct ControlCaps {
    pub name: String,
    pub description: String,
    pub min_value: i64,
    pub max_value: i64,
    pub default_value: i64,
    pub auto_supported: bool,
    pub writable: bool,
    pub control_type: ControlType,
}

/// A value to give to a control.
#[derive(Clone, Copy, Debug, PartialEq, Eq, Structural)]
pub struct ControlSetting {
    pub control_type: ControlType,
    pub value: i64,
    pub automatic: bool,
}

/// Whether values for a control are confined to its range.
pub open spec fn is_confined(control_type: ControlType) -> bool {
    ||| control_type == ControlType::Exposure
    ||| control_type == ControlType::Gain
    ||| control_type == ControlType::AutoMaxExposure
    ||| control_type == ControlType::AutoMaxGain
    ||| control_type == ControlType::AutoTargetBrightness
    ||| control_type == ControlType::Flip
}

/// Whether every control whose values are confined to its range has one.
pub open spec fn ranges_ok(controls: Seq<ControlCaps>) -> bool {
    forall|i: int|
        0 <= i < controls.len() && is_confined((#[trigger] controls[i]).control_type)
            ==> controls[i].min_value <= controls[i].max_value
}

/// Check that every control whose values are confined to its range has one.
pub fn check_ranges(controls: &Vec<ControlCaps>) -> (r: bool)
    ensures
        r == ranges_ok(controls@),
{
    let mut i: usize = 0;
    while i < controls.len()
        invariant
            i <= controls.len(),
            forall|k: int|
                0 <= k < i && is_confined((#[trigger] controls@[k]).control_type)
                    ==> controls@[k].min_value <= controls@[k].max_value,
        decreases controls.len() - i,
    {
        let confined = match controls[i].control_type {
            ControlType::Exposure
            | ControlType::Gain
            | ControlType::AutoMaxExposure
            | ControlType::AutoMaxGain
            | ControlType::AutoTargetBrightness
            | ControlType::Flip => true,
            _ => false,
        };
        if confined && controls[i].min_value > controls[i].max_value {
            return false;
        }
        i = i + 1;
    }
    true
}

/// The first control of a type, if the camera has one.
pub open spec fn find_control(controls: Seq<ControlCaps>, control_type: ControlType) -> Option<
    ControlCaps,
>
    decreases controls.len(),
{
    if controls.len() == 0 {
        None
    } else if controls[0].control_type == control_type {
        Some(controls[0])
    } else {
        find_control(controls.skip(1), control_type)
    }
}

proof fn lemma_find_control(controls: Seq<ControlCaps>, control_type: ControlType, i: int)
    requires
        0 <= i <= controls.len(),
        forall|j: int| 0 <= j < i ==> (#[trigger] controls[j]).control_type != control_type,
    ensures
        find_control(controls, control_type) == find_control(controls.skip(i), control_type),
    decreases i,
{
    if i == 0 {
        assert(controls.skip(0) =~= controls);
    } else {
        lemma_find_control(controls, control_type, i - 1);
        assert(controls.skip(i - 1)[0] == controls[i - 1]);
        assert(controls.skip(i - 1).skip(1) =~= controls.skip(i));
    }
}

proof fn lemma_found_in_range(controls: Seq<ControlCaps>, control_type: ControlType)
    requires
        ranges_ok(controls),
        is_confined(control_type),
    ensures
        find_control(controls, control_type) matches Some(caps) ==> caps.min_value
            <= caps.max_value && caps.control_type == control_type,
    decreases controls.len(),
{
    if controls.len() > 0 && controls[0].control_type != control_type {
        assert forall|i: int|
            0 <= i < controls.skip(1).len() && is_confined(
                (#[trigger] controls.skip(1)[i]).control_type,
            ) implies controls.skip(1)[i].min_value <= controls.skip(1)[i].max_value by {
            assert(controls[i + 1] == controls.skip(1)[i]);
        }
        lemma_found_in_range(controls.skip(1), control_type);
    }
}

/// The first control of a type.
pub fn control<'a>(controls: &'a Vec<ControlCaps>, control_type: ControlType) -> (r: Option<
    &'a ControlCaps,
>)
    ensures
        match r {
            Some(caps) => find_control(controls@, control_type) == Some(*caps),
            None => find_control(controls@, control_type) is None,
        },
{
    let mut i: usize = 0;
    while i < controls.len()
        invariant
            i <= controls.len(),
            forall|j: int| 0 <= j < i ==> (#[trigger] controls@[j]).control_type != control_type,
        decreases controls.len() - i,
    {
        if controls[i].control_type == control_type {
            proof {
                lemma_find_control(controls@, control_type, i as int);
                assert(controls@.skip(i as int)[0] == controls@[i as int]);
            }
            return Some(&controls[i]);
        }
        i = i + 1;
    }
    proof {
        lemma_find_control(controls@, control_type, i as int);
        assert(controls@.skip(i as int) =~= Seq::<ControlCaps>::empty());
    }
    None
}

/// The setting that brings a control as close as it can be to a requested value:
/// none where the camera has no such writable control, or where it cannot run
/// automatically as requested.
pub open spec fn available_setting(
    controls: Seq<ControlCaps>,
    control_type: ControlType,
    requested: int,
    automatic: bool,
) -> Option<ControlSetting> {
    match find_control(controls, control_type) {
        Some(caps) => if !caps.writable || (automatic && !caps.auto_supported) {
            None
        } else {
            Some(
                ControlSetting {
                    control_type,
                    value: number::clamped(
                        requested,
                        caps.min_value as int,
                        caps.max_value as int,
                    ) as i64,
                    automatic,
                },
            )
        },
        None => None,
    }
}

pub fn set_if_available(
    controls: &Vec<ControlCaps>,
    control_type: ControlType,
    requested: i64,
    automatic: bool,
) -> (r: Option<ControlSetting>)
    requires
        find_control(controls@, control_type) matches Some(caps) ==> caps.writable && (automatic
            ==> caps.auto_supported) ==> caps.min_value <= caps.max_value,
    ensures
        r == available_setting(controls@, control_type, requested as int, automatic),
{
    match control(controls, control_type) {
        Some(caps) => {
            if !caps.writable || (automatic && !caps.auto_supported) {
                None
            } else {
                Some(
                    ControlSetting {
                        control_type,
                        value: clamp_i64(requested, caps.min_value, caps.max_value),
                        automatic,
                    },
                )
            }
        },
        None => None,
    }
}

/// Whether a control counts in milliseconds: its runtime name says so.
pub open spec fn counts_millis(name: Seq<char>) -> bool {
    unicode::contains_text(unicode::lower(name), "ms"@)
}

/// The SDK value of an exposure ceiling, rounded up to the control's unit.
pub open spec fn limit_value(name: Seq<char>, exposure_us: int) -> int {
    if counts_millis(name) {
        number::trunc_div(number::saturated_i64(exposure_us + 999), 1_000)
    } else {
        exposure_us
    }
}

/// The exposure ceiling of an SDK value, in microseconds.
pub open spec fn limit_us(name: Seq<char>, sdk_value: int) -> int {
    if counts_millis(name) {
        number::saturated_i64(sdk_value * 1_000)
    } else {
        sdk_value
    }
}

fn check_counts_millis(name: &str) -> (r: bool)
    ensures
        r == counts_millis(name@),
{
    let lowered = lower_text(name);
    let needle = chars_of("ms");
    find_text(lowered.as_slice(), needle.as_slice())
}

pub fn auto_exposure_limit_value(caps: &ControlCaps, exposure_us: i64) -> (r: i64)
    ensures
        r == limit_value(caps.name@, exposure_us as int),
{
    if check_counts_millis(caps.name.as_str()) {
        trunc_div_i64(saturating_add_i64(exposure_us, 999), 1_000)
    } else {
        exposure_us
    }
}

pub fn auto_exposure_limit_us(caps: &ControlCaps, sdk_value: i64) -> (r: i64)
    ensures
        r == limit_us(caps.name@, sdk_value as int),
{
    if check_counts_millis(caps.name.as_str()) {
        saturating_mul_i64(sdk_value, 1_000)
    } else {
        sdk_value
    }
}

/// Converting an exposure ceiling to the control's unit and back never lowers it,
/// and raises it by less than one unit.
pub proof fn law_ceiling_survives_conversion(name: Seq<char>, exposure_us: int)
    requires
        0 <= exposure_us <= i64::MAX - 999,
    ensures
        exposure_us <= limit_us(name, limit_value(name, exposure_us)) < exposure_us + 1_000,
{
}

/// Why a camera cannot be configured.
#[derive(Clone, Copy, Debug, PartialEq, Eq, Structural)]
pub enum ConfigureError {
    InvalidMaximum,
    NoExposureControl,
    NoGainControl,
    ExposureNotAutomatic,
    GainNotAutomatic,
    NoWritableCeiling,
    CeilingOutsideLimits,
    CeilingNotPositive,
    NoManualExposure,
    NoManualGain,
}

impl ConfigureError {
    pub open spec fn text(self) -> Seq<char> {
        match self {
            ConfigureError::InvalidMaximum =>
                "maximum exposure must be positive and maximum gain non-negative"@,
            ConfigureError::NoExposureControl => "camera has no exposure control"@,
            ConfigureError::NoGainControl => "camera has no gain control"@,
            ConfigureError::ExposureNotAutomatic =>
                "camera exposure control does not support automatic video mode"@,
            ConfigureError::GainNotAutomatic =>
                "camera gain control does not support automatic video mode"@,
            ConfigureError::NoWritableCeiling =>
                "camera has no writable automatic exposure ceiling; bounded SDK auto mode is unavailable"@,
            ConfigureError::CeilingOutsideLimits =>
                "SDK returned an automatic exposure ceiling outside its advertised limits"@,
            ConfigureError::CeilingNotPositive =>
                "SDK returned a non-positive automatic exposure ceiling"@,
            ConfigureError::NoManualExposure =>
                "camera needs a writable manual exposure control"@,
            ConfigureError::NoManualGain => "camera needs a writable manual gain control"@,
        }
    }

    pub fn message(self) -> (r: &'static str)
        ensures
            r@ == self.text(),
    {
        match self {
            ConfigureError::InvalidMaximum =>
                "maximum exposure must be positive and maximum gain non-negative",
            ConfigureError::NoExposureControl => "camera has no exposure control",
            ConfigureError::NoGainControl => "camera has no gain control",
            ConfigureError::ExposureNotAutomatic =>
                "camera exposure control does not support automatic video mode",
            ConfigureError::GainNotAutomatic =>
                "camera gain control does not support automatic video mode",
            ConfigureError::NoWritableCeiling =>
                "camera has no writable automatic exposure ceiling; bounded SDK auto mode is unavailable",
            ConfigureError::CeilingOutsideLimits =>
                "SDK returned an automatic exposure ceiling outside its advertised limits",
            ConfigureError::CeilingNotPositive =>
                "SDK returned a non-positive automatic exposure ceiling",
            ConfigureError::NoManualExposure => "camera needs a writable manual exposure control",
            ConfigureError::NoManualGain => "camera needs a writable manual gain control",
        }
    }
}

/// Why SDK automatic mode cannot be used with these controls, if it cannot.
pub open spec fn auto_fault(
    controls: Seq<ControlCaps>,
    max_exposure_us: int,
    max_gain: int,
) -> Option<ConfigureError> {
    let exposure = find_control(controls, ControlType::Exposure);
    let gain = find_control(controls, ControlType::Gain);
    let ceiling = find_control(controls, ControlType::AutoMaxExposure);
    if max_exposure_us <= 0 || max_gain < 0 {
        Some(ConfigureError::InvalidMaximum)
    } else if exposure is None {
        Some(ConfigureError::NoExposureControl)
    } else if gain is None {
        Some(ConfigureError::NoGainControl)
    } else if !exposure->0.writable || !exposure->0.auto_supported {
        Some(ConfigureError::ExposureNotAutomatic)
    } else if !gain->0.writable || !gain->0.auto_supported {
        Some(ConfigureError::GainNotAutomatic)
    } else if ceiling is None || !ceiling->0.writable {
        Some(ConfigureError::NoWritableCeiling)
    } else {
        None
    }
}

/// The value to give to the automatic exposure ceiling.
pub open spec fn ceiling_value(controls: Seq<ControlCaps>, max_exposure_us: int) -> int {
    let exposure = find_control(controls, ControlType::Exposure)->0;
    let ceiling = find_control(controls, ControlType::AutoMaxExposure)->0;
    number::clamped(
        limit_value(
            ceiling.name@,
            number::clamped(
                max_exposure_us,
                exposure.min_value as int,
                exposure.max_value as int,
            ),
        ),
        ceiling.min_value as int,
        ceiling.max_value as int,
    )
}

/// First step of SDK automatic mode: check the controls and choose the ceiling
/// that the camera is asked for.
pub fn plan_auto_ceiling(controls: &Vec<ControlCaps>, max_exposure_us: i64, max_gain: i64) -> (r:
    Result<ControlSetting, ConfigureError>)
    requires
        ranges_ok(controls@),
    ensures
        match auto_fault(controls@, max_exposure_us as int, max_gain as int) {
            Some(error) => r == Err::<ControlSetting, ConfigureError>(error),
            None => r == Ok::<ControlSetting, ConfigureError>(
                (ControlSetting {
                    control_type: ControlType::AutoMaxExposure,
                    value: ceiling_value(controls@, max_exposure_us as int) as i64,
                    automatic: false,
                }),
            ),
        },
{
    proof {
        lemma_found_in_range(controls@, ControlType::Exposure);
        lemma_found_in_range(controls@, ControlType::AutoMaxExposure);
    }
    if max_exposure_us <= 0 || max_gain < 0 {
        return Err(ConfigureError::InvalidMaximum);
    }
    let exposure = match control(controls, ControlType::Exposure) {
        Some(caps) => caps,
        None => {
            return Err(ConfigureError::NoExposureControl);
        },
    };
    let gain = match control(controls, ControlType::Gain) {
        Some(caps) => caps,
        None => {
            return Err(ConfigureError::NoGainControl);
        },
    };
    if !exposure.writable || !exposure.auto_supported {
        return Err(ConfigureError::ExposureNotAutomatic);
    }
    if !gain.writable || !gain.auto_supported {
        return Err(ConfigureError::GainNotAutomatic);
    }
    let ceiling = match control(controls, ControlType::AutoMaxExposure) {
        Some(caps) => caps,
        None => {
            return Err(ConfigureError::NoWritableCeiling);
        },
    };
    if !ceiling.writable {
        return Err(ConfigureError::NoWritableCeiling);
    }
    let value: i64 = clamp_i64(
        auto_exposure_limit_value(
            ceiling,
            clamp_i64(max_exposure_us, exposure.min_value, exposure.max_value),
        ),
        ceiling.min_value,
        ceiling.max_value,
    );
    Ok(ControlSetting { control_type: ControlType::AutoMaxExposure, value, automatic: false })
}

/// The exposure ceiling that the camera confirmed, in microseconds.
pub open spec fn confirmed_ceiling(controls: Seq<ControlCaps>, readback: int) -> int {
    let exposure = find_control(controls, ControlType::Exposure)->0;
    let ceiling = find_control(controls, ControlType::AutoMaxExposure)->0;
    number::clamped(
        limit_us(ceiling.name@, readback),
        exposure.min_value as int,
        exposure.max_value as int,
    )
}

/// The gain ceiling within what the camera advertises.
pub open spec fn gain_ceiling(controls: Seq<ControlCaps>, max_gain: int) -> int {
    let gain = find_control(controls, ControlType::Gain)->0;
    let limited = match find_control(controls, ControlType::AutoMaxGain) {
        Some(caps) => number::clamped(max_gain, caps.min_value as int, caps.max_value as int),
        None => max_gain,
    };
    number::clamped(limited, gain.min_value as int, gain.max_value as int)
}

/// The target brightness within what the camera advertises.
pub open spec fn brightness_target(controls: Seq<ControlCaps>, target: int) -> int {
    match find_control(controls, ControlType::AutoTargetBrightness) {
        Some(caps) => number::clamped(target, caps.min_value as int, caps.max_value as int),
        None => target,
    }
}

/// The limits of SDK automatic mode once the camera confirmed its ceiling.
pub open spec fn auto_limits(
    controls: Seq<ControlCaps>,
    max_gain: int,
    target_brightness: int,
    readback: int,
) -> AutoLimits {
    AutoLimits {
        min_exposure_us: find_control(controls, ControlType::Exposure)->0.min_value,
        max_exposure_us: confirmed_ceiling(controls, readback) as i64,
        min_gain: find_control(controls, ControlType::Gain)->0.min_value,
        max_gain: gain_ceiling(controls, max_gain) as i64,
        target_brightness: brightness_target(controls, target_brightness) as i64,
    }
}

/// Second step of SDK automatic mode: accept the confirmed ceiling, and derive
/// the limits that automatic exposure keeps to.
pub fn plan_auto_limits(
    controls: &Vec<ControlCaps>,
    max_exposure_us: i64,
    max_gain: i64,
    target_brightness: i64,
    ceiling_readback: i64,
) -> (r: Result<AutoLimits, ConfigureError>)
    requires
        ranges_ok(controls@),
    ensures
        match auto_fault(controls@, max_exposure_us as int, max_gain as int) {
            Some(error) => r == Err::<AutoLimits, ConfigureError>(error),
            None => {
                let ceiling = find_control(controls@, ControlType::AutoMaxExposure)->0;
                if !(ceiling.min_value <= ceiling_readback <= ceiling.max_value) {
                    r == Err::<AutoLimits, ConfigureError>(ConfigureError::CeilingOutsideLimits)
                } else if confirmed_ceiling(controls@, ceiling_readback as int) <= 0 {
                    r == Err::<AutoLimits, ConfigureError>(ConfigureError::CeilingNotPositive)
                } else {
                    r == Ok::<AutoLimits, ConfigureError>(
                        auto_limits(
                            controls@,
                            max_gain as int,
                            target_brightness as int,
                            ceiling_readback as int,
                        ),
                    )
                }
            },
        },
{
    proof {
        lemma_found_in_range(controls@, ControlType::Exposure);
        lemma_found_in_range(controls@, ControlType::Gain);
        lemma_found_in_range(controls@, ControlType::AutoMaxExposure);
        lemma_found_in_range(controls@, ControlType::AutoMaxGain);
        lemma_found_in_range(controls@, ControlType::AutoTargetBrightness);
    }
    if let Err(error) = plan_auto_ceiling(controls, max_exposure_us, max_gain) {
        return Err(error);
    }
    match (
        control(controls, ControlType::Exposure),
        control(controls, ControlType::Gain),
        control(controls, ControlType::AutoMaxExposure),
    ) {
        (Some(exposure), Some(gain), Some(ceiling)) => {
            if ceiling_readback < ceiling.min_value || ceiling_readback > ceiling.max_value {
                return Err(ConfigureError::CeilingOutsideLimits);
            }
            let effective_max_exposure_us: i64 = clamp_i64(
                auto_exposure_limit_us(ceiling, ceiling_readback),
                exposure.min_value,
                exposure.max_value,
            );
            if effective_max_exposure_us <= 0 {
                return Err(ConfigureError::CeilingNotPositive);
            }
            let limited_gain: i64 = match control(controls, ControlType::AutoMaxGain) {
                Some(caps) => clamp_i64(max_gain, caps.min_value, caps.max_value),
                None => max_gain,
            };
            let effective_target: i64 = match control(controls, ControlType::AutoTargetBrightness) {
                Some(caps) => clamp_i64(target_brightness, caps.min_value, caps.max_value),
                None => target_brightness,
            };
            Ok(
                AutoLimits {
                    min_exposure_us: exposure.min_value,
                    max_exposure_us: effective_max_exposure_us,
                    min_gain: gain.min_value,
                    max_gain: clamp_i64(limited_gain, gain.min_value, gain.max_value),
                    target_brightness: effective_target,
                },
            )
        },
        _ => Err(ConfigureError::NoExposureControl),
    }
}


/// The settings that follow a confirmed ceiling: gain ceiling, brightness target
/// and an unflipped image, each where the camera has the control.
pub open spec fn limit_settings(controls: Seq<ControlCaps>, limits: AutoLimits) -> Seq<
    ControlSetting,
> {
    present(
        available_setting(controls, ControlType::AutoMaxGain, limits.max_gain as int, false),
    ) + present(
        available_setting(
            controls,
            ControlType::AutoTargetBrightness,
            limits.target_brightness as int,
            false,
        ),
    ) + present(available_setting(controls, ControlType::Flip, 0, false))
}

/// An optional setting as a list.
pub open spec fn present(setting: Option<ControlSetting>) -> Seq<ControlSetting> {
    match setting {
        Some(setting) => seq![setting],
        None => seq![],
    }
}

fn push_present(settings: &mut Vec<ControlSetting>, setting: Option<ControlSetting>)
    ensures
        final(settings)@ == old(settings)@ + present(setting),
{
    if let Some(setting) = setting {
        settings.push(setting);
    }
}

/// Third step of SDK automatic mode: what to set beside the ceiling.
pub fn auto_limit_settings(controls: &Vec<ControlCaps>, limits: &AutoLimits) -> (r: Vec<
    ControlSetting,
>)
    requires
        ranges_ok(controls@),
    ensures
        r@ == limit_settings(controls@, *limits),
{
    proof {
        lemma_found_in_range(controls@, ControlType::AutoMaxGain);
        lemma_found_in_range(controls@, ControlType::AutoTargetBrightness);
        lemma_found_in_range(controls@, ControlType::Flip);
    }
    let mut settings: Vec<ControlSetting> = Vec::new();
    push_present(
        &mut settings,
        set_if_available(controls, ControlType::AutoMaxGain, limits.max_gain, false),
    );
    push_present(
        &mut settings,
        set_if_available(
            controls,
            ControlType::AutoTargetBrightness,
            limits.target_brightness,
            false,
        ),
    );
    push_present(&mut settings, set_if_available(controls, ControlType::Flip, 0, false));
    settings
}

/// The value that automatic mode starts from: what the camera reports, else its
/// default, kept within the limits.
pub open spec fn seed_value(
    controls: Seq<ControlCaps>,
    control_type: ControlType,
    readback: Option<i64>,
    low: int,
    high: int,
) -> int {
    number::clamped(
        match readback {
            Some(value) => value as int,
            None => find_control(controls, control_type)->0.default_value as int,
        },
        low,
        high,
    )
}

fn plan_seed(
    controls: &Vec<ControlCaps>,
    control_type: ControlType,
    readback: Option<i64>,
    low: i64,
    high: i64,
    missing: ConfigureError,
) -> (r: Result<Option<ControlSetting>, ConfigureError>)
    requires
        ranges_ok(controls@),
        is_confined(control_type),
        low <= high,
    ensures
        if readback is None && find_control(controls@, control_type) is None {
            r == Err::<Option<ControlSetting>, ConfigureError>(missing)
        } else {
            r == Ok::<Option<ControlSetting>, ConfigureError>(
                available_setting(
                    controls@,
                    control_type,
                    seed_value(controls@, control_type, readback, low as int, high as int),
                    true,
                ),
            )
        },
{
    let value: i64 = match readback {
        Some(value) => value,
        None => match control(controls, control_type) {
            Some(caps) => caps.default_value,
            None => {
                return Err(missing);
            },
        },
    };
    proof {
        lemma_found_in_range(controls@, control_type);
    }
    Ok(set_if_available(controls, control_type, clamp_i64(value, low, high), true))
}

/// Fourth step of SDK automatic mode: a camera can retain an exposure from an
/// earlier session, so automatic exposure starts within the confirmed ceiling.
pub fn seed_auto_exposure(
    controls: &Vec<ControlCaps>,
    limits: &AutoLimits,
    readback: Option<i64>,
) -> (r: Result<Option<ControlSetting>, ConfigureError>)
    requires
        ranges_ok(controls@),
        limits.min_exposure_us <= limits.max_exposure_us,
    ensures
        if readback is None && find_control(controls@, ControlType::Exposure) is None {
            r == Err::<Option<ControlSetting>, ConfigureError>(ConfigureError::NoExposureControl)
        } else {
            r == Ok::<Option<ControlSetting>, ConfigureError>(
                available_setting(
                    controls@,
                    ControlType::Exposure,
                    seed_value(
                        controls@,
                        ControlType::Exposure,
                        readback,
                        limits.min_exposure_us as int,
                        limits.max_exposure_us as int,
                    ),
                    true,
                ),
            )
        },
{
    plan_seed(
        controls,
        ControlType::Exposure,
        readback,
        limits.min_exposure_us,
        limits.max_exposure_us,
        ConfigureError::NoExposureControl,
    )
}

/// Last step of SDK automatic mode: automatic gain starts within its limits.
pub fn seed_auto_gain(controls: &Vec<ControlCaps>, limits: &AutoLimits, readback: Option<i64>) -> (r:
    Result<Option<ControlSetting>, ConfigureError>)
    requires
        ranges_ok(controls@),
        limits.min_gain <= limits.max_gain,
    ensures
        if readback is None && find_control(controls@, ControlType::Gain) is None {
            r == Err::<Option<ControlSetting>, ConfigureError>(ConfigureError::NoGainControl)
        } else {
            r == Ok::<Option<ControlSetting>, ConfigureError>(
                available_setting(
                    controls@,
                    ControlType::Gain,
                    seed_value(
                        controls@,
                        ControlType::Gain,
                        readback,
                        limits.min_gain as int,
                        limits.max_gain as int,
                    ),
                    true,
                ),
            )
        },
{
    plan_seed(
        controls,
        ControlType::Gain,
        readback,
        limits.min_gain,
        limits.max_gain,
        ConfigureError::NoGainControl,
    )
}

/// Confirmed limits lie within what the camera advertises of exposure and gain,
/// and whatever the camera reports, automatic mode starts inside them.
pub proof fn law_auto_mode_starts_within_limits(
    controls: Seq<ControlCaps>,
    max_exposure_us: int,
    max_gain: int,
    target_brightness: int,
    ceiling_readback: int,
    exposure_readback: Option<i64>,
    gain_readback: Option<i64>,
)
    requires
        ranges_ok(controls),
        auto_fault(controls, max_exposure_us, max_gain) is None,
    ensures
        ({
            let limits = auto_limits(controls, max_gain, target_brightness, ceiling_readback);
            let exposure = find_control(controls, ControlType::Exposure)->0;
            let gain = find_control(controls, ControlType::Gain)->0;
            let exposure_seed = available_setting(
                controls,
                ControlType::Exposure,
                seed_value(
                    controls,
                    ControlType::Exposure,
                    exposure_readback,
                    limits.min_exposure_us as int,
                    limits.max_exposure_us as int,
                ),
                true,
            );
            let gain_seed = available_setting(
                controls,
                ControlType::Gain,
                seed_value(
                    controls,
                    ControlType::Gain,
                    gain_readback,
                    limits.min_gain as int,
                    limits.max_gain as int,
                ),
                true,
            );
            &&& exposure.min_value <= limits.max_exposure_us <= exposure.max_value
            &&& gain.min_value <= limits.max_gain <= gain.max_value
            &&& exposure_seed is Some
            &&& limits.min_exposure_us <= exposure_seed->0.value <= limits.max_exposure_us
            &&& gain_seed is Some
            &&& limits.min_gain <= gain_seed->0.value <= limits.max_gain
        }),
{
    lemma_found_in_range(controls, ControlType::Exposure);
    lemma_found_in_range(controls, ControlType::Gain);
}

/// What application-controlled exposure is asked to keep to.
#[derive(Clone, Copy, Debug, PartialEq, Eq, Structural)]
pub struct AdaptiveRequest {
    pub min_exposure_us: i64,
    pub max_exposure_us: i64,
    pub max_gain: i64,
    pub target_brightness: i64,
}

/// The limits of application-controlled exposure, and what to set first.
#[derive(Debug)]
pub struct AdaptiveSetup {
    pub limits: AutoLimits,
    pub settings: Vec<ControlSetting>,
}

/// Why application-controlled exposure is unavailable, if it is.
pub open spec fn adaptive_fault(controls: Seq<ControlCaps>) -> Option<ConfigureError> {
    let exposure = find_control(controls, ControlType::Exposure);
    let gain = find_control(controls, ControlType::Gain);
    if exposure is None || !exposure->0.writable {
        Some(ConfigureError::NoManualExposure)
    } else if gain is None || !gain->0.writable {
        Some(ConfigureError::NoManualGain)
    } else {
        None
    }
}

/// The limits of application-controlled exposure: the request within the manual
/// limits of the camera, and never below one microsecond.
pub open spec fn adaptive_limits(
    controls: Seq<ControlCaps>,
    request: AdaptiveRequest,
) -> AutoLimits {
    let exposure = find_control(controls, ControlType::Exposure)->0;
    let gain = find_control(controls, ControlType::Gain)->0;
    let shortest = number::spec_max(exposure.min_value as int, 1);
    let longest = number::clamped(
        request.max_exposure_us as int,
        shortest,
        exposure.max_value as int,
    );
    AutoLimits {
        min_exposure_us: number::clamped(request.min_exposure_us as int, shortest, longest) as i64,
        max_exposure_us: longest as i64,
        min_gain: gain.min_value,
        max_gain: number::clamped(
            request.max_gain as int,
            gain.min_value as int,
            gain.max_value as int,
        ) as i64,
        target_brightness: request.target_brightness,
    }
}

/// What to set first: a tenth of a second within the limits, the lowest gain and
/// an unflipped image.
pub open spec fn adaptive_settings(controls: Seq<ControlCaps>, limits: AutoLimits) -> Seq<
    ControlSetting,
> {
    seq![
        ControlSetting {
            control_type: ControlType::Exposure,
            value: number::clamped(
                100_000,
                limits.min_exposure_us as int,
                limits.max_exposure_us as int,
            ) as i64,
            automatic: false,
        },
        ControlSetting {
            control_type: ControlType::Gain,
            value: limits.min_gain,
            automatic: false,
        },
    ] + present(available_setting(controls, ControlType::Flip, 0, false))
}

pub fn configure_adaptive(controls: &Vec<ControlCaps>, request: &AdaptiveRequest) -> (r: Result<
    AdaptiveSetup,
    ConfigureError,
>)
    requires
        ranges_ok(controls@),
        adaptive_fault(controls@) is None ==> find_control(
            controls@,
            ControlType::Exposure,
        )->0.max_value >= 1,
    ensures
        match adaptive_fault(controls@) {
            Some(error) => r == Err::<AdaptiveSetup, ConfigureError>(error),
            None => r matches Ok(setup) && setup.limits == adaptive_limits(controls@, *request)
                && setup.settings@ == adaptive_settings(controls@, setup.limits),
        },
{
    proof {
        lemma_found_in_range(controls@, ControlType::Exposure);
        lemma_found_in_range(controls@, ControlType::Gain);
        lemma_found_in_range(controls@, ControlType::Flip);
    }
    let exposure = match control(controls, ControlType::Exposure) {
        Some(caps) => caps,
        None => {
            return Err(ConfigureError::NoManualExposure);
        },
    };
    if !exposure.writable {
        return Err(ConfigureError::NoManualExposure);
    }
    let gain = match control(controls, ControlType::Gain) {
        Some(caps) => caps,
        None => {
            return Err(ConfigureError::NoManualGain);
        },
    };
    if !gain.writable {
        return Err(ConfigureError::NoManualGain);
    }
    let shortest: i64 = max_i64(exposure.min_value, 1);
    let max_exposure_us: i64 = clamp_i64(request.max_exposure_us, shortest, exposure.max_value);
    let min_exposure_us: i64 = clamp_i64(request.min_exposure_us, shortest, max_exposure_us);
    let max_gain: i64 = clamp_i64(request.max_gain, gain.min_value, gain.max_value);
    let limits = AutoLimits {
        min_exposure_us,
        max_exposure_us,
        min_gain: gain.min_value,
        max_gain,
        target_brightness: request.target_brightness,
    };
    let mut settings: Vec<ControlSetting> = Vec::new();
    settings.push(
        ControlSetting {
            control_type: ControlType::Exposure,
            value: clamp_i64(100_000, min_exposure_us, max_exposure_us),
            automatic: false,
        },
    );
    settings.push(
        ControlSetting { control_type: ControlType::Gain, value: gain.min_value, automatic: false },
    );
    push_present(&mut settings, set_if_available(controls, ControlType::Flip, 0, false));
    Ok(AdaptiveSetup { limits, settings })
}

/// An exposure and a gain.
#[derive(Clone, Copy, Debug, PartialEq, Eq, Structural)]
pub struct ExposureSetting {
    pub exposure_us: i64,
    pub gain: i64,
}

/// What to set, with video stopped, so that the camera uses another exposure and
/// gain; nothing where they stay as they are.
pub fn plan_adaptation(current: ExposureSetting, next: ExposureSetting) -> (r: Vec<ControlSetting>)
    ensures
        r@ == (if next == current {
            seq![]
        } else {
            seq![
                ControlSetting {
                    control_type: ControlType::Exposure,
                    value: next.exposure_us,
                    automatic: false,
                },
                ControlSetting {
                    control_type: ControlType::Gain,
                    value: next.gain,
                    automatic: false,
                },
            ]
        }),
{
    let mut settings: Vec<ControlSetting> = Vec::new();
    if next == current {
        return settings;
    }
    settings.push(
        ControlSetting {
            control_type: ControlType::Exposure,
            value: next.exposure_us,
            automatic: false,
        },
    );
    settings.push(
        ControlSetting { control_type: ControlType::Gain, value: next.gain, automatic: false },
    );
    settings
}

/// The exposure that the camera reports, where it is positive, else the fallback.
pub open spec fn exposure_reading(reading: Option<i64>, fallback_us: int) -> int {
    match reading {
        Some(value) if value > 0 => value as int,
        _ => number::spec_max(fallback_us, 1),
    }
}

pub fn current_exposure(reading: Option<i64>, fallback_us: i64) -> (r: i64)
    ensures
        r == exposure_reading(reading, fallback_us as int),
        r > 0,
{
    match reading {
        Some(value) if value > 0 => value,
        _ => max_i64(fallback_us, 1),
    }
}

/// The gain that the camera reports, else the fallback.
pub fn current_gain(reading: Option<i64>, fallback: i64) -> (r: i64)
    ensures
        r == (match reading {
            Some(value) => value,
            None => fallback,
        }),
{
    match reading {
        Some(value) => value,
        None => fallback,
    }
}

/// A pixel format of the camera.
#[derive(Clone, Copy, Debug, PartialEq, Eq, Structural)]
pub enum ImageType {
    Raw8,
    Rgb24,
    Raw16,
    Y8,
}

/// The colour filter that a camera reports.
#[derive(Clone, Copy, Debug, PartialEq, Eq, Structural)]
pub enum SensorPattern {
    Rg,
    Bg,
    Gr,
    Gb,
    Unknown(i32),
}

/// A colour filter that the debayer pipeline handles.
#[derive(Clone, Copy, Debug, PartialEq, Eq, Structural)]
pub enum BayerPattern {
    Rg,
    Bg,
    Gr,
    Gb,
}

/// The filter of a camera, or the number of an unknown one.
pub fn core_bayer(pattern: SensorPattern) -> (r: Result<BayerPattern, i32>)
    ensures
        match pattern {
            SensorPattern::Rg => r == Ok::<BayerPattern, i32>(BayerPattern::Rg),
            SensorPattern::Bg => r == Ok::<BayerPattern, i32>(BayerPattern::Bg),
            SensorPattern::Gr => r == Ok::<BayerPattern, i32>(BayerPattern::Gr),
            SensorPattern::Gb => r == Ok::<BayerPattern, i32>(BayerPattern::Gb),
            SensorPattern::Unknown(value) => r == Err::<BayerPattern, i32>(value),
        },
{
    match pattern {
        SensorPattern::Rg => Ok(BayerPattern::Rg),
        SensorPattern::Bg => Ok(BayerPattern::Bg),
        SensorPattern::Gr => Ok(BayerPattern::Gr),
        SensorPattern::Gb => Ok(BayerPattern::Gb),
        SensorPattern::Unknown(value) => Err(value),
    }
}

/// A connected camera.
#[derive(Debug, PartialEq, Eq)]
pub struct CameraInfo {
    pub camera_id: i32,
    pub name: String,
    pub max_width: u32,
    pub max_height: u32,
    pub is_color: bool,
    pub bayer_pattern: SensorPattern,
    pub supported_bins: Vec<i32>,
    pub supported_formats: Vec<ImageType>,
}

/// Why no single camera was selected.
#[derive(Clone, Copy, Debug, PartialEq, Eq, Structural)]
pub enum SelectCameraError {
    NotConnected(i32),
    NoneConnected,
    Ambiguous(usize),
    NoMatch,
    SeveralMatches,
}

/// Whether the configuration accepts a camera: its id where one is given, and
/// its name, in any ASCII case, where a part of it is given.
pub open spec fn matches_configuration(
    camera: CameraInfo,
    camera_id: Option<i32>,
    name_contains: Option<Seq<char>>,
) -> bool {
    &&& camera_id matches Some(id) ==> camera.camera_id == id
    &&& name_contains matches Some(needle) ==> unicode::contains_text(
        unicode::lower(camera.name@),
        unicode::lower(needle),
    )
}

/// Position of the only camera that the configuration accepts.
pub open spec fn only_match(
    cameras: Seq<CameraInfo>,
    camera_id: Option<i32>,
    name_contains: Option<Seq<char>>,
    i: int,
) -> bool {
    &&& 0 <= i < cameras.len()
    &&& forall|j: int|
        0 <= j < cameras.len() ==> (#[trigger] matches_configuration(
            cameras[j],
            camera_id,
            name_contains,
        ) <==> j == i)
}

/// Whether the configuration accepts no camera.
pub open spec fn none_matches(
    cameras: Seq<CameraInfo>,
    camera_id: Option<i32>,
    name_contains: Option<Seq<char>>,
) -> bool {
    forall|j: int|
        0 <= j < cameras.len() ==> !#[trigger] matches_configuration(
            cameras[j],
            camera_id,
            name_contains,
        )
}

/// Whether the configuration accepts both of two cameras.
pub open spec fn two_match(
    cameras: Seq<CameraInfo>,
    camera_id: Option<i32>,
    name_contains: Option<Seq<char>>,
    j: int,
    k: int,
) -> bool {
    &&& 0 <= j < k < cameras.len()
    &&& matches_configuration(cameras[j], camera_id, name_contains)
    &&& matches_configuration(cameras[k], camera_id, name_contains)
}

fn check_configuration(
    camera: &CameraInfo,
    camera_id: Option<i32>,
    name_contains: &Option<String>,
) -> (r: bool)
    ensures
        r == matches_configuration(*camera, camera_id, optional_view(*name_contains)),
{
    let id_matches = match camera_id {
        Some(id) => camera.camera_id == id,
        None => true,
    };
    if !id_matches {
        return false;
    }
    match name_contains {
        Some(needle) => {
            let name = lower_text(camera.name.as_str());
            let part = lower_text(needle.as_str());
            find_text(name.as_slice(), part.as_slice())
        },
        None => true,
    }
}

/// The characters of an optional text.
pub open spec fn optional_view(text: Option<String>) -> Option<Seq<char>> {
    match text {
        Some(text) => Some(text@),
        None => None,
    }
}

/// The position of the one connected camera that the configuration accepts.
pub fn select_configured_camera(
    cameras: &Vec<CameraInfo>,
    camera_id: Option<i32>,
    name_contains: &Option<String>,
) -> (r: Result<usize, SelectCameraError>)
    ensures
        r == Err::<usize, SelectCameraError>(SelectCameraError::NoMatch) ==> none_matches(
            cameras@,
            camera_id,
            optional_view(*name_contains),
        ),
        r == Err::<usize, SelectCameraError>(SelectCameraError::SeveralMatches) ==> exists|
            j: int,
            k: int,
        | #[trigger] two_match(cameras@, camera_id, optional_view(*name_contains), j, k),
        match r {
            Ok(i) => only_match(cameras@, camera_id, optional_view(*name_contains), i as int),
            Err(SelectCameraError::NoMatch) => forall|j: int|
                0 <= j < cameras@.len() ==> !#[trigger] matches_configuration(
                    cameras@[j],
                    camera_id,
                    optional_view(*name_contains),
                ),
            Err(SelectCameraError::SeveralMatches) => exists|j: int, k: int|
                0 <= j < k < cameras@.len() && #[trigger] matches_configuration(
                    cameras@[j],
                    camera_id,
                    optional_view(*name_contains),
                ) && #[trigger] matches_configuration(
                    cameras@[k],
                    camera_id,
                    optional_view(*name_contains),
                ),
            Err(_) => false,
        },
{
    let ghost needle = optional_view(*name_contains);
    let mut selected: Option<usize> = None;
    let mut i: usize = 0;
    while i < cameras.len()
        invariant
            i <= cameras.len(),
            needle == optional_view(*name_contains),
            match selected {
                Some(s) => s < i && matches_configuration(cameras@[s as int], camera_id, needle)
                    && forall|j: int|
                    0 <= j < i ==> (#[trigger] matches_configuration(cameras@[j], camera_id, needle)
                        <==> j == s),
                None => forall|j: int|
                    0 <= j < i ==> !#[trigger] matches_configuration(cameras@[j], camera_id, needle),
            },
        decreases cameras.len() - i,
    {
        if check_configuration(&cameras[i], camera_id, name_contains) {
            if let Some(s) = selected {
                assert(matches_configuration(cameras@[s as int], camera_id, needle));
                assert(matches_configuration(cameras@[i as int], camera_id, needle));
                assert(two_match(cameras@, camera_id, needle, s as int, i as int));
                return Err(SelectCameraError::SeveralMatches);
            }
            selected = Some(i);
        }
        i = i + 1;
    }
    match selected {
        Some(s) => Ok(s),
        None => Err(SelectCameraError::NoMatch),
    }
}

/// The position of the camera with an id, or of the only camera where no id is
/// given.
pub fn select_camera(cameras: &Vec<CameraInfo>, camera_id: Option<i32>) -> (r: Result<
    usize,
    SelectCameraError,
>)
    ensures
        match camera_id {
            Some(id) => match r {
                Ok(i) => i < cameras@.len() && cameras@[i as int].camera_id == id && forall|j: int|
                    0 <= j < i ==> (#[trigger] cameras@[j]).camera_id != id,
                Err(error) => error == SelectCameraError::NotConnected(id) && forall|j: int|
                    0 <= j < cameras@.len() ==> (#[trigger] cameras@[j]).camera_id != id,
            },
            None => r == (if cameras@.len() == 0 {
                Err::<usize, SelectCameraError>(SelectCameraError::NoneConnected)
            } else if cameras@.len() == 1 {
                Ok::<usize, SelectCameraError>(0)
            } else {
                Err::<usize, SelectCameraError>(
                    SelectCameraError::Ambiguous(cameras@.len() as usize),
                )
            }),
        },
{
    match camera_id {
        Some(id) => {
            let mut i: usize = 0;
            while i < cameras.len()
                invariant
                    i <= cameras.len(),
                    camera_id == Some(id),
                    forall|j: int| 0 <= j < i ==> (#[trigger] cameras@[j]).camera_id != id,
                decreases cameras.len() - i,
            {
                if cameras[i].camera_id == id {
                    return Ok(i);
                }
                i = i + 1;
            }
            Err(SelectCameraError::NotConnected(id))
        },
        None => {
            if cameras.len() == 0 {
                Err(SelectCameraError::NoneConnected)
            } else if cameras.len() == 1 {
                Ok(0)
            } else {
                Err(SelectCameraError::Ambiguous(cameras.len()))
            }
        },
    }
}

/// The part of the sensor to read, and how.
#[derive(Clone, Copy, Debug, PartialEq, Eq, Structural)]
pub struct Roi {
    pub width: u32,
    pub height: u32,
    pub bin: i32,
    pub image_type: ImageType,
}

/// Why a camera cannot be read as configured.
#[derive(Clone, Copy, Debug, PartialEq, Eq, Structural)]
pub enum RoiError {
    NotColor,
    UnsupportedBin,
    UnsupportedFormat(ImageType),
    BinNotPositive,
}

/// The pixel format that is captured.
pub open spec fn capture_format(raw16: bool) -> ImageType {
    if raw16 {
        ImageType::Raw16
    } else {
        ImageType::Raw8
    }
}

/// Why a camera cannot be read as configured, if it cannot.
pub open spec fn roi_fault(info: CameraInfo, bin: i32, raw16: bool) -> Option<RoiError> {
    if !info.is_color {
        Some(RoiError::NotColor)
    } else if !info.supported_bins@.contains(bin) {
        Some(RoiError::UnsupportedBin)
    } else if !info.supported_formats@.contains(capture_format(raw16)) {
        Some(RoiError::UnsupportedFormat(capture_format(raw16)))
    } else if bin < 0 {
        Some(RoiError::BinNotPositive)
    } else {
        None
    }
}

fn supports_bin(bins: &Vec<i32>, bin: i32) -> (r: bool)
    ensures
        r == bins@.contains(bin),
{
    let mut i: usize = 0;
    while i < bins.len()
        invariant
            i <= bins.len(),
            forall|j: int| 0 <= j < i ==> bins@[j] != bin,
        decreases bins.len() - i,
    {
        if bins[i] == bin {
            assert(bins@[i as int] == bin);
            return true;
        }
        i = i + 1;
    }
    false
}

fn supports_format(formats: &Vec<ImageType>, format: ImageType) -> (r: bool)
    ensures
        r == formats@.contains(format),
{
    let mut i: usize = 0;
    while i < formats.len()
        invariant
            i <= formats.len(),
            forall|j: int| 0 <= j < i ==> formats@[j] != format,
        decreases formats.len() - i,
    {
        if formats[i] == format {
            assert(formats@[i as int] == format);
            return true;
        }
        i = i + 1;
    }
    false
}

/// The region to read: the configured size, or the whole binned sensor.
pub fn plan_roi(
    info: &CameraInfo,
    bin: i32,
    width: Option<u32>,
    height: Option<u32>,
    raw16: bool,
) -> (r: Result<Roi, RoiError>)
    requires
        roi_fault(*info, bin, raw16) is None ==> bin != 0,
    ensures
        match roi_fault(*info, bin, raw16) {
            Some(error) => r == Err::<Roi, RoiError>(error),
            None => r == Ok::<Roi, RoiError>(
                (Roi {
                    width: match width {
                        Some(width) => width,
                        None => (info.max_width as int / bin as int) as u32,
                    },
                    height: match height {
                        Some(height) => height,
                        None => (info.max_height as int / bin as int) as u32,
                    },
                    bin,
                    image_type: capture_format(raw16),
                }),
            ),
        },
{
    if !info.is_color {
        return Err(RoiError::NotColor);
    }
    if !supports_bin(&info.supported_bins, bin) {
        return Err(RoiError::UnsupportedBin);
    }
    let image_type = if raw16 {
        ImageType::Raw16
    } else {
        ImageType::Raw8
    };
    if !supports_format(&info.supported_formats, image_type) {
        return Err(RoiError::UnsupportedFormat(image_type));
    }
    if bin < 0 {
        return Err(RoiError::BinNotPositive);
    }
    let factor: u32 = bin as u32;
    Ok(
        Roi {
            width: match width {
                Some(width) => width,
                None => info.max_width / factor,
            },
            height: match height {
                Some(height) => height,
                None => info.max_height / factor,
            },
            bin,
            image_type,
        },
    )
}

/// Whether the control at `i` is the first one of a type.
pub open spec fn is_first_of(controls: Seq<ControlCaps>, control_type: ControlType, i: int) -> bool {
    &&& 0 <= i < controls.len()
    &&& controls[i].control_type == control_type
    &&& forall|j: int| 0 <= j < i ==> (#[trigger] controls[j]).control_type != control_type
}

/// Whether a camera has no control of a type.
pub open spec fn has_none_of(controls: Seq<ControlCaps>, control_type: ControlType) -> bool {
    forall|j: int|
        0 <= j < controls.len() ==> (#[trigger] controls[j]).control_type != control_type
}

proof fn lemma_first_of(controls: Seq<ControlCaps>, control_type: ControlType, i: int)
    ensures
        is_first_of(controls, control_type, i) ==> find_control(controls, control_type) == Some(
            controls[i],
        ),
        has_none_of(controls, control_type) <==> find_control(controls, control_type) is None,
{
    if is_first_of(controls, control_type, i) {
        lemma_find_control(controls, control_type, i);
        assert(controls.skip(i)[0] == controls[i]);
    }
    if has_none_of(controls, control_type) {
        lemma_find_control(controls, control_type, controls.len() as int);
    } else {
        lemma_some_first(controls, control_type);
    }
}

proof fn lemma_some_first(controls: Seq<ControlCaps>, control_type: ControlType) -> (i: int)
    requires
        !has_none_of(controls, control_type),
    ensures
        is_first_of(controls, control_type, i),
        find_control(controls, control_type) == Some(controls[i]),
    decreases controls.len(),
{
    if controls[0].control_type == control_type {
        0
    } else {
        let rest = controls.skip(1);
        let k = choose|k: int|
            0 <= k < controls.len() && (#[trigger] controls[k]).control_type == control_type;
        assert(rest[k - 1] == controls[k]);
        let i = lemma_some_first(rest, control_type);
        assert forall|j: int| 0 <= j < i + 1 implies (#[trigger] controls[j]).control_type
            != control_type by {
            if j > 0 {
                assert(rest[j - 1] == controls[j]);
            }
        }
        assert(rest[i] == controls[i + 1]);
        i + 1
    }
}

/// A control is looked up by its type, and the first one of the type counts.
pub proof fn law_first_control_of_a_type_counts(
    controls: &Vec<ControlCaps>,
    control_type: ControlType,
    i: int,
    r: Option<&ControlCaps>,
)
    requires
        call_ensures(control, (controls, control_type), r),
    ensures
        r is None <==> has_none_of(controls@, control_type),
        is_first_of(controls@, control_type, i) ==> r is Some && *r->0 == controls@[i],
{
    lemma_first_of(controls@, control_type, i);
}

/// A control is set as near to the request as its range allows, and only where it can
/// be written and, if asked to, run automatically.
pub proof fn law_setting_comes_as_near_as_it_can(
    controls: &Vec<ControlCaps>,
    control_type: ControlType,
    requested: i64,
    automatic: bool,
    i: int,
    r: Option<ControlSetting>,
)
    requires
        call_ensures(set_if_available, (controls, control_type, requested, automatic), r),
        is_first_of(controls@, control_type, i),
        controls@[i].min_value <= controls@[i].max_value,
    ensures
        r is Some <==> controls@[i].writable && (automatic ==> controls@[i].auto_supported),
        r matches Some(setting) ==> {
            &&& setting.control_type == control_type
            &&& setting.automatic == automatic
            &&& controls@[i].min_value <= setting.value <= controls@[i].max_value
            &&& setting.value < requested ==> setting.value == controls@[i].max_value
            &&& setting.value > requested ==> setting.value == controls@[i].min_value
        },
{
    lemma_first_of(controls@, control_type, i);
}

/// A control that the camera does not have is not set.
pub proof fn law_missing_control_is_not_set(
    controls: &Vec<ControlCaps>,
    control_type: ControlType,
    requested: i64,
    automatic: bool,
    r: Option<ControlSetting>,
)
    requires
        call_ensures(set_if_available, (controls, control_type, requested, automatic), r),
        has_none_of(controls@, control_type),
    ensures
        r is None,
{
    lemma_first_of(controls@, control_type, 0);
}

/// Whether a control's name says that it counts in milliseconds.
pub open spec fn names_millis(name: Seq<char>) -> bool {
    exists|k: int|
        0 <= k < name.len() - 1 && (#[trigger] name[k] == 'm' || name[k] == 'M') && (name[k + 1]
            == 's' || name[k + 1] == 'S')
}

proof fn lemma_names_millis(name: Seq<char>)
    ensures
        counts_millis(name) == names_millis(name),
{
    reveal_strlit("ms");
    let ms = "ms"@;
    let low = unicode::lower(name);
    assert(ms.len() == 2 && ms[0] == 'm' && ms[1] == 's');
    if counts_millis(name) {
        let at = choose|at: int| unicode::occurs_at(low, ms, at);
        assert(low.subrange(at, at + 2)[0] == low[at]);
        assert(low.subrange(at, at + 2)[1] == low[at + 1]);
        assert(low[at] == unicode::lower_char(name[at]));
        assert(low[at + 1] == unicode::lower_char(name[at + 1]));
        assert(name[at] == 'm' || name[at] == 'M');
    }
    if names_millis(name) {
        let k = choose|k: int|
            0 <= k < name.len() - 1 && (#[trigger] name[k] == 'm' || name[k] == 'M') && (name[k + 1]
                == 's' || name[k + 1] == 'S');
        assert(low[k] == 'm' && low[k + 1] == 's');
        assert(low.subrange(k, k + 2) =~= ms);
        assert(unicode::occurs_at(low, ms, k));
    }
}

/// A ceiling is written in the control's own unit, rounded up, and read back in
/// microseconds.
pub proof fn law_ceiling_is_in_the_unit_of_its_control(
    caps: &ControlCaps,
    exposure_us: i64,
    written: i64,
    sdk_value: i64,
    read: i64,
)
    requires
        call_ensures(auto_exposure_limit_value, (caps, exposure_us), written),
        call_ensures(auto_exposure_limit_us, (caps, sdk_value), read),
        0 <= exposure_us <= 9_000_000_000_000_000,
        0 <= sdk_value <= 9_000_000_000_000_000,
    ensures
        !names_millis(caps.name@) ==> written == exposure_us && read == sdk_value,
        names_millis(caps.name@) ==> 1_000 * (written - 1) < exposure_us <= 1_000 * written
            && read == 1_000 * sdk_value,
{
    lemma_names_millis(caps.name@);
}

/// Automatic exposure is configured exactly where both limits make sense, exposure and
/// gain can run automatically, there is a ceiling that can be written, and the camera
/// confirmed one within its range that leaves some exposure.
pub proof fn law_automatic_mode_needs_its_controls(
    controls: &Vec<ControlCaps>,
    max_exposure_us: i64,
    max_gain: i64,
    target_brightness: i64,
    readback: i64,
    exposure: int,
    gain: int,
    ceiling: int,
    r: Result<AutoLimits, ConfigureError>,
)
    requires
        call_ensures(
            plan_auto_limits,
            (controls, max_exposure_us, max_gain, target_brightness, readback),
            r,
        ),
        ranges_ok(controls@),
    ensures
        has_none_of(controls@, ControlType::Exposure) || has_none_of(controls@, ControlType::Gain)
            || has_none_of(controls@, ControlType::AutoMaxExposure) || max_exposure_us <= 0
            || max_gain < 0 ==> r is Err,
        is_first_of(controls@, ControlType::Exposure, exposure) && is_first_of(
            controls@,
            ControlType::Gain,
            gain,
        ) && is_first_of(controls@, ControlType::AutoMaxExposure, ceiling) && controls@[exposure].max_value
            >= 1 && 0 < readback <= 9_000_000_000_000_000 ==> (r is Ok <==> {
            &&& max_exposure_us > 0
            &&& max_gain >= 0
            &&& controls@[exposure].writable && controls@[exposure].auto_supported
            &&& controls@[gain].writable && controls@[gain].auto_supported
            &&& controls@[ceiling].writable
            &&& controls@[ceiling].min_value <= readback <= controls@[ceiling].max_value
        }),
{
    lemma_first_of(controls@, ControlType::Exposure, exposure);
    lemma_first_of(controls@, ControlType::Gain, gain);
    lemma_first_of(controls@, ControlType::AutoMaxExposure, ceiling);
    if is_first_of(controls@, ControlType::Exposure, exposure) {
        assert(controls@[exposure].min_value <= controls@[exposure].max_value);
    }
}

/// The gain limit is the operator's wherever the camera can follow it: it is never
/// above what the operator allows unless the camera cannot go that low, and never
/// outside what the camera advertises.
pub proof fn law_operator_limits_the_gain(
    controls: &Vec<ControlCaps>,
    max_exposure_us: i64,
    max_gain: i64,
    target_brightness: i64,
    readback: i64,
    gain: int,
    ceiling: int,
    limits: AutoLimits,
)
    requires
        call_ensures(
            plan_auto_limits,
            (controls, max_exposure_us, max_gain, target_brightness, readback),
            Ok::<AutoLimits, ConfigureError>(limits),
        ),
        ranges_ok(controls@),
        is_first_of(controls@, ControlType::Gain, gain),
    ensures
        limits.min_gain == controls@[gain].min_value,
        controls@[gain].min_value <= limits.max_gain <= controls@[gain].max_value,
        has_none_of(controls@, ControlType::AutoMaxGain) ==> {
            &&& limits.max_gain > max_gain ==> limits.max_gain == controls@[gain].min_value
            &&& limits.max_gain < max_gain ==> limits.max_gain == controls@[gain].max_value
        },
        is_first_of(controls@, ControlType::AutoMaxGain, ceiling) ==> {
            &&& limits.max_gain > max_gain ==> limits.max_gain == controls@[gain].min_value
                || controls@[ceiling].min_value > max_gain
            &&& limits.max_gain > max_gain ==> limits.max_gain <= controls@[gain].min_value
                || limits.max_gain <= controls@[ceiling].min_value
            &&& limits.max_gain < max_gain ==> limits.max_gain == controls@[gain].max_value
                || controls@[ceiling].max_value < max_gain
            &&& limits.max_gain < max_gain ==> limits.max_gain >= controls@[gain].max_value
                || limits.max_gain >= controls@[ceiling].max_value
            &&& controls@[gain].min_value <= max_gain <= controls@[gain].max_value
                && controls@[ceiling].min_value <= max_gain <= controls@[ceiling].max_value
                ==> limits.max_gain == max_gain
            &&& limits.max_gain <= controls@[ceiling].max_value || limits.max_gain
                == controls@[gain].min_value
            &&& limits.max_gain >= controls@[ceiling].min_value || limits.max_gain
                == controls@[gain].max_value
        },
{
    lemma_first_of(controls@, ControlType::Gain, gain);
    lemma_first_of(controls@, ControlType::AutoMaxGain, ceiling);
    assert(controls@[gain].min_value <= controls@[gain].max_value);
    if is_first_of(controls@, ControlType::AutoMaxGain, ceiling) {
        assert(controls@[ceiling].min_value <= controls@[ceiling].max_value);
    }
}

/// The exposure limit is the ceiling that the camera confirmed, within the exposures
/// that it advertises, and the brightness to aim at is the operator's within the
/// camera's range for it.
pub proof fn law_confirmed_ceiling_limits_the_exposure(
    controls: &Vec<ControlCaps>,
    max_exposure_us: i64,
    max_gain: i64,
    target_brightness: i64,
    readback: i64,
    exposure: int,
    ceiling: int,
    brightness: int,
    limits: AutoLimits,
)
    requires
        call_ensures(
            plan_auto_limits,
            (controls, max_exposure_us, max_gain, target_brightness, readback),
            Ok::<AutoLimits, ConfigureError>(limits),
        ),
        ranges_ok(controls@),
        is_first_of(controls@, ControlType::Exposure, exposure),
        is_first_of(controls@, ControlType::AutoMaxExposure, ceiling),
        0 <= readback <= 9_000_000_000_000_000,
    ensures
        limits.min_exposure_us == controls@[exposure].min_value,
        limits.max_exposure_us > 0,
        controls@[exposure].min_value <= limits.max_exposure_us <= controls@[exposure].max_value,
        ({
            let confirmed = if names_millis(controls@[ceiling].name@) {
                1_000 * readback
            } else {
                readback as int
            };
            &&& limits.max_exposure_us < confirmed ==> limits.max_exposure_us
                == controls@[exposure].max_value
            &&& limits.max_exposure_us > confirmed ==> limits.max_exposure_us
                == controls@[exposure].min_value
        }),
        has_none_of(controls@, ControlType::AutoTargetBrightness) ==> limits.target_brightness
            == target_brightness,
        is_first_of(controls@, ControlType::AutoTargetBrightness, brightness) ==> {
            &&& controls@[brightness].min_value <= limits.target_brightness
                <= controls@[brightness].max_value
            &&& limits.target_brightness < target_brightness ==> limits.target_brightness
                == controls@[brightness].max_value
            &&& limits.target_brightness > target_brightness ==> limits.target_brightness
                == controls@[brightness].min_value
        },
{
    lemma_first_of(controls@, ControlType::Exposure, exposure);
    lemma_first_of(controls@, ControlType::AutoMaxExposure, ceiling);
    lemma_first_of(controls@, ControlType::AutoTargetBrightness, brightness);
    lemma_names_millis(controls@[ceiling].name@);
    assert(controls@[exposure].min_value <= controls@[exposure].max_value);
    if is_first_of(controls@, ControlType::AutoTargetBrightness, brightness) {
        assert(controls@[brightness].min_value <= controls@[brightness].max_value);
    }
}

/// The camera is asked for the operator's longest exposure, in the unit of its ceiling
/// and as far as its ranges allow.
pub proof fn law_ceiling_is_asked_for(
    controls: &Vec<ControlCaps>,
    max_exposure_us: i64,
    max_gain: i64,
    exposure: int,
    ceiling: int,
    r: Result<ControlSetting, ConfigureError>,
)
    requires
        call_ensures(plan_auto_ceiling, (controls, max_exposure_us, max_gain), r),
        ranges_ok(controls@),
        is_first_of(controls@, ControlType::Exposure, exposure),
        is_first_of(controls@, ControlType::AutoMaxExposure, ceiling),
        0 <= controls@[exposure].min_value,
        controls@[exposure].max_value <= 9_000_000_000_000_000,
    ensures
        r matches Ok(setting) ==> {
            &&& setting.control_type is AutoMaxExposure
            &&& !setting.automatic
            &&& controls@[ceiling].min_value <= setting.value <= controls@[ceiling].max_value
            &&& controls@[exposure].min_value <= max_exposure_us <= controls@[exposure].max_value
                && !names_millis(controls@[ceiling].name@) ==> {
                &&& setting.value < max_exposure_us ==> setting.value
                    == controls@[ceiling].max_value
                &&& setting.value > max_exposure_us ==> setting.value
                    == controls@[ceiling].min_value
            }
            &&& controls@[exposure].min_value <= max_exposure_us <= controls@[exposure].max_value
                && names_millis(controls@[ceiling].name@) ==> {
                &&& 1_000 * setting.value < max_exposure_us ==> setting.value
                    == controls@[ceiling].max_value
                &&& 1_000 * (setting.value - 1) >= max_exposure_us ==> setting.value
                    == controls@[ceiling].min_value
            }
        },
{
    lemma_first_of(controls@, ControlType::Exposure, exposure);
    lemma_first_of(controls@, ControlType::AutoMaxExposure, ceiling);
    lemma_names_millis(controls@[ceiling].name@);
    assert(controls@[exposure].min_value <= controls@[exposure].max_value);
    assert(controls@[ceiling].min_value <= controls@[ceiling].max_value);
}

/// Whether a setting brings a writable control as near to a value as its range allows.
pub open spec fn is_near(setting: ControlSetting, caps: ControlCaps, value: i64) -> bool {
    &&& setting.control_type == caps.control_type
    &&& !setting.automatic
    &&& caps.writable
    &&& caps.min_value <= setting.value <= caps.max_value
    &&& setting.value < value ==> setting.value == caps.max_value
    &&& setting.value > value ==> setting.value == caps.min_value
}

/// Beside the ceiling, the gain limit, the brightness and an unflipped picture are
/// set, each where the camera has a writable control for it, and nothing else.
pub proof fn law_limits_are_set_where_they_can_be(
    controls: &Vec<ControlCaps>,
    limits: &AutoLimits,
    gain: int,
    brightness: int,
    flip: int,
    r: Vec<ControlSetting>,
)
    requires
        call_ensures(auto_limit_settings, (controls, limits), r),
        ranges_ok(controls@),
    ensures
        forall|k: int|
            0 <= k < r@.len() ==> (#[trigger] r@[k]).control_type is AutoMaxGain
                || r@[k].control_type is AutoTargetBrightness || r@[k].control_type is Flip,
        is_first_of(controls@, ControlType::AutoMaxGain, gain) && controls@[gain].writable
            ==> exists|k: int|
            0 <= k < r@.len() && is_near(#[trigger] r@[k], controls@[gain], limits.max_gain),
        is_first_of(controls@, ControlType::AutoTargetBrightness, brightness)
            && controls@[brightness].writable ==> exists|k: int|
            0 <= k < r@.len() && is_near(
                #[trigger] r@[k],
                controls@[brightness],
                limits.target_brightness,
            ),
        is_first_of(controls@, ControlType::Flip, flip) && controls@[flip].writable ==> exists|
            k: int,
        | 0 <= k < r@.len() && is_near(#[trigger] r@[k], controls@[flip], 0),
        r@.len() <= 3,
{
    lemma_first_of(controls@, ControlType::AutoMaxGain, gain);
    lemma_first_of(controls@, ControlType::AutoTargetBrightness, brightness);
    lemma_first_of(controls@, ControlType::Flip, flip);
    let a = available_setting(
        controls@,
        ControlType::AutoMaxGain,
        limits.max_gain as int,
        false,
    );
    let b = available_setting(
        controls@,
        ControlType::AutoTargetBrightness,
        limits.target_brightness as int,
        false,
    );
    let c = available_setting(controls@, ControlType::Flip, 0, false);
    assert(r@ == present(a) + present(b) + present(c));
    if is_first_of(controls@, ControlType::AutoMaxGain, gain) && controls@[gain].writable {
        assert(controls@[gain].min_value <= controls@[gain].max_value);
        assert(r@[0] == a->0);
        assert(is_near(r@[0], controls@[gain], limits.max_gain));
    }
    if is_first_of(controls@, ControlType::AutoTargetBrightness, brightness)
        && controls@[brightness].writable {
        assert(controls@[brightness].min_value <= controls@[brightness].max_value);
        let k = present(a).len() as int;
        assert(r@[k] == b->0);
        assert(is_near(r@[k], controls@[brightness], limits.target_brightness));
    }
    if is_first_of(controls@, ControlType::Flip, flip) && controls@[flip].writable {
        assert(controls@[flip].min_value <= controls@[flip].max_value);
        let k = (present(a).len() + present(b).len()) as int;
        assert(r@[k] == c->0);
        assert(is_near(r@[k], controls@[flip], 0));
    }
}

/// Automatic exposure starts where the camera is, or at its default, but always within
/// the limits; and so does automatic gain.
pub proof fn law_automatic_mode_starts_where_the_camera_is(
    controls: &Vec<ControlCaps>,
    limits: &AutoLimits,
    readback: Option<i64>,
    exposure: int,
    gain: int,
    exposure_seed: Result<Option<ControlSetting>, ConfigureError>,
    gain_seed: Result<Option<ControlSetting>, ConfigureError>,
)
    requires
        call_ensures(seed_auto_exposure, (controls, limits, readback), exposure_seed),
        call_ensures(seed_auto_gain, (controls, limits, readback), gain_seed),
        ranges_ok(controls@),
        is_first_of(controls@, ControlType::Exposure, exposure),
        is_first_of(controls@, ControlType::Gain, gain),
        controls@[exposure].writable && controls@[exposure].auto_supported,
        controls@[gain].writable && controls@[gain].auto_supported,
        controls@[exposure].min_value <= limits.min_exposure_us <= limits.max_exposure_us
            <= controls@[exposure].max_value,
        controls@[gain].min_value <= limits.min_gain <= limits.max_gain
            <= controls@[gain].max_value,
    ensures
        exposure_seed is Ok && exposure_seed->Ok_0 is Some,
        ({
            let seed = exposure_seed->Ok_0->0;
            let wanted = if readback is Some {
                readback->0
            } else {
                controls@[exposure].default_value
            };
            &&& seed.control_type is Exposure
            &&& seed.automatic
            &&& limits.min_exposure_us <= seed.value <= limits.max_exposure_us
            &&& seed.value < wanted ==> seed.value == limits.max_exposure_us
            &&& seed.value > wanted ==> seed.value == limits.min_exposure_us
        }),
        gain_seed is Ok && gain_seed->Ok_0 is Some,
        ({
            let seed = gain_seed->Ok_0->0;
            let wanted = if readback is Some {
                readback->0
            } else {
                controls@[gain].default_value
            };
            &&& seed.control_type is Gain
            &&& seed.automatic
            &&& limits.min_gain <= seed.value <= limits.max_gain
            &&& seed.value < wanted ==> seed.value == limits.max_gain
            &&& seed.value > wanted ==> seed.value == limits.min_gain
        }),
{
    lemma_first_of(controls@, ControlType::Exposure, exposure);
    lemma_first_of(controls@, ControlType::Gain, gain);
}

/// Exposure that the program controls keeps to the request within what can be set by
/// hand, and starts at a tenth of a second and the lowest gain.
pub proof fn law_adaptive_exposure_keeps_to_the_request(
    controls: &Vec<ControlCaps>,
    request: &AdaptiveRequest,
    exposure: int,
    gain: int,
    r: Result<AdaptiveSetup, ConfigureError>,
)
    requires
        call_ensures(configure_adaptive, (controls, request), r),
        ranges_ok(controls@),
        is_first_of(controls@, ControlType::Exposure, exposure),
        is_first_of(controls@, ControlType::Gain, gain),
        controls@[exposure].max_value >= 1,
    ensures
        r is Ok <==> controls@[exposure].writable && controls@[gain].writable,
        r matches Ok(setup) ==> {
            let limits = setup.limits;
            &&& 1 <= limits.min_exposure_us <= limits.max_exposure_us
                <= controls@[exposure].max_value
            &&& controls@[exposure].min_value <= limits.min_exposure_us
            &&& limits.max_exposure_us < request.max_exposure_us ==> limits.max_exposure_us
                == controls@[exposure].max_value
            &&& limits.max_exposure_us > request.max_exposure_us ==> limits.max_exposure_us == 1
                || limits.max_exposure_us == controls@[exposure].min_value
            &&& limits.min_exposure_us < request.min_exposure_us ==> limits.min_exposure_us
                == limits.max_exposure_us
            &&& limits.min_exposure_us > request.min_exposure_us ==> limits.min_exposure_us == 1
                || limits.min_exposure_us == controls@[exposure].min_value
            &&& limits.min_gain == controls@[gain].min_value
            &&& controls@[gain].min_value <= limits.max_gain <= controls@[gain].max_value
            &&& limits.max_gain < request.max_gain ==> limits.max_gain
                == controls@[gain].max_value
            &&& limits.max_gain > request.max_gain ==> limits.max_gain
                == controls@[gain].min_value
            &&& limits.target_brightness == request.target_brightness
            &&& setup.settings@.len() >= 2
            &&& setup.settings@[0].control_type is Exposure
            &&& !setup.settings@[0].automatic
            &&& limits.min_exposure_us <= setup.settings@[0].value <= limits.max_exposure_us
            &&& setup.settings@[0].value < 100_000 ==> setup.settings@[0].value
                == limits.max_exposure_us
            &&& setup.settings@[0].value > 100_000 ==> setup.settings@[0].value
                == limits.min_exposure_us
            &&& setup.settings@[1].control_type is Gain
            &&& !setup.settings@[1].automatic
            &&& setup.settings@[1].value == limits.min_gain
        },
{
    lemma_first_of(controls@, ControlType::Exposure, exposure);
    lemma_first_of(controls@, ControlType::Gain, gain);
    assert(controls@[exposure].min_value <= controls@[exposure].max_value);
    assert(controls@[gain].min_value <= controls@[gain].max_value);
}

/// The camera is only touched where exposure or gain changes, and then gets both.
pub proof fn law_adaptation_sets_both(
    current: ExposureSetting,
    next: ExposureSetting,
    r: Vec<ControlSetting>,
)
    requires
        call_ensures(plan_adaptation, (current, next), r),
    ensures
        r@.len() == 0 <==> next.exposure_us == current.exposure_us && next.gain == current.gain,
        r@.len() > 0 ==> {
            &&& r@.len() == 2
            &&& r@[0].control_type is Exposure && r@[0].value == next.exposure_us
                && !r@[0].automatic
            &&& r@[1].control_type is Gain && r@[1].value == next.gain && !r@[1].automatic
        },
{
}

/// What the camera reports is used where it makes sense, and the fallback where not.
pub proof fn law_readings_fall_back(
    reading: Option<i64>,
    fallback: i64,
    exposure: i64,
    gain: i64,
)
    requires
        call_ensures(current_exposure, (reading, fallback), exposure),
        call_ensures(current_gain, (reading, fallback), gain),
    ensures
        reading matches Some(value) ==> gain == value && (value > 0 ==> exposure == value),
        reading is None ==> gain == fallback,
        reading is None || reading->0 <= 0 ==> exposure == if fallback >= 1 {
            fallback
        } else {
            1
        },
{
}

/// Without a configuration the camera is chosen by its id, or is the only one.
pub proof fn law_camera_is_chosen_by_id(
    cameras: &Vec<CameraInfo>,
    camera_id: Option<i32>,
    r: Result<usize, SelectCameraError>,
)
    requires
        call_ensures(select_camera, (cameras, camera_id), r),
    ensures
        r matches Ok(i) ==> i < cameras@.len() && (camera_id matches Some(id)
            ==> cameras@[i as int].camera_id == id),
        camera_id is None ==> (r is Ok <==> cameras@.len() == 1),
        camera_id is None && cameras@.len() == 0 ==> r == Err::<usize, SelectCameraError>(
            SelectCameraError::NoneConnected,
        ),
        camera_id is None && cameras@.len() > 1 ==> r == Err::<usize, SelectCameraError>(
            SelectCameraError::Ambiguous(cameras@.len() as usize),
        ),
        camera_id matches Some(id) && r is Err ==> r->Err_0 == SelectCameraError::NotConnected(
            camera_id->0,
        ),
{
}

/// A camera is read in colour, in one of its bins and formats, in the configured size
/// or in all of it.
pub proof fn law_region_is_what_was_configured(
    info: &CameraInfo,
    bin: i32,
    width: Option<u32>,
    height: Option<u32>,
    raw16: bool,
    r: Result<Roi, RoiError>,
)
    requires
        call_ensures(plan_roi, (info, bin, width, height, raw16), r),
        bin > 0,
    ensures
        r is Ok <==> {
            &&& info.is_color
            &&& exists|k: int| 0 <= k < info.supported_bins@.len() && #[trigger] info.supported_bins@[k] == bin
            &&& exists|k: int|
                0 <= k < info.supported_formats@.len() && #[trigger] info.supported_formats@[k]
                    == if raw16 {
                    ImageType::Raw16
                } else {
                    ImageType::Raw8
                }
        },
        r matches Ok(roi) ==> {
            &&& roi.bin == bin
            &&& raw16 ==> roi.image_type is Raw16
            &&& !raw16 ==> roi.image_type is Raw8
            &&& width matches Some(wanted) ==> roi.width == wanted
            &&& height matches Some(wanted) ==> roi.height == wanted
            &&& width is None ==> roi.width * bin <= info.max_width < (roi.width + 1) * bin
            &&& height is None ==> roi.height * bin <= info.max_height < (roi.height + 1) * bin
        },
        r == Err::<Roi, RoiError>(RoiError::NotColor) <==> !info.is_color,
{
    vstd::arithmetic::div_mod::lemma_fundamental_div_mod(info.max_width as int, bin as int);
    vstd::arithmetic::div_mod::lemma_fundamental_div_mod(info.max_height as int, bin as int);
    let w = info.max_width as int / bin as int;
    let h = info.max_height as int / bin as int;
    assert(0 <= w <= info.max_width && w * bin <= info.max_width < (w + 1) * bin)
        by (nonlinear_arith)
        requires
            bin > 0,
            w == info.max_width as int / bin as int,
            0 <= info.max_width,
    ;
    assert(0 <= h <= info.max_height && h * bin <= info.max_height < (h + 1) * bin)
        by (nonlinear_arith)
        requires
            bin > 0,
            h == info.max_height as int / bin as int,
            0 <= info.max_height,
    ;
}

/// Whether a camera has a configured id, if there is one, and a name that a configured
/// text occurs in, if there is one, in whatever ASCII case.
pub open spec fn is_meant(
    camera: CameraInfo,
    camera_id: Option<i32>,
    name_contains: Option<String>,
) -> bool {
    &&& camera_id is None || camera.camera_id == camera_id->0
    &&& name_contains is None || exists|at: int|
        #[trigger] reads_at(camera.name@, name_contains->0@, at)
}

/// Whether a text reads like another one from a position on, in whatever ASCII case.
pub open spec fn reads_at(hay: Seq<char>, needle: Seq<char>, at: int) -> bool {
    &&& 0 <= at <= hay.len() - needle.len()
    &&& forall|k: int|
        0 <= k < needle.len() ==> unicode::lower_char(#[trigger] needle[k]) == unicode::lower_char(
            hay[at + k],
        )
}

proof fn lemma_is_meant(
    camera: CameraInfo,
    camera_id: Option<i32>,
    name_contains: Option<String>,
)
    ensures
        is_meant(camera, camera_id, name_contains) == matches_configuration(
            camera,
            camera_id,
            optional_view(name_contains),
        ),
{
    if name_contains is Some {
        let hay = camera.name@;
        let needle = name_contains->0@;
        let low_hay = unicode::lower(hay);
        let low_needle = unicode::lower(needle);
        assert forall|at: int| reads_at(hay, needle, at) == unicode::occurs_at(
            low_hay,
            low_needle,
            at,
        ) by {
            if reads_at(hay, needle, at) {
                assert(low_hay.subrange(at, at + low_needle.len()) =~= low_needle);
            }
            if unicode::occurs_at(low_hay, low_needle, at) {
                assert forall|k: int| 0 <= k < needle.len() implies unicode::lower_char(
                    #[trigger] needle[k],
                ) == unicode::lower_char(hay[at + k]) by {
                    assert(low_hay.subrange(at, at + low_needle.len())[k] == low_needle[k]);
                }
            }
        }
        if exists|at: int| reads_at(hay, needle, at) {
            let at = choose|at: int| reads_at(hay, needle, at);
            assert(unicode::occurs_at(low_hay, low_needle, at));
        }
        if exists|at: int| unicode::occurs_at(low_hay, low_needle, at) {
            let at = choose|at: int| unicode::occurs_at(low_hay, low_needle, at);
            assert(reads_at(hay, needle, at));
        }
    }
}

/// The configured camera is the only one that is meant; none is chosen where no
/// camera is meant or where several are.
pub proof fn law_configured_camera_is_the_one_meant(
    cameras: &Vec<CameraInfo>,
    camera_id: Option<i32>,
    name_contains: &Option<String>,
    r: Result<usize, SelectCameraError>,
)
    requires
        call_ensures(select_configured_camera, (cameras, camera_id, name_contains), r),
    ensures
        r matches Ok(i) ==> i < cameras@.len() && forall|j: int|
            0 <= j < cameras@.len() ==> (is_meant(
                #[trigger] cameras@[j],
                camera_id,
                *name_contains,
            ) <==> j == i),
        r is Err ==> r->Err_0 is NoMatch || r->Err_0 is SeveralMatches,
        r is Err && r->Err_0 is NoMatch ==> forall|j: int|
            0 <= j < cameras@.len() ==> !is_meant(
                #[trigger] cameras@[j],
                camera_id,
                *name_contains,
            ),
        r is Err && r->Err_0 is SeveralMatches ==> exists|j: int, k: int|
            0 <= j < k < cameras@.len() && is_meant(
                #[trigger] cameras@[j],
                camera_id,
                *name_contains,
            ) && is_meant(#[trigger] cameras@[k], camera_id, *name_contains),
{
    assert forall|j: int| 0 <= j < cameras@.len() implies is_meant(
        #[trigger] cameras@[j],
        camera_id,
        *name_contains,
    ) == matches_configuration(cameras@[j], camera_id, optional_view(*name_contains)) by {
        lemma_is_meant(cameras@[j], camera_id, *name_contains);
    }
    if r is Err && r->Err_0 is SeveralMatches {
        let (j, k) = choose|j: int, k: int|
            two_match(cameras@, camera_id, optional_view(*name_contains), j, k);
        assert(is_meant(cameras@[j], camera_id, *name_contains) && is_meant(
            cameras@[k],
            camera_id,
            *name_contains,
        ));
    }
}

/// A camera that cannot be configured says what it lacks.
pub proof fn law_unfit_camera_says_what_it_lacks(error: ConfigureError, r: &'static str)
    requires
        call_ensures(ConfigureError::message, (error,), r),
    ensures
        error matches ConfigureError::InvalidMaximum ==> r@ == "maximum exposure must be positive and maximum gain non-negative"@,
        error matches ConfigureError::NoExposureControl ==> r@ == "camera has no exposure control"@,
        error matches ConfigureError::NoGainControl ==> r@ == "camera has no gain control"@,
        error matches ConfigureError::ExposureNotAutomatic ==> r@ == "camera exposure control does not support automatic video mode"@,
        error matches ConfigureError::GainNotAutomatic ==> r@ == "camera gain control does not support automatic video mode"@,
        error matches ConfigureError::NoWritableCeiling ==> r@ == "camera has no writable automatic exposure ceiling; bounded SDK auto mode is unavailable"@,
        error matches ConfigureError::CeilingOutsideLimits ==> r@ == "SDK returned an automatic exposure ceiling outside its advertised limits"@,
        error matches ConfigureError::CeilingNotPositive ==> r@ == "SDK returned a non-positive automatic exposure ceiling"@,
        error matches ConfigureError::NoManualExposure ==> r@ == "camera needs a writable manual exposure control"@,
        error matches ConfigureError::NoManualGain ==> r@ == "camera needs a writable manual gain control"@,
{
}

/// A sensor's pattern is the picture's, and an unknown one is refused by its number.
pub proof fn law_pattern_is_the_sensors(pattern: SensorPattern, r: Result<BayerPattern, i32>)
    requires
        call_ensures(core_bayer, (pattern,), r),
    ensures
        r == Ok::<BayerPattern, i32>(BayerPattern::Rg) <==> pattern is Rg,
        r == Ok::<BayerPattern, i32>(BayerPattern::Bg) <==> pattern is Bg,
        r == Ok::<BayerPattern, i32>(BayerPattern::Gr) <==> pattern is Gr,
        r == Ok::<BayerPattern, i32>(BayerPattern::Gb) <==> pattern is Gb,
        r is Err <==> pattern is Unknown,
        r matches Err(value) ==> pattern == SensorPattern::Unknown(value),
{
}

/// Controls are sound where each that a setting is clamped to has a range.
pub proof fn law_clamped_controls_have_a_range(controls: &Vec<ControlCaps>, i: int, r: bool)
    requires
        call_ensures(check_ranges, (controls,), r),
    ensures
        r && 0 <= i < controls@.len() && (controls@[i].control_type is Exposure
            || controls@[i].control_type is Gain || controls@[i].control_type is AutoMaxExposure
            || controls@[i].control_type is AutoMaxGain || controls@[i].control_type
            is AutoTargetBrightness || controls@[i].control_type is Flip)
            ==> controls@[i].min_value <= controls@[i].max_value,
        (forall|k: int|
            0 <= k < controls@.len() ==> (#[trigger] controls@[k]).min_value
                <= controls@[k].max_value) ==> r,
{
}

} // verus!
