//! The controller's settings, fixed for a session.
use vstd::prelude::*;

use crate::math::{HALF_TURN, UNIT};

verus! {

/// The largest accepted speed, fall acceleration or jump impulse.
pub const RATE_LIMIT: i64 = 1_000_000_000;

/// The largest accepted look sensitivity.
pub const SENSITIVITY_LIMIT: i64 = 1_000_000;

/// Settings of the controller.
///
/// `speed` and `jump_impulse` are in thousandths of a unit per second,
/// `fall_acceleration` in thousandths of a unit per second squared. A look
/// sensitivity is the turn, in angle units, given by `UNIT` steps of its
/// input: pixels of mouse motion, or thousandths of a look axis. The pitch
/// limits are angles; `orientation_smoothing` is in thousandths.
#[derive(Clone, Copy, Debug, PartialEq, Eq, Structural)]
pub struct ControllerConfig {
    pub speed: i64,
    pub fall_acceleration: i64,
    pub jump_impulse: i64,
    pub mouse_look_sensitivity: i64,
    pub controller_look_sensitivity: i64,
    pub pitch_min: i64,
    pub pitch_max: i64,
    pub orientation_smoothing: i64,
}

impl ControllerConfig {
    /// The settings are usable: positive speed and sensitivities, rates
    /// that are not negative, ordered pitch limits within half a turn either
    /// way, and a smoothing factor between nothing and all.
    pub open spec fn wf(&self) -> bool {
        &&& 0 < self.speed <= RATE_LIMIT
        &&& 0 <= self.fall_acceleration <= RATE_LIMIT
        &&& 0 <= self.jump_impulse <= RATE_LIMIT
        &&& 0 < self.mouse_look_sensitivity <= SENSITIVITY_LIMIT
        &&& 0 < self.controller_look_sensitivity <= SENSITIVITY_LIMIT
        &&& -HALF_TURN <= self.pitch_min < self.pitch_max <= HALF_TURN
        &&& 0 <= self.orientation_smoothing <= UNIT
    }

    /// Builds the settings, or `None` when they are not usable.
    pub fn new(
        speed: i64,
        fall_acceleration: i64,
        jump_impulse: i64,
        mouse_look_sensitivity: i64,
        controller_look_sensitivity: i64,
        pitch_min: i64,
        pitch_max: i64,
        orientation_smoothing: i64,
    ) -> (r: Option<ControllerConfig>)
        ensures
            ({
                let c = ControllerConfig {
                    speed,
                    fall_acceleration,
                    jump_impulse,
                    mouse_look_sensitivity,
                    controller_look_sensitivity,
                    pitch_min,
                    pitch_max,
                    orientation_smoothing,
                };
                if c.wf() {
                    r == Some(c)
                } else {
                    r is None
                }
            }),
    {
        let c = ControllerConfig {
            speed,
            fall_acceleration,
            jump_impulse,
            mouse_look_sensitivity,
            controller_look_sensitivity,
            pitch_min,
            pitch_max,
            orientation_smoothing,
        };
        if 0 < speed && speed <= RATE_LIMIT && 0 <= fall_acceleration && fall_acceleration
            <= RATE_LIMIT && 0 <= jump_impulse && jump_impulse <= RATE_LIMIT && 0
            < mouse_look_sensitivity && mouse_look_sensitivity <= SENSITIVITY_LIMIT && 0
            < controller_look_sensitivity && controller_look_sensitivity <= SENSITIVITY_LIMIT
            && -HALF_TURN <= pitch_min && pitch_min < pitch_max && pitch_max <= HALF_TURN && 0
            <= orientation_smoothing && orientation_smoothing <= UNIT {
            Some(c)
        } else {
            None
        }
    }

    /// The usual settings: speed 14, fall acceleration 75, jump impulse 20,
    /// about a thousandth of a radian per mouse pixel, about a tenth of a
    /// radian per full look axis, pitch within an eighth of a turn either
    /// way, smoothing 0.15.
    pub fn standard() -> (r: ControllerConfig)
        ensures
            r.wf(),
            r.speed == 14 * UNIT,
            r.fall_acceleration == 75 * UNIT,
            r.jump_impulse == 20 * UNIT,
            r.mouse_look_sensitivity == 10430,
            r.controller_look_sensitivity == 1043,
            r.pitch_min == -8192,
            r.pitch_max == 8192,
            r.orientation_smoothing == 150,
    {
        ControllerConfig {
            speed: 14 * UNIT,
            fall_acceleration: 75 * UNIT,
            jump_impulse: 20 * UNIT,
            mouse_look_sensitivity: 10430,
            controller_look_sensitivity: 1043,
            pitch_min: -8192,
            pitch_max: 8192,
            orientation_smoothing: 150,
        }
    }
}

} // verus!
