//! The motion controller: camera look, movement integration and body
//! heading, one tick at a time.
use vstd::prelude::*;

use crate::config::ControllerConfig;
use crate::math::{
    abs, clamp, clamp_spec, resize, resized, lerp_angle, lerp_angle_spec, move_toward,
    move_toward_spec, scale, scaled, wrap_angle, wrapped, Vec2, Vec3,
    MICROS_PER_SECOND, TURN, UNIT,
};
use crate::opt_ref::OptRef;

verus! {

/// The largest speed a velocity component holds, either way.
pub const VELOCITY_LIMIT: i64 = 1_000_000_000_000;

/// The largest accepted time step, in microseconds.
pub const MAX_STEP_MICROS: i64 = 1_000_000_000;

/// The camera rig's orientation: a yaw driven directly by look input and a
/// pitch kept within the configured limits.
#[derive(Clone, Copy, Debug, PartialEq, Eq, Structural)]
pub struct CameraRig {
    pub yaw: i64,
    pub pitch: i64,
}

/// The state the controller carries from one tick to the next.
#[derive(Clone, Copy, Debug, PartialEq, Eq)]
pub struct Player {
    /// World-space velocity in thousandths of a unit per second.
    pub velocity: Vec3,
    /// The smoothed heading of the body, in `[0, TURN)`.
    pub body_yaw: i64,
    /// The camera rig, when the scene has one.
    pub camera: OptRef<CameraRig>,
}

pub open spec fn velocity_ok(v: Vec3) -> bool {
    &&& -VELOCITY_LIMIT <= v.x <= VELOCITY_LIMIT
    &&& -VELOCITY_LIMIT <= v.y <= VELOCITY_LIMIT
    &&& -VELOCITY_LIMIT <= v.z <= VELOCITY_LIMIT
}

/// Each component of `v` brought within `VELOCITY_LIMIT`.
pub open spec fn limited(v: Vec3) -> Vec3 {
    Vec3 {
        x: clamp_spec(v.x as int, -VELOCITY_LIMIT as int, VELOCITY_LIMIT as int) as i64,
        y: clamp_spec(v.y as int, -VELOCITY_LIMIT as int, VELOCITY_LIMIT as int) as i64,
        z: clamp_spec(v.z as int, -VELOCITY_LIMIT as int, VELOCITY_LIMIT as int) as i64,
    }
}

/// The rig after a look delta: yaw turned against `look.x`, pitch moved by
/// `look.y` and held within the limits in one step.
pub open spec fn looked(cfg: ControllerConfig, rig: CameraRig, look: Vec2) -> CameraRig {
    CameraRig {
        yaw: wrapped(rig.yaw - look.x) as i64,
        pitch: clamp_spec(rig.pitch + look.y, cfg.pitch_min as int, cfg.pitch_max as int) as i64,
    }
}

/// The speed lost to gravity over `dt` microseconds.
pub open spec fn gravity_drop(cfg: ControllerConfig, dt: int) -> int {
    scaled(cfg.fall_acceleration as int, dt, MICROS_PER_SECOND as int)
}

/// The vertical velocity after a tick: the jump impulse added on top of the
/// current value when a jump starts on the floor, then gravity.
pub open spec fn next_vertical(
    cfg: ControllerConfig,
    vy: int,
    on_floor: bool,
    jump_requested: bool,
    dt: int,
) -> int {
    let boosted = if on_floor && jump_requested {
        vy + cfg.jump_impulse
    } else {
        vy
    };
    clamp_spec(boosted - gravity_drop(cfg, dt), -VELOCITY_LIMIT as int, VELOCITY_LIMIT as int)
}

/// The horizontal velocity for a movement `direction`: a direction shorter
/// than unit length times `speed`, a longer one resized to length `speed`
/// (see `resized`); each coordinate rounded toward zero.
pub open spec fn heading_velocity(cfg: ControllerConfig, direction: Vec2) -> Vec2 {
    if direction.len_sq() < UNIT * UNIT {
        Vec2 {
            x: scaled(direction.x as int, cfg.speed as int, UNIT as int) as i64,
            y: scaled(direction.y as int, cfg.speed as int, UNIT as int) as i64,
        }
    } else {
        resized(direction, cfg.speed as int)
    }
}

/// The horizontal velocity component after a tick: `moving` while there is
/// a movement direction, else the old value brought toward rest by at most
/// `speed`.
pub open spec fn next_horizontal(cfg: ControllerConfig, v: int, direction: Vec2, moving: int) -> int {
    if !direction.is_zero() {
        moving
    } else {
        move_toward_spec(v, 0, cfg.speed as int)
    }
}

/// The velocity after a tick of movement in world-space `direction`.
pub open spec fn next_velocity(
    cfg: ControllerConfig,
    v: Vec3,
    direction: Vec2,
    on_floor: bool,
    jump_requested: bool,
    dt: int,
) -> Vec3 {
    let d = heading_velocity(cfg, direction);
    Vec3 {
        x: next_horizontal(cfg, v.x as int, direction, d.x as int) as i64,
        y: next_vertical(cfg, v.y as int, on_floor, jump_requested, dt) as i64,
        z: next_horizontal(cfg, v.z as int, direction, d.y as int) as i64,
    }
}

impl Player {
    pub open spec fn wf(&self, cfg: ControllerConfig) -> bool {
        &&& velocity_ok(self.velocity)
        &&& 0 <= self.body_yaw < TURN
        &&& match self.camera {
            OptRef::Present(rig) => 0 <= rig.yaw < TURN && cfg.pitch_min <= rig.pitch
                <= cfg.pitch_max,
            OptRef::Absent => true,
        }
    }

    /// A controller at rest, with the body and camera rig as the scene set
    /// them up: angles brought into `[0, TURN)`, the pitch within the limits.
    pub fn new(cfg: &ControllerConfig, body_yaw: i64, camera: OptRef<CameraRig>) -> (r: Player)
        requires
            cfg.wf(),
            body_yaw > i64::MIN,
            camera is Present ==> camera->Present_0.yaw > i64::MIN,
        ensures
            r.wf(*cfg),
            r.velocity == (Vec3 { x: 0, y: 0, z: 0 }),
            r.body_yaw == wrapped(body_yaw as int),
            match camera {
                OptRef::Present(rig) => r.camera == OptRef::Present(
                    CameraRig {
                        yaw: wrapped(rig.yaw as int) as i64,
                        pitch: clamp_spec(
                            rig.pitch as int,
                            cfg.pitch_min as int,
                            cfg.pitch_max as int,
                        ) as i64,
                    },
                ),
                OptRef::Absent => r.camera is Absent,
            },
    {
        let camera = match camera {
            OptRef::Present(rig) => OptRef::Present(
                CameraRig {
                    yaw: wrap_angle(rig.yaw),
                    pitch: clamp(rig.pitch, cfg.pitch_min, cfg.pitch_max),
                },
            ),
            OptRef::Absent => OptRef::Absent,
        };
        Player { velocity: Vec3 { x: 0, y: 0, z: 0 }, body_yaw: wrap_angle(body_yaw), camera }
    }

    /// Turns the camera rig by a look delta; without a rig nothing changes.
    pub fn look(&mut self, cfg: &ControllerConfig, look: Vec2)
        requires
            cfg.wf(),
            old(self).wf(*cfg),
        ensures
            final(self).wf(*cfg),
            final(self).velocity == old(self).velocity,
            final(self).body_yaw == old(self).body_yaw,
            match old(self).camera {
                OptRef::Present(rig) => final(self).camera == OptRef::Present(
                    looked(*cfg, rig, look),
                ),
                OptRef::Absent => final(self).camera is Absent,
            },
            match final(self).camera {
                OptRef::Present(rig) => cfg.pitch_min <= rig.pitch <= cfg.pitch_max,
                OptRef::Absent => true,
            },
    {
        match self.camera {
            OptRef::Present(rig) => {
                let turn: i64 = if look.x == i64::MIN {
                    0
                } else {
                    wrap_angle(look.x)
                };
                proof {
                    lemma_same_turn(rig.yaw as int, look.x as int, turn as int);
                }
                let yaw = wrap_angle(rig.yaw - turn);
                let sum: i128 = rig.pitch as i128 + look.y as i128;
                let pitch: i64 = if sum < cfg.pitch_min as i128 {
                    cfg.pitch_min
                } else if sum > cfg.pitch_max as i128 {
                    cfg.pitch_max
                } else {
                    sum as i64
                };
                self.camera = OptRef::Present(CameraRig { yaw, pitch });
            },
            OptRef::Absent => {},
        }
    }

    /// One tick of movement. `direction` is the movement intent turned into
    /// world space by the camera's yaw (strafe along `x`, forward-back along
    /// `z`). Returns the velocity to hand to the collision resolver, which is
    /// also stored.
    pub fn step(
        &mut self,
        cfg: &ControllerConfig,
        direction: Vec2,
        on_floor: bool,
        jump_requested: bool,
        dt: i64,
    ) -> (r: Vec3)
        requires
            cfg.wf(),
            old(self).wf(*cfg),
            direction.bounded(),
            0 <= dt <= MAX_STEP_MICROS,
        ensures
            r == next_velocity(*cfg, old(self).velocity, direction, on_floor, jump_requested, dt as int),
            final(self).velocity == r,
            final(self).body_yaw == old(self).body_yaw,
            final(self).camera == old(self).camera,
            final(self).wf(*cfg),
            !direction.is_zero() ==> r.x * r.x + r.z * r.z <= cfg.speed * cfg.speed,
            direction.len_sq() >= UNIT * UNIT && cfg.speed >= 3 ==> r.x * r.x + r.z * r.z >= (
            cfg.speed - 3) * (cfg.speed - 3),
    {
        let v = self.velocity;
        let d = direction;
        let moving = direction.x != 0 || direction.y != 0;
        assert(0 <= d.x * d.x <= 1000000000000 && 0 <= d.y * d.y <= 1000000000000)
            by (nonlinear_arith)
            requires
                -1000000 <= d.x <= 1000000,
                -1000000 <= d.y <= 1000000,
        ;
        let short = d.x * d.x + d.y * d.y < UNIT * UNIT;
        let (vx, vz) = if moving && !short {
            let m = resize(direction, cfg.speed);
            assert(-1000000000 <= m.x <= 1000000000 && -1000000000 <= m.y <= 1000000000)
                by (nonlinear_arith)
                requires
                    m.x * m.x + m.y * m.y <= cfg.speed * cfg.speed,
                    0 < cfg.speed <= 1000000000,
            ;
            (m.x, m.y)
        } else if moving {
            proof {
                assert(-1000 <= d.x <= 1000 && -1000 <= d.y <= 1000) by (nonlinear_arith)
                    requires
                        d.x * d.x + d.y * d.y <= 1000000,
                ;
                assert(-1000000000000 <= d.x * cfg.speed <= 1000000000000 && -1000000000000
                    <= d.y * cfg.speed <= 1000000000000) by (nonlinear_arith)
                    requires
                        -1000 <= d.x <= 1000,
                        -1000 <= d.y <= 1000,
                        0 < cfg.speed <= 1000000000,
                ;
            }
            (scale(d.x, cfg.speed, UNIT), scale(d.y, cfg.speed, UNIT))
        } else {
            (move_toward(v.x, 0, cfg.speed), move_toward(v.z, 0, cfg.speed))
        };
        proof {
            if moving && short {
                lemma_speed_bound(d, cfg.speed as int, vx as int, vz as int);
            }
        }
        let boosted: i64 = if on_floor && jump_requested {
            v.y + cfg.jump_impulse
        } else {
            v.y
        };
        proof {
            assert(0 <= cfg.fall_acceleration * dt <= 1000000000000000000) by (nonlinear_arith)
                requires
                    0 <= cfg.fall_acceleration <= 1000000000,
                    0 <= dt <= 1000000000,
            ;
            crate::math::lemma_scaled_nonneg_bound(
                cfg.fall_acceleration as int,
                dt as int,
                MICROS_PER_SECOND as int,
                1000000000000000000,
            );
        }
        let drop: i64 = scale(cfg.fall_acceleration, dt, MICROS_PER_SECOND);
        let vy: i64 = clamp(boosted - drop, -VELOCITY_LIMIT, VELOCITY_LIMIT);
        let r = Vec3 { x: vx, y: vy, z: vz };
        self.velocity = r;
        r
    }

    /// Stores the velocity the collision resolver actually allowed, each
    /// component brought within `VELOCITY_LIMIT`.
    pub fn set_velocity(&mut self, cfg: &ControllerConfig, v: Vec3)
        requires
            old(self).wf(*cfg),
        ensures
            final(self).velocity == limited(v),
            final(self).body_yaw == old(self).body_yaw,
            final(self).camera == old(self).camera,
            final(self).wf(*cfg),
    {
        self.velocity = Vec3 {
            x: clamp(v.x, -VELOCITY_LIMIT, VELOCITY_LIMIT),
            y: clamp(v.y, -VELOCITY_LIMIT, VELOCITY_LIMIT),
            z: clamp(v.z, -VELOCITY_LIMIT, VELOCITY_LIMIT),
        };
    }

    /// Turns the body a fixed share of the way toward `target` while the
    /// movement direction is not zero; otherwise it keeps its heading.
    /// `target` is the heading of the horizontal velocity.
    pub fn turn_body(&mut self, cfg: &ControllerConfig, direction: Vec2, target: i64)
        requires
            cfg.wf(),
            old(self).wf(*cfg),
            0 <= target < TURN,
        ensures
            final(self).velocity == old(self).velocity,
            final(self).camera == old(self).camera,
            final(self).wf(*cfg),
            final(self).body_yaw == if direction.is_zero() {
                old(self).body_yaw as int
            } else {
                lerp_angle_spec(
                    old(self).body_yaw as int,
                    target as int,
                    cfg.orientation_smoothing as int,
                )
            },
    {
        if direction.x != 0 || direction.y != 0 {
            self.body_yaw = lerp_angle(self.body_yaw, target, cfg.orientation_smoothing);
        }
    }
}

proof fn lemma_same_turn(yaw: int, a: int, turn: int)
    requires
        a == i64::MIN ==> turn == 0,
        a != i64::MIN ==> turn == wrapped(a),
    ensures
        wrapped(yaw - turn) == wrapped(yaw - a),
{
    let t = TURN as int;
    if a == i64::MIN {
        let q: int = 0x8000_0000_0000;
        assert(yaw - a == t * q + (yaw - turn));
        vstd::arithmetic::div_mod::lemma_mod_multiples_vanish(q, yaw - turn, t);
    } else {
        vstd::arithmetic::div_mod::lemma_fundamental_div_mod(a, t);
        let q = a / t;
        assert(yaw - a == t * (-q) + (yaw - turn));
        vstd::arithmetic::div_mod::lemma_mod_multiples_vanish(-q, yaw - turn, t);
    }
}

proof fn lemma_speed_bound(d: Vec2, speed: int, vx: int, vz: int)
    requires
        d.len_sq() <= UNIT * UNIT,
        speed > 0,
        vx == scaled(d.x as int, speed, UNIT as int),
        vz == scaled(d.y as int, speed, UNIT as int),
    ensures
        vx * vx + vz * vz <= speed * speed,
{
    crate::math::lemma_scaled_square(d.x as int, speed, vx);
    crate::math::lemma_scaled_square(d.y as int, speed, vz);
    assert((vx * vx + vz * vz) * 1000000 <= speed * speed * 1000000) by (nonlinear_arith)
        requires
            vx * vx * 1000000 <= d.x * d.x * (speed * speed),
            vz * vz * 1000000 <= d.y * d.y * (speed * speed),
            d.x * d.x + d.y * d.y <= 1000000,
            speed > 0,
    ;
}

/// A horizontal velocity component after `n` ticks without movement input.
pub open spec fn decayed(v: int, speed: int, n: nat) -> int
    decreases n,
{
    if n == 0 {
        v
    } else {
        decayed(move_toward_spec(v, 0, speed), speed, (n - 1) as nat)
    }
}

proof fn lemma_decayed_closed_form(v: int, speed: int, n: nat)
    requires
        speed > 0,
    ensures
        decayed(v, speed, n) == if v >= 0 {
            if v > n * speed {
                v - n * speed
            } else {
                0
            }
        } else {
            if -v > n * speed {
                v + n * speed
            } else {
                0
            }
        },
    decreases n,
{
    if n > 0 {
        let w = move_toward_spec(v, 0, speed);
        lemma_decayed_closed_form(w, speed, (n - 1) as nat);
        assert((n - 1) * speed + speed == n * speed) by (nonlinear_arith);
        assert(n * speed >= speed) by (nonlinear_arith)
            requires
                n >= 1,
                speed > 0,
        ;
    }
}

/// Without movement input a horizontal velocity component loses `speed` per
/// tick until it rests: after `n` ticks its size is `|v| - n * speed`, or zero
/// once that is not positive, and its sign never flips. So it is exactly zero
/// after `n` ticks if and only if `n * speed >= |v|`, that is from tick
/// `ceil(|v| / speed)` on, and its size never grows from one tick to the next.
pub proof fn lemma_decay_reaches_rest(v: int, speed: int, n: nat)
    requires
        speed > 0,
    ensures
        abs(decayed(v, speed, n)) == if abs(v) > n * speed {
            abs(v) - n * speed
        } else {
            0
        },
        decayed(v, speed, n) * v >= 0,
        decayed(v, speed, n) == 0 <==> n * speed >= abs(v),
        abs(decayed(v, speed, n + 1)) <= abs(decayed(v, speed, n)),
{
    lemma_decayed_closed_form(v, speed, n);
    lemma_decayed_closed_form(v, speed, n + 1);
    assert((n + 1) * speed == n * speed + speed) by (nonlinear_arith);
    assert(n * speed >= 0) by (nonlinear_arith)
        requires
            speed > 0,
    ;
    let d = decayed(v, speed, n);
    assert(d * v >= 0) by (nonlinear_arith)
        requires
            v >= 0 ==> d >= 0,
            v <= 0 ==> d <= 0,
    ;
}

/// A jump adds its impulse to the vertical velocity already there instead
/// of replacing it: a tick that starts a jump from `vy` on the floor ends as a
/// tick without a jump would from `vy + jump_impulse`.
pub proof fn lemma_jump_stacks(cfg: ControllerConfig, vy: int, dt: int)
    ensures
        next_vertical(cfg, vy, true, true, dt) == next_vertical(
            cfg,
            vy + cfg.jump_impulse,
            true,
            false,
            dt,
        ),
{
}

} // verus!
