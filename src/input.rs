//! Turns polled axes, buffered mouse motion and the jump button into one
//! frame's intents.
use vstd::prelude::*;

use crate::config::ControllerConfig;
use crate::math::{cap_to_unit, capped, scale, scaled, Vec2, UNIT};

verus! {

/// The largest accumulated mouse motion, in pixels, along either axis.
pub const MOUSE_LIMIT: i64 = 1_000_000_000;

/// Polled strengths of four directional inputs, each in thousandths.
/// `negative_y` is forward for movement and up for looking.
#[derive(Clone, Copy, Debug, PartialEq, Eq, Structural)]
pub struct AxisState {
    pub negative_x: i64,
    pub positive_x: i64,
    pub negative_y: i64,
    pub positive_y: i64,
}

impl AxisState {
    pub open spec fn wf(&self) -> bool {
        &&& 0 <= self.negative_x <= UNIT
        &&& 0 <= self.positive_x <= UNIT
        &&& 0 <= self.negative_y <= UNIT
        &&& 0 <= self.positive_y <= UNIT
    }

    /// The difference of each pair of opposing strengths.
    pub open spec fn raw(&self) -> Vec2 {
        Vec2 {
            x: (self.positive_x - self.negative_x) as i64,
            y: (self.positive_y - self.negative_y) as i64,
        }
    }
}

/// The axes combined into one vector, shortened to unit length when longer.
pub fn axis_vector(a: AxisState) -> (r: Vec2)
    requires
        a.wf(),
    ensures
        r == capped(a.raw()),
        r.len_sq() <= UNIT * UNIT,
{
    cap_to_unit(Vec2 { x: a.positive_x - a.negative_x, y: a.positive_y - a.negative_y })
}

/// One tick's intents.
#[derive(Clone, Copy, Debug, PartialEq, Eq, Structural)]
pub struct FrameInput {
    /// Strafe and forward-back intent in thousandths, at most unit length.
    pub movement_intent: Vec2,
    /// The look delta in angle units, sensitivity applied; positive `x`
    /// looks right, positive `y` looks down.
    pub look_intent: Vec2,
    /// The jump button went down on this tick.
    pub jump_requested: bool,
}

/// The look delta for a tick: the look axes when they are off centre,
/// else the mouse motion, each scaled by its own sensitivity.
pub open spec fn look_choice(cfg: ControllerConfig, controller: Vec2, mouse: Vec2) -> Vec2 {
    if !controller.is_zero() {
        Vec2 {
            x: scaled(controller.x as int, cfg.controller_look_sensitivity as int, UNIT as int)
                as i64,
            y: scaled(controller.y as int, cfg.controller_look_sensitivity as int, UNIT as int)
                as i64,
        }
    } else {
        Vec2 {
            x: scaled(mouse.x as int, cfg.mouse_look_sensitivity as int, UNIT as int) as i64,
            y: scaled(mouse.y as int, cfg.mouse_look_sensitivity as int, UNIT as int) as i64,
        }
    }
}

/// Picks and scales the look delta from the look axes and the mouse motion;
/// the axes win whenever they are off centre.
pub fn select_look(cfg: &ControllerConfig, controller: Vec2, mouse: Vec2) -> (r: Vec2)
    requires
        cfg.wf(),
        controller.len_sq() <= UNIT * UNIT,
        -MOUSE_LIMIT <= mouse.x <= MOUSE_LIMIT,
        -MOUSE_LIMIT <= mouse.y <= MOUSE_LIMIT,
    ensures
        r == look_choice(*cfg, controller, mouse),
{
    if controller.x != 0 || controller.y != 0 {
        proof {
            let (cx, cy, s) = (
                controller.x as int,
                controller.y as int,
                cfg.controller_look_sensitivity as int,
            );
            assert(-1000 <= cx <= 1000 && -1000 <= cy <= 1000) by (nonlinear_arith)
                requires
                    cx * cx + cy * cy <= 1000000,
            ;
            assert(-1000000000 <= cx * s <= 1000000000 && -1000000000 <= cy * s <= 1000000000)
                by (nonlinear_arith)
                requires
                    -1000 <= cx <= 1000,
                    -1000 <= cy <= 1000,
                    0 < s <= 1000000,
            ;
        }
        Vec2 {
            x: scale(controller.x, cfg.controller_look_sensitivity, UNIT),
            y: scale(controller.y, cfg.controller_look_sensitivity, UNIT),
        }
    } else {
        proof {
            let (mx, my, s) = (mouse.x as int, mouse.y as int, cfg.mouse_look_sensitivity as int);
            assert(-1000000000000000 <= mx * s <= 1000000000000000 && -1000000000000000 <= my * s
                <= 1000000000000000) by (nonlinear_arith)
                requires
                    -1000000000 <= mx <= 1000000000,
                    -1000000000 <= my <= 1000000000,
                    0 < s <= 1000000,
            ;
        }
        Vec2 {
            x: scale(mouse.x, cfg.mouse_look_sensitivity, UNIT),
            y: scale(mouse.y, cfg.mouse_look_sensitivity, UNIT),
        }
    }
}

/// Whenever the look axes are off centre, the mouse motion of the same tick
/// has no effect on the look delta.
pub proof fn lemma_controller_look_wins(
    cfg: ControllerConfig,
    controller: Vec2,
    mouse_a: Vec2,
    mouse_b: Vec2,
)
    requires
        !controller.is_zero(),
    ensures
        look_choice(cfg, controller, mouse_a) == look_choice(cfg, controller, mouse_b),
{
}

/// Collects input between ticks: the mouse motion buffered since the last
/// sample, and whether the jump button was down at the last sample.
pub struct InputSampler {
    pub mouse: Vec2,
    pub jump_held: bool,
}

impl InputSampler {
    pub open spec fn wf(&self) -> bool {
        -MOUSE_LIMIT <= self.mouse.x <= MOUSE_LIMIT && -MOUSE_LIMIT <= self.mouse.y <= MOUSE_LIMIT
    }

    /// A sampler with no motion buffered and the jump button up.
    pub fn new() -> (r: InputSampler)
        ensures
            r.wf(),
            r.mouse.is_zero(),
            !r.jump_held,
    {
        InputSampler { mouse: Vec2 { x: 0, y: 0 }, jump_held: false }
    }

    /// Buffers one relative mouse motion event, in pixels; the buffer
    /// saturates at `MOUSE_LIMIT` either way.
    pub fn add_mouse_motion(&mut self, dx: i32, dy: i32)
        requires
            old(self).wf(),
        ensures
            final(self).wf(),
            final(self).jump_held == old(self).jump_held,
            final(self).mouse.x == crate::math::clamp_spec(
                old(self).mouse.x + dx,
                -MOUSE_LIMIT as int,
                MOUSE_LIMIT as int,
            ),
            final(self).mouse.y == crate::math::clamp_spec(
                old(self).mouse.y + dy,
                -MOUSE_LIMIT as int,
                MOUSE_LIMIT as int,
            ),
    {
        let x: i64 = crate::math::clamp(self.mouse.x + dx as i64, -MOUSE_LIMIT, MOUSE_LIMIT);
        let y: i64 = crate::math::clamp(self.mouse.y + dy as i64, -MOUSE_LIMIT, MOUSE_LIMIT);
        self.mouse = Vec2 { x, y };
    }

    /// Produces this tick's intents from the polled movement and look axes
    /// and the jump button, and empties the mouse buffer.
    pub fn sample(
        &mut self,
        cfg: &ControllerConfig,
        movement: AxisState,
        look: AxisState,
        jump_down: bool,
    ) -> (r: FrameInput)
        requires
            old(self).wf(),
            cfg.wf(),
            movement.wf(),
            look.wf(),
        ensures
            r.movement_intent == capped(movement.raw()),
            r.look_intent == look_choice(*cfg, capped(look.raw()), old(self).mouse),
            r.jump_requested == (jump_down && !old(self).jump_held),
            final(self).wf(),
            final(self).mouse.is_zero(),
            final(self).jump_held == jump_down,
    {
        let movement_intent = axis_vector(movement);
        let controller = axis_vector(look);
        let look_intent = select_look(cfg, controller, self.mouse);
        let jump_requested = jump_down && !self.jump_held;
        self.mouse = Vec2 { x: 0, y: 0 };
        self.jump_held = jump_down;
        FrameInput { movement_intent, look_intent, jump_requested }
    }
}

} // verus!
