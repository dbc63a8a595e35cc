//! A per-tick character and camera controller on fixed-point integers.
//!
//! Lengths, intents and velocities are counted in thousandths of a unit
//! (`math::UNIT` stands for one), angles in `math::TURN`ths of a full turn,
//! and time steps in microseconds.
pub mod config;
pub mod input;
pub mod math;
pub mod opt_ref;
pub mod player;

pub use math::{clamp, move_toward};
pub use opt_ref::OptRef;
