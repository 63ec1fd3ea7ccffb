//! A deterministic, discrete-time physics simulator for a two-dimensional
//! racing pod moving through an ordered sequence of circular checkpoints.
//!
//! All state is held in plain integers: positions and velocities are whole
//! distance units, headings are whole degrees in `[0, 360)`.  Within a turn,
//! fractional velocities are carried exactly as fixed-point numbers scaled by
//! [`trig::SCALE`], so every transition is exactly reproducible.

pub mod action;
pub mod checkpoint;
pub mod course;
pub mod game_manager;
pub mod jsonio;
pub mod num;
pub mod pod;
pub mod point;
pub mod trig;
