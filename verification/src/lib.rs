//! Simulation core of a paddle-and-ball brick breaker.
//!
//! Everything here works on fixed-point integers: one pixel is
//! [`math::UNITS_PER_PIXEL`] units, time is counted in whole milliseconds and
//! a speed is a number of units per millisecond. The window, the GPU and the
//! keyboard live outside this crate; they hand in plain values (elapsed
//! milliseconds, which keys are held, the handles of loaded textures) and take
//! back the list of sprites to draw.

pub mod engine;
pub mod game;
pub mod math;
