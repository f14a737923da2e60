//! # memsonic
//!
//! MEMS sensor simulation engine for high-power rocketry: the verified core.
//!
//! The library holds the integer and bookkeeping logic of the engine: the
//! pocket PRNG, the flight profile store and its time-based dispenser, the
//! engine clock, the decimation control of the oversampling FIR, the
//! "fresh reading" latch of every sensor, and the engine rate selection.
//! Everything that computes on real numbers lives around it.

pub mod builder;
pub mod engine;
pub mod env;
pub mod filters;
pub mod noise;
pub mod profile;
pub mod sensors;

use vstd::prelude::*;

verus! {

/// Combined output data rates for accelerometer, gyroscope, magnetometer,
/// and barometer (in this order), in Hz.
pub type ODR = (u32, u32, u32, u32);

} // verus!
