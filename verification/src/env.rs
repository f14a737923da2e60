//! # env
//!
//! Launch sites and the engine-wide pseudo-random source.

use vstd::prelude::*;
use crate::noise::{xorshift, Rand};

verus! {

/// Returns a pseudo-random 32-bit unsigned integer and advances `state`.
///
/// The value handed out is the state before the step; the state after the
/// call is one xorshift32 step further.
pub fn rand(state: &mut u32) -> (r: u32)
    ensures
        r == *old(state),
        *final(state) == xorshift(*old(state)),
{
    let r = *state;
    *state = r.rand();
    r
}

/// Average mid July at Furnas Hall, University at Buffalo.
/// Lat: 43.0019167, Lon: -78.787083.
pub struct BuffaloJuly;

} // verus!
