//! # builder
//!
//! The builder API through which a template hands the engine its sensors,
//! and the engine rate that follows from the sensors' output data rates.

use vstd::prelude::*;
use crate::ODR;

verus! {

/// A template that configures the simulated sensors: bias, alignment,
/// sensitivity and filter properties, from the output data rates and
/// template-specific input parameters.
pub trait SimBuilder: Sized {
    /// Template-specific input parameters.
    type InputParams;
    /// Description of a three-axis sensor (accelerometer, gyroscope,
    /// magnetometer).
    type Imu;
    /// Description of the barometer.
    type Baro;

    fn new(r: ODR, p: Self::InputParams) -> Self;

    /// The accelerometer, gyroscope and magnetometer, in this order.
    fn imu(&mut self) -> [Self::Imu; 3];

    fn baro(&mut self) -> Self::Baro;

    /// The engine rate, in ms per propagation step.
    fn rate(&mut self) -> u32;
}

/// The lowest of four output data rates.
pub open spec fn min_odr(o: ODR) -> u32 {
    let a = if o.0 <= o.1 { o.0 } else { o.1 };
    let b = if a <= o.2 { a } else { o.2 };
    if b <= o.3 { b } else { o.3 }
}

/// The engine rate for the output data rates `o`, and the lowest rate when
/// the data rates must be rescaled: a fifth of the lowest rate; when that
/// is zero, the engine rate is 1 and every data rate is to be scaled up by
/// `5 / lowest`, so that the lowest one becomes at least 5.
pub open spec fn rate_plan(o: ODR) -> (u32, Option<u32>) {
    let m = min_odr(o);
    if m / 5 == 0 {
        (1, Some(m))
    } else {
        ((m / 5) as u32, None)
    }
}

/// Picks the engine rate for the output data rates `odr` (accelerometer,
/// gyroscope, magnetometer, barometer). Returns the engine rate, and, when
/// the lowest data rate is under 5, that lowest rate: the data rates must
/// then be scaled up by `5 / lowest` before the sensors are built.
pub fn engine_rate(odr: ODR) -> (r: (u32, Option<u32>))
    ensures
        r == rate_plan(odr),
        r.0 >= 1,
{
    let a = if odr.0 <= odr.1 {
        odr.0
    } else {
        odr.1
    };
    let b = if a <= odr.2 {
        a
    } else {
        odr.2
    };
    let m = if b <= odr.3 {
        b
    } else {
        odr.3
    };
    let eng = m / 5;
    if eng == 0 {
        (1, Some(m))
    } else {
        (eng, None)
    }
}

/// The engine rate is a fifth of the actual lowest data rate. Without a
/// rescale, five times the rate fits under every data rate and the lowest
/// data rate is under five times one more step; with a rescale, the rate is
/// 1 and the lowest rate handed back is one of the four, no higher than any,
/// and under 5.
pub proof fn lemma_rate_is_fifth_of_lowest(o: ODR)
    ensures
        rate_plan(o).0 >= 1,
        rate_plan(o).1 is None ==> {
            let r = rate_plan(o).0 as int;
            &&& r * 5 <= o.0 && r * 5 <= o.1 && r * 5 <= o.2 && r * 5 <= o.3
            &&& o.0 < 5 * (r + 1) || o.1 < 5 * (r + 1) || o.2 < 5 * (r + 1) || o.3 < 5 * (r + 1)
        },
        rate_plan(o).1 matches Some(m) ==> {
            &&& rate_plan(o).0 == 1
            &&& m < 5
            &&& m <= o.0 && m <= o.1 && m <= o.2 && m <= o.3
            &&& (m == o.0 || m == o.1 || m == o.2 || m == o.3)
        },
{
    let m = min_odr(o) as int;
    vstd::arithmetic::div_mod::lemma_fundamental_div_mod(m, 5);
    vstd::arithmetic::div_mod::lemma_mod_bound(m, 5);
}

/// Every sensor, the fastest included, gets at least 5 engine steps per
/// output when no rescale is needed.
pub proof fn lemma_rate_leaves_five_steps(o: ODR)
    requires
        rate_plan(o).1 is None,
    ensures
        o.0 / rate_plan(o).0 >= 5,
        o.1 / rate_plan(o).0 >= 5,
        o.2 / rate_plan(o).0 >= 5,
        o.3 / rate_plan(o).0 >= 5,
{
    let m = min_odr(o) as int;
    let r = m / 5;
    assert(r * 5 <= m) by {
        vstd::arithmetic::div_mod::lemma_fundamental_div_mod(m, 5);
        vstd::arithmetic::div_mod::lemma_mod_bound(m, 5);
    }
    assert forall|x: int| m <= x implies #[trigger] (x / r) >= 5 by {
        vstd::arithmetic::div_mod::lemma_div_is_ordered(r * 5, x, r);
        vstd::arithmetic::div_mod::lemma_div_by_multiple(5, r);
        assert((r * 5) / r == 5) by {
            assert(r * 5 == 5 * r) by (nonlinear_arith);
        }
    }
    assert(o.0 as int / r >= 5);
    assert(o.1 as int / r >= 5);
    assert(o.2 as int / r >= 5);
    assert(o.3 as int / r >= 5);
}

/// Once rescaled so that the lowest rate lands between 5 and 9, the data
/// rates are settled: asking again gives engine rate 1 and needs no
/// further rescale.
pub proof fn lemma_rate_settles_after_rescale(o: ODR)
    requires
        5 <= min_odr(o) < 10,
    ensures
        rate_plan(o) == (1u32, None::<u32>),
{
}

} // verus!
