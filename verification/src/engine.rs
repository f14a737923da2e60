//! # engine
//!
//! The engine clock. Elapsed time is broken into equal intervals equal to
//! the engine rate, and the model is propagated once per interval towards
//! the target that the flight profile holds for the moment. Lazy: nothing
//! happens until a whole interval has elapsed.

use vstd::prelude::*;
use crate::profile::{CannedProfile, Target, target_at};

verus! {

/// Milliseconds from `from` to `to` on the wrapping 32-bit clock.
pub open spec fn ring_diff(to: u32, from: u32) -> int {
    if to >= from {
        to - from
    } else {
        to - from + 0x1_0000_0000
    }
}

/// `r` is what stepping the clock `before` at the moment `now` against the
/// profile `v` returns, and `after` the clock it leaves: nothing, with the
/// clock unchanged, when less than one step has elapsed or the plan is over;
/// otherwise the target for the moment and the number of whole steps
/// elapsed, with the clock advanced by that many steps.
pub open spec fn stepped<M>(
    before: Clock,
    after: Clock,
    now: u32,
    v: Seq<(u32, M)>,
    r: Option<(Target<M>, u32)>,
) -> bool {
    let e = ring_diff(now, before.tim());
    &&& after.wf()
    &&& after.rate() == before.rate()
    &&& if e < before.rate() || target_at(v, now) is None {
        &&& r is None
        &&& after.tim() == before.tim()
    } else {
        &&& r == Some((target_at(v, now)->0, (e / before.rate() as int) as u32))
        &&& ring_diff(now, after.tim()) == e % (before.rate() as int)
    }
}

/// The engine evaluates lazily and only once per moment: stepping the clock
/// a second time at the same moment propagates nothing and leaves it as the
/// first call left it.
pub proof fn lemma_step_settles<M>(
    c0: Clock,
    c1: Clock,
    c2: Clock,
    now: u32,
    v: Seq<(u32, M)>,
    r1: Option<(Target<M>, u32)>,
    r2: Option<(Target<M>, u32)>,
)
    requires
        c0.wf(),
        stepped(c0, c1, now, v, r1),
        stepped(c1, c2, now, v, r2),
    ensures
        r2 is None,
        c2.tim() == c1.tim(),
{
    if r1 is Some {
        vstd::arithmetic::div_mod::lemma_mod_bound(ring_diff(now, c0.tim()), c0.rate() as int);
    }
}

/// The clock is live and exact, in terms of the clock's fields and the
/// profile's points alone: when at least one whole step has elapsed since
/// the clock's time (on the wrapping 32-bit clock) and the plan is not over
/// (the moment is at or before the first point, or before the last one),
/// the step hands out the profile's target with exactly the number of whole
/// steps elapsed, and the clock moves on by that many steps; otherwise it
/// hands out nothing and the clock stays.
pub proof fn lemma_step_live<M>(
    c0: Clock,
    c1: Clock,
    now: u32,
    v: Seq<(u32, M)>,
    r: Option<(Target<M>, u32)>,
)
    requires
        c0.wf(),
        v.len() >= 1,
        stepped(c0, c1, now, v, r),
    ensures
        ({
            let e: int = if now >= c0.tim() {
                now - c0.tim()
            } else {
                now - c0.tim() + 0x1_0000_0000
            };
            let over = v[0].0 < now && v[v.len() - 1].0 <= now;
            &&& (e >= c0.rate() && !over) ==> (r matches Some((target, n)) && {
                &&& target == target_at(v, now)->0
                &&& n >= 1
                &&& n * c0.rate() <= e < (n + 1) * c0.rate()
                &&& c1.tim() == (c0.tim() + n * c0.rate()) % 0x1_0000_0000
            })
            &&& (e < c0.rate() || over) ==> (r is None && c1.tim() == c0.tim())
        }),
{
    let rate = c0.rate() as int;
    let e = ring_diff(now, c0.tim());
    crate::profile::lemma_target_at_meaning(v, now);
    if e >= rate && target_at(v, now) is Some {
        let n = e / rate;
        let d1 = e % rate;
        vstd::arithmetic::div_mod::lemma_fundamental_div_mod(e, rate);
        vstd::arithmetic::div_mod::lemma_mod_bound(e, rate);
        assert(n * rate == e - d1) by (nonlinear_arith)
            requires
                e == rate * (e / rate) + e % rate,
                n == e / rate,
                d1 == e % rate,
        ;
        assert((n + 1) * rate == n * rate + rate) by (nonlinear_arith);
        assert(n >= 1) by (nonlinear_arith)
            requires
                n * rate == e - d1,
                d1 < rate,
                e >= rate,
                rate > 0,
        ;
        let x = c0.tim() + n * rate;
        assert(ring_diff(now, c1.tim()) == d1);
        if x >= 0x1_0000_0000 {
            vstd::arithmetic::div_mod::lemma_fundamental_div_mod_converse(
                x,
                0x1_0000_0000,
                1,
                x - 0x1_0000_0000,
            );
        } else {
            vstd::arithmetic::div_mod::lemma_small_mod(x as nat, 0x1_0000_0000);
        }
    }
}

/// Elapsed time is split into engine-rate intervals: a clock on a whole
/// number of steps that propagates at a later moment `now` lands on the last
/// whole step before `now`, having counted every step in between. So from
/// time 0, the steps handed out up to `now` add up to `now / rate`.
pub proof fn lemma_step_counts_intervals<M>(
    c0: Clock,
    c1: Clock,
    now: u32,
    v: Seq<(u32, M)>,
    target: Target<M>,
    n: u32,
)
    requires
        c0.wf(),
        c0.tim() % c0.rate() == 0,
        c0.tim() <= now,
        stepped(c0, c1, now, v, Some((target, n))),
    ensures
        c1.tim() == now - (now as int) % (c0.rate() as int),
        c1.tim() == c0.tim() + n * c0.rate(),
        c1.tim() % c1.rate() == 0,
{
    let rate = c0.rate() as int;
    let e = now - c0.tim();
    vstd::arithmetic::div_mod::lemma_fundamental_div_mod(e, rate);
    vstd::arithmetic::div_mod::lemma_mod_bound(e, rate);
    let q = (c0.tim() as int) / rate;
    vstd::arithmetic::div_mod::lemma_fundamental_div_mod(c0.tim() as int, rate);
    // now = q * rate + e, and e % rate == now % rate
    vstd::arithmetic::div_mod::lemma_mod_multiples_vanish(q, e, rate);
    assert(now as int == rate * q + e) by (nonlinear_arith)
        requires
            c0.tim() as int == rate * q,
            e == now - c0.tim(),
    ;
    assert(c1.tim() == now - e % rate);
    assert(c1.tim() == c0.tim() + n * rate) by (nonlinear_arith)
        requires
            e == rate * (e / rate) + e % rate,
            n == e / rate,
            c1.tim() == now - e % rate,
            e == now - c0.tim(),
    ;
    assert((rate * q + n * rate) % rate == 0) by {
        vstd::arithmetic::div_mod::lemma_mod_multiples_basic(q + n, rate);
        assert(rate * q + n * rate == (q + n) * rate) by (nonlinear_arith);
    }
}

/// The engine clock: the time the model has been propagated to and the
/// engine rate (the length of one propagation step), in ms.
pub struct Clock {
    tim: u32,
    rate: u32,
}

impl Clock {
    pub closed spec fn tim(&self) -> u32 {
        self.tim
    }

    pub closed spec fn rate(&self) -> u32 {
        self.rate
    }

    /// A clock advances by whole steps only if a step has a length.
    pub open spec fn wf(&self) -> bool {
        self.rate() > 0
    }

    /// A clock at time 0 with the given engine rate.
    pub fn new(rate: u32) -> (c: Self)
        requires
            rate > 0,
        ensures
            c.wf(),
            c.tim() == 0,
            c.rate() == rate,
    {
        Clock { tim: 0, rate }
    }

    /// The time the model has been propagated to.
    pub fn time(&self) -> (t: u32)
        ensures
            t == self.tim(),
    {
        self.tim
    }

    /// The engine rate, in ms per propagation step.
    pub fn step_ms(&self) -> (r: u32)
        ensures
            r == self.rate(),
    {
        self.rate
    }

    /// Decides how far the model must be propagated at the moment `now`.
    ///
    /// Returns nothing and leaves the clock as it is when less than one
    /// step has elapsed, or when the profile holds no target for the moment
    /// (the flight plan is over). Otherwise returns the target and the
    /// number `n` of whole steps that have elapsed, and advances the clock
    /// by `n` steps: the model is to be propagated `n` times towards that
    /// target. The profile's own timestamps include the start delay, so the
    /// moment is looked up as it stands.
    pub fn step<M: Copy>(&mut self, now: u32, p: &CannedProfile<M>) -> (r: Option<(Target<M>, u32)>)
        requires
            old(self).wf(),
            p.wf(),
        ensures
            stepped(*old(self), *final(self), now, p.points(), r),
    {
        if now.wrapping_sub(self.tim) < self.rate {
            return None;
        }
        let target = match p.linearize(now) {
            Some(target) => target,
            None => {
                return None;
            },
        };
        let ghost e = ring_diff(now, self.tim);
        let ghost rate = self.rate as int;
        let mut n: u32 = 0;
        while now.wrapping_sub(self.tim) >= self.rate
            invariant
                self.rate == rate,
                rate > 0,
                e < 0x1_0000_0000,
                ring_diff(now, self.tim) + n * rate == e,
            decreases ring_diff(now, self.tim),
        {
            assert((n + 1) * rate == n * rate + rate) by (nonlinear_arith);
            assert(n * rate <= e) by (nonlinear_arith)
                requires
                    ring_diff(now, self.tim) + n * rate == e,
                    ring_diff(now, self.tim) >= 0,
            ;
            assert(n + 1 <= e) by (nonlinear_arith)
                requires
                    (n + 1) * rate <= e,
                    rate >= 1,
                    n >= 0,
            ;
            self.tim = self.tim.wrapping_add(self.rate);
            n += 1;
        }
        proof {
            vstd::arithmetic::div_mod::lemma_fundamental_div_mod_converse(
                e,
                rate,
                n as int,
                ring_diff(now, self.tim),
            );
        }
        Some((target, n))
    }
}

} // verus!
