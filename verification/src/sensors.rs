//! # sensors
//!
//! The output stage every sensor shares: the most recent reading and
//! whether it has been handed out yet.

use vstd::prelude::*;

verus! {

/// The most recent reading of a sensor, and whether it is new since it was
/// last consumed.
pub struct Measurement<T> {
    meas: T,
    rel: bool,
}

impl<T> Measurement<T> {
    pub closed spec fn value(&self) -> T {
        self.meas
    }

    /// The reading has not been handed out since it was last recorded.
    pub closed spec fn fresh(&self) -> bool {
        self.rel
    }
}

impl<T: Copy> Measurement<T> {
    /// A latch holding `init`, which counts as already handed out.
    pub fn new(init: T) -> (m: Self)
        ensures
            m.value() == init,
            !m.fresh(),
    {
        Measurement { meas: init, rel: false }
    }

    /// The most recent reading, whether new or not.
    pub fn peek(&self) -> (v: T)
        ensures
            v == self.value(),
    {
        self.meas
    }

    /// Records a new reading.
    pub fn record(&mut self, v: T)
        ensures
            recorded(*old(self), *final(self), v),
    {
        self.meas = v;
        self.rel = true;
    }

    /// Returns the most recent reading: `Ok` when it is new since the last
    /// call and `Err` when it did not change since then. Either way the
    /// reading then counts as handed out.
    pub fn consume(&mut self) -> (r: Result<T, T>)
        ensures
            consumed(*old(self), *final(self), r),
    {
        if self.rel {
            self.rel = false;
            Ok(self.meas)
        } else {
            Err(self.meas)
        }
    }
}

impl<T: Copy, const N: usize> Measurement<[T; N]> {
    /// Takes one round of per-axis outputs: every axis that produced a value
    /// (`Some`) takes it, the others keep their reading, and the reading
    /// becomes new if any axis produced one.
    pub fn collect(&mut self, updates: [Option<T>; N])
        ensures
            forall|i: int|
                0 <= i < N ==> #[trigger] final(self).value()@[i] == match updates@[i] {
                    Some(v) => v,
                    None => old(self).value()@[i],
                },
            final(self).fresh() == (old(self).fresh() || exists|i: int|
                0 <= i < N && #[trigger] updates@[i] is Some),
    {
        let mut i: usize = 0;
        while i < N
            invariant
                i <= N,
                forall|j: int|
                    0 <= j < i ==> #[trigger] self.meas@[j] == match updates@[j] {
                        Some(v) => v,
                        None => old(self).meas@[j],
                    },
                forall|j: int| i <= j < N ==> #[trigger] self.meas@[j] == old(self).meas@[j],
                self.rel == (old(self).rel || exists|j: int| 0 <= j < i && #[trigger] updates@[j] is Some),
            decreases N - i,
        {
            if let Some(v) = updates[i] {
                self.meas[i] = v;
                self.rel = true;
            }
            i += 1;
        }
    }
}

/// `after` is the latch `before` once the reading `v` is recorded.
pub open spec fn recorded<T>(before: Measurement<T>, after: Measurement<T>, v: T) -> bool {
    &&& after.value() == v
    &&& after.fresh()
}

/// `r` is what consuming the latch `before` returns, and `after` the latch
/// it leaves: `Ok` with the reading if it was new, `Err` with it otherwise;
/// the reading stays and counts as handed out.
pub open spec fn consumed<T>(before: Measurement<T>, after: Measurement<T>, r: Result<T, T>) -> bool {
    &&& before.fresh() ==> r == Ok::<T, T>(before.value())
    &&& !before.fresh() ==> r == Err::<T, T>(before.value())
    &&& after.value() == before.value()
    &&& !after.fresh()
}

/// A reading is handed out as new at most once: consuming twice with no
/// reading recorded in between gives `Err` the second time, with the same
/// value as the first time.
pub proof fn lemma_consume_once<T>(
    m0: Measurement<T>,
    m1: Measurement<T>,
    m2: Measurement<T>,
    r1: Result<T, T>,
    r2: Result<T, T>,
)
    requires
        consumed(m0, m1, r1),
        consumed(m1, m2, r2),
    ensures
        r2 == Err::<T, T>(m0.value()),
        r1 is Ok ==> r1 == Ok::<T, T>(m0.value()),
        r1 is Err ==> r1 == r2,
{
}

/// A recorded reading is the next one handed out, and it is handed out as
/// new.
pub proof fn lemma_record_then_consume<T>(
    m0: Measurement<T>,
    m1: Measurement<T>,
    m2: Measurement<T>,
    v: T,
    r: Result<T, T>,
)
    requires
        recorded(m0, m1, v),
        consumed(m1, m2, r),
    ensures
        r == Ok::<T, T>(v),
{
}

} // verus!
