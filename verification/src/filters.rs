//! # filters
//!
//! Control of the windowed-sinc FIR that emulates a sensor's oversampling:
//! it collects engine-rate samples and, once every decimation factor calls,
//! hands out the window of the most recent samples for the weighted average
//! that makes one sensor-rate sample.

use vstd::prelude::*;

verus! {

/// The most samples the FIR keeps.
pub const FIR_MAX_TAPS: usize = 64;

/// Decimation factor of the windowed-sinc FIR, in engine steps per output.
pub struct FIRDecim {
    factor: u32,
}

impl FIRDecim {
    /// Windowed sinc FIR is suboptimal for a factor under 8.
    #[verifier::type_invariant]
    spec fn inv(self) -> bool {
        self.factor > 7
    }

    pub closed spec fn decim(&self) -> u32 {
        self.factor
    }

    /// The decimation factor `decim_factor`, which must be at least 8: a
    /// windowed sinc FIR is suboptimal below that.
    pub fn new(decim_factor: u32) -> (d: Self)
        requires
            decim_factor > 7,
        ensures
            d.decim() == decim_factor,
    {
        FIRDecim { factor: decim_factor }
    }

    /// The decimation factor of a sensor of output data rate `odr` on an
    /// engine of rate `engrate`: their quotient, which must be at least 8.
    pub fn from_rates(odr: u32, engrate: u32) -> (d: Self)
        requires
            engrate > 0,
            odr / engrate > 7,
        ensures
            d.decim() == odr / engrate,
    {
        Self::new(odr / engrate)
    }

    pub fn factor(&self) -> (f: u32)
        ensures
            f == self.decim(),
            f > 7,
    {
        proof {
            use_type_invariant(self);
        }
        self.factor
    }
}

/// The samples held after `sample` enters `held`: appended while there is
/// room, otherwise the oldest one is dropped.
pub open spec fn shift_in<T>(held: Seq<T>, sample: T) -> Seq<T> {
    if held.len() < FIR_MAX_TAPS {
        held.push(sample)
    } else {
        held.drop_first().push(sample)
    }
}

/// The last `min(len, d)` samples of `held`.
pub open spec fn window<T>(held: Seq<T>, d: u32) -> Seq<T> {
    if held.len() <= d {
        held
    } else {
        held.subrange(held.len() - d, held.len() as int)
    }
}

/// `r` is what the FIR `before` returns for `sample` under decimation
/// factor `d`, and `after` the state it leaves: on the `d`-th call since the
/// last output, the window of the most recent samples with the count and
/// the samples cleared; otherwise nothing, with the sample kept and the
/// call counted.
pub open spec fn filtered<T>(
    before: WindowedSinc<T>,
    after: WindowedSinc<T>,
    d: u32,
    sample: T,
    r: Option<Vec<T>>,
) -> bool {
    &&& after.wf()
    &&& if before.counter() + 1 < d {
        &&& r is None
        &&& after.samples() == shift_in(before.samples(), sample)
        &&& after.counter() == before.counter() + 1
    } else {
        &&& r is Some
        &&& r->0@ == window(shift_in(before.samples(), sample), d)
        &&& after.samples() == Seq::<T>::empty()
        &&& after.counter() == 0
    }
}

/// Decimation by `d`: over a run of calls from a fresh (or just emptied)
/// FIR under one factor `d`, call `i` (counting from 1) outputs exactly when
/// `i` is a multiple of `d`: one output per `d` inputs, the first after `d`
/// inputs, and `d - 1` silent calls between two outputs.
pub proof fn lemma_fir_period<T>(
    states: Seq<WindowedSinc<T>>,
    samples: Seq<T>,
    outs: Seq<Option<Vec<T>>>,
    d: u32,
)
    requires
        d >= 1,
        states.len() == samples.len() + 1,
        outs.len() == samples.len(),
        states[0].counter() == 0,
        forall|i: int|
            0 <= i < samples.len() ==> filtered(
                #[trigger] states[i],
                states[i + 1],
                d,
                samples[i],
                outs[i],
            ),
    ensures
        forall|i: int| 0 <= i < outs.len() ==> (#[trigger] outs[i] is Some <==> (i + 1) % (d as int) == 0),
        forall|i: int| 0 <= i < states.len() ==> #[trigger] states[i].counter() == i % (d as int),
{
    let dd = d as int;
    assert forall|i: int| 0 <= i < states.len() implies #[trigger] states[i].counter() == i % dd by {
        lemma_fir_counter(states, samples, outs, d, i);
    }
    assert forall|i: int| 0 <= i < outs.len() implies (#[trigger] outs[i] is Some <==> (i + 1) % dd == 0) by {
        lemma_fir_counter(states, samples, outs, d, i);
        lemma_mod_step(i, dd);
        assert(filtered(states[i], states[i + 1], d, samples[i], outs[i]));
    }
}

/// What one call keeps and hands out, in terms of the samples alone: the
/// FIR holds the most recent samples, the new one last, at most
/// `FIR_MAX_TAPS` of them; an output is the newest `min(held, d)` of them,
/// in arrival order, ending with the sample just taken.
pub proof fn lemma_fir_output_meaning<T>(
    before: WindowedSinc<T>,
    after: WindowedSinc<T>,
    d: u32,
    sample: T,
    r: Option<Vec<T>>,
)
    requires
        before.wf(),
        d >= 1,
        filtered(before, after, d, sample, r),
    ensures
        ({
            let held = before.samples();
            let k = held.len() as int;
            let full: int = if k < FIR_MAX_TAPS { k + 1 } else { FIR_MAX_TAPS as int };
            let m: int = if full <= d { full } else { d as int };
            &&& r matches Some(w) ==> {
                &&& w@.len() == m
                &&& w@[m - 1] == sample
                &&& forall|j: int| 0 <= j < m - 1 ==> #[trigger] w@[j] == held[k - (m - 1) + j]
                &&& after.samples().len() == 0
            }
            &&& r is None ==> {
                &&& after.samples().len() == full
                &&& after.samples()[full - 1] == sample
                &&& forall|j: int| 0 <= j < full - 1 ==> #[trigger] after.samples()[j] == held[k
                    - (full - 1) + j]
            }
        }),
{
    let held = before.samples();
    let k = held.len() as int;
    let full: int = if k < FIR_MAX_TAPS { k + 1 } else { FIR_MAX_TAPS as int };
    let s = shift_in(held, sample);
    assert(s.len() == full);
    assert(s[full - 1] == sample);
    assert forall|j: int| 0 <= j < full - 1 implies #[trigger] s[j] == held[k - (full - 1) + j] by {
    }
}

proof fn lemma_mod_step(i: int, d: int)
    requires
        i >= 0,
        d >= 1,
    ensures
        i % d + 1 < d ==> (i + 1) % d == i % d + 1,
        i % d + 1 >= d ==> (i + 1) % d == 0,
{
    vstd::arithmetic::div_mod::lemma_fundamental_div_mod(i, d);
    vstd::arithmetic::div_mod::lemma_mod_bound(i, d);
    let q = i / d;
    assert(i == q * d + i % d) by (nonlinear_arith)
        requires
            i == d * (i / d) + i % d,
            q == i / d,
    ;
    assert((q + 1) * d == q * d + d) by (nonlinear_arith);
    if i % d + 1 < d {
        vstd::arithmetic::div_mod::lemma_fundamental_div_mod_converse(i + 1, d, q, i % d + 1);
    } else {
        vstd::arithmetic::div_mod::lemma_fundamental_div_mod_converse(i + 1, d, q + 1, 0);
    }
}

proof fn lemma_fir_counter<T>(
    states: Seq<WindowedSinc<T>>,
    samples: Seq<T>,
    outs: Seq<Option<Vec<T>>>,
    d: u32,
    i: int,
)
    requires
        d >= 1,
        states.len() == samples.len() + 1,
        outs.len() == samples.len(),
        states[0].counter() == 0,
        forall|j: int|
            0 <= j < samples.len() ==> filtered(
                #[trigger] states[j],
                states[j + 1],
                d,
                samples[j],
                outs[j],
            ),
        0 <= i < states.len(),
    ensures
        states[i].counter() == i % (d as int),
    decreases i,
{
    if i == 0 {
        vstd::arithmetic::div_mod::lemma_small_mod(0, d as nat);
    } else {
        lemma_fir_counter(states, samples, outs, d, i - 1);
        lemma_mod_step(i - 1, d as int);
        assert(filtered(states[i - 1], states[i], d, samples[i - 1], outs[i - 1]));
    }
}

/// State of the oversampling FIR: the samples collected since the last
/// output and the number of calls since then.
pub struct WindowedSinc<T> {
    buf: Vec<T>,
    ctr: u32,
}

impl<T> WindowedSinc<T> {
    pub closed spec fn samples(&self) -> Seq<T> {
        self.buf@
    }

    pub closed spec fn counter(&self) -> u32 {
        self.ctr
    }

    /// The FIR never holds more than `FIR_MAX_TAPS` samples, and its call
    /// counter can always count one more call.
    pub open spec fn wf(&self) -> bool {
        &&& self.samples().len() <= FIR_MAX_TAPS
        &&& self.counter() < u32::MAX
    }
}

impl<T: Copy> WindowedSinc<T> {
    pub fn new() -> (f: Self)
        ensures
            f.wf(),
            f.samples() == Seq::<T>::empty(),
            f.counter() == 0,
    {
        WindowedSinc { buf: Vec::new(), ctr: 0 }
    }

    /// Takes one engine-rate sample. On every `conf.decim()`-th call since
    /// the last output, returns the window of the most recent samples (at
    /// most the decimation factor of them, the newest last) and starts
    /// collecting afresh; on other calls returns nothing.
    pub fn filter(&mut self, conf: &FIRDecim, sample: T) -> (r: Option<Vec<T>>)
        requires
            old(self).wf(),
        ensures
            filtered(*old(self), *final(self), conf.decim(), sample, r),
    {
        proof {
            use_type_invariant(conf);
        }
        self.ctr += 1;
        if self.buf.len() < FIR_MAX_TAPS {
            self.buf.push(sample);
        } else {
            self.buf.remove(0);
            self.buf.push(sample);
        }
        if self.ctr < conf.factor {
            return None;
        }
        self.ctr = 0;
        let len = self.buf.len();
        let d = conf.factor as usize;
        let m = if len < d {
            len
        } else {
            d
        };
        let start = len - m;
        let mut out: Vec<T> = Vec::new();
        let mut k: usize = 0;
        while k < m
            invariant
                len == self.buf@.len(),
                start + m == len,
                k <= m,
                out@ == self.buf@.subrange(start as int, (start + k) as int),
            decreases m - k,
        {
            out.push(self.buf[start + k]);
            k += 1;
        }
        assert(out@ == window(self.buf@, conf.decim()));
        self.buf = Vec::new();
        Some(out)
    }
}

} // verus!
