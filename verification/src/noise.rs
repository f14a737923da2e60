//! # noise
//!
//! Xorshift32 generator and the integer part of the Irwin-Hall noise source.
//! The 'fast' version breaks the normal into four independent byte
//! distributions per draw to avoid floating-point work.

use vstd::prelude::*;

verus! {

/// One step of Marsaglia's xorshift32 (shifts 13, 17, 5).
pub open spec fn xorshift(v: u32) -> u32 {
    let a = v ^ (v << 13u32);
    let b = a ^ (a >> 17u32);
    b ^ (b << 5u32)
}

/// A nonzero state never steps to zero, which xorshift32 maps to itself.
pub proof fn lemma_xorshift_nonzero(v: u32)
    requires
        v != 0,
    ensures
        xorshift(v) != 0,
{
    assert(v != 0 ==> xorshift(v) != 0) by (bit_vector);
}

/// Two distinct states never step to the same state: the sequences of two
/// differently seeded generators never merge.
pub proof fn lemma_xorshift_injective(a: u32, b: u32)
    requires
        xorshift(a) == xorshift(b),
    ensures
        a == b,
{
    assert(xorshift(a) == xorshift(b) ==> a == b) by (bit_vector);
}

/// Advances a xorshift32 state.
pub trait Rand: Sized {
    fn rand(self) -> Self;
}

impl Rand for u32 {
    fn rand(self) -> (r: u32)
        ensures
            r == xorshift(self),
    {
        let mut v = self;
        v ^= v << 13u32;
        v ^= v >> 17u32;
        v ^= v << 5u32;
        v
    }
}

/// The state `n` xorshift32 steps after `v`.
pub open spec fn xorshift_n(v: u32, n: nat) -> u32
    decreases n,
{
    if n == 0 {
        v
    } else {
        xorshift(xorshift_n(v, (n - 1) as nat))
    }
}

/// A generator seeded with a nonzero state never falls into zero, however
/// many steps it takes.
pub proof fn lemma_xorshift_n_nonzero(v: u32, n: nat)
    requires
        v != 0,
    ensures
        xorshift_n(v, n) != 0,
    decreases n,
{
    if n > 0 {
        lemma_xorshift_n_nonzero(v, (n - 1) as nat);
        lemma_xorshift_nonzero(xorshift_n(v, (n - 1) as nat));
    }
}

/// Sum of the four bytes of `x`.
pub open spec fn byte_sum(x: u32) -> int {
    (x & 0xffu32) + ((x >> 8u32) & 0xffu32) + ((x >> 16u32) & 0xffu32) + (x >> 24u32)
}

/// Sum of the byte sums of the `n` states that follow `v`.
pub open spec fn fast_sum(v: u32, n: nat) -> int
    decreases n,
{
    if n == 0 {
        0
    } else {
        fast_sum(v, (n - 1) as nat) + byte_sum(xorshift_n(v, n))
    }
}

/// The generator is Marsaglia's xorshift32 with shifts 13, 17 and 5, over
/// every state.
pub proof fn lemma_xorshift_marsaglia(v: u32)
    ensures
        ({
            let a = v ^ (v << 13u32);
            let b = a ^ (a >> 17u32);
            xorshift(v) == b ^ (b << 5u32)
        }),
{
}

/// Each step is linear over GF(2): the step of the XOR of two states is the
/// XOR of their steps.
pub proof fn lemma_xorshift_linear(a: u32, b: u32)
    ensures
        xorshift(a ^ b) == xorshift(a) ^ xorshift(b),
{
    assert(xorshift(a ^ b) == xorshift(a) ^ xorshift(b)) by (bit_vector);
}

/// `n` steps from a state are zero steps (the state itself) or one step
/// after `n - 1` steps: every draw follows from the one before it.
pub proof fn lemma_xorshift_n_step(v: u32, n: nat)
    ensures
        xorshift_n(v, 0) == v,
        xorshift_n(v, n + 1) == xorshift(xorshift_n(v, n)),
{
}

/// The fast mode adds up the four full bytes of each of the three states
/// that follow the seed.
pub proof fn lemma_fast_sum_bytes(v: u32)
    ensures
        ({
            let x1 = xorshift(v);
            let x2 = xorshift(x1);
            let x3 = xorshift(x2);
            fast_sum(v, 3) == (x1 % 256 + (x1 / 256) % 256 + (x1 / 65536) % 256 + x1 / 16777216)
                + (x2 % 256 + (x2 / 256) % 256 + (x2 / 65536) % 256 + x2 / 16777216) + (x3 % 256
                + (x3 / 256) % 256 + (x3 / 65536) % 256 + x3 / 16777216)
        }),
{
    let x1 = xorshift(v);
    let x2 = xorshift(x1);
    let x3 = xorshift(x2);
    assert(xorshift_n(v, 0) == v);
    assert(xorshift_n(v, 1) == x1);
    assert(xorshift_n(v, 2) == x2);
    assert(xorshift_n(v, 3) == x3);
    assert(fast_sum(v, 0) == 0);
    assert(fast_sum(v, 1) == byte_sum(x1));
    assert(fast_sum(v, 2) == byte_sum(x1) + byte_sum(x2));
    lemma_byte_sum_digits(x1);
    lemma_byte_sum_digits(x2);
    lemma_byte_sum_digits(x3);
    assert(fast_sum(v, 3) == byte_sum(x1) + byte_sum(x2) + byte_sum(x3));
}

/// The byte sum is the sum of the base-256 digits.
proof fn lemma_byte_sum_digits(x: u32)
    ensures
        byte_sum(x) == x % 256 + (x / 256) % 256 + (x / 65536) % 256 + x / 16777216,
{
    assert((x & 0xffu32) == x % 256 && ((x >> 8u32) & 0xffu32) == (x / 256) % 256 && ((x
        >> 16u32) & 0xffu32) == (x / 65536) % 256 && (x >> 24u32) == x / 16777216)
        by (bit_vector);
}

/// Number of uniform draws summed by the normal (Irwin-Hall) mode.
pub const NORMAL_DRAWS: usize = 12;

/// Number of 32-bit draws whose bytes are summed by the fast mode.
pub const FAST_DRAWS: usize = 3;

proof fn lemma_byte_sum_bounds(x: u32)
    ensures
        0 <= byte_sum(x) <= 1020,
{
    assert((x & 0xffu32) <= 255u32) by (bit_vector);
    assert(((x >> 8u32) & 0xffu32) <= 255u32) by (bit_vector);
    assert(((x >> 16u32) & 0xffu32) <= 255u32) by (bit_vector);
    assert((x >> 24u32) <= 255u32) by (bit_vector);
}

/// Integer state of the Gaussian-like noise generator. The sensor scales
/// what it draws by its own standard deviation.
pub struct Gaussian {
    pub state: u32,
}

impl Gaussian {
    pub fn new(state: u32) -> (g: Self)
        ensures
            g.state == state,
    {
        Gaussian { state }
    }

    /// Normal mode: steps the state twelve times and returns every
    /// intermediate state, the raw material of twelve uniform draws.
    pub fn normal_draws(&mut self) -> (r: Vec<u32>)
        ensures
            r@.len() == NORMAL_DRAWS,
            forall|i: int| 0 <= i < NORMAL_DRAWS ==> r@[i] == xorshift_n(old(self).state, (i + 1) as nat),
            final(self).state == xorshift_n(old(self).state, NORMAL_DRAWS as nat),
    {
        let ghost s0 = self.state;
        let mut r: Vec<u32> = Vec::new();
        let mut i: usize = 0;
        while i < NORMAL_DRAWS
            invariant
                i <= NORMAL_DRAWS,
                r@.len() == i,
                self.state == xorshift_n(s0, i as nat),
                forall|j: int| 0 <= j < i ==> r@[j] == xorshift_n(s0, (j + 1) as nat),
            decreases NORMAL_DRAWS - i,
        {
            self.state = self.state.rand();
            r.push(self.state);
            i += 1;
        }
        r
    }

    /// Fast mode: steps the state three times and returns the sum of the
    /// four bytes of each new state.
    pub fn fast_draws(&mut self) -> (s: u32)
        ensures
            s == fast_sum(old(self).state, FAST_DRAWS as nat),
            s <= 3060,
            final(self).state == xorshift_n(old(self).state, FAST_DRAWS as nat),
    {
        let ghost s0 = self.state;
        let mut s: u32 = 0;
        let mut i: usize = 0;
        while i < FAST_DRAWS
            invariant
                i <= FAST_DRAWS,
                self.state == xorshift_n(s0, i as nat),
                s == fast_sum(s0, i as nat),
                s <= 1020 * i,
            decreases FAST_DRAWS - i,
        {
            let r = self.state.rand();
            proof {
                lemma_byte_sum_bounds(r);
            }
            s += (r & 0xff) + ((r >> 8) & 0xff) + ((r >> 16) & 0xff) + (r >> 24);
            self.state = r;
            i += 1;
        }
        s
    }
}

/// Bit pattern of an IEEE-754 single of magnitude in [0.5, 1) whose sign
/// and mantissa are taken from the random word `r`: the sign is the lowest
/// bit of `r`, the mantissa its 23 highest bits.
pub fn leash_bits(r: u32) -> (b: u32)
    ensures
        b == ((r >> 9u32) | 0x3f00_0000u32 | (r << 31u32)),
        (b >> 23u32) & 0xffu32 == 0x7eu32,
        b >> 31u32 == r & 1u32,
        b & 0x7f_ffffu32 == r >> 9u32,
{
    let b = (r >> 9) | 0x3f00_0000 | (r << 31);
    assert((((r >> 9u32) | 0x3f00_0000u32 | (r << 31u32)) >> 23u32) & 0xffu32 == 0x7eu32)
        by (bit_vector);
    assert(((r >> 9u32) | 0x3f00_0000u32 | (r << 31u32)) >> 31u32 == r & 1u32) by (bit_vector);
    assert(((r >> 9u32) | 0x3f00_0000u32 | (r << 31u32)) & 0x7f_ffffu32 == r >> 9u32)
        by (bit_vector);
    b
}

} // verus!
