//! Deterministic noise for the price feeds.
//!
//! A [`NoiseSource`] is a seedable pseudo-random generator whose whole
//! evolution is a mathematical function of its seed, so that a run of the
//! simulation can be reproduced exactly. Its `next_gaussian` output is an
//! approximately standard normal sample in fixed point, produced as a sum
//! of twelve uniform samples shifted to mean zero.
use vstd::prelude::*;

verus! {

use crate::fixed::{NOISE_CAP, SCALE};

/// Increment of the generator's counter state.
pub const STATE_STEP: u64 = 0x9E37_79B9_7F4A_7C15;

/// First multiplier of the output mix.
pub const MIX_MUL_A: u64 = 0xBF58_476D_1CE4_E5B9;

/// Second multiplier of the output mix.
pub const MIX_MUL_B: u64 = 0x94D0_49BB_1331_11EB;

/// Product of two 64-bit words, truncated to 64 bits.
pub open spec fn wrap_mul_spec(a: u64, b: u64) -> u64 {
    (((a as int) * (b as int)) % 0x1_0000_0000_0000_0000) as u64
}

/// Sum of two 64-bit words, truncated to 64 bits.
pub open spec fn wrap_add_spec(a: u64, b: u64) -> u64 {
    (((a as int) + (b as int)) % 0x1_0000_0000_0000_0000) as u64
}

/// The generator's state after one advance.
pub open spec fn advance_spec(s: u64) -> u64 {
    wrap_add_spec(s, STATE_STEP)
}

/// The generator's state after `k` advances.
pub open spec fn state_after(s: u64, k: nat) -> u64
    decreases k,
{
    if k == 0 {
        s
    } else {
        advance_spec(state_after(s, (k - 1) as nat))
    }
}

/// The word the generator outputs for a given state.
pub open spec fn mix_spec(s: u64) -> u64 {
    let a = wrap_mul_spec(s ^ (s >> 30), MIX_MUL_A);
    let b = wrap_mul_spec(a ^ (a >> 27), MIX_MUL_B);
    b ^ (b >> 31)
}

/// The uniform sample in `[0, SCALE]` produced from a given state.
pub open spec fn unit_of(s: u64) -> int {
    (mix_spec(s) % ((SCALE + 1) as u64)) as int
}

/// Sum of the first `k` uniform samples drawn after state `s`.
pub open spec fn unit_sum(s: u64, k: nat) -> int
    decreases k,
{
    if k == 0 {
        0
    } else {
        unit_sum(s, (k - 1) as nat) + unit_of(state_after(s, k))
    }
}

/// The approximately standard normal sample drawn after state `s`:
/// twelve uniform samples in `[0, 1]`, shifted by six.
pub open spec fn gaussian_of(s: u64) -> int {
    unit_sum(s, 12) - 6 * (SCALE as int)
}

/// Seedable deterministic generator of the feeds' noise.
pub struct NoiseSource {
    state: u64,
}

impl NoiseSource {
    /// The generator's current state.
    pub closed spec fn state_spec(&self) -> u64 {
        self.state
    }

    /// Public constructor function for a seeded [`NoiseSource`].
    pub fn new(seed: u64) -> (s: NoiseSource)
        ensures
            s.state_spec() == seed,
    {
        NoiseSource { state: seed }
    }

    /// A [`NoiseSource`] seeded from the process's ambient entropy.
    ///
    /// Nothing is known of the seed; for a reproducible run use [`Self::new`].
    pub fn from_entropy() -> (s: NoiseSource) {
        NoiseSource::new(entropy_u64())
    }

    /// Draw one 64-bit word and advance the state.
    pub fn next_u64(&mut self) -> (r: u64)
        ensures
            final(self).state_spec() == advance_spec(old(self).state_spec()),
            r == mix_spec(final(self).state_spec()),
    {
        let s: u64 = wrap_add(self.state, STATE_STEP);
        self.state = s;
        let a: u64 = wrap_mul(s ^ (s >> 30u32), MIX_MUL_A);
        let b: u64 = wrap_mul(a ^ (a >> 27u32), MIX_MUL_B);
        b ^ (b >> 31u32)
    }

    /// Draw one uniform fixed-point sample in `[0, SCALE]`.
    pub fn next_unit(&mut self) -> (r: u64)
        ensures
            final(self).state_spec() == advance_spec(old(self).state_spec()),
            r as int == unit_of(final(self).state_spec()),
            0 <= r <= SCALE,
    {
        let w: u64 = self.next_u64();
        w % ((SCALE as u64) + 1)
    }

    /// Draw one approximately standard normal fixed-point sample.
    ///
    /// The result is a deterministic function of the state before the call
    /// and always lies within `[-NOISE_CAP, NOISE_CAP]`.
    pub fn next_gaussian(&mut self) -> (r: i128)
        ensures
            final(self).state_spec() == state_after(old(self).state_spec(), 12),
            r as int == gaussian_of(old(self).state_spec()),
            -NOISE_CAP <= r <= NOISE_CAP,
    {
        let ghost s0: u64 = self.state;
        let mut acc: u64 = 0;
        let mut k: u32 = 0;
        while k < 12
            invariant
                k <= 12,
                self.state_spec() == state_after(s0, k as nat),
                acc as int == unit_sum(s0, k as nat),
                acc <= k * (SCALE as int),
            decreases 12 - k,
        {
            let u: u64 = self.next_unit();
            acc = acc + u;
            k = k + 1;
        }
        (acc as i128) - 6 * (SCALE as i128)
    }
}

/// Sum of two 64-bit words, truncated to 64 bits.
fn wrap_add(a: u64, b: u64) -> (r: u64)
    ensures
        r == wrap_add_spec(a, b),
{
    let w: u128 = ((a as u128) + (b as u128)) % 0x1_0000_0000_0000_0000;
    w as u64
}

/// Product of two 64-bit words, truncated to 64 bits.
fn wrap_mul(a: u64, b: u64) -> (r: u64)
    ensures
        r == wrap_mul_spec(a, b),
{
    proof {
        assert((a as u128) * (b as u128) <= 0xFFFF_FFFF_FFFF_FFFFu128 * 0xFFFF_FFFF_FFFF_FFFFu128)
            by (nonlinear_arith)
            requires
                a <= 0xFFFF_FFFF_FFFF_FFFFu64,
                b <= 0xFFFF_FFFF_FFFF_FFFFu64,
        ;
    }
    let w: u128 = ((a as u128) * (b as u128)) % 0x1_0000_0000_0000_0000;
    w as u64
}

/// Relies on `rand::random`: draws one word from the thread-local
/// generator, used only to seed a [`NoiseSource`] when no seed is given.
/// Nothing is assumed of the result.
#[verifier::external_body]
fn entropy_u64() -> u64 {
    rand::random::<u64>()
}

} // verus!
