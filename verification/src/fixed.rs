//! Fixed-point arithmetic for the simulation core.
//!
//! Every price, feed value and process parameter in this crate is an integer
//! scaled by [`SCALE`]: the integer `n` stands for the real number
//! `n / SCALE`. All operations round toward zero unless stated otherwise.
use vstd::prelude::*;

verus! {

use vstd::arithmetic::div_mod::{
    lemma_div_is_ordered, lemma_div_is_ordered_by_denominator, lemma_div_multiples_vanish,
    lemma_div_pos_is_pos,
};
use vstd::arithmetic::mul::lemma_mul_inequality;

/// Scaling factor of all fixed-point quantities: one unit is `1 / SCALE`.
pub const SCALE: u128 = 1_000_000_000;

/// [`SCALE`] as a signed integer.
pub const SCALE_I: i128 = 1_000_000_000;

/// Largest magnitude a feed value may take (one billion, scaled).
pub const VALUE_CAP: i128 = 1_000_000_000_000_000_000;

/// Largest magnitude a process parameter may take (one thousand, scaled).
pub const PARAM_CAP: i128 = 1_000_000_000_000;

/// Largest magnitude of a noise sample handed to a feed (six, scaled):
/// the bound of the generator's approximately standard normal output.
pub const NOISE_CAP: i128 = 6_000_000_000;

/// Largest magnitude of an exponent accepted by [`exp_scaled`] (two, scaled).
pub const EXP_ARG_CAP: i128 = 2_000_000_000;

/// Number of series terms used by the exponential approximation.
pub const EXP_TERMS: u32 = 64;

/// Magnitude of an integer.
pub open spec fn abs1(x: int) -> int {
    if x < 0 {
        -x
    } else {
        x
    }
}

/// Fixed-point product of two signed quantities, rounded toward zero.
pub open spec fn mul_scaled_spec(a: int, b: int) -> int {
    if (a < 0) != (b < 0) {
        -((abs1(a) * abs1(b)) / (SCALE as int))
    } else {
        (abs1(a) * abs1(b)) / (SCALE as int)
    }
}

/// `k`-th term of the scaled exponential series for a nonnegative argument:
/// `SCALE * x^k / (k! * SCALE^k)`, with each step rounded down.
pub open spec fn exp_term(x: int, k: nat) -> int
    decreases k,
{
    if k == 0 {
        SCALE as int
    } else {
        (exp_term(x, (k - 1) as nat) * x) / (k * SCALE as int)
    }
}

/// Sum of the scaled exponential series up to term `k`.
pub open spec fn exp_sum(x: int, k: nat) -> int
    decreases k,
{
    if k == 0 {
        SCALE as int
    } else {
        exp_sum(x, (k - 1) as nat) + exp_term(x, k)
    }
}

/// The crate's fixed-point exponential: a truncated series for nonnegative
/// arguments, and its scaled reciprocal for negative ones.
pub open spec fn exp_approx_spec(x: int) -> int {
    if x >= 0 {
        exp_sum(x, EXP_TERMS as nat)
    } else {
        (SCALE * SCALE) as int / exp_sum(-x, EXP_TERMS as nat)
    }
}

/// The guard `a > MAX / b` decides exactly whether `a * b` overflows.
pub proof fn lemma_overflow_guard(a: u128, b: u128)
    requires
        b > 0,
    ensures
        (a > u128::MAX / b) <==> ((a as int) * (b as int) > u128::MAX as int),
{
    vstd::arithmetic::div_mod::lemma_fundamental_div_mod(u128::MAX as int, b as int);
    if a > u128::MAX / b {
        lemma_mul_inequality((u128::MAX / b) as int + 1, a as int, b as int);
        assert(((u128::MAX / b) as int + 1) * (b as int) == (b as int) * ((u128::MAX / b) as int)
            + b as int) by (nonlinear_arith);
    } else {
        lemma_mul_inequality(a as int, (u128::MAX / b) as int, b as int);
        assert(((u128::MAX / b) as int) * (b as int) == (b as int) * ((u128::MAX / b) as int))
            by (nonlinear_arith);
    }
}

/// `a * b / d` over unsigned quantities, rounded up.
pub fn mul_div_up(a: u128, b: u128, d: u128) -> (r: u128)
    requires
        d > 0,
        a * b + d - 1 <= u128::MAX,
    ensures
        r == (a * b + d - 1) / (d as int),
        a * b > 0 ==> r >= 1,
{
    proof {
        if a * b > 0 {
            lemma_div_is_ordered(d as int, a * b + d - 1, d as int);
            lemma_div_multiples_vanish(1, d as int);
        }
    }
    (a * b + (d - 1)) / d
}

/// Fixed-point product of two signed quantities, rounded toward zero.
pub fn mul_scaled(a: i128, b: i128) -> (r: i128)
    requires
        a > i128::MIN,
        b > i128::MIN,
        abs1(a as int) * abs1(b as int) <= u128::MAX,
        abs1(a as int) * abs1(b as int) / (SCALE as int) <= i128::MAX,
    ensures
        r == mul_scaled_spec(a as int, b as int),
        abs1(r as int) <= abs1(a as int) * abs1(b as int) / (SCALE as int),
{
    let neg_a: bool = a < 0;
    let neg_b: bool = b < 0;
    let ma: u128 = if a < 0 {
        (-a) as u128
    } else {
        a as u128
    };
    let mb: u128 = if b < 0 {
        (-b) as u128
    } else {
        b as u128
    };
    let m: u128 = (ma * mb) / SCALE;
    if neg_a != neg_b {
        -(m as i128)
    } else {
        m as i128
    }
}

/// Integer square root: the largest `r` with `r * r <= x`.
pub fn isqrt(x: u128) -> (r: u128)
    ensures
        r * r <= x,
        x < (r + 1) * (r + 1),
{
    let mut lo: u128 = 0;
    let mut hi: u128 = 0x1_0000_0000_0000_0000;
    while lo + 1 < hi
        invariant
            lo < hi,
            hi <= 0x1_0000_0000_0000_0000u128,
            lo * lo <= x,
            x < hi * hi,
        decreases hi - lo,
    {
        let mid: u128 = lo + (hi - lo) / 2;
        proof {
            assert(mid * mid < hi * hi) by (nonlinear_arith)
                requires
                    mid < hi,
            ;
            assert(hi * hi <= 0x1_0000_0000_0000_0000u128 * 0x1_0000_0000_0000_0000u128)
                by (nonlinear_arith)
                requires
                    hi <= 0x1_0000_0000_0000_0000u128,
            ;
        }
        if mid * mid <= x {
            lo = mid;
        } else {
            hi = mid;
        }
    }
    lo
}

/// Scaled exponential of a nonnegative argument by truncated series.
fn exp_nonneg(x: u128) -> (r: u128)
    requires
        x <= EXP_ARG_CAP as u128,
    ensures
        r == exp_sum(x as int, EXP_TERMS as nat),
        SCALE <= r <= 129 * SCALE,
{
    let mut term: u128 = SCALE;
    let mut acc: u128 = SCALE;
    let mut k: u32 = 1;
    while k <= EXP_TERMS
        invariant
            1 <= k <= EXP_TERMS + 1,
            x <= EXP_ARG_CAP as u128,
            term == exp_term(x as int, (k - 1) as nat),
            term <= 2 * SCALE,
            acc == exp_sum(x as int, (k - 1) as nat),
            SCALE <= acc <= SCALE + (k - 1) * 2 * SCALE,
        decreases EXP_TERMS + 1 - k,
    {
        let divisor: u128 = (k as u128) * SCALE;
        proof {
            if k == 1 {
                lemma_div_multiples_vanish(x as int, SCALE as int);
                assert((SCALE * x) as int / (1 * SCALE as int) == x as int) by {
                    assert(SCALE * x == SCALE as int * x as int);
                    lemma_div_multiples_vanish(x as int, SCALE as int);
                }
            } else {
                lemma_mul_inequality(x as int, 2 * SCALE as int, term as int);
                assert(term * x <= term * (2 * SCALE)) by {
                    lemma_mul_inequality(x as int, 2 * SCALE as int, term as int);
                    assert(term * x == x * term) by (nonlinear_arith);
                    assert(term * (2 * SCALE) == (2 * SCALE) as int * term as int)
                        by (nonlinear_arith);
                }
                lemma_div_is_ordered(term * x, term * (2 * SCALE), divisor as int);
                lemma_div_is_ordered_by_denominator(
                    term * (2 * SCALE),
                    2 * SCALE as int,
                    divisor as int,
                );
                assert((term * (2 * SCALE)) as int / (2 * SCALE) as int == term as int) by {
                    assert(term * (2 * SCALE) == (2 * SCALE) as int * term as int)
                        by (nonlinear_arith);
                    lemma_div_multiples_vanish(term as int, 2 * SCALE as int);
                }
            }
            lemma_div_pos_is_pos(term * x, divisor as int);
        }
        term = (term * x) / divisor;
        acc = acc + term;
        k = k + 1;
    }
    acc
}

/// Scaled exponential of a signed argument.
///
/// The result is the crate's defined approximation [`exp_approx_spec`]; it
/// is always strictly positive, which keeps multiplicative processes
/// strictly positive.
pub fn exp_scaled(x: i128) -> (r: u128)
    requires
        abs1(x as int) <= EXP_ARG_CAP as int,
    ensures
        r == exp_approx_spec(x as int),
        1 <= r <= 129 * SCALE,
{
    if x >= 0 {
        exp_nonneg(x as u128)
    } else {
        let e: u128 = exp_nonneg((-x) as u128);
        proof {
            lemma_div_is_ordered_by_denominator((SCALE * SCALE) as int, e as int, 129 * (SCALE as int));
            assert((SCALE * SCALE) as int / (129 * (SCALE as int)) >= 1) by (nonlinear_arith);
            lemma_div_is_ordered_by_denominator((SCALE * SCALE) as int, SCALE as int, e as int);
            lemma_div_multiples_vanish(SCALE as int, SCALE as int);
        }
        (SCALE * SCALE) / e
    }
}

} // verus!
