//! The tick grid of pool prices.
//!
//! Prices live on a log-spaced grid: `price(tick) = 1.0001 ^ tick`, held in
//! fixed point. The crate's convention computes the grid by repeated exact
//! rational growth `r -> r * 10001 / 10000` rounded down, from `1.0` at tick
//! zero; negative ticks take the scaled reciprocal. The grid is strictly
//! increasing on nonnegative ticks and nonincreasing toward negative ones,
//! which grounds the arbitrage direction reasoning.
use vstd::prelude::*;

verus! {

use crate::error::ArenaError;
use crate::fixed::SCALE;
use vstd::arithmetic::div_mod::{
    lemma_div_is_ordered, lemma_div_is_ordered_by_denominator, lemma_div_multiples_vanish,
    lemma_div_pos_is_pos,
};

/// Largest tick magnitude the grid walkers cover.
pub const MAX_TICK_MAG: i32 = 200_000;

/// Largest grid value that may still be grown by one tick without leaving
/// the representable range.
pub const RATIO_CAP: u128 = 30_000_000_000_000_000_000_000_000_000_000_000;

/// One tick of growth: `r * 1.0001`, rounded down.
pub open spec fn ratio_next(r: int) -> int {
    (r * 10001) / 10000
}

/// The scaled grid value `1.0001 ^ t` for a nonnegative tick `t`.
pub open spec fn tick_ratio(t: nat) -> int
    decreases t,
{
    if t == 0 {
        SCALE as int
    } else {
        ratio_next(tick_ratio((t - 1) as nat))
    }
}

/// Whether every grid value up to tick `t` stays within [`RATIO_CAP`].
pub open spec fn ratio_in_range(t: nat) -> bool
    decreases t,
{
    if t == 0 {
        true
    } else {
        ratio_in_range((t - 1) as nat) && tick_ratio(t) <= RATIO_CAP
    }
}

/// The scaled price at a signed tick.
pub open spec fn price_of_tick_spec(t: int) -> int {
    if t >= 0 {
        tick_ratio(t as nat)
    } else {
        (SCALE * SCALE) as int / tick_ratio((-t) as nat)
    }
}

/// Every grid value is at least one, scaled.
pub proof fn lemma_tick_ratio_ge_scale(t: nat)
    ensures
        tick_ratio(t) >= SCALE,
    decreases t,
{
    if t > 0 {
        lemma_tick_ratio_ge_scale((t - 1) as nat);
        let r = tick_ratio((t - 1) as nat);
        assert(10000 * r <= r * 10001) by (nonlinear_arith)
            requires
                r >= SCALE,
        ;
        lemma_div_is_ordered(10000 * r, r * 10001, 10000);
        lemma_div_multiples_vanish(r, 10000);
    }
}

/// One tick of growth strictly increases a grid value.
pub proof fn lemma_tick_ratio_step_increases(t: nat)
    ensures
        tick_ratio(t) < tick_ratio(t + 1),
{
    lemma_tick_ratio_ge_scale(t);
    let r = tick_ratio(t);
    assert(tick_ratio(t + 1) == (r * 10001) / 10000);
    assert(10000 * (r + 1) <= r * 10001) by (nonlinear_arith)
        requires
            r >= SCALE,
    ;
    lemma_div_is_ordered(10000 * (r + 1), r * 10001, 10000);
    lemma_div_multiples_vanish(r + 1, 10000);
}

/// The grid is strictly increasing over nonnegative ticks.
pub proof fn lemma_tick_ratio_mono(a: nat, b: nat)
    requires
        a <= b,
    ensures
        tick_ratio(a) <= tick_ratio(b),
        a < b ==> tick_ratio(a) < tick_ratio(b),
    decreases b - a,
{
    if a < b {
        lemma_tick_ratio_mono(a, (b - 1) as nat);
        lemma_tick_ratio_step_increases((b - 1) as nat);
    }
}

/// A grid prefix within range keeps all shorter prefixes within range.
pub proof fn lemma_ratio_in_range_mono(a: nat, b: nat)
    requires
        a <= b,
        ratio_in_range(b),
    ensures
        ratio_in_range(a),
    decreases b - a,
{
    if a < b {
        lemma_ratio_in_range_mono(a, (b - 1) as nat);
    }
}

/// The price grid is monotone over signed ticks: a higher tick never has a
/// lower price.
pub proof fn lemma_price_mono(t1: int, t2: int)
    requires
        t1 <= t2,
    ensures
        price_of_tick_spec(t1) <= price_of_tick_spec(t2),
{
    if t1 >= 0 {
        lemma_tick_ratio_mono(t1 as nat, t2 as nat);
    } else if t2 < 0 {
        lemma_tick_ratio_mono((-t2) as nat, (-t1) as nat);
        lemma_tick_ratio_ge_scale((-t2) as nat);
        lemma_div_is_ordered_by_denominator(
            (SCALE * SCALE) as int,
            tick_ratio((-t2) as nat),
            tick_ratio((-t1) as nat),
        );
    } else {
        lemma_tick_ratio_ge_scale((-t1) as nat);
        lemma_div_is_ordered_by_denominator(
            (SCALE * SCALE) as int,
            SCALE as int,
            tick_ratio((-t1) as nat),
        );
        lemma_div_multiples_vanish(SCALE as int, SCALE as int);
        lemma_tick_ratio_ge_scale(t2 as nat);
    }
}

/// Walk the grid up to tick `m` and return its scaled value.
///
/// Reports [`ArenaError::InvalidNumericInput`] exactly when the walk would
/// leave the representable range.
pub fn tick_ratio_at(m: u32) -> (r: Result<u128, ArenaError>)
    ensures
        r matches Ok(v) ==> v == tick_ratio(m as nat) && ratio_in_range(m as nat) && SCALE <= v
            <= RATIO_CAP,
        r matches Err(e) ==> e == ArenaError::InvalidNumericInput && !ratio_in_range(m as nat),
{
    let mut acc: u128 = SCALE;
    let mut i: u32 = 0;
    proof {
        lemma_tick_ratio_ge_scale(0);
    }
    while i < m
        invariant
            i <= m,
            acc as int == tick_ratio(i as nat),
            ratio_in_range(i as nat),
            SCALE <= acc <= RATIO_CAP,
        decreases m - i,
    {
        let next: u128 = acc * 10001 / 10000;
        proof {
            assert(tick_ratio((i + 1) as nat) == ratio_next(tick_ratio(i as nat)));
            lemma_tick_ratio_ge_scale((i + 1) as nat);
            if next > RATIO_CAP {
                assert(!ratio_in_range((i + 1) as nat));
                lemma_ratio_in_range_contra((i + 1) as nat, m as nat);
            }
        }
        if next > RATIO_CAP {
            return Err(ArenaError::InvalidNumericInput);
        }
        acc = next;
        i = i + 1;
    }
    Ok(acc)
}

/// A grid prefix out of range keeps all longer prefixes out of range.
pub proof fn lemma_ratio_in_range_contra(a: nat, b: nat)
    requires
        a <= b,
        !ratio_in_range(a),
    ensures
        !ratio_in_range(b),
{
    if ratio_in_range(b) {
        lemma_ratio_in_range_mono(a, b);
    }
}

/// The scaled price at a signed tick.
///
/// Reports [`ArenaError::InvalidNumericInput`] exactly when the grid walk
/// would leave the representable range or the price would round to zero.
pub fn price_of_tick(t: i32) -> (r: Result<u128, ArenaError>)
    requires
        -MAX_TICK_MAG <= t <= MAX_TICK_MAG,
    ensures
        r matches Ok(p) ==> p == price_of_tick_spec(t as int) && p >= 1 && ratio_in_range(
            abs_tick(t as int),
        ),
        r matches Err(e) ==> e == ArenaError::InvalidNumericInput && (!ratio_in_range(
            abs_tick(t as int),
        ) || price_of_tick_spec(t as int) < 1),
        ratio_in_range(abs_tick(t as int)) && price_of_tick_spec(t as int) >= 1 ==> r is Ok,
{
    if t >= 0 {
        let v: u128 = match tick_ratio_at(t as u32) {
            Ok(v) => v,
            Err(e) => {
                return Err(e);
            },
        };
        proof {
            lemma_tick_ratio_ge_scale(t as nat);
        }
        Ok(v)
    } else {
        let m: u32 = if t == -200_000 {
            200_000
        } else {
            (-t) as u32
        };
        let v: u128 = match tick_ratio_at(m) {
            Ok(v) => v,
            Err(e) => {
                return Err(e);
            },
        };
        let p: u128 = (SCALE * SCALE) / v;
        proof {
            lemma_div_pos_is_pos((SCALE * SCALE) as int, v as int);
        }
        if p == 0 {
            Err(ArenaError::InvalidNumericInput)
        } else {
            Ok(p)
        }
    }
}

/// The magnitude of a signed tick.
pub open spec fn abs_tick(t: int) -> nat {
    if t >= 0 {
        t as nat
    } else {
        (-t) as nat
    }
}

/// The tick bracketing a scaled price: the `t` with
/// `price(t) <= p < price(t + 1)`.
///
/// Reports [`ArenaError::InvalidNumericInput`] exactly when no tick within
/// [`MAX_TICK_MAG`] brackets the price, or the walk leaves the
/// representable range.
pub fn tick_of_price(p: u128) -> (r: Result<i32, ArenaError>)
    requires
        p >= 1,
    ensures
        r matches Ok(t) ==> -MAX_TICK_MAG <= t < MAX_TICK_MAG && price_of_tick_spec(t as int) <= p
            < price_of_tick_spec(t as int + 1),
        r matches Err(e) ==> e == ArenaError::InvalidNumericInput && (p >= price_of_tick_spec(
            MAX_TICK_MAG as int,
        ) || p < price_of_tick_spec(-MAX_TICK_MAG as int) || !ratio_in_range(MAX_TICK_MAG as nat)),
        ratio_in_range(MAX_TICK_MAG as nat) && price_of_tick_spec(-MAX_TICK_MAG as int) <= p
            < price_of_tick_spec(MAX_TICK_MAG as int) ==> r is Ok,
{
    if p >= SCALE {
        let mut acc: u128 = SCALE;
        let mut i: u32 = 0;
        while i < MAX_TICK_MAG as u32
            invariant
                i <= MAX_TICK_MAG as u32,
                acc as int == tick_ratio(i as nat),
                ratio_in_range(i as nat),
                SCALE <= acc <= RATIO_CAP,
                acc <= p,
            decreases MAX_TICK_MAG as u32 - i,
        {
            let next: u128 = acc * 10001 / 10000;
            proof {
                assert(tick_ratio((i + 1) as nat) == ratio_next(tick_ratio(i as nat)));
                lemma_tick_ratio_ge_scale((i + 1) as nat);
                if next > RATIO_CAP {
                    assert(!ratio_in_range((i + 1) as nat));
                    lemma_ratio_in_range_contra((i + 1) as nat, MAX_TICK_MAG as nat);
                }
            }
            if next > RATIO_CAP {
                return Err(ArenaError::InvalidNumericInput);
            }
            if next > p {
                return Ok(i as i32);
            }
            acc = next;
            i = i + 1;
        }
        Err(ArenaError::InvalidNumericInput)
    } else {
        let mut acc: u128 = SCALE;
        let mut k: u32 = 0;
        proof {
            lemma_div_multiples_vanish(SCALE as int, SCALE as int);
        }
        while k < MAX_TICK_MAG as u32
            invariant
                k <= MAX_TICK_MAG as u32,
                p < SCALE,
                p >= 1,
                acc as int == tick_ratio(k as nat),
                ratio_in_range(k as nat),
                SCALE <= acc <= RATIO_CAP,
                (SCALE * SCALE) as int / (acc as int) > p,
            decreases MAX_TICK_MAG as u32 - k,
        {
            let next: u128 = acc * 10001 / 10000;
            proof {
                assert(tick_ratio((k + 1) as nat) == ratio_next(tick_ratio(k as nat)));
                lemma_tick_ratio_ge_scale((k + 1) as nat);
                if next > RATIO_CAP {
                    assert(!ratio_in_range((k + 1) as nat));
                    lemma_ratio_in_range_contra((k + 1) as nat, MAX_TICK_MAG as nat);
                }
            }
            if next > RATIO_CAP {
                return Err(ArenaError::InvalidNumericInput);
            }
            let neg_price: u128 = (SCALE * SCALE) / next;
            if neg_price <= p {
                let t: i32 = -((k + 1) as i32);
                proof {
                    assert(price_of_tick_spec(t as int) == (SCALE * SCALE) as int / tick_ratio(
                        (k + 1) as nat,
                    ));
                    assert(price_of_tick_spec(t as int + 1) == if k == 0 {
                        SCALE as int
                    } else {
                        (SCALE * SCALE) as int / tick_ratio(k as nat)
                    });
                }
                return Ok(t);
            }
            acc = next;
            k = k + 1;
        }
        Err(ArenaError::InvalidNumericInput)
    }
}

/// The tick bracketing a price on the grid, where one exists.
#[verifier::opaque]
pub open spec fn bracket_tick_spec(p: int) -> int {
    choose|t: int| #[trigger] price_of_tick_spec(t) <= p < price_of_tick_spec(t + 1)
}

/// A witness pins the bracketing tick down.
pub proof fn lemma_bracket_tick_eq(p: int, t: int)
    requires
        price_of_tick_spec(t) <= p < price_of_tick_spec(t + 1),
    ensures
        bracket_tick_spec(p) == t,
{
    reveal(bracket_tick_spec);
    assert(exists|q: int| #[trigger] price_of_tick_spec(q) <= p < price_of_tick_spec(q + 1)) by {
        assert(price_of_tick_spec(t) <= p < price_of_tick_spec(t + 1));
    }
    let c = bracket_tick_spec(p);
    assert(price_of_tick_spec(c) <= p < price_of_tick_spec(c + 1));
    lemma_bracket_unique(c, t, p);
}

/// At most one tick brackets a given price.
pub proof fn lemma_bracket_unique(t1: int, t2: int, p: int)
    requires
        price_of_tick_spec(t1) <= p < price_of_tick_spec(t1 + 1),
        price_of_tick_spec(t2) <= p < price_of_tick_spec(t2 + 1),
    ensures
        t1 == t2,
{
    if t1 < t2 {
        crate::tick::lemma_price_mono(t1 + 1, t2);
    }
    if t2 < t1 {
        crate::tick::lemma_price_mono(t2 + 1, t1);
    }
}

} // verus!
