//! The arbitrage sizing agent.
//!
//! Given the reference price and the pool's state, the agent computes the
//! trade that moves the pool toward the reference: a closed-form size from
//! liquidity sums over the traversed tick range, and a bisection search
//! over the net-profit curve. Both are exact fixed-point computations whose
//! contracts pin the result; divisions are guarded so that an empty pool
//! yields a zero-size trade rather than an undefined one.
use vstd::prelude::*;

verus! {

use crate::engine::Engine;
use crate::error::ArenaError;
use crate::fixed::{lemma_overflow_guard, SCALE};
use crate::ledger::{liq_at_spec, Ledger, PoolState, swap_target_spec};
use crate::tick::{
    abs_tick, bracket_tick_spec, lemma_bracket_tick_eq, lemma_bracket_unique, price_of_tick,
    price_of_tick_spec, ratio_in_range, tick_of_price, MAX_TICK_MAG,
};
use crate::{AccountId, Signal};

/// Largest swap size the bisection searches over (one million, scaled).
pub const SEARCH_CAP: u128 = 1_000_000_000_000_000;

/// Resolution of the bisection search (one millionth, scaled).
pub const SEARCH_TOL: u128 = 1_000;

/// Number of bisection iterations allowed.
pub const SEARCH_FUEL: u32 = 64;

/// Largest price the profit formula accepts (one billion, scaled).
pub const PRICE_ARG_CAP: u128 = 1_000_000_000_000_000_000;

/// Largest liquidity the profit formula accepts.
pub const PROFIT_LIQ_CAP: u128 = 1_000_000_000_000_000_000_000_000;

/// Largest tick magnitude the sizer traverses.
pub const SIZER_TICK_MAG: i32 = 100_000;

/// Whether `r` is the floor square root of `x`.
pub open spec fn is_floor_sqrt(r: int, x: int) -> bool {
    &&& 0 <= r
    &&& r * r <= x
    &&& x < (r + 1) * (r + 1)
}

/// The floor square root of a nonnegative quantity.
pub open spec fn sqrt_floor(x: int) -> int {
    choose|r: int| is_floor_sqrt(r, x)
}

/// A witness pins the floor square root down.
pub proof fn lemma_sqrt_floor_eq(x: int, r: int)
    requires
        is_floor_sqrt(r, x),
    ensures
        sqrt_floor(x) == r,
{
    assert(exists|q: int| is_floor_sqrt(q, x)) by {
        assert(is_floor_sqrt(r, x));
    }
    let c = sqrt_floor(x);
    assert(is_floor_sqrt(c, x));
    assert(c == r) by (nonlinear_arith)
        requires
            is_floor_sqrt(c, x),
            is_floor_sqrt(r, x),
    ;
}

/// The fee tier as a scaled multiplier: the fraction kept by the trader.
pub open spec fn fee_gamma_spec(fee_ppm: int) -> int {
    (1_000_000 - fee_ppm) * 1_000
}

/// The net profit and resulting price of swapping `dy` in, at reference
/// price `p_ext` against pool price `p_uni` with the given fee and active
/// liquidity. Divisions are guarded: an empty denominator contributes
/// nothing.
pub open spec fn profit_spec(dy: int, p_ext: int, p_uni: int, fee_ppm: int, liquidity: int) -> (
    int,
    int,
) {
    let sqrt_p = sqrt_floor(p_uni * (SCALE as int));
    let denom = (liquidity * sqrt_p) / (SCALE as int);
    let delta_p = if denom == 0 {
        0
    } else {
        (dy * (SCALE as int)) / denom
    };
    let new_price = p_uni + delta_p;
    let gden = (fee_gamma_spec(fee_ppm) * new_price) / (SCALE as int);
    let dx = if gden == 0 {
        0
    } else {
        (dy * (SCALE as int)) / gden
    };
    let revenue = (dy * p_ext) / (SCALE as int);
    (revenue - dx, new_price)
}

/// Whether the grid has a usable price at a tick.
pub open spec fn tick_has_price(t: int) -> bool {
    &&& ratio_in_range(abs_tick(t))
    &&& price_of_tick_spec(t) >= 1
}

/// Liquidity as the profit search uses it: the ledger's net liquidity at
/// the tick, capped to the formula's domain.
pub open spec fn search_liq_spec(ps: Seq<crate::ledger::Position>, t: int) -> int {
    if liq_at_spec(ps, t) > PROFIT_LIQ_CAP as int {
        PROFIT_LIQ_CAP as int
    } else {
        liq_at_spec(ps, t)
    }
}

/// One bisection search over the net-profit curve, walking the active
/// tick as the candidate price crosses tick boundaries.
pub open spec fn bisect_spec(
    ps: Seq<crate::ledger::Position>,
    p_ext: int,
    p_uni: int,
    fee_ppm: int,
    a: int,
    b: int,
    tick: int,
    liquidity: int,
    fuel: nat,
) -> int
    decreases fuel,
{
    if fuel == 0 || b - a <= SEARCH_TOL as int {
        (a + b) / 2
    } else {
        let mid = a + (b - a) / 2;
        let pm = profit_spec(mid, p_ext, p_uni, fee_ppm, liquidity);
        let pn = profit_spec(mid + SEARCH_TOL as int, p_ext, p_uni, fee_ppm, liquidity);
        let a2 = if pm.0 > pn.0 {
            a
        } else {
            mid
        };
        let b2 = if pm.0 > pn.0 {
            mid
        } else {
            b
        };
        let up = tick + 1 < SIZER_TICK_MAG && tick_has_price(tick + 1) && pm.1
            >= price_of_tick_spec(tick + 1);
        let down = !up && -SIZER_TICK_MAG < tick - 1 && tick_has_price(tick - 1) && pm.1
            <= price_of_tick_spec(tick - 1);
        let tick2 = if up {
            tick + 1
        } else if down {
            tick - 1
        } else {
            tick
        };
        let liq2 = if up || down {
            search_liq_spec(ps, tick2)
        } else {
            liquidity
        };
        bisect_spec(ps, p_ext, p_uni, fee_ppm, a2, b2, tick2, liq2, (fuel - 1) as nat)
    }
}

/// Whether the profit search would find no liquidity anywhere its tick
/// walk can reach: the walk moves at most one tick per iteration.
pub open spec fn search_window_empty(ps: Seq<crate::ledger::Position>, tick: int) -> bool {
    forall|t: int|
        tick - SEARCH_FUEL <= t <= tick + SEARCH_FUEL ==> liq_at_spec(ps, t) == 0
}

/// The search's result: zero when the reachable window holds no liquidity
/// — an empty range forces a zero-size trade — and the bisection's
/// converged midpoint otherwise.
pub open spec fn swap_search_spec(
    ps: Seq<crate::ledger::Position>,
    p_ext: int,
    p_uni: int,
    fee_ppm: int,
    tick: int,
) -> int {
    if search_window_empty(ps, tick) {
        0
    } else {
        bisect_spec(
            ps,
            p_ext,
            p_uni,
            fee_ppm,
            0,
            SEARCH_CAP as int,
            tick,
            search_liq_spec(ps, tick),
            SEARCH_FUEL as nat,
        )
    }
}

/// Sum over the traversed range of `liquidity / sqrt(price)`, scaled.
pub open spec fn sum_liq_a(ps: Seq<crate::ledger::Position>, start: int, n: nat) -> int
    decreases n,
{
    if n == 0 {
        0
    } else {
        let t = start + n - 1;
        let root = sqrt_floor(price_of_tick_spec(t) * (SCALE as int));
        sum_liq_a(ps, start, (n - 1) as nat) + if root >= 1 {
            (liq_at_spec(ps, t) * (SCALE as int)) / root
        } else {
            0
        }
    }
}

/// Sum over the traversed range of `liquidity * sqrt(price)`, scaled.
pub open spec fn sum_liq_b(ps: Seq<crate::ledger::Position>, start: int, n: nat) -> int
    decreases n,
{
    if n == 0 {
        0
    } else {
        let t = start + n - 1;
        sum_liq_b(ps, start, (n - 1) as nat) + (liq_at_spec(ps, t) * sqrt_floor(
            price_of_tick_spec(t) * (SCALE as int),
        )) / (SCALE as int)
    }
}

/// The closed-form trade size: `max(0, a - k / (gamma * (a / b)))` with
/// `k = a * b`, every division guarded to zero.
pub open spec fn trade_size_spec(a: int, b: int, fee_ppm: int) -> int {
    if a == 0 || b == 0 {
        0
    } else {
        let k = (a * b) / (SCALE as int);
        let ratio = (a * (SCALE as int)) / b;
        let gr = (fee_gamma_spec(fee_ppm) * ratio) / (SCALE as int);
        if gr == 0 {
            0
        } else {
            let cost = (k * (SCALE as int)) / gr;
            if a > cost {
                a - cost
            } else {
                0
            }
        }
    }
}

/// Whether the liquidity-sum accumulation over the half-open range
/// `[start, start + n)` stays within the representable range: the guards
/// under which [`Arbitrageur::liquidity_sums`] succeeds.
pub open spec fn sums_fit(ps: Seq<crate::ledger::Position>, start: int, n: nat) -> bool
    decreases n,
{
    if n == 0 {
        true
    } else {
        let t = start + n - 1;
        let root = sqrt_floor(price_of_tick_spec(t) * (SCALE as int));
        let term_a = if root >= 1 {
            (liq_at_spec(ps, t) * (SCALE as int)) / root
        } else {
            0
        };
        let term_b = (liq_at_spec(ps, t) * root) / (SCALE as int);
        &&& sums_fit(ps, start, (n - 1) as nat)
        &&& !crate::ledger::tick_grid_fails(t)
        &&& liq_at_spec(ps, t) * root <= u128::MAX as int
        &&& sum_liq_a(ps, start, (n - 1) as nat) + term_a <= u128::MAX as int
        &&& sum_liq_b(ps, start, (n - 1) as nat) + term_b <= u128::MAX as int
    }
}

/// A fitting range fits at every shorter prefix.
proof fn lemma_sums_fit_prefix(ps: Seq<crate::ledger::Position>, start: int, n: nat, k: nat)
    requires
        k <= n,
        sums_fit(ps, start, n),
    ensures
        sums_fit(ps, start, k),
    decreases n,
{
    if k < n {
        lemma_sums_fit_prefix(ps, start, (n - 1) as nat, k);
    }
}

/// Whether the closed-form trade computation stays within the
/// representable range for the given sums: the guards under which
/// [`Arbitrageur::trade_amount`] succeeds.
pub open spec fn trade_amount_fits(a: int, b: int, fee_ppm: int) -> bool {
    a == 0 || b == 0 || {
        let k = (a * b) / (SCALE as int);
        let ratio = (a * (SCALE as int)) / b;
        let gr = (fee_gamma_spec(fee_ppm) * ratio) / (SCALE as int);
        &&& a * b <= u128::MAX as int
        &&& a * (SCALE as int) <= u128::MAX as int
        &&& fee_gamma_spec(fee_ppm) * ratio <= u128::MAX as int
        &&& (gr == 0 || k * (SCALE as int) <= u128::MAX as int)
    }
}

/// A zero-liquidity range sums to zero, so the closed form trades nothing.
pub proof fn lemma_zero_liquidity_no_trade(
    ps: Seq<crate::ledger::Position>,
    start: int,
    n: nat,
    fee_ppm: int,
)
    requires
        forall|t: int| start <= t < start + n ==> liq_at_spec(ps, t) == 0,
    ensures
        sum_liq_a(ps, start, n) == 0,
        sum_liq_b(ps, start, n) == 0,
        trade_size_spec(sum_liq_a(ps, start, n), sum_liq_b(ps, start, n), fee_ppm) == 0,
    decreases n,
{
    if n > 0 {
        lemma_zero_liquidity_no_trade(ps, start, (n - 1) as nat, fee_ppm);
        let t = start + n - 1;
        let root = sqrt_floor(price_of_tick_spec(t) * (SCALE as int));
        assert(liq_at_spec(ps, t) == 0);
        assert(liq_at_spec(ps, t) * (SCALE as int) == 0) by (nonlinear_arith)
            requires
                liq_at_spec(ps, t) == 0,
        ;
        assert(liq_at_spec(ps, t) * root == 0) by (nonlinear_arith)
            requires
                liq_at_spec(ps, t) == 0,
        ;
        if root >= 1 {
            vstd::arithmetic::div_mod::lemma_div_of0(root);
        }
        vstd::arithmetic::div_mod::lemma_div_of0(SCALE as int);
    }
}

/// The planned reaction to one signal.
#[derive(Clone, Copy, PartialEq, Eq, Structural, Debug)]
pub enum SwapPlan {
    /// No profitable trade: the pool already brackets the reference price,
    /// or the traversed range offers nothing.
    Hold,
    /// Submit a swap.
    Trade {
        /// Scaled input amount.
        amount: u128,
        /// Direction: `true` sells the first asset, pushing the price
        /// down toward a lower reference.
        zero_for_one: bool,
        /// Slippage bound: the pool's current root price.
        sqrt_price_limit: u128,
    },
}

/// The arbitrage sizing agent.
#[derive(Clone, Debug)]
pub struct Arbitrageur {
    /// The pool manager's account, once announced.
    pub deployment: Option<AccountId>,
    /// The pool's parameters, once announced.
    pub pool: Option<crate::deployer::PoolParams>,
    /// The fetcher's account, once announced.
    pub fetcher: Option<AccountId>,
    /// The reference exchange's account, once announced.
    pub liquid_exchange: Option<AccountId>,
}

impl Arbitrageur {
    /// Public constructor function for a new [`Arbitrageur`].
    pub fn new() -> (a: Arbitrageur)
        ensures
            a.deployment is None,
            a.pool is None,
            a.fetcher is None,
            a.liquid_exchange is None,
    {
        Arbitrageur { deployment: None, pool: None, fetcher: None, liquid_exchange: None }
    }

    /// Absorb one announcement; reports whether startup is complete.
    pub fn startup(&mut self, event: &crate::deployer::DeploymentResponse) -> (done: bool)
        ensures
            done == (final(self).deployment is Some && final(self).pool is Some
                && final(self).fetcher is Some && final(self).liquid_exchange is Some),
            event matches crate::deployer::DeploymentResponse::PoolManager(a) ==> *final(self) == (
            Arbitrageur { deployment: Some(*a), ..*old(self) }),
            event matches crate::deployer::DeploymentResponse::Fetcher(a) ==> *final(self) == (
            Arbitrageur { fetcher: Some(*a), ..*old(self) }),
            event matches crate::deployer::DeploymentResponse::LiquidExchange(a) ==> *final(self)
                == (Arbitrageur { liquid_exchange: Some(*a), ..*old(self) }),
            event matches crate::deployer::DeploymentResponse::Pool(q) ==> {
                &&& final(self).pool matches Some(p) && p.key == q.key && p.sqrt_price
                    == q.sqrt_price && p.hook_data@ == q.hook_data@
                &&& final(self).deployment == old(self).deployment
                &&& final(self).fetcher == old(self).fetcher
                &&& final(self).liquid_exchange == old(self).liquid_exchange
            },
            event is Token || event is LiquidityProvider ==> *final(self) == *old(self),
    {
        match event {
            crate::deployer::DeploymentResponse::PoolManager(address) => {
                self.deployment = Some(*address);
            },
            crate::deployer::DeploymentResponse::Pool(params) => {
                self.pool = Some(params.clone());
            },
            crate::deployer::DeploymentResponse::LiquidExchange(address) => {
                self.liquid_exchange = Some(*address);
            },
            crate::deployer::DeploymentResponse::Fetcher(address) => {
                self.fetcher = Some(*address);
            },
            _ => {},
        }
        self.deployment.is_some() && self.pool.is_some() && self.fetcher.is_some()
            && self.liquid_exchange.is_some()
    }

    /// The scaled price at a tick of the grid.
    pub fn get_price_at_tick(tick: i32) -> (r: Result<u128, ArenaError>)
        requires
            -MAX_TICK_MAG <= tick <= MAX_TICK_MAG,
        ensures
            r matches Ok(p) ==> p == price_of_tick_spec(tick as int) && p >= 1 && tick_has_price(
                tick as int,
            ),
            r matches Err(e) ==> e == ArenaError::InvalidNumericInput && !tick_has_price(
                tick as int,
            ),
    {
        price_of_tick(tick)
    }

    /// Net liquidity at a tick, as the search uses it.
    pub fn get_next_tick_liquidity(&self, ledger: &Ledger, tick: i32) -> (r: u128)
        requires
            ledger.wf(),
        ensures
            r as int == search_liq_spec(ledger.positions@, tick as int),
    {
        let l: u128 = ledger.get_tick_liquidity(tick);
        if l > PROFIT_LIQ_CAP {
            PROFIT_LIQ_CAP
        } else {
            l
        }
    }

    /// The net profit and resulting price of swapping `dy` in.
    pub fn profit(dy: u128, p_ext: u128, p_uni: u128, fee_ppm: u32, liquidity: u128) -> (r: (
        i128,
        u128,
    ))
        requires
            dy <= SEARCH_CAP + SEARCH_TOL,
            1 <= p_uni <= PRICE_ARG_CAP,
            p_ext <= PRICE_ARG_CAP,
            fee_ppm < 1_000_000,
            liquidity <= PROFIT_LIQ_CAP,
        ensures
            (r.0 as int, r.1 as int) == profit_spec(
                dy as int,
                p_ext as int,
                p_uni as int,
                fee_ppm as int,
                liquidity as int,
            ),
            r.1 <= p_uni + (SEARCH_CAP + SEARCH_TOL) * SCALE,
    {
        proof {
            assert((p_uni as int) * (SCALE as int) <= (PRICE_ARG_CAP as int) * (SCALE as int))
                by (nonlinear_arith)
                requires
                    p_uni <= PRICE_ARG_CAP,
            ;
        }
        let sqrt_p: u128 = crate::fixed::isqrt(p_uni * SCALE);
        proof {
            lemma_sqrt_floor_eq((p_uni * SCALE) as int, sqrt_p as int);
            assert(sqrt_p < 0x2000_0000_0000u128) by (nonlinear_arith)
                requires
                    (sqrt_p as int) * (sqrt_p as int) <= (PRICE_ARG_CAP as int) * (SCALE as int),
                    0 <= sqrt_p,
            ;
            assert(liquidity * sqrt_p <= PROFIT_LIQ_CAP * 0x2000_0000_0000u128)
                by (nonlinear_arith)
                requires
                    liquidity <= PROFIT_LIQ_CAP,
                    sqrt_p <= 0x2000_0000_0000u128,
            ;
        }
        let denom: u128 = (liquidity * sqrt_p) / SCALE;
        let delta_p: u128 = if denom == 0 {
            0
        } else {
            (dy * SCALE) / denom
        };
        proof {
            if denom != 0 {
                vstd::arithmetic::div_mod::lemma_div_is_ordered_by_denominator(
                    (dy * SCALE) as int,
                    1,
                    denom as int,
                );
            }
        }
        let new_price: u128 = p_uni + delta_p;
        let gamma: u128 = ((1_000_000u128 - (fee_ppm as u128)) * 1_000);
        proof {
            assert(gamma * new_price <= 1_000_000_000u128 * (PRICE_ARG_CAP
                + (SEARCH_CAP + SEARCH_TOL) * SCALE)) by (nonlinear_arith)
                requires
                    gamma <= 1_000_000_000u128,
                    new_price <= PRICE_ARG_CAP + (SEARCH_CAP + SEARCH_TOL) * SCALE,
            ;
        }
        let gden: u128 = (gamma * new_price) / SCALE;
        let dx: u128 = if gden == 0 {
            0
        } else {
            (dy * SCALE) / gden
        };
        proof {
            if gden != 0 {
                vstd::arithmetic::div_mod::lemma_div_is_ordered_by_denominator(
                    (dy * SCALE) as int,
                    1,
                    gden as int,
                );
            }
            assert(dy * p_ext <= (SEARCH_CAP + SEARCH_TOL) * PRICE_ARG_CAP) by (nonlinear_arith)
                requires
                    dy <= SEARCH_CAP + SEARCH_TOL,
                    p_ext <= PRICE_ARG_CAP,
            ;
        }
        let revenue: u128 = (dy * p_ext) / SCALE;
        ((revenue as i128) - (dx as i128), new_price)
    }

    /// Bisection over the net-profit curve: narrows the bracket `[a, b]`
    /// until it is tighter than the tolerance, walking the active tick as
    /// the candidate price crosses tick boundaries.
    fn bisect(
        ledger: &Ledger,
        p_ext: u128,
        p_uni: u128,
        fee_ppm: u32,
        a: u128,
        b: u128,
        tick: i32,
        liquidity: u128,
        fuel: u32,
    ) -> (r: u128)
        requires
            ledger.wf(),
            a <= b <= SEARCH_CAP,
            1 <= p_uni <= PRICE_ARG_CAP,
            p_ext <= PRICE_ARG_CAP,
            fee_ppm < 1_000_000,
            liquidity <= PROFIT_LIQ_CAP,
            -SIZER_TICK_MAG <= tick <= SIZER_TICK_MAG,
        ensures
            r as int == bisect_spec(
                ledger.positions@,
                p_ext as int,
                p_uni as int,
                fee_ppm as int,
                a as int,
                b as int,
                tick as int,
                liquidity as int,
                fuel as nat,
            ),
            r <= SEARCH_CAP,
        decreases fuel,
    {
        if fuel == 0 || b - a <= SEARCH_TOL {
            return a + (b - a) / 2;
        }
        let mid: u128 = a + (b - a) / 2;
        let pm: (i128, u128) = Self::profit(mid, p_ext, p_uni, fee_ppm, liquidity);
        let pn: (i128, u128) = Self::profit(mid + SEARCH_TOL, p_ext, p_uni, fee_ppm, liquidity);
        let a2: u128 = if pm.0 > pn.0 {
            a
        } else {
            mid
        };
        let b2: u128 = if pm.0 > pn.0 {
            mid
        } else {
            b
        };
        let mut up: bool = false;
        let mut down: bool = false;
        if tick + 1 < SIZER_TICK_MAG {
            match Self::get_price_at_tick(tick + 1) {
                Ok(p) => {
                    up = pm.1 >= p;
                },
                Err(_) => {
                    up = false;
                },
            }
        }
        if !up && -SIZER_TICK_MAG < tick - 1 {
            match Self::get_price_at_tick(tick - 1) {
                Ok(p) => {
                    down = pm.1 <= p;
                },
                Err(_) => {
                    down = false;
                },
            }
        }
        let tick2: i32 = if up {
            tick + 1
        } else if down {
            tick - 1
        } else {
            tick
        };
        let liq2: u128 = if up || down {
            let l: u128 = ledger.get_tick_liquidity(tick2);
            if l > PROFIT_LIQ_CAP {
                PROFIT_LIQ_CAP
            } else {
                l
            }
        } else {
            liquidity
        };
        Self::bisect(ledger, p_ext, p_uni, fee_ppm, a2, b2, tick2, liq2, fuel - 1)
    }

    /// The swap size the search settles on: zero when no liquidity lies
    /// within the ticks the search can reach — an empty traversed range
    /// must force a zero-size trade — and otherwise the bisection's
    /// converged midpoint from a zero-to-cap bracket at the pool's active
    /// tick.
    ///
    /// The contract pins the result to the search recursion itself. The
    /// search aims at the most profitable size, but because the walk
    /// swaps the active liquidity mid-search the net-profit curve it probes
    /// need not be unimodal, so no approximate-optimality theorem holds of
    /// it in general; how close it lands is a matter for tests over
    /// concrete curves, not for the contract.
    pub fn optimal_swap(
        &self,
        ledger: &Ledger,
        p_ext: u128,
        p_uni: u128,
        fee_ppm: u32,
        initial_tick: i32,
    ) -> (r: u128)
        requires
            ledger.wf(),
            1 <= p_uni <= PRICE_ARG_CAP,
            p_ext <= PRICE_ARG_CAP,
            fee_ppm < 1_000_000,
            -SIZER_TICK_MAG <= initial_tick <= SIZER_TICK_MAG,
        ensures
            r as int == swap_search_spec(
                ledger.positions@,
                p_ext as int,
                p_uni as int,
                fee_ppm as int,
                initial_tick as int,
            ),
            search_window_empty(ledger.positions@, initial_tick as int) ==> r == 0,
            r <= SEARCH_CAP,
    {
        let lo: i32 = initial_tick - (SEARCH_FUEL as i32);
        let hi: i32 = initial_tick + (SEARCH_FUEL as i32);
        let mut all_zero: bool = true;
        let mut t: i32 = lo;
        while t <= hi
            invariant
                ledger.wf(),
                lo == initial_tick - SEARCH_FUEL,
                hi == initial_tick + SEARCH_FUEL,
                -SIZER_TICK_MAG <= initial_tick <= SIZER_TICK_MAG,
                lo <= t <= hi + 1,
                all_zero == (forall|u: int|
                    lo <= u < t ==> liq_at_spec(ledger.positions@, u) == 0),
            decreases hi + 1 - t,
        {
            if ledger.get_tick_liquidity(t) > 0 {
                all_zero = false;
            }
            t = t + 1;
        }
        if all_zero {
            return 0;
        }
        let liquidity: u128 = self.get_next_tick_liquidity(ledger, initial_tick);
        Self::bisect(ledger, p_ext, p_uni, fee_ppm, 0, SEARCH_CAP, initial_tick, liquidity,
            SEARCH_FUEL)
    }

    /// Accumulate the two liquidity sums over the half-open tick range
    /// `[start, end)`: `liquidity / sqrt(price)` and
    /// `liquidity * sqrt(price)`, both scaled.
    ///
    /// An accumulation that would leave the representable range reports
    /// [`ArenaError::InvalidNumericInput`].
    pub fn liquidity_sums(ledger: &Ledger, start: i32, end: i32) -> (r: Result<
        (u128, u128),
        ArenaError,
    >)
        requires
            ledger.wf(),
            -SIZER_TICK_MAG <= start <= end <= SIZER_TICK_MAG,
        ensures
            r matches Ok(sums) ==> sums.0 as int == sum_liq_a(
                ledger.positions@,
                start as int,
                (end - start) as nat,
            ) && sums.1 as int == sum_liq_b(ledger.positions@, start as int, (end - start) as nat),
            r matches Err(e) ==> e == ArenaError::InvalidNumericInput,
            r is Ok <==> sums_fit(ledger.positions@, start as int, (end - start) as nat),
    {
        let ghost ps: Seq<crate::ledger::Position> = ledger.positions@;
        let ghost total: nat = (end - start) as nat;
        let mut acc_a: u128 = 0;
        let mut acc_b: u128 = 0;
        let mut t: i32 = start;
        while t < end
            invariant
                ledger.wf(),
                ledger.positions@ == ps,
                start <= t <= end,
                -SIZER_TICK_MAG <= start <= end <= SIZER_TICK_MAG,
                total == (end - start) as nat,
                acc_a as int == sum_liq_a(ps, start as int, (t - start) as nat),
                acc_b as int == sum_liq_b(ps, start as int, (t - start) as nat),
                sums_fit(ps, start as int, (t - start) as nat),
            decreases end - t,
        {
            let ghost k: nat = (t - start) as nat;
            let l: u128 = ledger.get_tick_liquidity(t);
            let root: u128 = match crate::ledger::tick_sqrt(t) {
                Ok(s) => s,
                Err(_) => {
                    proof {
                        if sums_fit(ps, start as int, total) {
                            lemma_sums_fit_prefix(ps, start as int, total, (k + 1) as nat);
                        }
                    }
                    return Err(ArenaError::InvalidNumericInput);
                },
            };
            proof {
                lemma_sqrt_floor_eq(
                    price_of_tick_spec(t as int) * (SCALE as int),
                    root as int,
                );
                assert(l * SCALE <= 10_000u128 * 1_000_000_000_000_000_000_000_000u128 * SCALE)
                    by (nonlinear_arith)
                    requires
                        l <= 10_000u128 * 1_000_000_000_000_000_000_000_000u128,
                ;
            }
            let term_a: u128 = (l * SCALE) / root;
            proof {
                if l != 0 {
                    lemma_overflow_guard(root, l);
                    assert((root as int) * (l as int) == (l as int) * (root as int))
                        by (nonlinear_arith);
                } else {
                    assert(l * root == 0) by (nonlinear_arith)
                        requires
                            l == 0,
                    ;
                }
            }
            if l != 0 && root > u128::MAX / l {
                proof {
                    if sums_fit(ps, start as int, total) {
                        lemma_sums_fit_prefix(ps, start as int, total, (k + 1) as nat);
                    }
                }
                return Err(ArenaError::InvalidNumericInput);
            }
            let term_b: u128 = (l * root) / SCALE;
            proof {
                assert((k + 1) as nat - 1 == k);
                assert(start as int + ((k + 1) as nat) - 1 == t as int);
            }
            if acc_a > u128::MAX - term_a || acc_b > u128::MAX - term_b {
                proof {
                    if sums_fit(ps, start as int, total) {
                        lemma_sums_fit_prefix(ps, start as int, total, (k + 1) as nat);
                    }
                }
                return Err(ArenaError::InvalidNumericInput);
            }
            acc_a = acc_a + term_a;
            acc_b = acc_b + term_b;
            t = t + 1;
        }
        Ok((acc_a, acc_b))
    }

    /// The closed-form trade size from the two liquidity sums.
    ///
    /// Zero sums and zero denominators yield a zero trade; an intermediate
    /// outside the representable range reports
    /// [`ArenaError::InvalidNumericInput`].
    pub fn trade_amount(sum_a: u128, sum_b: u128, fee_ppm: u32) -> (r: Result<u128, ArenaError>)
        requires
            fee_ppm < 1_000_000,
        ensures
            r matches Ok(amount) ==> amount as int == trade_size_spec(
                sum_a as int,
                sum_b as int,
                fee_ppm as int,
            ),
            r matches Err(e) ==> e == ArenaError::InvalidNumericInput,
            r is Ok <==> trade_amount_fits(sum_a as int, sum_b as int, fee_ppm as int),
            sum_a == 0 || sum_b == 0 ==> r == Ok::<u128, ArenaError>(0),
    {
        if sum_a == 0 || sum_b == 0 {
            return Ok(0);
        }
        proof {
            lemma_overflow_guard(sum_a, sum_b);
        }
        if sum_a > u128::MAX / sum_b {
            return Err(ArenaError::InvalidNumericInput);
        }
        let k: u128 = (sum_a * sum_b) / SCALE;
        proof {
            lemma_overflow_guard(sum_a, SCALE);
        }
        if sum_a > u128::MAX / SCALE {
            return Err(ArenaError::InvalidNumericInput);
        }
        let ratio: u128 = (sum_a * SCALE) / sum_b;
        let gamma: u128 = (1_000_000u128 - (fee_ppm as u128)) * 1_000;
        proof {
            lemma_overflow_guard(ratio, gamma);
            assert(gamma as int * (ratio as int) == (ratio as int) * (gamma as int))
                by (nonlinear_arith);
            assert((ratio as int) * (gamma as int) <= u128::MAX as int ==> (
            fee_gamma_spec(fee_ppm as int) * (ratio as int)) <= u128::MAX as int)
                by (nonlinear_arith)
                requires
                    gamma as int == fee_gamma_spec(fee_ppm as int),
            ;
        }
        if ratio > u128::MAX / gamma {
            return Err(ArenaError::InvalidNumericInput);
        }
        let gr: u128 = (gamma * ratio) / SCALE;
        if gr == 0 {
            return Ok(0);
        }
        proof {
            lemma_overflow_guard(k, SCALE);
        }
        if k > u128::MAX / SCALE {
            return Err(ArenaError::InvalidNumericInput);
        }
        let cost: u128 = (k * SCALE) / gr;
        if sum_a > cost {
            Ok(sum_a - cost)
        } else {
            Ok(0)
        }
    }

    /// Plan the reaction to the current ledger state: find the tick
    /// bracketing the reference price, and when it differs from the pool's
    /// tick, size a trade over the traversed range toward it.
    ///
    /// When the pool's tick already brackets the reference price, or the
    /// traversed range offers no liquidity, the plan is to hold.
    pub fn plan(&self, ledger: &Ledger) -> (r: Result<SwapPlan, ArenaError>)
        requires
            ledger.wf(),
            ledger.pool is Some,
        ensures
            r matches Ok(p) ==> (ledger.pool matches Some(pool) ==> {
                &&& (price_of_tick_spec(pool.tick as int) <= ledger.price < price_of_tick_spec(
                    pool.tick as int + 1,
                ) && -SIZER_TICK_MAG <= pool.tick ==> p is Hold)
                &&& (p is Hold <==> bracket_tick_spec(ledger.price as int) == pool.tick as int
                    || plan_amount_spec(
                    ledger.positions@,
                    pool.tick as int,
                    bracket_tick_spec(ledger.price as int),
                    (pool.fee % 1_000_000) as int,
                ) == 0)
                &&& (p matches SwapPlan::Trade { amount, zero_for_one, sqrt_price_limit } ==> {
                    &&& amount as int == plan_amount_spec(
                        ledger.positions@,
                        pool.tick as int,
                        bracket_tick_spec(ledger.price as int),
                        (pool.fee % 1_000_000) as int,
                    )
                    &&& amount > 0
                    &&& sqrt_price_limit == pool.sqrt_price
                    &&& zero_for_one == ((ledger.price as int) < price_of_tick_spec(
                        pool.tick as int,
                    ))
                })
            }),
            r matches Err(e) ==> e == ArenaError::InvalidNumericInput,
            (ledger.pool matches Some(pool) && plan_fits(
                ledger.positions@,
                ledger.price as int,
                pool.tick as int,
                (pool.fee % 1_000_000) as int,
            )) ==> r is Ok,
    {
        proof {
            reveal(plan_fits);
        }
        let pool: PoolState = ledger.get_pool_state();
        let target: i32 = match tick_of_price(ledger.price) {
            Ok(t) => t,
            Err(_) => {
                return Err(ArenaError::InvalidNumericInput);
            },
        };
        proof {
            reveal(plan_amount_spec);
            lemma_bracket_tick_eq(ledger.price as int, target as int);
        }
        if pool.tick < -SIZER_TICK_MAG || pool.tick > SIZER_TICK_MAG || target < -SIZER_TICK_MAG
            || target > SIZER_TICK_MAG {
            return Err(ArenaError::InvalidNumericInput);
        }
        if target == pool.tick {
            return Ok(SwapPlan::Hold);
        }
        proof {
            if price_of_tick_spec(pool.tick as int) <= ledger.price < price_of_tick_spec(
                pool.tick as int + 1,
            ) {
                lemma_bracket_unique(pool.tick as int, target as int, ledger.price as int);
            }
            if target < pool.tick {
                crate::tick::lemma_price_mono(target as int + 1, pool.tick as int);
            } else {
                crate::tick::lemma_price_mono(pool.tick as int, target as int);
            }
        }
        let start: i32 = if pool.tick < target {
            pool.tick
        } else {
            target
        };
        let end: i32 = if pool.tick < target {
            target
        } else {
            pool.tick
        };
        let sums: (u128, u128) = match Self::liquidity_sums(ledger, start, end) {
            Ok(s) => s,
            Err(e) => {
                return Err(e);
            },
        };
        let amount: u128 = match Self::trade_amount(sums.0, sums.1, pool.fee % 1_000_000) {
            Ok(a) => a,
            Err(e) => {
                return Err(e);
            },
        };
        if amount == 0 {
            return Ok(SwapPlan::Hold);
        }
        Ok(
            SwapPlan::Trade {
                amount,
                zero_for_one: target < pool.tick,
                sqrt_price_limit: pool.sqrt_price,
            },
        )
    }
    /// React to one signal: derive the pool's scaled price from its root,
    /// compare it to the reference price, and when they differ search the
    /// optimal swap size over the net-profit curve. The higher-priced side
    /// is always passed as the pool price, so the search runs toward the
    /// reference; equal prices yield no trade.
    ///
    /// Prices or ticks outside the search domain report
    /// [`ArenaError::InvalidNumericInput`].
    pub fn process(&self, signal: &Signal, ledger: &Ledger) -> (r: Result<
        Option<(u128, bool)>,
        ArenaError,
    >)
        requires
            ledger.wf(),
        ensures
            r matches Ok(d) ==> {
                let p_uni = (signal.sqrt_price as int) * (signal.sqrt_price as int) / (
                SCALE as int);
                &&& (p_uni == signal.lex_price as int ==> d is None)
                &&& (d matches Some((amount, zero_for_one)) ==> {
                    &&& zero_for_one == (p_uni > signal.lex_price as int)
                    &&& (zero_for_one ==> amount as int == swap_search_spec(
                        ledger.positions@,
                        signal.lex_price as int,
                        p_uni,
                        (signal.pool.fee % 1_000_000) as int,
                        signal.tick as int,
                    ))
                    &&& (!zero_for_one ==> amount as int == swap_search_spec(
                        ledger.positions@,
                        p_uni,
                        signal.lex_price as int,
                        (signal.pool.fee % 1_000_000) as int,
                        signal.tick as int,
                    ))
                })
            },
            r is Ok <==> {
                let p_uni = (signal.sqrt_price as int) * (signal.sqrt_price as int) / (
                SCALE as int);
                &&& signal.sqrt_price <= 0xFFFF_FFFF_FFFF_FFFFu128
                &&& 1 <= p_uni <= PRICE_ARG_CAP as int
                &&& 1 <= signal.lex_price <= PRICE_ARG_CAP
                &&& -SIZER_TICK_MAG <= signal.tick <= SIZER_TICK_MAG
            },
            r matches Err(e) ==> e == ArenaError::InvalidNumericInput,
    {
        if signal.sqrt_price > 0xFFFF_FFFF_FFFF_FFFFu128 {
            return Err(ArenaError::InvalidNumericInput);
        }
        proof {
            assert(signal.sqrt_price * signal.sqrt_price <= u128::MAX) by (nonlinear_arith)
                requires
                    signal.sqrt_price <= 0xFFFF_FFFF_FFFF_FFFFu128,
            ;
        }
        let p_uni: u128 = signal.sqrt_price * signal.sqrt_price / SCALE;
        let p_ext: u128 = signal.lex_price;
        if p_uni < 1 || p_uni > PRICE_ARG_CAP || p_ext < 1 || p_ext > PRICE_ARG_CAP {
            return Err(ArenaError::InvalidNumericInput);
        }
        if signal.tick < -SIZER_TICK_MAG || signal.tick > SIZER_TICK_MAG {
            return Err(ArenaError::InvalidNumericInput);
        }
        if p_uni == p_ext {
            return Ok(None);
        }
        let fee: u32 = signal.pool.fee % 1_000_000;
        if p_uni > p_ext {
            let amount: u128 = self.optimal_swap(ledger, p_ext, p_uni, fee, signal.tick);
            Ok(Some((amount, true)))
        } else {
            let amount: u128 = self.optimal_swap(ledger, p_uni, p_ext, fee, signal.tick);
            Ok(Some((amount, false)))
        }
    }

}

/// The trade size the closed form assigns to a pool tick, a target tick
/// and the ledger's positions: the formula over the liquidity sums of the
/// traversed half-open range.
pub open spec fn plan_amount_spec(
    ps: Seq<crate::ledger::Position>,
    pool_tick: int,
    target: int,
    fee_ppm: int,
) -> int {
    let start = if pool_tick < target {
        pool_tick
    } else {
        target
    };
    let end = if pool_tick < target {
        target
    } else {
        pool_tick
    };
    trade_size_spec(
        sum_liq_a(ps, start, (end - start) as nat),
        sum_liq_b(ps, start, (end - start) as nat),
        fee_ppm,
    )
}

/// Whether the ledger state lets the sizer decide: the reference price
/// bracketable on the grid, both ticks within the traversal bound, and
/// the sums and trade formula within the representable range. Under these
/// conditions [`Arbitrageur::plan`] succeeds.
#[verifier::opaque]
pub open spec fn plan_fits(
    ps: Seq<crate::ledger::Position>,
    price: int,
    pool_tick: int,
    fee_ppm: int,
) -> bool {
    let target = bracket_tick_spec(price);
    let start = if pool_tick < target {
        pool_tick
    } else {
        target
    };
    let end = if pool_tick < target {
        target
    } else {
        pool_tick
    };
    &&& ratio_in_range(MAX_TICK_MAG as nat)
    &&& price_of_tick_spec(-MAX_TICK_MAG as int) <= price < price_of_tick_spec(
        MAX_TICK_MAG as int,
    )
    &&& -SIZER_TICK_MAG <= pool_tick <= SIZER_TICK_MAG
    &&& -SIZER_TICK_MAG <= target <= SIZER_TICK_MAG
    &&& (target == pool_tick || (sums_fit(ps, start, (end - start) as nat) && trade_amount_fits(
        sum_liq_a(ps, start, (end - start) as nat),
        sum_liq_b(ps, start, (end - start) as nat),
        fee_ppm,
    )))
}

/// Direction correctness: a sell of the first asset never raises the
/// pool's tick, and therefore never raises its price, under the ledger's
/// swap model.
pub proof fn lemma_direction_reduces_price(tick: int, amount: int)
    requires
        -MAX_TICK_MAG as int <= tick <= MAX_TICK_MAG as int - 1,
        0 <= amount,
    ensures
        swap_target_spec(tick, amount, true) <= tick,
        price_of_tick_spec(swap_target_spec(tick, amount, true)) <= price_of_tick_spec(tick),
{
    vstd::arithmetic::div_mod::lemma_div_pos_is_pos(amount, SCALE as int);
    crate::tick::lemma_price_mono(swap_target_spec(tick, amount, true), tick);
}

impl crate::engine::arbitrageur::Arbitrageur for Arbitrageur {
    fn init(&mut self, signal: &Signal, identity: AccountId, engine: &mut Engine) {
    }

    #[verifier::rlimit(100)]
    fn arbitrage(&mut self, signal: &Signal, identity: AccountId, engine: &mut Engine) -> (r:
        Result<(), ArenaError>)
        ensures
            *final(self) == *old(self),
            r matches Err(e) ==> final(engine).ledger.price == old(engine).ledger.price
                && final(engine).ledger.pool == old(engine).ledger.pool
                && final(engine).ledger.positions@ == old(engine).ledger.positions@
                && final(engine).ledger.calls@ == old(engine).ledger.calls@,
            r is Ok ==> (old(engine).ledger.pool matches Some(p) && bracket_tick_spec(
                old(engine).ledger.price as int,
            ) == p.tick as int ==> final(engine).ledger.calls@ == old(engine).ledger.calls@),
    {
        let plan: SwapPlan = match self.plan(&engine.ledger) {
            Ok(p) => p,
            Err(e) => {
                return Err(e);
            },
        };
        match plan {
            SwapPlan::Hold => Ok(()),
            SwapPlan::Trade { amount, zero_for_one, sqrt_price_limit } => {
                let r = engine.ledger.submit_swap(identity, amount, zero_for_one,
                    sqrt_price_limit);
                proof {
                    if r is Ok {
                        assert(old(engine).ledger.calls@.is_prefix_of(engine.ledger.calls@)) by {
                            assert(engine.ledger.calls@.subrange(
                                0,
                                old(engine).ledger.calls@.len() as int,
                            ) =~= old(engine).ledger.calls@);
                        }
                    }
                }
                r
            },
        }
    }
}

} // verus!
