//! The in-memory ledger of the simulation.
//!
//! The ledger holds the external reference price, the pool's tick and
//! square-root price, net liquidity positions, per-identity sequence
//! numbers, and a record of every submitted call. It is the concrete
//! counterpart of the narrow ledger seam the scheduler drives: price
//! updates, pool-state queries, per-tick liquidity queries, swaps and
//! liquidity changes.
//!
//! Swaps follow a deliberately simple impact model: a trade moves the pool
//! one tick per whole unit of input, capped per call, in the direction of
//! the trade. The model is enough to give direction and ordering laws
//! meaning; it does not reproduce the constant-product curve, which belongs
//! to the outside ledger this type stands in for.
use vstd::prelude::*;

verus! {

use crate::error::ArenaError;
use crate::fixed::SCALE;
use crate::tick::{
    abs_tick, bracket_tick_spec, lemma_bracket_tick_eq, price_of_tick, price_of_tick_spec,
    ratio_in_range, tick_of_price, MAX_TICK_MAG,
};
use crate::{AccountId, PoolKey};

/// Largest liquidity magnitude one position may carry.
pub const LIQ_CAP: i128 = 1_000_000_000_000_000_000_000_000;

/// Largest number of positions the ledger accepts.
pub const POSITION_CAP: usize = 10_000;

/// Largest number of ticks a single swap can move the pool.
pub const SWAP_TICK_CAP: u128 = 1_000;

/// A net liquidity contribution over a half-open tick range.
#[derive(Clone, Copy, PartialEq, Eq, Structural, Debug)]
pub struct Position {
    /// First tick of the range.
    pub tick_lower: i32,
    /// First tick past the range.
    pub tick_upper: i32,
    /// Signed liquidity contribution of the position.
    pub delta: i128,
}

/// The pool state held by the ledger.
#[derive(Clone, Copy, PartialEq, Eq, Structural, Debug)]
pub struct PoolState {
    /// Identifying data of the pool.
    pub key: PoolKey,
    /// Fee tier of the pool, in parts per million.
    pub fee: u32,
    /// Spacing of usable ticks.
    pub tick_spacing: i32,
    /// Current active tick.
    pub tick: i32,
    /// Floor square root of the tick's scaled price, scaled.
    pub sqrt_price: u128,
}

/// One submitted ledger call, as recorded by the ledger.
#[derive(Clone, Copy, PartialEq, Eq, Structural, Debug)]
pub enum LedgerCall {
    /// A push of the external reference price.
    PriceUpdate {
        /// The submitted scaled price.
        value: u128,
    },
    /// A swap against the pool.
    Swap {
        /// Identity that submitted the swap.
        sender: AccountId,
        /// Sequence number attached to the submission.
        nonce: u64,
        /// Scaled input amount.
        amount: u128,
        /// Direction of the trade: `true` sells the first asset, pushing
        /// the price down.
        zero_for_one: bool,
        /// Slippage bound carried by the submission.
        sqrt_price_limit: u128,
    },
    /// A liquidity change over a tick range.
    LiquidityChange {
        /// Identity that submitted the change.
        sender: AccountId,
        /// Sequence number attached to the submission.
        nonce: u64,
        /// Signed liquidity contribution.
        delta: i128,
        /// First tick of the range.
        tick_lower: i32,
        /// First tick past the range.
        tick_upper: i32,
    },
    /// A request to move the pool price to the reference price.
    Equalize {
        /// Identity that submitted the request.
        sender: AccountId,
        /// Sequence number attached to the submission.
        nonce: u64,
        /// Depth bound carried by the submission.
        depth: u128,
    },
}

/// Signed sum of the position contributions active at a tick.
pub open spec fn liq_sum(ps: Seq<Position>, t: int) -> int
    decreases ps.len(),
{
    if ps.len() == 0 {
        0
    } else {
        liq_sum(ps.drop_last(), t) + if ps.last().tick_lower <= t < ps.last().tick_upper {
            ps.last().delta as int
        } else {
            0
        }
    }
}

/// Net liquidity at a tick: the positive part of the position sum.
pub open spec fn liq_at_spec(ps: Seq<Position>, t: int) -> int {
    if liq_sum(ps, t) < 0 {
        0
    } else {
        liq_sum(ps, t)
    }
}

/// First-match lookup of an identity's next sequence number; zero when the
/// identity has not submitted yet.
pub open spec fn nonce_lookup(s: Seq<(u64, u64)>, id: u64) -> int
    decreases s.len(),
{
    if s.len() == 0 {
        0
    } else if s[0].0 == id {
        s[0].1 as int
    } else {
        nonce_lookup(s.subrange(1, s.len() as int), id)
    }
}

/// The tick a swap moves the pool to: one tick per whole unit of input,
/// capped at [`SWAP_TICK_CAP`] ticks, in the trade's direction, clamped to
/// the grid.
pub open spec fn swap_target_spec(tick: int, amount: int, zero_for_one: bool) -> int {
    let moved = if amount / (SCALE as int) < SWAP_TICK_CAP as int {
        amount / (SCALE as int)
    } else {
        SWAP_TICK_CAP as int
    };
    let raw = if zero_for_one {
        tick - moved
    } else {
        tick + moved
    };
    if raw < -MAX_TICK_MAG as int {
        -MAX_TICK_MAG as int
    } else if raw > MAX_TICK_MAG as int - 1 {
        MAX_TICK_MAG as int - 1
    } else {
        raw
    }
}

/// Whether the grid walk at a tick leaves the representable range.
pub open spec fn tick_grid_fails(t: int) -> bool {
    ||| !ratio_in_range(abs_tick(t))
    ||| price_of_tick_spec(t) < 1
    ||| price_of_tick_spec(t) * SCALE > u128::MAX as int
}

/// Whether a root price can be bound as a pool's state: the grid covers
/// its full range, the implied price is positive and within the grid's
/// window, and the bracketing tick's own price walk stays representable.
/// Under these conditions [`Ledger::set_pool`] succeeds.
pub open spec fn pool_binding_ok(sqrt_price: int) -> bool {
    let implied = sqrt_price * sqrt_price / (SCALE as int);
    &&& ratio_in_range(MAX_TICK_MAG as nat)
    &&& 1 <= implied
    &&& price_of_tick_spec(-MAX_TICK_MAG as int) <= implied < price_of_tick_spec(
        MAX_TICK_MAG as int,
    )
    &&& !tick_grid_fails(bracket_tick_spec(implied))
}

/// Well-formedness of a pool state: the tick on the grid and the stored
/// root bracketing the tick's scaled price.
pub open spec fn pool_wf(p: PoolState) -> bool {
    &&& -MAX_TICK_MAG as int <= p.tick as int <= MAX_TICK_MAG as int - 1
    &&& 1 <= p.sqrt_price
    &&& (p.sqrt_price as int) * (p.sqrt_price as int) <= price_of_tick_spec(p.tick as int) * (
    SCALE as int)
    &&& price_of_tick_spec(p.tick as int) * (SCALE as int) < (p.sqrt_price as int + 1) * (
    p.sqrt_price as int + 1)
}

/// The in-memory ledger.
pub struct Ledger {
    /// The external reference price, scaled.
    pub price: u128,
    /// The pool, once set.
    pub pool: Option<PoolState>,
    /// Net liquidity positions, in submission order.
    pub positions: Vec<Position>,
    /// Every submitted call, in submission order.
    pub calls: Vec<LedgerCall>,
    /// Next sequence number of each identity.
    pub nonces: Vec<(u64, u64)>,
}

impl Ledger {
    /// Well-formedness of the ledger's state.
    pub open spec fn wf(&self) -> bool {
        &&& 1 <= self.price
        &&& match self.pool {
            Some(p) => pool_wf(p),
            None => true,
        }
        &&& self.positions@.len() <= POSITION_CAP
        &&& forall|i: int|
            0 <= i < self.positions@.len() ==> (#[trigger] self.positions@[i]).tick_lower
                < self.positions@[i].tick_upper && -MAX_TICK_MAG <= self.positions@[i].tick_lower
                && self.positions@[i].tick_upper <= MAX_TICK_MAG && -LIQ_CAP
                <= self.positions@[i].delta <= LIQ_CAP
    }

    /// Public constructor function for a new [`Ledger`] with the given
    /// initial reference price.
    pub fn new(initial_price: u128) -> (l: Ledger)
        requires
            initial_price >= 1,
        ensures
            l.wf(),
            l.price == initial_price,
            l.pool is None,
            l.positions@ =~= Seq::<Position>::empty(),
            l.calls@ =~= Seq::<LedgerCall>::empty(),
            l.nonces@ =~= Seq::<(u64, u64)>::empty(),
    {
        Ledger {
            price: initial_price,
            pool: None,
            positions: Vec::new(),
            calls: Vec::new(),
            nonces: Vec::new(),
        }
    }

    /// Bind the pool: derive its tick from the given root price and store
    /// the canonical root for that tick.
    ///
    /// Fails with [`ArenaError::ConfigurationError`] when the implied price
    /// cannot be bracketed on the grid.
    pub fn set_pool(&mut self, key: PoolKey, fee: u32, tick_spacing: i32, sqrt_price: u128) -> (r:
        Result<(), ArenaError>)
        requires
            old(self).wf(),
            1 <= sqrt_price,
            sqrt_price * sqrt_price <= u128::MAX,
        ensures
            final(self).wf(),
            r matches Ok(()) ==> {
                &&& final(self).pool matches Some(p) && p.key == key && p.fee == fee && p.tick_spacing
                    == tick_spacing && price_of_tick_spec(p.tick as int) <= (sqrt_price as int) * (
                sqrt_price as int) / (SCALE as int) < price_of_tick_spec(p.tick as int + 1)
                &&& final(self).price == old(self).price
                &&& final(self).positions@ == old(self).positions@
                &&& final(self).calls@ == old(self).calls@
                &&& final(self).nonces@ == old(self).nonces@
            },
            r matches Err(e) ==> *final(self) == *old(self) && (e == ArenaError::ConfigurationError || e
                == ArenaError::InvalidNumericInput),
            pool_binding_ok(sqrt_price as int) ==> r is Ok,
    {
        let implied: u128 = sqrt_price * sqrt_price / SCALE;
        if implied < 1 {
            return Err(ArenaError::ConfigurationError);
        }
        let t: i32 = match tick_of_price(implied) {
            Ok(t) => t,
            Err(_) => {
                return Err(ArenaError::ConfigurationError);
            },
        };
        proof {
            lemma_bracket_tick_eq(implied as int, t as int);
        }
        let root: u128 = match tick_sqrt(t) {
            Ok(s) => s,
            Err(e) => {
                return Err(e);
            },
        };
        self.pool = Some(
            PoolState { key, fee, tick_spacing, tick: t, sqrt_price: root },
        );
        Ok(())
    }

    /// Push a new external reference price.
    ///
    /// Fails with [`ArenaError::InvalidNumericInput`] exactly when the
    /// value rounds to zero.
    pub fn submit_price_update(&mut self, value: u128) -> (r: Result<(), ArenaError>)
        requires
            old(self).wf(),
        ensures
            final(self).wf(),
            r matches Ok(()) ==> value >= 1 && final(self).price == value && final(self).calls@ == old(
                self,
            ).calls@.push(LedgerCall::PriceUpdate { value }) && final(self).pool == old(self).pool
                && final(self).positions@ == old(self).positions@ && final(self).nonces@ == old(self).nonces@,
            r matches Err(e) ==> value < 1 && e == ArenaError::InvalidNumericInput && *final(self)
                == *old(self),
    {
        if value < 1 {
            return Err(ArenaError::InvalidNumericInput);
        }
        self.price = value;
        self.calls.push(LedgerCall::PriceUpdate { value });
        Ok(())
    }

    /// The pool's current state.
    pub fn get_pool_state(&self) -> (p: PoolState)
        requires
            self.wf(),
            self.pool is Some,
        ensures
            Some(p) == self.pool,
    {
        match &self.pool {
            Some(p) => *p,
            None => unreached(),
        }
    }

    /// Net liquidity at a tick, from the ledger's positions.
    pub fn get_tick_liquidity(&self, t: i32) -> (r: u128)
        requires
            self.wf(),
        ensures
            r as int == liq_at_spec(self.positions@, t as int),
            r <= (POSITION_CAP as int) * (LIQ_CAP as int),
    {
        let n: usize = self.positions.len();
        let mut acc: i128 = 0;
        let mut i: usize = 0;
        while i < n
            invariant
                0 <= i <= n,
                n == self.positions@.len() <= POSITION_CAP,
                self.wf(),
                acc as int == liq_sum(self.positions@.subrange(0, i as int), t as int),
                -(i as int) * (LIQ_CAP as int) <= acc as int <= (i as int) * (LIQ_CAP as int),
            decreases n - i,
        {
            let p: Position = self.positions[i];
            proof {
                assert(self.positions@.subrange(0, i as int + 1).drop_last() =~= self
                    .positions@.subrange(0, i as int));
                assert(self.positions@.subrange(0, i as int + 1).last() == p);
                assert((i as int + 1) * (LIQ_CAP as int) == (i as int) * (LIQ_CAP as int)
                    + LIQ_CAP as int) by (nonlinear_arith);
            }
            if p.tick_lower <= t && t < p.tick_upper {
                acc = acc + p.delta;
            }
            i = i + 1;
        }
        proof {
            assert(self.positions@.subrange(0, n as int) =~= self.positions@);
        }
        if acc < 0 {
            0u128
        } else {
            proof {
                assert((POSITION_CAP as int) * (LIQ_CAP as int) >= (n as int) * (LIQ_CAP as int))
                    by (nonlinear_arith)
                    requires
                        n <= POSITION_CAP,
                ;
            }
            acc as u128
        }
    }

    /// Hand out the identity's next sequence number and advance it.
    ///
    /// The number saturates at the top of its range; below that, each call
    /// returns a value one larger than the last.
    pub fn next_sequence_number(&mut self, id: AccountId) -> (n: u64)
        requires
            old(self).wf(),
        ensures
            final(self).wf(),
            n as int == nonce_lookup(old(self).nonces@, id.0),
            n < u64::MAX ==> nonce_lookup(final(self).nonces@, id.0) == n as int + 1,
            forall|other: u64|
                other != id.0 ==> #[trigger] nonce_lookup(final(self).nonces@, other) == nonce_lookup(
                    old(self).nonces@,
                    other,
                ),
            final(self).price == old(self).price,
            final(self).pool == old(self).pool,
            final(self).positions@ == old(self).positions@,
            final(self).calls@ == old(self).calls@,
    {
        let idx: Option<usize> = find_nonce_index(&self.nonces, id.0);
        match idx {
            Some(i) => {
                let cur: u64 = self.nonces[i].1;
                proof {
                    lemma_nonce_lookup_at(self.nonces@, id.0, i as int);
                }
                if cur < u64::MAX {
                    let ghost before: Seq<(u64, u64)> = self.nonces@;
                    self.nonces[i] = (id.0, cur + 1);
                    proof {
                        lemma_nonce_lookup_at(self.nonces@, id.0, i as int);
                        lemma_nonce_lookup_update_other(before, self.nonces@, i as int, id.0);
                    }
                }
                cur
            },
            None => {
                proof {
                    lemma_nonce_lookup_absent(self.nonces@, id.0);
                }
                let ghost before: Seq<(u64, u64)> = self.nonces@;
                self.nonces.push((id.0, 1));
                proof {
                    lemma_nonce_lookup_push(before, (id.0, 1u64), id.0);
                    assert forall|other: u64| other != id.0 implies #[trigger] nonce_lookup(
                        self.nonces@,
                        other,
                    ) == nonce_lookup(before, other) by {
                        lemma_nonce_lookup_push(before, (id.0, 1u64), other);
                    }
                }
                0
            },
        }
    }

    /// Submit a swap: attach the sender's next sequence number, move the
    /// pool by the impact model, and record the call.
    pub fn submit_swap(
        &mut self,
        sender: AccountId,
        amount: u128,
        zero_for_one: bool,
        sqrt_price_limit: u128,
    ) -> (r: Result<(), ArenaError>)
        requires
            old(self).wf(),
            old(self).pool is Some,
        ensures
            final(self).wf(),
            r matches Ok(()) ==> {
                &&& final(self).pool matches Some(p) && old(self).pool matches Some(q) && p.tick as int
                    == swap_target_spec(q.tick as int, amount as int, zero_for_one) && p.key
                    == q.key && p.fee == q.fee && p.tick_spacing == q.tick_spacing
                &&& final(self).calls@ == old(self).calls@.push(
                    LedgerCall::Swap {
                        sender,
                        nonce: (nonce_lookup(old(self).nonces@, sender.0)) as u64,
                        amount,
                        zero_for_one,
                        sqrt_price_limit,
                    },
                )
                &&& final(self).price == old(self).price
                &&& final(self).positions@ == old(self).positions@
                &&& (nonce_lookup(old(self).nonces@, sender.0) < u64::MAX ==> nonce_lookup(
                    final(self).nonces@,
                    sender.0,
                ) == nonce_lookup(old(self).nonces@, sender.0) + 1)
                &&& forall|other: u64|
                    other != sender.0 ==> #[trigger] nonce_lookup(final(self).nonces@, other)
                        == nonce_lookup(old(self).nonces@, other)
            },
            r matches Err(e) ==> e == ArenaError::LedgerCallFailed && final(self).price == old(self).price
                && final(self).pool == old(self).pool && final(self).positions@ == old(self).positions@
                && final(self).calls@ == old(self).calls@ && final(self).nonces@ == old(self).nonces@,
            r is Ok <==> (old(self).pool matches Some(q) && !tick_grid_fails(
                swap_target_spec(q.tick as int, amount as int, zero_for_one),
            )),
    {
        let pool: PoolState = self.get_pool_state();
        let moved_units: u128 = amount / SCALE;
        let moved: u128 = if moved_units < SWAP_TICK_CAP {
            moved_units
        } else {
            SWAP_TICK_CAP
        };
        let raw: i32 = if zero_for_one {
            pool.tick - (moved as i32)
        } else {
            pool.tick + (moved as i32)
        };
        let target: i32 = if raw < -MAX_TICK_MAG {
            -MAX_TICK_MAG
        } else if raw > MAX_TICK_MAG - 1 {
            MAX_TICK_MAG - 1
        } else {
            raw
        };
        let root: u128 = match tick_sqrt(target) {
            Ok(s) => s,
            Err(_) => {
                return Err(ArenaError::LedgerCallFailed);
            },
        };
        let nonce: u64 = self.next_sequence_number(sender);
        self.pool = Some(PoolState { tick: target, sqrt_price: root, ..pool });
        self.calls.push(
            LedgerCall::Swap { sender, nonce, amount, zero_for_one, sqrt_price_limit },
        );
        Ok(())
    }

    /// Submit a liquidity change: attach the sender's next sequence number,
    /// store the position, and record the call.
    ///
    /// Fails with [`ArenaError::LedgerCallFailed`] exactly when the range
    /// is malformed or out of the grid, the magnitude is over the cap, or
    /// the ledger is full.
    pub fn submit_liquidity_change(
        &mut self,
        sender: AccountId,
        delta: i128,
        tick_lower: i32,
        tick_upper: i32,
    ) -> (r: Result<(), ArenaError>)
        requires
            old(self).wf(),
        ensures
            final(self).wf(),
            r matches Ok(()) ==> {
                &&& tick_lower < tick_upper && -MAX_TICK_MAG <= tick_lower && tick_upper
                    <= MAX_TICK_MAG && -LIQ_CAP <= delta <= LIQ_CAP && old(
                    self,
                ).positions@.len() < POSITION_CAP
                &&& final(self).positions@ == old(self).positions@.push(
                    Position { tick_lower, tick_upper, delta },
                )
                &&& final(self).calls@ == old(self).calls@.push(
                    LedgerCall::LiquidityChange {
                        sender,
                        nonce: (nonce_lookup(old(self).nonces@, sender.0)) as u64,
                        delta,
                        tick_lower,
                        tick_upper,
                    },
                )
                &&& final(self).price == old(self).price
                &&& final(self).pool == old(self).pool
                &&& (nonce_lookup(old(self).nonces@, sender.0) < u64::MAX ==> nonce_lookup(
                    final(self).nonces@,
                    sender.0,
                ) == nonce_lookup(old(self).nonces@, sender.0) + 1)
                &&& forall|other: u64|
                    other != sender.0 ==> #[trigger] nonce_lookup(final(self).nonces@, other)
                        == nonce_lookup(old(self).nonces@, other)
            },
            r matches Err(e) ==> {
                &&& e == ArenaError::LedgerCallFailed
                &&& *final(self) == *old(self)
                &&& (tick_lower >= tick_upper || tick_lower < -MAX_TICK_MAG || tick_upper
                    > MAX_TICK_MAG || delta < -LIQ_CAP || delta > LIQ_CAP || old(
                    self,
                ).positions@.len() >= POSITION_CAP)
            },
    {
        if tick_lower >= tick_upper || tick_lower < -MAX_TICK_MAG || tick_upper > MAX_TICK_MAG
            || delta < -LIQ_CAP || delta > LIQ_CAP || self.positions.len() >= POSITION_CAP {
            return Err(ArenaError::LedgerCallFailed);
        }
        let nonce: u64 = self.next_sequence_number(sender);
        self.positions.push(Position { tick_lower, tick_upper, delta });
        self.calls.push(
            LedgerCall::LiquidityChange { sender, nonce, delta, tick_lower, tick_upper },
        );
        Ok(())
    }

    /// Move the pool's price to the tick bracketing the reference price,
    /// recording the request.
    pub fn equalize_price(&mut self, sender: AccountId, depth: u128) -> (r: Result<
        (),
        ArenaError,
    >)
        requires
            old(self).wf(),
            old(self).pool is Some,
        ensures
            final(self).wf(),
            r matches Ok(()) ==> {
                &&& final(self).pool matches Some(p) && old(self).pool matches Some(q)
                    && price_of_tick_spec(p.tick as int) <= old(self).price < price_of_tick_spec(
                    p.tick as int + 1,
                ) && p.key == q.key && p.fee == q.fee && p.tick_spacing == q.tick_spacing
                &&& final(self).calls@ == old(self).calls@.push(
                    LedgerCall::Equalize {
                        sender,
                        nonce: (nonce_lookup(old(self).nonces@, sender.0)) as u64,
                        depth,
                    },
                )
                &&& final(self).price == old(self).price
                &&& final(self).positions@ == old(self).positions@
                &&& (nonce_lookup(old(self).nonces@, sender.0) < u64::MAX ==> nonce_lookup(
                    final(self).nonces@,
                    sender.0,
                ) == nonce_lookup(old(self).nonces@, sender.0) + 1)
                &&& forall|other: u64|
                    other != sender.0 ==> #[trigger] nonce_lookup(final(self).nonces@, other)
                        == nonce_lookup(old(self).nonces@, other)
            },
            r matches Err(e) ==> e == ArenaError::LedgerCallFailed && final(self).price == old(self).price
                && final(self).pool == old(self).pool && final(self).positions@ == old(self).positions@
                && final(self).calls@ == old(self).calls@ && final(self).nonces@ == old(self).nonces@,
            ratio_in_range(MAX_TICK_MAG as nat) && price_of_tick_spec(-MAX_TICK_MAG as int) <= old(
                self,
            ).price < price_of_tick_spec(MAX_TICK_MAG as int) && (forall|t: int|
                -MAX_TICK_MAG <= t < MAX_TICK_MAG ==> !#[trigger] tick_grid_fails(t)) ==> r is Ok,
    {
        let pool: PoolState = self.get_pool_state();
        let target: i32 = match tick_of_price(self.price) {
            Ok(t) => t,
            Err(_) => {
                return Err(ArenaError::LedgerCallFailed);
            },
        };
        let root: u128 = match tick_sqrt(target) {
            Ok(s) => s,
            Err(_) => {
                return Err(ArenaError::LedgerCallFailed);
            },
        };
        let nonce: u64 = self.next_sequence_number(sender);
        self.pool = Some(PoolState { tick: target, sqrt_price: root, ..pool });
        self.calls.push(LedgerCall::Equalize { sender, nonce, depth });
        Ok(())
    }
}

/// Floor square root of a tick's scaled price, scaled.
pub fn tick_sqrt(t: i32) -> (r: Result<u128, ArenaError>)
    requires
        -MAX_TICK_MAG <= t <= MAX_TICK_MAG,
    ensures
        r matches Ok(s) ==> 1 <= s && (s as int) * (s as int) <= price_of_tick_spec(t as int) * (
        SCALE as int) < (s as int + 1) * (s as int + 1) && !tick_grid_fails(t as int),
        r matches Err(e) ==> e == ArenaError::InvalidNumericInput && tick_grid_fails(t as int),
{
    let p: u128 = match price_of_tick(t) {
        Ok(p) => p,
        Err(e) => {
            return Err(e);
        },
    };
    if p > u128::MAX / SCALE {
        proof {
            assert((p as int) * (SCALE as int) > u128::MAX as int) by (nonlinear_arith)
                requires
                    p as int > (u128::MAX as int) / (SCALE as int),
            ;
        }
        return Err(ArenaError::InvalidNumericInput);
    }
    proof {
        assert((p as int) * (SCALE as int) <= u128::MAX as int) by (nonlinear_arith)
            requires
                p as int <= (u128::MAX as int) / (SCALE as int),
        ;
    }
    let s: u128 = crate::fixed::isqrt(p * SCALE);
    proof {
        assert(s >= 1) by (nonlinear_arith)
            requires
                p >= 1,
                (p as int) * (SCALE as int) < ((s as int) + 1) * ((s as int) + 1),
        ;
    }
    Ok(s)
}

/// A first match at position `i` determines the lookup.
proof fn lemma_nonce_lookup_at(s: Seq<(u64, u64)>, id: u64, i: int)
    requires
        0 <= i < s.len(),
        s[i].0 == id,
        forall|j: int| 0 <= j < i ==> (#[trigger] s[j]).0 != id,
    ensures
        nonce_lookup(s, id) == s[i].1 as int,
    decreases i,
{
    if i > 0 {
        let rest = s.subrange(1, s.len() as int);
        lemma_nonce_lookup_at(rest, id, i - 1);
    }
}

/// With no match anywhere, the lookup is zero.
proof fn lemma_nonce_lookup_absent(s: Seq<(u64, u64)>, id: u64)
    requires
        forall|j: int| 0 <= j < s.len() ==> (#[trigger] s[j]).0 != id,
    ensures
        nonce_lookup(s, id) == 0,
    decreases s.len(),
{
    if s.len() > 0 {
        let rest = s.subrange(1, s.len() as int);
        lemma_nonce_lookup_absent(rest, id);
    }
}

/// Appending an entry for one identity leaves other lookups unchanged, and
/// determines the appended identity's lookup when it was absent.
proof fn lemma_nonce_lookup_push(s: Seq<(u64, u64)>, p: (u64, u64), id: u64)
    ensures
        id != p.0 ==> nonce_lookup(s.push(p), id) == nonce_lookup(s, id),
        id == p.0 && (forall|j: int| 0 <= j < s.len() ==> (#[trigger] s[j]).0 != id)
            ==> nonce_lookup(s.push(p), id) == p.1 as int,
    decreases s.len(),
{
    let sp = s.push(p);
    if s.len() == 0 {
        assert(sp[0] == p);
        if id != p.0 {
            assert(sp.subrange(1, 1) =~= Seq::<(u64, u64)>::empty());
            assert(nonce_lookup(sp, id) == nonce_lookup(sp.subrange(1, 1), id));
            assert(nonce_lookup(s, id) == 0);
        }
    } else {
        let rest = s.subrange(1, s.len() as int);
        assert(sp[0] == s[0]);
        assert(sp.subrange(1, sp.len() as int) =~= rest.push(p));
        lemma_nonce_lookup_push(rest, p, id);
        if id != p.0 {
            if s[0].0 == id {
                assert(nonce_lookup(sp, id) == s[0].1 as int);
                assert(nonce_lookup(s, id) == s[0].1 as int);
            } else {
                assert(nonce_lookup(sp, id) == nonce_lookup(rest.push(p), id));
                assert(nonce_lookup(s, id) == nonce_lookup(rest, id));
            }
        }
        if id == p.0 && (forall|j: int| 0 <= j < s.len() ==> (#[trigger] s[j]).0 != id) {
            assert(s[0].0 != id);
            assert forall|j: int| 0 <= j < rest.len() implies (#[trigger] rest[j]).0 != id by {
                assert(rest[j] == s[j + 1]);
            }
            assert(nonce_lookup(sp, id) == nonce_lookup(rest.push(p), id));
        }
    }
}

/// First index carrying the identity, if any.
fn find_nonce_index(nonces: &Vec<(u64, u64)>, id: u64) -> (r: Option<usize>)
    ensures
        r matches Some(i) ==> i < nonces@.len() && nonces@[i as int].0 == id && (forall|j: int|
            0 <= j < i ==> (#[trigger] nonces@[j]).0 != id),
        r is None ==> forall|j: int| 0 <= j < nonces@.len() ==> (#[trigger] nonces@[j]).0 != id,
{
    let n: usize = nonces.len();
    let mut i: usize = 0;
    while i < n
        invariant
            0 <= i <= n,
            n == nonces@.len(),
            forall|j: int| 0 <= j < i ==> (#[trigger] nonces@[j]).0 != id,
        decreases n - i,
    {
        if nonces[i].0 == id {
            return Some(i);
        }
        i = i + 1;
    }
    None
}

/// Updating the first matching entry leaves other lookups unchanged.
proof fn lemma_nonce_lookup_update_other(
    before: Seq<(u64, u64)>,
    after: Seq<(u64, u64)>,
    i: int,
    id: u64,
)
    requires
        0 <= i < before.len(),
        after =~= before.update(i, (id, after[i].1)),
        before[i].0 == id,
    ensures
        forall|other: u64|
            other != id ==> #[trigger] nonce_lookup(after, other) == nonce_lookup(before, other),
    decreases i,
{
    assert forall|other: u64| other != id implies #[trigger] nonce_lookup(after, other)
        == nonce_lookup(before, other) by {
        lemma_nonce_lookup_update_other_one(before, after, i, id, other);
    }
}

/// Updating the first matching entry leaves one other lookup unchanged.
proof fn lemma_nonce_lookup_update_other_one(
    before: Seq<(u64, u64)>,
    after: Seq<(u64, u64)>,
    i: int,
    id: u64,
    other: u64,
)
    requires
        0 <= i < before.len(),
        after =~= before.update(i, (id, after[i].1)),
        before[i].0 == id,
        other != id,
    ensures
        nonce_lookup(after, other) == nonce_lookup(before, other),
    decreases i,
{
    if i == 0 {
        assert(after.subrange(1, after.len() as int) =~= before.subrange(1, before.len() as int));
    } else {
        let brest = before.subrange(1, before.len() as int);
        let arest = after.subrange(1, after.len() as int);
        assert(arest =~= brest.update(i - 1, (id, arest[i - 1].1)));
        lemma_nonce_lookup_update_other_one(brest, arest, i - 1, id, other);
    }
}

} // verus!
