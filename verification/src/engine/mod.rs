//! Defines core simulation logic types, such as an
//! [`arbitrageur::Arbitrageur`].
use vstd::prelude::*;

/// Defines a trait for custom arbitrage strategies.
pub mod arbitrageur;

/// Defines a trait that allows custom strategy logging and telemetry.
pub mod inspector;

verus! {

use crate::error::ArenaError;
use crate::ledger::{nonce_lookup, Ledger, LedgerCall, LIQ_CAP, POSITION_CAP, Position};
use crate::tick::MAX_TICK_MAG;
use crate::AccountId;

/// Abstraction to allow strategies to call state changing functions on the
/// pool without having to worry about transaction plumbing.
///
/// The engine owns the ledger connection and is the only channel through
/// which a strategy may mutate pool state. It attaches a per-identity,
/// monotonically increasing sequence number to every submission, so that
/// submissions of one identity never race.
pub struct Engine {
    /// The arena controller.
    pub controller: AccountId,
    /// The ledger the engine submits to.
    pub ledger: Ledger,
}

impl Engine {
    /// Well-formedness of the engine's state.
    pub open spec fn wf(&self) -> bool {
        self.ledger.wf()
    }

    /// What any agent invocation leaves intact: the controller binding, the
    /// reference price, the pool's presence, and the call record, which only
    /// grows and gains no price updates. Pushing the reference price is the
    /// scheduler's job alone.
    pub open spec fn preserves_admin(pre: &Engine, post: &Engine) -> bool {
        &&& post.controller == pre.controller
        &&& post.ledger.price == pre.ledger.price
        &&& (pre.ledger.pool is Some ==> post.ledger.pool is Some)
        &&& pre.ledger.calls@.is_prefix_of(post.ledger.calls@)
        &&& forall|i: int|
            pre.ledger.calls@.len() <= i < post.ledger.calls@.len() ==> !((
            #[trigger] post.ledger.calls@[i]) is PriceUpdate)
    }

    /// Public constructor function for a new [`Engine`].
    pub fn new(controller: AccountId, ledger: Ledger) -> (e: Engine)
        requires
            ledger.wf(),
        ensures
            e.wf(),
            e.controller == controller,
            e.ledger == ledger,
    {
        Engine { controller, ledger }
    }

    /// Modify pool liquidity.
    ///
    /// The engine obtains the identity's next sequence number immediately
    /// before submission and attaches it; on success the identity's counter
    /// has advanced by one. Any ledger rejection surfaces as
    /// [`ArenaError::LedgerCallFailed`]; the engine never retries.
    pub fn modify_liquidity(
        &mut self,
        liquidity_delta: i128,
        tick_lower: i32,
        tick_upper: i32,
        identity: AccountId,
    ) -> (r: Result<(), ArenaError>)
        requires
            old(self).wf(),
        ensures
            final(self).wf(),
            Engine::preserves_admin(old(self), final(self)),
            final(self).ledger.pool == old(self).ledger.pool,
            r matches Ok(()) ==> {
                &&& tick_lower < tick_upper && -MAX_TICK_MAG <= tick_lower && tick_upper
                    <= MAX_TICK_MAG && -LIQ_CAP <= liquidity_delta <= LIQ_CAP && old(
                    self,
                ).ledger.positions@.len() < POSITION_CAP
                &&& final(self).ledger.positions@ == old(self).ledger.positions@.push(
                    Position { tick_lower, tick_upper, delta: liquidity_delta },
                )
                &&& final(self).ledger.calls@ == old(self).ledger.calls@.push(
                    LedgerCall::LiquidityChange {
                        sender: identity,
                        nonce: (nonce_lookup(old(self).ledger.nonces@, identity.0)) as u64,
                        delta: liquidity_delta,
                        tick_lower,
                        tick_upper,
                    },
                )
                &&& (nonce_lookup(old(self).ledger.nonces@, identity.0) < u64::MAX
                    ==> nonce_lookup(final(self).ledger.nonces@, identity.0) == nonce_lookup(
                    old(self).ledger.nonces@,
                    identity.0,
                ) + 1)
            },
            r matches Err(e) ==> {
                &&& e == ArenaError::LedgerCallFailed
                &&& *final(self) == *old(self)
                &&& (tick_lower >= tick_upper || tick_lower < -MAX_TICK_MAG || tick_upper
                    > MAX_TICK_MAG || liquidity_delta < -LIQ_CAP || liquidity_delta > LIQ_CAP
                    || old(self).ledger.positions@.len() >= POSITION_CAP)
            },
    {
        let r = self.ledger.submit_liquidity_change(
            identity,
            liquidity_delta,
            tick_lower,
            tick_upper,
        );
        proof {
            if r is Ok {
                assert(old(self).ledger.calls@.is_prefix_of(self.ledger.calls@)) by {
                    assert(self.ledger.calls@.subrange(0, old(self).ledger.calls@.len() as int)
                        =~= old(self).ledger.calls@);
                }
            }
        }
        r
    }
}

} // verus!
