//! Defines a trait for custom arbitrage strategies.
use vstd::prelude::*;

verus! {

use crate::engine::Engine;
use crate::error::ArenaError;
use crate::ledger::{nonce_lookup, tick_grid_fails, LedgerCall};
use crate::tick::{price_of_tick_spec, ratio_in_range, MAX_TICK_MAG};
use crate::{AccountId, Signal};

/// Generic trait allowing user defined arbitrage strategies.
pub trait Arbitrageur {
    /// Initialize arbitrageur agent.
    fn init(&mut self, signal: &Signal, identity: AccountId, engine: &mut Engine)
        requires
            old(engine).wf(),
        ensures
            final(engine).wf(),
            Engine::preserves_admin(old(engine), final(engine)),
    ;

    /// Perform an arbitrage based on a [`Signal`].
    ///
    /// A failed ledger interaction is reported to the scheduler, which
    /// treats it as fatal to the run.
    fn arbitrage(&mut self, signal: &Signal, identity: AccountId, engine: &mut Engine) -> (r:
        Result<(), ArenaError>)
        requires
            old(engine).wf(),
            old(engine).ledger.pool is Some,
        ensures
            final(engine).wf(),
            Engine::preserves_admin(old(engine), final(engine)),
    ;
}

/// Default implementation of an [`Arbitrageur`] that asks the ledger to
/// move the pool price to the reference price on every step.
pub struct FixedArbitrageur {
    /// The fixed depth bound attached to each request.
    pub depth: u128,
}

impl Default for FixedArbitrageur {
    /// A [`FixedArbitrageur`] with no depth bound.
    fn default() -> (r: FixedArbitrageur)
        ensures
            r.depth == 0,
    {
        FixedArbitrageur { depth: 0 }
    }
}

impl Arbitrageur for FixedArbitrageur {
    fn init(&mut self, signal: &Signal, identity: AccountId, engine: &mut Engine)
        ensures
            *final(engine) == *old(engine),
            *final(self) == *old(self),
    {
    }

    /// Asks the ledger for exactly one price equalization per invocation,
    /// under the given identity with the configured depth bound; a
    /// rejection surfaces unchanged.
    fn arbitrage(&mut self, signal: &Signal, identity: AccountId, engine: &mut Engine) -> (r:
        Result<(), ArenaError>)
        ensures
            *final(self) == *old(self),
            r matches Ok(()) ==> final(engine).ledger.calls@ == old(engine).ledger.calls@.push(
                LedgerCall::Equalize {
                    sender: identity,
                    nonce: (nonce_lookup(old(engine).ledger.nonces@, identity.0)) as u64,
                    depth: old(self).depth,
                },
            ) && (final(engine).ledger.pool matches Some(p) && price_of_tick_spec(p.tick as int)
                <= old(engine).ledger.price < price_of_tick_spec(p.tick as int + 1)),
            r matches Err(e) ==> e == ArenaError::LedgerCallFailed
                && final(engine).ledger.price == old(engine).ledger.price
                && final(engine).ledger.pool == old(engine).ledger.pool
                && final(engine).ledger.positions@ == old(engine).ledger.positions@
                && final(engine).ledger.calls@ == old(engine).ledger.calls@,
            ratio_in_range(MAX_TICK_MAG as nat) && price_of_tick_spec(-MAX_TICK_MAG as int) <= old(
                engine,
            ).ledger.price < price_of_tick_spec(MAX_TICK_MAG as int) && (forall|t: int|
                -MAX_TICK_MAG <= t < MAX_TICK_MAG ==> !#[trigger] tick_grid_fails(t)) ==> r is Ok,
    {
        let r = engine.ledger.equalize_price(identity, self.depth);
        proof {
            if r is Ok {
                assert(old(engine).ledger.calls@.is_prefix_of(engine.ledger.calls@)) by {
                    assert(engine.ledger.calls@.subrange(
                        0,
                        old(engine).ledger.calls@.len() as int,
                    ) =~= old(engine).ledger.calls@);
                }
            }
        }
        r
    }
}

/// No-op implementation of an [`Arbitrageur`] for custom usecases.
pub struct EmptyArbitrageur;

impl Arbitrageur for EmptyArbitrageur {
    fn init(&mut self, signal: &Signal, identity: AccountId, engine: &mut Engine)
        ensures
            *final(engine) == *old(engine),
            *final(self) == *old(self),
    {
    }

    /// Issues no call and always succeeds.
    fn arbitrage(&mut self, signal: &Signal, identity: AccountId, engine: &mut Engine) -> (r:
        Result<(), ArenaError>)
        ensures
            r is Ok,
            *final(engine) == *old(engine),
            *final(self) == *old(self),
    {
        Ok(())
    }
}

} // verus!
