//! The price-changing agent: steps a feed and pushes its value to the
//! ledger's reference exchange.
use vstd::prelude::*;

verus! {

use crate::error::ArenaError;
use crate::feed::Feed;
use crate::fixed::NOISE_CAP;
use crate::ledger::{Ledger, LedgerCall};
use crate::AccountId;

/// A request to advance the reference price by one step.
#[derive(Clone, Copy, PartialEq, Eq, Structural, Debug)]
pub struct PriceUpdate;

/// The announcement that a price step was applied.
#[derive(Clone, Copy, PartialEq, Eq, Structural, Debug)]
pub struct Signal;

/// The price-changing agent: owns the feed whose values become the
/// reference price.
pub struct PriceChanger<T: Feed> {
    /// The stochastic process producing the theoretical value.
    pub process: T,
    /// The reference exchange's account, once announced.
    pub lex: Option<AccountId>,
}

impl<T: Feed> PriceChanger<T> {
    /// Public constructor function for a new [`PriceChanger`].
    pub fn new(process: T) -> (p: PriceChanger<T>)
        ensures
            p.process == process,
            p.lex is None,
    {
        PriceChanger { process, lex: None }
    }

    /// Record the reference exchange's account once it is announced.
    pub fn startup(&mut self, lex: AccountId)
        ensures
            final(self).process == old(self).process,
            final(self).lex == Some(lex),
    {
        self.lex = Some(lex);
    }

    /// Advance the feed by one step with the given noise sample and push
    /// the new value to the ledger as the reference price.
    ///
    /// A feed value outside the bounds, or one that is not a positive
    /// price, fails with [`ArenaError::InvalidNumericInput`] and leaves
    /// the ledger unchanged.
    pub fn process(&mut self, noise: i128, ledger: &mut Ledger) -> (r: Result<(), ArenaError>)
        requires
            old(self).process.wf(),
            -NOISE_CAP <= noise <= NOISE_CAP,
            old(ledger).wf(),
        ensures
            final(self).process.wf(),
            final(self).lex == old(self).lex,
            final(ledger).wf(),
            r matches Ok(()) ==> {
                &&& !old(self).process.step_fails(noise as int)
                &&& final(self).process == old(self).process.stepped(noise as int)
                &&& final(self).process.value_spec() >= 1
                &&& final(ledger).price as int == final(self).process.value_spec()
                &&& final(ledger).calls@ == old(ledger).calls@.push(
                    LedgerCall::PriceUpdate { value: final(ledger).price },
                )
            },
            r matches Err(e) ==> e == ArenaError::InvalidNumericInput && *final(ledger) == *old(
                ledger,
            ) && (old(self).process.step_fails(noise as int) || old(self).process.stepped(
                noise as int,
            ).value_spec() < 1),
    {
        let value: i128 = match self.process.step(noise) {
            Ok(v) => v,
            Err(e) => {
                return Err(e);
            },
        };
        if value < 1 {
            return Err(ArenaError::InvalidNumericInput);
        }
        ledger.submit_price_update(value as u128)
    }
}

} // verus!
