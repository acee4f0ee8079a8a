//! The liquidity administrator's decision logic.
//!
//! The liquidity administrator waits for the manager and pool
//! announcements, then applies allocation requests to the ledger.
use vstd::prelude::*;

verus! {

use crate::deployer::{DeploymentResponse, PoolParams};
use crate::error::ArenaError;
use crate::ledger::{nonce_lookup, Ledger, LedgerCall, Position, LIQ_CAP, POSITION_CAP};
use crate::tick::MAX_TICK_MAG;
use crate::{AccountId, PoolKey};

/// The liquidity administration agent.
#[derive(Clone, Debug)]
pub struct LiquidityAdmin {
    /// The pool manager's account, once announced.
    pub deployment: Option<AccountId>,
    /// The liquidity provider's account, once announced.
    pub lp: Option<AccountId>,
    /// The pool's parameters, once announced.
    pub pool: Option<PoolParams>,
}

/// A request to change liquidity over a tick range of a pool.
#[derive(Clone, Debug)]
pub struct AllocationRequest {
    /// Identifying data of the pool.
    pub pool: PoolKey,
    /// First tick of the range.
    pub tick_lower: i32,
    /// First tick past the range.
    pub tick_upper: i32,
    /// Signed liquidity contribution.
    pub liquidity_delta: i128,
    /// Hook data passed with the change.
    pub hook_data: Vec<u8>,
}

impl LiquidityAdmin {
    /// Public constructor function for a new [`LiquidityAdmin`].
    pub fn new() -> (a: LiquidityAdmin)
        ensures
            a.deployment is None,
            a.lp is None,
            a.pool is None,
    {
        LiquidityAdmin { deployment: None, lp: None, pool: None }
    }

    /// Absorb one announcement; reports whether startup is complete.
    pub fn startup(&mut self, event: &DeploymentResponse) -> (done: bool)
        ensures
            event matches DeploymentResponse::PoolManager(a) ==> final(self).deployment == Some(*a)
                && final(self).pool == old(self).pool && final(self).lp == old(self).lp,
            event matches DeploymentResponse::Pool(q) ==> (final(self).pool matches Some(p)
                && p.key == q.key && p.sqrt_price == q.sqrt_price && p.hook_data@ == q.hook_data@)
                && final(self).deployment == old(self).deployment && final(self).lp == old(
                self,
            ).lp,
            event matches DeploymentResponse::LiquidityProvider(a) ==> final(self).lp == Some(*a)
                && final(self).deployment == old(self).deployment && final(self).pool == old(
                self,
            ).pool,
            done == (final(self).deployment is Some && final(self).pool is Some),
    {
        match event {
            DeploymentResponse::PoolManager(address) => {
                self.deployment = Some(*address);
            },
            DeploymentResponse::Pool(pool_params) => {
                self.pool = Some(pool_params.clone());
            },
            DeploymentResponse::LiquidityProvider(address) => {
                self.lp = Some(*address);
            },
            _ => {},
        }
        self.deployment.is_some() && self.pool.is_some()
    }

    /// Apply one allocation request to the ledger under the given
    /// identity.
    ///
    /// Fails with [`ArenaError::ConfigurationError`] before startup is
    /// complete; otherwise the ledger's acceptance rules decide.
    pub fn process(&self, event: &AllocationRequest, identity: AccountId, ledger: &mut Ledger) -> (
        r: Result<(), ArenaError>)
        requires
            old(ledger).wf(),
        ensures
            final(ledger).wf(),
            !self.complete_spec() ==> (r matches Err(e) && e == ArenaError::ConfigurationError
                && *final(ledger) == *old(ledger)),
            self.complete_spec() ==> (r matches Ok(()) ==> {
                &&& final(ledger).positions@ == old(ledger).positions@.push(
                    Position {
                        tick_lower: event.tick_lower,
                        tick_upper: event.tick_upper,
                        delta: event.liquidity_delta,
                    },
                )
                &&& final(ledger).calls@ == old(ledger).calls@.push(
                    LedgerCall::LiquidityChange {
                        sender: identity,
                        nonce: (nonce_lookup(old(ledger).nonces@, identity.0)) as u64,
                        delta: event.liquidity_delta,
                        tick_lower: event.tick_lower,
                        tick_upper: event.tick_upper,
                    },
                )
            }),
            self.complete_spec() ==> (r matches Err(e) ==> (e == ArenaError::LedgerCallFailed
                && *final(ledger) == *old(ledger) && (event.tick_lower >= event.tick_upper
                || event.tick_lower < -MAX_TICK_MAG || event.tick_upper > MAX_TICK_MAG
                || event.liquidity_delta < -LIQ_CAP || event.liquidity_delta > LIQ_CAP || old(
                ledger,
            ).positions@.len() >= POSITION_CAP))),
    {
        if self.deployment.is_none() || self.pool.is_none() {
            return Err(ArenaError::ConfigurationError);
        }
        ledger.submit_liquidity_change(
            identity,
            event.liquidity_delta,
            event.tick_lower,
            event.tick_upper,
        )
    }

    /// Whether startup has announced everything the agent needs.
    pub open spec fn complete_spec(&self) -> bool {
        self.deployment is Some && self.pool is Some
    }
}

} // verus!
