//! The pool administrator's decision logic.
//!
//! The pool administrator waits for the manager's announcement, then
//! initializes pools on request against the ledger.
use vstd::prelude::*;

verus! {

use crate::deployer::{DeploymentRequest, DeploymentResponse};
use crate::error::ArenaError;
use crate::ledger::{pool_binding_ok, Ledger};
use crate::tick::price_of_tick_spec;
use crate::{AccountId, PoolKey};

/// The pool administration agent.
#[derive(Clone, Copy, PartialEq, Eq, Structural, Debug)]
pub struct PoolAdmin {
    /// The pool manager's account, once announced.
    pub deployment: Option<AccountId>,
}

/// Initialization data of a pool, as the administrator carries it.
#[derive(Clone, Debug)]
pub struct PoolParams {
    key: PoolKey,
    sqrt_price: u128,
    hook_data: Vec<u8>,
}

impl PoolParams {
    /// Public constructor function for new pool parameters.
    pub fn new(key: PoolKey, sqrt_price: u128, hook_data: Vec<u8>) -> (p: PoolParams)
        ensures
            p.key_spec() == key,
            p.sqrt_price_spec() == sqrt_price,
    {
        PoolParams { key, sqrt_price, hook_data }
    }

    /// Identifying data of the pool.
    pub closed spec fn key_spec(&self) -> PoolKey {
        self.key
    }

    /// Square root of the initial price, scaled.
    pub closed spec fn sqrt_price_spec(&self) -> u128 {
        self.sqrt_price
    }
}

impl PoolAdmin {
    /// Public constructor function for a new [`PoolAdmin`].
    pub fn new() -> (a: PoolAdmin)
        ensures
            a.deployment is None,
    {
        PoolAdmin { deployment: None }
    }

    /// Absorb one announcement; reports whether startup is complete.
    pub fn startup(&mut self, event: &DeploymentResponse) -> (done: bool)
        ensures
            event matches DeploymentResponse::PoolManager(a) ==> final(self).deployment == Some(*a)
                && done,
            !(event is PoolManager) ==> *final(self) == *old(self) && (done == old(
                self,
            ).deployment is Some),
    {
        match event {
            DeploymentResponse::PoolManager(address) => {
                self.deployment = Some(*address);
                true
            },
            _ => self.deployment.is_some(),
        }
    }

    /// Initialize a pool on request against the ledger.
    ///
    /// Requests other than pool creation are ignored. A request before the
    /// manager is announced fails with
    /// [`ArenaError::ConfigurationError`].
    pub fn process(&self, event: &DeploymentRequest, ledger: &mut Ledger) -> (r: Result<
        bool,
        ArenaError,
    >)
        requires
            old(ledger).wf(),
        ensures
            final(ledger).wf(),
            !(event is Pool) ==> (r matches Ok(applied) && !applied && *final(ledger) == *old(
                ledger,
            )),
            event is Pool && self.deployment is None ==> (r matches Err(e) && e
                == ArenaError::ConfigurationError && *final(ledger) == *old(ledger)),
            event matches DeploymentRequest::Pool(params) ==> (self.deployment is Some ==> {
                &&& (r matches Ok(applied) ==> applied && (final(ledger).pool matches Some(p)
                    && p.key == params.key && p.fee == params.key.fee
                    && p.tick_spacing == params.key.tick_spacing
                    && price_of_tick_spec(p.tick as int) <= (params.sqrt_price as int)
                    * (params.sqrt_price as int) / (crate::fixed::SCALE as int)
                    < price_of_tick_spec(p.tick as int + 1))
                    && final(ledger).price == old(ledger).price
                    && final(ledger).positions@ == old(ledger).positions@
                    && final(ledger).calls@ == old(ledger).calls@
                    && final(ledger).nonces@ == old(ledger).nonces@)
                &&& (r matches Err(e) ==> (e == ArenaError::ConfigurationError || e
                    == ArenaError::InvalidNumericInput) && *final(ledger) == *old(ledger))
                &&& (1 <= params.sqrt_price <= 0xFFFF_FFFF_FFFF_FFFFu128
                    && pool_binding_ok(params.sqrt_price as int) ==> r is Ok)
            }),
            (r matches Ok(applied) && applied) ==> final(ledger).pool is Some,
    {
        match event {
            DeploymentRequest::Pool(params) => {
                if self.deployment.is_none() {
                    return Err(ArenaError::ConfigurationError);
                }
                if params.sqrt_price < 1 || params.sqrt_price > 0xFFFF_FFFF_FFFF_FFFFu128 {
                    return Err(ArenaError::ConfigurationError);
                }
                proof {
                    assert(params.sqrt_price * params.sqrt_price <= u128::MAX) by (nonlinear_arith)
                        requires
                            params.sqrt_price <= 0xFFFF_FFFF_FFFF_FFFFu128,
                    ;
                }
                match ledger.set_pool(params.key, params.key.fee, params.key.tick_spacing,
                    params.sqrt_price) {
                    Ok(()) => Ok(true),
                    Err(e) => Err(e),
                }
            },
            _ => Ok(false),
        }
    }
}

} // verus!
