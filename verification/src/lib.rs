//! Discrete-time simulation harness for evaluating liquidity-provisioning
//! strategies against a constant-function market pool whose state is held by
//! a ledger.
//!
//! The harness advances a synthetic theoretical-value process over fixed
//! steps, keeps the pool's price near that value through an arbitrage agent,
//! and invokes user-supplied strategy logic once per step with an immutable
//! snapshot of pool and price state.
//!
//! All quantities are fixed-point integers scaled by [`fixed::SCALE`]; the
//! tick grid follows `price(tick) = 1.0001^tick`.
use vstd::prelude::*;

pub use crate::arena::{Arena, ArenaBuilder};
pub use crate::config::Config;
pub use crate::engine::arbitrageur::{Arbitrageur, EmptyArbitrageur, FixedArbitrageur};
pub use crate::engine::inspector::{EmptyInspector, Inspector, LogMessage, Logger};
pub use crate::engine::Engine;
pub use crate::feed::{Feed, GeometricBrownianMotion, OrnsteinUhlenbeck};
pub use crate::strategy::Strategy;

/// Fixed-point arithmetic helpers shared by the numerical components.
pub mod fixed;

/// Contains error types for Arena.
pub mod error;

/// Deterministic noise for the price feeds.
pub mod rng;

/// Contains the types for various price processes.
pub mod feed;

/// The tick grid of pool prices.
pub mod tick;

/// The in-memory ledger of the simulation.
pub mod ledger;

/// Defines core simulation logic types.
pub mod engine;

/// Defines the base strategy trait.
pub mod strategy;

/// Contains configuration types for the simulation.
pub mod config;

/// The message-driven agent seam of the instruction engine.
pub mod agent;

/// The loop controller of a message-driven run.
pub mod orchestrator;

/// The deployment agent's decision logic.
pub mod deployer;

/// The pool administrator's decision logic.
pub mod pool_admin;

/// The liquidity administrator's decision logic.
pub mod liquidity_admin;

/// Defines the main simulation runtime.
pub mod arena;

/// The arbitrage sizing agent.
pub mod arbitrageur;

/// The price-changing agent.
pub mod price_changer;

verus! {

/// An isolated ledger-facing actor (account) used by one scheduler role.
///
/// The simulation core carries identities only to route calls; it never
/// interprets them.
#[derive(Clone, Copy, PartialEq, Eq, Structural, Debug)]
pub struct AccountId(pub u64);

/// Identifying data of a pool: its two assets, fee tier, tick spacing and
/// hook account.
#[derive(Clone, Copy, PartialEq, Eq, Structural, Debug)]
pub struct PoolKey {
    /// First asset of the pair.
    pub currency0: AccountId,
    /// Second asset of the pair.
    pub currency1: AccountId,
    /// Fee tier of the pool, in parts per million.
    pub fee: u32,
    /// Spacing of usable ticks.
    pub tick_spacing: i32,
    /// Account of the pool's hook contract.
    pub hooks: AccountId,
}

/// A signal that is passed to a strategy to provide information about the
/// current state of the pool.
///
/// A signal is immutable and rebuilt every step; `step` is `None` only for
/// the initialization call that precedes the step loop.
#[derive(Clone, Copy, Debug)]
pub struct Signal {
    /// Current price of the external reference exchange, scaled by
    /// [`fixed::SCALE`].
    pub lex_price: u128,

    /// Current step of the simulation.
    pub step: Option<usize>,

    /// Current tick of the pool.
    pub tick: i32,

    /// Square root of the current pool price, scaled by [`fixed::SCALE`].
    pub sqrt_price: u128,

    /// Pool manager.
    pub manager: AccountId,

    /// Pool key.
    pub pool: PoolKey,

    /// Fetcher.
    pub fetcher: AccountId,

    /// Current value of the price feed, scaled by [`fixed::SCALE`].
    pub current_value: i128,

    /// The arena controller.
    pub controller: AccountId,
}

impl Signal {
    /// Public constructor function for a new [`Signal`].
    pub fn new(
        lex_price: u128,
        step: Option<usize>,
        tick: i32,
        sqrt_price: u128,
        manager: AccountId,
        pool: PoolKey,
        fetcher: AccountId,
        current_value: i128,
        controller: AccountId,
    ) -> (s: Signal)
        ensures
            s == (Signal {
                lex_price,
                step,
                tick,
                sqrt_price,
                manager,
                pool,
                fetcher,
                current_value,
                controller,
            }),
    {
        Signal {
            lex_price,
            step,
            tick,
            sqrt_price,
            manager,
            pool,
            fetcher,
            current_value,
            controller,
        }
    }
}

} // verus!
