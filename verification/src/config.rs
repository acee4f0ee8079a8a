//! Contains configuration types for the simulation.
use vstd::prelude::*;

verus! {

use crate::AccountId;

/// Configuration for the simulation.
pub struct Config {
    /// Number of steps to run the simulation for.
    pub steps: usize,

    /// Pool manager fee, in parts per million.
    pub manager_fee: u32,

    /// Pool tick spacing.
    pub tick_spacing: i32,

    /// Pool hook data.
    pub hook_data: Vec<u8>,

    /// Square root of the pool's initial price, scaled.
    pub sqrt_price: u128,

    /// Pool fee, in parts per million.
    pub pool_fee: u32,

    /// Initial reference price, scaled.
    pub initial_price: u128,

    /// Pool hooks.
    pub hooks: AccountId,
}

impl Config {
    /// Public constructor function for a new [`Config`].
    pub fn new(
        steps: usize,
        manager_fee: u32,
        tick_spacing: i32,
        hook_data: Vec<u8>,
        sqrt_price: u128,
        pool_fee: u32,
        initial_price: u128,
        hooks: AccountId,
    ) -> (c: Config)
        ensures
            c.steps == steps,
            c.manager_fee == manager_fee,
            c.tick_spacing == tick_spacing,
            c.hook_data@ == hook_data@,
            c.sqrt_price == sqrt_price,
            c.pool_fee == pool_fee,
            c.initial_price == initial_price,
            c.hooks == hooks,
    {
        Config {
            steps,
            manager_fee,
            tick_spacing,
            hook_data,
            sqrt_price,
            pool_fee,
            initial_price,
            hooks,
        }
    }
}

} // verus!
