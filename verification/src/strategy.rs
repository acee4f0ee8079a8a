//! Defines the base strategy trait.
use vstd::prelude::*;

verus! {

use crate::engine::inspector::Inspector;
use crate::engine::Engine;
use crate::{AccountId, Signal};

/// Represents a strategy that can be run in an arena.
///
/// A strategy is invoked through its own ledger identity and mutates pool
/// state only through the engine, so its submissions never race another
/// identity's sequence numbers.
pub trait Strategy<V, I: Inspector<V>> {
    /// Initialization function for the strategy to be run upon simulation
    /// startup.
    fn init(
        &mut self,
        identity: AccountId,
        signal: &Signal,
        inspector: &mut I,
        engine: &mut Engine,
    )
        requires
            old(engine).wf(),
        ensures
            final(engine).wf(),
            Engine::preserves_admin(old(engine), final(engine)),
    ;

    /// Processing function for the strategy to be run each simulation step.
    fn process(
        &mut self,
        identity: AccountId,
        signal: &Signal,
        inspector: &mut I,
        engine: &mut Engine,
    )
        requires
            old(engine).wf(),
        ensures
            final(engine).wf(),
            Engine::preserves_admin(old(engine), final(engine)),
    ;
}

/// No-op implementation of a [`Strategy`] for isolation tests and as a
/// template.
pub struct EmptyStrategy;

impl<V, I: Inspector<V>> Strategy<V, I> for EmptyStrategy {
    /// Touches nothing.
    fn init(
        &mut self,
        identity: AccountId,
        signal: &Signal,
        inspector: &mut I,
        engine: &mut Engine,
    )
        ensures
            *final(engine) == *old(engine),
            *final(inspector) == *old(inspector),
            *final(self) == *old(self),
    {
    }

    /// Touches nothing.
    fn process(
        &mut self,
        identity: AccountId,
        signal: &Signal,
        inspector: &mut I,
        engine: &mut Engine,
    )
        ensures
            *final(engine) == *old(engine),
            *final(inspector) == *old(inspector),
            *final(self) == *old(self),
    {
    }
}

} // verus!
