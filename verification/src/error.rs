//! Error types for Arena.
use vstd::prelude::*;

verus! {

/// Error type for Arena.
///
/// Construction-time misconfiguration fails fast before any step runs;
/// per-step ledger errors propagate up through the step loop and terminate
/// the run. The core performs no automatic retry.
#[derive(Clone, Copy, PartialEq, Eq, Structural, Debug)]
pub enum ArenaError {
    /// A submit or query round-trip to the ledger failed.
    LedgerCallFailed,
    /// A submitted mutation was not confirmed in time.
    ConfirmationTimeout,
    /// A numerical input or result left the representable range, for example
    /// a feed output outside the value bounds or a zero-liquidity division
    /// in the arbitrage sizer.
    InvalidNumericInput,
    /// A required builder field was missing at build time.
    ConfigurationError,
}

impl ArenaError {
    /// A short human-readable description of the error.
    pub fn message(&self) -> (m: &'static str)
        ensures
            m@.len() > 0,
    {
        proof {
            reveal_strlit("ledger call failed");
            reveal_strlit("confirmation timeout");
            reveal_strlit("invalid numeric input");
            reveal_strlit("configuration error");
        }
        match self {
            ArenaError::LedgerCallFailed => "ledger call failed",
            ArenaError::ConfirmationTimeout => "confirmation timeout",
            ArenaError::InvalidNumericInput => "invalid numeric input",
            ArenaError::ConfigurationError => "configuration error",
        }
    }
}

} // verus!
