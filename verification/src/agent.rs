//! The message-driven agent seam of the instruction engine.
use vstd::prelude::*;

verus! {

use crate::AccountId;

/// One instruction of the message engine.
#[derive(Clone, Debug)]
pub enum Instruction {
    /// Create a token with the given metadata.
    CreateToken {
        /// Name of the token.
        name: String,
        /// Ticker symbol of the token.
        symbol: String,
        /// Number of decimals of the token.
        decimals: u8,
    },
    /// Create a pool between two tokens.
    CreatePool {
        /// First token of the pair.
        token_0: AccountId,
        /// Second token of the pair.
        token_1: AccountId,
        /// Fee tier, in parts per million.
        fee: u32,
        /// Spacing of usable ticks.
        tick_spacing: i32,
        /// Square root of the initial price, scaled.
        sqrt_price: u128,
    },
    /// Deliver a free-form message to an agent.
    Message {
        /// Identifier of the addressee.
        id: String,
        /// The message body.
        message: String,
    },
    /// Advance one step.
    Tick,
    /// Stop the engine.
    Halt,
}

/// An actor driven by the instruction engine.
pub trait Agent {
    /// React to one instruction, optionally emitting a follow-up.
    fn act(&mut self, event: Instruction) -> Option<Instruction>;
}

/// Whether an instruction stops the engine's dispatch loop.
pub fn halts_engine(instruction: &Instruction) -> (r: bool)
    ensures
        r == (instruction is Halt),
{
    match instruction {
        Instruction::Halt => true,
        _ => false,
    }
}

} // verus!
