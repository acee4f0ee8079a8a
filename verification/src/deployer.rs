//! The deployment agent's decision logic.
//!
//! The deployer reacts to deployment requests by naming the outside action
//! to perform; the surrounding application carries the action out and
//! feeds announcements back. Only the decisions live here.
use vstd::prelude::*;

verus! {

use crate::{AccountId, PoolKey};

/// The deployment agent.
#[derive(Clone, Copy, PartialEq, Eq, Structural, Debug)]
pub struct Deployer {
    /// The pool manager's account, once deployed.
    pub manager: Option<AccountId>,
}

/// Identifying and initialization data of a pool to create.
#[derive(Debug)]
pub struct PoolParams {
    /// Identifying data of the pool.
    pub key: PoolKey,
    /// Square root of the initial price, scaled.
    pub sqrt_price: u128,
    /// Hook data passed at initialization.
    pub hook_data: Vec<u8>,
}

impl Clone for PoolParams {
    /// An equal copy of the parameters.
    fn clone(&self) -> (r: PoolParams)
        ensures
            r.key == self.key,
            r.sqrt_price == self.sqrt_price,
            r.hook_data@ == self.hook_data@,
    {
        PoolParams {
            key: self.key,
            sqrt_price: self.sqrt_price,
            hook_data: self.hook_data.clone(),
        }
    }
}

/// A request to deploy or initialize a ledger-side object.
#[derive(Clone, Debug)]
pub enum DeploymentRequest {
    /// Deploy a token.
    Token {
        /// Name of the token.
        name: String,
        /// Ticker symbol of the token.
        symbol: String,
        /// Number of decimals of the token.
        decimals: u8,
    },
    /// Deploy a reference exchange between two tokens.
    LiquidExchange {
        /// First token of the pair.
        token_0: AccountId,
        /// Second token of the pair.
        token_1: AccountId,
        /// Initial reference price, scaled.
        initial_price: u128,
    },
    /// Initialize a pool.
    Pool(PoolParams),
}

/// An announcement that a ledger-side object exists.
#[derive(Clone, Debug)]
pub enum DeploymentResponse {
    /// A token was deployed at this account.
    Token(AccountId),
    /// A reference exchange was deployed at this account.
    LiquidExchange(AccountId),
    /// The pool manager was deployed at this account.
    PoolManager(AccountId),
    /// The fetcher was deployed at this account.
    Fetcher(AccountId),
    /// The liquidity provider was deployed at this account.
    LiquidityProvider(AccountId),
    /// A pool was initialized with these parameters.
    Pool(PoolParams),
}

/// The outside action a deployment request calls for.
#[derive(Clone, Debug)]
pub enum DeployerAction {
    /// Deploy a token and announce its account.
    DeployToken {
        /// Name of the token.
        name: String,
        /// Ticker symbol of the token.
        symbol: String,
        /// Number of decimals of the token.
        decimals: u8,
    },
    /// Deploy a reference exchange at the given scaled price and announce
    /// its account.
    DeployLiquidExchange {
        /// First token of the pair.
        token_0: AccountId,
        /// Second token of the pair.
        token_1: AccountId,
        /// Initial reference price, scaled.
        initial_price: u128,
    },
    /// Initialize the pool through the manager and announce the parameters.
    InitializePool {
        /// The pool manager's account.
        manager: AccountId,
        /// The pool to initialize.
        params: PoolParams,
    },
}

impl Deployer {
    /// Public constructor function for a new [`Deployer`].
    pub fn new() -> (d: Deployer)
        ensures
            d.manager is None,
    {
        Deployer { manager: None }
    }

    /// Record the manager's account once it is announced.
    pub fn startup(&mut self, manager: AccountId)
        ensures
            final(self).manager == Some(manager),
    {
        self.manager = Some(manager);
    }

    /// Decide the outside action for one deployment request.
    ///
    /// A pool request before the manager is known yields no action.
    pub fn process(&self, event: DeploymentRequest) -> (r: Option<DeployerAction>)
        ensures
            match event {
                DeploymentRequest::Token { name, symbol, decimals } => r matches Some(
                    DeployerAction::DeployToken { name: n, symbol: s, decimals: d },
                ) && n@ == name@ && s@ == symbol@ && d == decimals,
                DeploymentRequest::LiquidExchange { token_0, token_1, initial_price } => r matches
                    Some(
                    DeployerAction::DeployLiquidExchange { token_0: a, token_1: b, initial_price: p },
                ) && a == token_0 && b == token_1 && p == initial_price,
                DeploymentRequest::Pool(params) => match self.manager {
                    Some(m) => r matches Some(DeployerAction::InitializePool { manager, params: q })
                        && manager == m && q.key == params.key && q.sqrt_price == params.sqrt_price
                        && q.hook_data@ == params.hook_data@,
                    None => r is None,
                },
            },
    {
        match event {
            DeploymentRequest::Token { name, symbol, decimals } => Some(
                DeployerAction::DeployToken { name, symbol, decimals },
            ),
            DeploymentRequest::LiquidExchange { token_0, token_1, initial_price } => Some(
                DeployerAction::DeployLiquidExchange { token_0, token_1, initial_price },
            ),
            DeploymentRequest::Pool(params) => match self.manager {
                Some(m) => Some(DeployerAction::InitializePool { manager: m, params }),
                None => None,
            },
        }
    }
}

} // verus!
