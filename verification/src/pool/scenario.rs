//! Scenarios that exercise the pool with generated transactions.
use crate::primitives::{Address, U256};
use vstd::prelude::*;

verus! {

/// A kind of scenario to run.
#[derive(Clone, Copy, Debug, PartialEq, Eq, Structural)]
pub enum ScenarioType {
    /// Send a transaction with the sender's on-chain nonce.
    OnchainNonce,
    /// Send a transaction `skip` nonces above the sender's on-chain nonce.
    HigherNonce {
        /// How many nonces to skip.
        skip: u64,
    },
}

/// A scenario ready to be executed: it produces one or more transactions
/// and expects a certain outcome.
#[derive(Debug)]
pub enum Scenario {
    /// Send a transaction with the same nonce as on chain.
    OnchainNonce {
        /// The nonce.
        nonce: u64,
    },
    /// Send a transaction with a higher nonce than the sender has on chain.
    HigherNonce {
        /// The sender's on-chain nonce.
        onchain: u64,
        /// The transaction's nonce.
        nonce: u64,
    },
    /// Execute multiple test scenarios.
    Multi {
        /// The scenarios, in order.
        scenario: Vec<Scenario>,
    },
}

/// A scenario that was executed.
#[derive(Debug)]
pub struct ExecutedScenario {
    /// The sender's balance at the time of execution.
    pub balance: U256,
    /// The sender's nonce at the time of execution.
    pub nonce: u64,
    /// The executed scenario.
    pub scenario: Scenario,
}

/// All scenarios executed by a sender.
#[derive(Debug)]
pub struct ExecutedScenarios {
    /// The sender.
    pub sender: Address,
    /// The executed scenarios, in order.
    pub scenarios: Vec<ExecutedScenario>,
}

} // verus!
