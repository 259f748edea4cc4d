//! The pool handle offered to users.
use crate::pool::config::PoolConfig;
use crate::pool::graph::TxPool;
use crate::pool::identifier::{SenderId, TransactionId};
use crate::pool::ordering::{CoinbaseTipOrdering, TransactionOrdering};
use crate::pool::state::SubPool;
use crate::pool::txpool::{PoolInternalTransaction, SenderInfo, ETHEREUM_BLOCK_GAS_LIMIT, MIN_PROTOCOL_BASE_FEE};
use crate::primitives::H256;
use crate::pool::validate::ValidPoolTransaction;
use vstd::prelude::*;

verus! {

/// A transaction pool: the pool of transactions under the given ordering.
///
/// Validation of incoming transactions happens before they reach it.
pub struct Pool<T: TransactionOrdering> {
    /// The pool internals.
    pub pool: TxPool<T>,
}

impl<T: TransactionOrdering> Pool<T> {
    /// Creates a new transaction pool instance.
    pub fn new(ordering: T, config: PoolConfig) -> (r: Pool<T>)
        ensures
            r.pool.wf(),
            r.pool.complete(),
            r.pool.records() == Map::<TransactionId, PoolInternalTransaction>::empty(),
            forall|p: SubPool| #[trigger] r.pool.sub(p) == Map::<TransactionId, ValidPoolTransaction>::empty(),
            r.pool.sender_info@ == Map::<SenderId, SenderInfo>::empty(),
            r.pool.config == config,
            r.pool.pending_pool.ordering == ordering,
            r.pool.all_transactions.max_account_slots == config.max_account_slots,
            r.pool.all_transactions.pending_basefee == 0,
            r.pool.all_transactions.minimal_protocol_basefee == MIN_PROTOCOL_BASE_FEE,
            r.pool.all_transactions.block_gas_limit == ETHEREUM_BLOCK_GAS_LIMIT,
            r.pool.all_transactions.last_seen_block_number == 0,
            r.pool.all_transactions.last_seen_block_hash == H256(0, 0),
    {
        Pool { pool: TxPool::new(ordering, config) }
    }

    /// Returns the wrapped pool.
    pub fn inner(&self) -> (r: &TxPool<T>)
        ensures
            *r == self.pool,
    {
        &self.pool
    }

    /// Returns the config the pool was configured with.
    pub fn config(&self) -> (r: &PoolConfig)
        ensures
            *r == self.pool.config,
    {
        &self.inner().config
    }

    /// Number of transactions in the entire pool.
    pub fn len(&self) -> (r: usize)
        requires
            self.pool.wf(),
        ensures
            r == self.pool.records().len(),
    {
        self.pool.len()
    }

    /// Whether the pool is empty.
    pub fn is_empty(&self) -> (r: bool)
        requires
            self.pool.wf(),
        ensures
            r == (self.pool.records().len() == 0),
    {
        self.pool.is_empty()
    }
}

impl Pool<CoinbaseTipOrdering> {
    /// Returns a new pool that orders transactions by their coinbase tip.
    pub fn eth_pool(config: PoolConfig) -> (r: Pool<CoinbaseTipOrdering>)
        ensures
            r.pool.wf(),
            r.pool.complete(),
            r.pool.records() == Map::<TransactionId, PoolInternalTransaction>::empty(),
            forall|p: SubPool| #[trigger] r.pool.sub(p) == Map::<TransactionId, ValidPoolTransaction>::empty(),
            r.pool.sender_info@ == Map::<SenderId, SenderInfo>::empty(),
            r.pool.config == config,
            r.pool.pending_pool.ordering == CoinbaseTipOrdering,
            r.pool.all_transactions.max_account_slots == config.max_account_slots,
            r.pool.all_transactions.pending_basefee == 0,
            r.pool.all_transactions.minimal_protocol_basefee == MIN_PROTOCOL_BASE_FEE,
            r.pool.all_transactions.block_gas_limit == ETHEREUM_BLOCK_GAS_LIMIT,
            r.pool.all_transactions.last_seen_block_number == 0,
            r.pool.all_transactions.last_seen_block_hash == H256(0, 0),
    {
        Pool::new(CoinbaseTipOrdering, config)
    }
}

} // verus!
