//! Limits and settings of the pool.
use vstd::prelude::*;

verus! {

/// Guarantees max transactions for one sender, compatible with geth/erigon.
pub const TXPOOL_MAX_ACCOUNT_SLOTS_PER_SENDER: usize = 16;

/// The default maximum allowed number of transactions in the given subpool.
pub const TXPOOL_SUBPOOL_MAX_TXS_DEFAULT: usize = 10_000;

/// The default maximum allowed size of the given subpool, in megabytes.
pub const TXPOOL_SUBPOOL_MAX_SIZE_MB_DEFAULT: usize = 20;

/// Default price bump (in %) for the transaction pool underpriced check.
pub const DEFAULT_PRICE_BUMP: u128 = 10;

/// Replace blob price bump (in %) for the transaction pool underpriced check.
pub const REPLACE_BLOB_PRICE_BUMP: u128 = 100;

/// Size limits for a sub-pool.
#[derive(Clone, Copy, Debug)]
pub struct SubPoolLimit {
    /// Maximum amount of transaction in the pool.
    pub max_txs: usize,
    /// Maximum combined size (in bytes) of transactions in the pool.
    pub max_size: usize,
}

impl SubPoolLimit {
    /// The size or amount constraint is violated.
    pub open spec fn is_exceeded_spec(&self, txs: nat, size: nat) -> bool {
        self.max_txs < txs || self.max_size < size
    }

    /// Returns whether the size or amount constraint is violated.
    pub fn is_exceeded(&self, txs: usize, size: usize) -> (r: bool)
        ensures
            r == self.is_exceeded_spec(txs as nat, size as nat),
    {
        self.max_txs < txs || self.max_size < size
    }

    /// Either 10k transactions or 20MB.
    pub fn default_limit() -> (r: SubPoolLimit)
        ensures
            r.max_txs == TXPOOL_SUBPOOL_MAX_TXS_DEFAULT,
            r.max_size == TXPOOL_SUBPOOL_MAX_SIZE_MB_DEFAULT * 1024 * 1024,
    {
        SubPoolLimit {
            max_txs: TXPOOL_SUBPOOL_MAX_TXS_DEFAULT,
            max_size: TXPOOL_SUBPOOL_MAX_SIZE_MB_DEFAULT * 1024 * 1024,
        }
    }
}

impl Default for SubPoolLimit {
    fn default() -> (r: SubPoolLimit)
        ensures
            r.max_txs == TXPOOL_SUBPOOL_MAX_TXS_DEFAULT,
            r.max_size == TXPOOL_SUBPOOL_MAX_SIZE_MB_DEFAULT * 1024 * 1024,
    {
        SubPoolLimit::default_limit()
    }
}

/// Price bump config (in %) for the transaction pool underpriced check.
#[derive(Clone, Copy, Debug)]
pub struct PriceBumpConfig {
    /// Default price bump (in %) for the transaction pool underpriced check.
    pub default_price_bump: u128,
    /// Replace blob price bump (in %) for the transaction pool underpriced check.
    pub replace_blob_tx_price_bump: u128,
}

impl Default for PriceBumpConfig {
    fn default() -> (r: PriceBumpConfig)
        ensures
            r.default_price_bump == DEFAULT_PRICE_BUMP,
            r.replace_blob_tx_price_bump == REPLACE_BLOB_PRICE_BUMP,
    {
        PriceBumpConfig {
            default_price_bump: DEFAULT_PRICE_BUMP,
            replace_blob_tx_price_bump: REPLACE_BLOB_PRICE_BUMP,
        }
    }
}

/// Configuration options for the transaction pool.
#[derive(Clone, Copy, Debug)]
pub struct PoolConfig {
    /// Max number of transaction in the pending sub-pool.
    pub pending_limit: SubPoolLimit,
    /// Max number of transaction in the basefee sub-pool.
    pub basefee_limit: SubPoolLimit,
    /// Max number of transaction in the queued sub-pool.
    pub queued_limit: SubPoolLimit,
    /// Max number of executable transaction slots guaranteed per account.
    pub max_account_slots: usize,
    /// Price bump (in %) for the transaction pool underpriced check.
    pub price_bump: u128,
}

/// Whether a limit is the default one.
pub open spec fn is_default_limit(l: SubPoolLimit) -> bool {
    l.max_txs == TXPOOL_SUBPOOL_MAX_TXS_DEFAULT && l.max_size == TXPOOL_SUBPOOL_MAX_SIZE_MB_DEFAULT
        * 1024 * 1024
}

impl PoolConfig {
    /// The default configuration.
    pub fn default_config() -> (r: PoolConfig)
        ensures
            is_default_limit(r.pending_limit),
            is_default_limit(r.basefee_limit),
            is_default_limit(r.queued_limit),
            r.max_account_slots == TXPOOL_MAX_ACCOUNT_SLOTS_PER_SENDER,
            r.price_bump == DEFAULT_PRICE_BUMP,
    {
        PoolConfig {
            pending_limit: SubPoolLimit::default_limit(),
            basefee_limit: SubPoolLimit::default_limit(),
            queued_limit: SubPoolLimit::default_limit(),
            max_account_slots: TXPOOL_MAX_ACCOUNT_SLOTS_PER_SENDER,
            price_bump: PriceBumpConfig::default().default_price_bump,
        }
    }
}

impl Default for PoolConfig {
    fn default() -> (r: PoolConfig)
        ensures
            is_default_limit(r.pending_limit),
            is_default_limit(r.basefee_limit),
            is_default_limit(r.queued_limit),
            r.max_account_slots == TXPOOL_MAX_ACCOUNT_SLOTS_PER_SENDER,
            r.price_bump == DEFAULT_PRICE_BUMP,
    {
        PoolConfig::default_config()
    }
}

} // verus!
