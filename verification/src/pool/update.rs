//! Moves of pooled transactions between sub-pools.
use crate::pool::identifier::TransactionId;
use crate::pool::state::SubPool;
use crate::primitives::TxHash;
use vstd::prelude::*;

verus! {

/// Where to move an existing transaction.
#[derive(Clone, Copy, Debug, PartialEq, Eq, Structural)]
pub enum Destination {
    /// Discard the transaction.
    Discard,
    /// Move transaction to pool.
    Pool(SubPool),
}

impl Destination {
    /// The destination of moving into a sub-pool.
    pub fn from_subpool(sub_pool: SubPool) -> (r: Destination)
        ensures
            r == Destination::Pool(sub_pool),
    {
        Destination::Pool(sub_pool)
    }
}

/// A change of the transaction's location.
///
/// When the destination is a sub-pool, it differs from `current`.
#[derive(Clone, Copy, Debug, PartialEq, Eq, Structural)]
pub struct PoolUpdate {
    /// Internal tx id.
    pub id: TransactionId,
    /// Hash of the transaction.
    pub hash: TxHash,
    /// Where the transaction is currently held.
    pub current: SubPool,
    /// Where to move the transaction to.
    pub destination: Destination,
}

} // verus!
