//! The stored indices of a block's transactions.
use crate::primitives::TxNumber;
use std::ops::Range;
use vstd::prelude::*;

verus! {

/// Total number of transactions.
pub type NumTransactions = u64;

/// Where a block's transactions sit in the global transaction table: the
/// number of its first transaction and how many it has.
///
/// For an empty block, `first_tx_num` is the number of the first
/// transaction of the next non-empty block.
#[derive(Clone, Copy, Debug, PartialEq, Eq, Structural)]
pub struct StoredBlockBodyIndices {
    /// The number of the first transaction in this block.
    pub first_tx_num: TxNumber,
    /// The total number of transactions in the block.
    pub tx_count: NumTransactions,
}

impl StoredBlockBodyIndices {
    /// The numbers of the block's transactions fit in a `u64`.
    pub open spec fn fits(&self) -> bool {
        self.first_tx_num + self.tx_count <= u64::MAX
    }

    /// Returns the range of transaction numbers of this block.
    pub fn tx_num_range(&self) -> (r: Range<TxNumber>)
        requires
            self.fits(),
        ensures
            r.start == self.first_tx_num,
            r.end == self.first_tx_num + self.tx_count,
    {
        self.first_tx_num..self.first_tx_num + self.tx_count
    }

    /// Returns the number of the last transaction of this block; for an
    /// empty block, the one just before its first transaction number.
    pub fn last_tx_num(&self) -> (r: TxNumber)
        ensures
            r == (if self.first_tx_num + self.tx_count > u64::MAX {
                u64::MAX - 1
            } else if self.first_tx_num + self.tx_count == 0 {
                0
            } else {
                self.first_tx_num + self.tx_count - 1
            }),
    {
        self.first_tx_num.saturating_add(self.tx_count).saturating_sub(1)
    }

    /// Returns the number of the first transaction.
    pub fn first_tx_num(&self) -> (r: TxNumber)
        ensures
            r == self.first_tx_num,
    {
        self.first_tx_num
    }

    /// Returns the number of the transaction after this block.
    pub fn next_tx_num(&self) -> (r: TxNumber)
        requires
            self.fits(),
        ensures
            r == self.first_tx_num + self.tx_count,
    {
        self.first_tx_num + self.tx_count
    }

    /// Returns whether the block has no transactions.
    pub fn is_empty(&self) -> (r: bool)
        ensures
            r == (self.tx_count == 0),
    {
        self.tx_count == 0
    }

    /// Returns the number of transactions in the block.
    pub fn tx_count(&self) -> (r: NumTransactions)
        ensures
            r == self.tx_count,
    {
        self.tx_count
    }
}

impl Default for StoredBlockBodyIndices {
    fn default() -> (r: StoredBlockBodyIndices)
        ensures
            r == (StoredBlockBodyIndices { first_tx_num: 0, tx_count: 0 }),
    {
        StoredBlockBodyIndices { first_tx_num: 0, tx_count: 0 }
    }
}

} // verus!
