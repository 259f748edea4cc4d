//! What a stage is given and what it returns.
use crate::primitives::{BlockNumber, TxNumber};
use crate::stages::checkpoint::{checkpoint_or_default, StageCheckpoint, StageId};
use crate::storage::blocks::StoredBlockBodyIndices;
use std::ops::{Range, RangeInclusive};
use vstd::prelude::*;

verus! {

/// Stage execution input.
#[derive(Clone, Copy, Debug, PartialEq, Eq, Structural)]
pub struct ExecInput {
    /// The target block number the stage needs to execute towards.
    pub target: Option<BlockNumber>,
    /// The checkpoint of this stage the last time it was executed.
    pub checkpoint: Option<StageCheckpoint>,
}

/// How far a batch of transactions reaches, before the block that holds the
/// last transaction of the batch is known.
#[derive(Clone, Copy, Debug, PartialEq, Eq, Structural)]
pub enum TxBatchPlan {
    /// The batch reaches the target: the transaction numbers, the blocks,
    /// and that it is the final range.
    Complete {
        /// First transaction number of the batch.
        first_tx_num: TxNumber,
        /// The number after the batch's last transaction.
        next_tx_num: TxNumber,
        /// First block of the batch.
        start_block: BlockNumber,
        /// Last block of the batch.
        end_block: BlockNumber,
    },
    /// The batch stops in the block that holds the transaction with this
    /// number, which must be looked up.
    EndsAtTransaction(TxNumber),
}

impl ExecInput {
    /// The checkpoint of the stage, or the default one.
    pub open spec fn checkpoint_spec(&self) -> StageCheckpoint {
        checkpoint_or_default(self.checkpoint)
    }

    /// The target block, or zero.
    pub open spec fn target_spec(&self) -> BlockNumber {
        match self.target {
            Some(t) => t,
            None => 0,
        }
    }

    /// Returns the checkpoint of the stage, or the default one at block zero.
    pub fn checkpoint(&self) -> (r: StageCheckpoint)
        ensures
            r == self.checkpoint_spec(),
    {
        match self.checkpoint {
            Some(c) => c,
            None => StageCheckpoint::default(),
        }
    }

    /// Returns the next block number after the checkpoint.
    pub fn next_block(&self) -> (r: BlockNumber)
        requires
            self.checkpoint_spec().block_number < u64::MAX,
        ensures
            r == self.checkpoint_spec().block_number + 1,
    {
        let current_block = self.checkpoint();
        current_block.block_number + 1
    }

    /// Returns whether the checkpoint has reached the target.
    pub fn target_reached(&self) -> (r: bool)
        ensures
            r == (self.checkpoint_spec().block_number >= self.target_spec()),
    {
        self.checkpoint().block_number >= self.target()
    }

    /// Returns the target block number, or zero.
    pub fn target(&self) -> (r: BlockNumber)
        ensures
            r == self.target_spec(),
    {
        match self.target {
            Some(t) => t,
            None => 0,
        }
    }

    /// Returns the next block range to execute: from the block after the
    /// checkpoint to the target.
    pub fn next_block_range(&self) -> (r: RangeInclusive<BlockNumber>)
        requires
            self.checkpoint_spec().block_number < u64::MAX,
        ensures
            r@.start == self.checkpoint_spec().block_number + 1,
            r@.end == self.target_spec(),
            !r@.exhausted,
    {
        let (range, _) = self.next_block_range_with_threshold(u64::MAX);
        range
    }

    /// Returns whether this is the first range the stage executes.
    pub fn is_first_range(&self) -> (r: bool)
        ensures
            r == self.checkpoint is None,
    {
        self.checkpoint.is_none()
    }

    /// The first and last block of the next range to execute, of at most
    /// `threshold` blocks, and whether it reaches the target.
    pub open spec fn bounds_spec(&self, threshold: u64) -> (BlockNumber, BlockNumber, bool) {
        let cp = self.checkpoint_spec().block_number;
        let capped = if cp + threshold > u64::MAX { u64::MAX as int } else { cp + threshold };
        let end = if self.target_spec() < capped { self.target_spec() as int } else { capped };
        ((cp + 1) as u64, end as u64, end == self.target_spec())
    }

    /// Returns the first and last block of the next range to execute, of at
    /// most `threshold` blocks, and whether it reaches the target.
    pub fn next_block_bounds_with_threshold(&self, threshold: u64) -> (r: (BlockNumber, BlockNumber, bool))
        requires
            self.checkpoint_spec().block_number < u64::MAX,
        ensures
            r == self.bounds_spec(threshold),
    {
        let current_block = self.checkpoint();
        let start = current_block.block_number + 1;
        let target = self.target();
        let capped = current_block.block_number.saturating_add(threshold);
        let end = if target < capped { target } else { capped };
        let is_final_range = end == target;
        (start, end, is_final_range)
    }

    /// Returns the next block range to execute, of at most `threshold`
    /// blocks, and whether it reaches the target.
    pub fn next_block_range_with_threshold(&self, threshold: u64) -> (r: (RangeInclusive<BlockNumber>, bool))
        requires
            self.checkpoint_spec().block_number < u64::MAX,
        ensures
            r.0@.start == self.bounds_spec(threshold).0,
            r.0@.end == self.bounds_spec(threshold).1,
            !r.0@.exhausted,
            r.1 == self.bounds_spec(threshold).2,
    {
        let (start, end, is_final_range) = self.next_block_bounds_with_threshold(threshold);
        (start..=end, is_final_range)
    }

    /// Plans the next batch of at most `tx_threshold` transactions, given the
    /// body indices of the block after the checkpoint and of the target
    /// block.
    ///
    /// When all transactions up to the target fit in the batch, the batch
    /// is complete; otherwise it ends in the block that holds the
    /// transaction at `first_tx_num + tx_threshold`.
    pub fn next_tx_batch_plan(&self, start_block_body: StoredBlockBodyIndices, target_block_body: StoredBlockBodyIndices, tx_threshold: u64) -> (r: TxBatchPlan)
        requires
            self.checkpoint_spec().block_number < u64::MAX,
            target_block_body.fits(),
            start_block_body.first_tx_num <= target_block_body.first_tx_num + target_block_body.tx_count,
        ensures
            ({
                let first = start_block_body.first_tx_num;
                let next = target_block_body.first_tx_num + target_block_body.tx_count;
                let start = self.checkpoint_spec().block_number + 1;
                r == if next - first == 0 {
                    TxBatchPlan::Complete { first_tx_num: first, next_tx_num: first, start_block: start as u64, end_block: self.target_spec() }
                } else if next - first <= tx_threshold {
                    TxBatchPlan::Complete { first_tx_num: first, next_tx_num: next as u64, start_block: start as u64, end_block: self.target_spec() }
                } else {
                    TxBatchPlan::EndsAtTransaction((first + tx_threshold) as u64)
                }
            }),
    {
        let start_block = self.next_block();
        let target_block = self.target();
        let first_tx_num = start_block_body.first_tx_num();
        let all_tx_cnt = target_block_body.next_tx_num() - first_tx_num;
        if all_tx_cnt == 0 {
            return TxBatchPlan::Complete { first_tx_num, next_tx_num: first_tx_num, start_block, end_block: target_block };
        }
        if all_tx_cnt <= tx_threshold {
            TxBatchPlan::Complete { first_tx_num, next_tx_num: target_block_body.next_tx_num(), start_block, end_block: target_block }
        } else {
            TxBatchPlan::EndsAtTransaction(first_tx_num + tx_threshold)
        }
    }

    /// The transaction and block ranges of a batch that ends in block
    /// `end_block`, whose body indices are given; such a batch is not the
    /// final one.
    pub fn tx_batch_ending_at(&self, start_block_body: StoredBlockBodyIndices, end_block: BlockNumber, end_block_body: StoredBlockBodyIndices) -> (r: (Range<TxNumber>, RangeInclusive<BlockNumber>, bool))
        requires
            self.checkpoint_spec().block_number < u64::MAX,
            end_block_body.fits(),
        ensures
            r.0.start == start_block_body.first_tx_num,
            r.0.end == end_block_body.first_tx_num + end_block_body.tx_count,
            r.1@.start == self.checkpoint_spec().block_number + 1,
            r.1@.end == end_block,
            !r.1@.exhausted,
            !r.2,
    {
        let start_block = self.next_block();
        let tx_range = start_block_body.first_tx_num()..end_block_body.next_tx_num();
        (tx_range, start_block..=end_block, false)
    }
}

/// Stage unwind input.
#[derive(Clone, Copy, Debug, PartialEq, Eq, Structural)]
pub struct UnwindInput {
    /// The current highest checkpoint of the stage.
    pub checkpoint: StageCheckpoint,
    /// The block to unwind to.
    pub unwind_to: BlockNumber,
    /// The bad block that caused the unwind, if any.
    pub bad_block: Option<BlockNumber>,
}

impl UnwindInput {
    /// Returns the next block range to unwind: from the block after the
    /// unwind target to the checkpoint.
    pub fn unwind_block_range(&self) -> (r: RangeInclusive<BlockNumber>)
        requires
            self.unwind_to < u64::MAX,
        ensures
            r@.start == self.unwind_to + 1,
            r@.end == self.checkpoint.block_number,
            !r@.exhausted,
    {
        self.unwind_block_range_with_threshold(u64::MAX).0
    }

    /// Returns the next block range to unwind, of at most `threshold`
    /// blocks below the checkpoint, the block it unwinds to, and whether
    /// that is the unwind target.
    pub fn unwind_block_range_with_threshold(&self, threshold: u64) -> (r: (RangeInclusive<BlockNumber>, BlockNumber, bool))
        requires
            self.unwind_to < u64::MAX,
        ensures
            ({
                let low = if self.checkpoint.block_number < threshold { 0 } else { self.checkpoint.block_number - threshold };
                let start = if self.unwind_to + 1 < low { low } else { self.unwind_to + 1 };
                &&& r.0@.start == start
                &&& r.0@.end == self.checkpoint.block_number
                &&& !r.0@.exhausted
                &&& r.1 == start - 1
                &&& r.2 == (start - 1 == self.unwind_to)
            }),
    {
        let mut start = self.unwind_to + 1;
        let end = self.checkpoint;
        let low = end.block_number.saturating_sub(threshold);
        if start < low {
            start = low;
        }
        let unwind_to = start - 1;
        let is_final_range = unwind_to == self.unwind_to;
        (start..=end.block_number, unwind_to, is_final_range)
    }
}

/// The output of a stage execution.
#[derive(Clone, Copy, Debug, PartialEq, Eq, Structural)]
pub struct ExecOutput {
    /// How far the stage got.
    pub checkpoint: StageCheckpoint,
    /// Whether or not the stage is done.
    pub done: bool,
}

impl ExecOutput {
    /// The output of a stage that is done at the given checkpoint.
    pub fn done(checkpoint: StageCheckpoint) -> (r: ExecOutput)
        ensures
            r == (ExecOutput { checkpoint, done: true }),
    {
        ExecOutput { checkpoint, done: true }
    }
}

/// The output of a stage unwinding.
#[derive(Clone, Copy, Debug, PartialEq, Eq, Structural)]
pub struct UnwindOutput {
    /// The checkpoint at which the stage has unwound to.
    pub checkpoint: StageCheckpoint,
}


/// A stage of the pipeline, as far as the pipeline's structure sees it: a
/// stage has an identifier. Running and unwinding a stage is the caller's
/// work.
pub trait Stage {
    /// The identifier of the stage.
    spec fn spec_id(&self) -> StageId;

    /// Returns the identifier of the stage.
    fn id(&self) -> (r: StageId)
        ensures
            r == self.spec_id(),
    ;
}

} // verus!
