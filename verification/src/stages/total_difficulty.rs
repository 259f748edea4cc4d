//! The total difficulty stage: the running total of block difficulties.
use crate::primitives::{spec_add, BlockNumber, U256};
use crate::stages::checkpoint::{EntitiesCheckpoint, StageCheckpoint, StageId, StageUnitCheckpoint};
use crate::stages::stage::{ExecInput, ExecOutput, Stage, UnwindInput, UnwindOutput};
use vstd::prelude::*;

verus! {

/// The running totals from `td`: the total after each difficulty in turn.
pub open spec fn running_totals(td: U256, difficulties: Seq<U256>) -> Seq<U256>
    decreases difficulties.len(),
{
    if difficulties.len() == 0 {
        seq![]
    } else {
        let rest = running_totals(td, difficulties.drop_last());
        let prev = if rest.len() == 0 { td } else { rest.last() };
        rest.push(spec_add(prev, difficulties.last()))
    }
}

/// What the execution of the stage does next.
#[derive(Clone, Copy, Debug, PartialEq, Eq, Structural)]
pub enum TotalDifficultyPlan {
    /// The target is reached; the stage is done with this output.
    Done(ExecOutput),
    /// Write the totals of the blocks `start..=end`; the batch is the final
    /// one when `is_final_range`.
    Write {
        /// First block of the batch.
        start_block: BlockNumber,
        /// Last block of the batch.
        end_block: BlockNumber,
        /// Whether the batch reaches the target.
        is_final_range: bool,
    },
}

/// The total difficulty stage: writes, for each header, the total
/// difficulty of the chain up to it.
#[derive(Clone, Copy, Debug, PartialEq, Eq, Structural)]
pub struct TotalDifficultyStage {
    /// The number of table entries to commit at once.
    pub commit_threshold: u64,
}

impl TotalDifficultyStage {
    /// Creates a new total difficulty stage.
    pub fn new() -> (r: TotalDifficultyStage)
        ensures
            r.commit_threshold == 100_000,
    {
        TotalDifficultyStage { commit_threshold: 100_000 }
    }

    /// Sets a commit threshold on the stage.
    pub fn with_commit_threshold(self, commit_threshold: u64) -> (r: TotalDifficultyStage)
        ensures
            r.commit_threshold == commit_threshold,
    {
        TotalDifficultyStage { commit_threshold }
    }

    /// Decides what the execution does: done when the target is reached,
    /// else the next batch of at most `commit_threshold` blocks.
    pub fn execution_plan(&self, input: &ExecInput) -> (r: TotalDifficultyPlan)
        ensures
            ({
                let cp = input.checkpoint_spec().block_number;
                let capped = if cp + self.commit_threshold > u64::MAX { u64::MAX as int } else { cp + self.commit_threshold };
                let end = if input.target_spec() < capped { input.target_spec() as int } else { capped };
                r == if cp >= input.target_spec() {
                    TotalDifficultyPlan::Done(ExecOutput { checkpoint: input.checkpoint_spec(), done: true })
                } else {
                    TotalDifficultyPlan::Write { start_block: (cp + 1) as u64, end_block: end as u64, is_final_range: end == input.target_spec() }
                }
            }),
    {
        if input.target_reached() {
            return TotalDifficultyPlan::Done(ExecOutput::done(input.checkpoint()));
        }
        let (start_block, end_block, is_final_range) = input.next_block_bounds_with_threshold(self.commit_threshold);
        TotalDifficultyPlan::Write { start_block, end_block, is_final_range }
    }

    /// The totals to write: from the last stored total, the total after
    /// each header's difficulty in turn, wrapping as 256-bit numbers do.
    pub fn totals(td: U256, difficulties: &Vec<U256>) -> (r: Vec<U256>)
        ensures
            r@ == running_totals(td, difficulties@),
    {
        let mut out: Vec<U256> = Vec::new();
        let mut current = td;
        let mut k: usize = 0;
        while k < difficulties.len()
            invariant
                k <= difficulties.len(),
                out@ == running_totals(td, difficulties@.subrange(0, k as int)),
                current == if k == 0 { td } else { out@.last() },
            decreases difficulties.len() - k,
        {
            proof {
                let s = difficulties@.subrange(0, k + 1);
                assert(s.drop_last() =~= difficulties@.subrange(0, k as int));
                assert(s.last() == difficulties@[k as int]);
            }
            current = current.wrapping_add(difficulties[k]);
            out.push(current);
            k += 1;
        }
        proof { assert(difficulties@.subrange(0, k as int) =~= difficulties@); }
        out
    }

    /// What the execution reports after a batch up to `end_block`: the
    /// counts of stored totals and headers as progress.
    pub fn execute_output(end_block: BlockNumber, is_final_range: bool, processed: u64, total: u64) -> (r: ExecOutput)
        ensures
            r == (ExecOutput {
                checkpoint: StageCheckpoint { block_number: end_block, stage_checkpoint: Some(StageUnitCheckpoint::Entities(EntitiesCheckpoint { processed, total })) },
                done: is_final_range,
            }),
    {
        ExecOutput {
            checkpoint: StageCheckpoint::new(end_block).with_entities_stage_checkpoint(EntitiesCheckpoint { processed, total }),
            done: is_final_range,
        }
    }

    /// The block an unwind goes down to in one batch of at most
    /// `commit_threshold` blocks.
    pub fn unwind_target(&self, input: &UnwindInput) -> (r: BlockNumber)
        requires
            input.unwind_to < u64::MAX,
        ensures
            ({
                let low = if input.checkpoint.block_number < self.commit_threshold { 0 } else { input.checkpoint.block_number - self.commit_threshold };
                let start = if input.unwind_to + 1 < low { low } else { input.unwind_to + 1 };
                r == start - 1
            }),
    {
        let (_, unwind_to, _) = input.unwind_block_range_with_threshold(self.commit_threshold);
        unwind_to
    }

    /// What the unwind reports: the block it went down to, with the counts
    /// of stored totals and headers as progress.
    pub fn unwind_output(unwind_to: BlockNumber, processed: u64, total: u64) -> (r: UnwindOutput)
        ensures
            r == (UnwindOutput {
                checkpoint: StageCheckpoint { block_number: unwind_to, stage_checkpoint: Some(StageUnitCheckpoint::Entities(EntitiesCheckpoint { processed, total })) },
            }),
    {
        UnwindOutput { checkpoint: StageCheckpoint::new(unwind_to).with_entities_stage_checkpoint(EntitiesCheckpoint { processed, total }) }
    }
}

impl Stage for TotalDifficultyStage {
    open spec fn spec_id(&self) -> StageId {
        StageId::TotalDifficulty
    }

    fn id(&self) -> (r: StageId) {
        StageId::TotalDifficulty
    }
}

} // verus!
