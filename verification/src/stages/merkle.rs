//! The merkle stage: the decisions around computing the state root.
//!
//! The stage comes in two parts. The execution part runs after the hashing
//! stages and computes the state root; the unwind part runs before them and
//! unwinds the intermediate hashes. The computation of the root itself is
//! the caller's work; what to compute, and what the stage reports, is
//! decided here.
use crate::primitives::{BlockNumber, SealedHeader, H256};
use crate::stages::checkpoint::{checkpoint_or_default, EntitiesCheckpoint, StageCheckpoint, StageId, StageUnitCheckpoint};
use crate::stages::stage::{ExecInput, ExecOutput, Stage, UnwindInput, UnwindOutput};
use vstd::prelude::*;

verus! {

/// The merkle hashing stage.
#[derive(Clone, Copy, Debug, PartialEq, Eq, Structural)]
pub enum MerkleStage {
    /// The execution portion of the merkle stage.
    Execution {
        /// The number of blocks above which the trie is rebuilt instead of
        /// updated incrementally.
        clean_threshold: u64,
    },
    /// The unwind portion of the merkle stage.
    Unwind,
    /// Able to execute and unwind.
    Both {
        /// The number of blocks above which the trie is rebuilt instead of
        /// updated incrementally.
        clean_threshold: u64,
    },
}

/// What the execution part computes.
#[derive(Clone, Copy, Debug, PartialEq, Eq, Structural)]
pub enum MerkleExecPlan {
    /// Nothing to compute; the stage is done with this output.
    Done(ExecOutput),
    /// No new blocks: the target block's root stands, with this progress.
    BlockRoot {
        /// The target block.
        to_block: BlockNumber,
        /// The progress over hashed entries.
        entities: EntitiesCheckpoint,
    },
    /// Rebuild the trie from the hashed state.
    Rebuild {
        /// First block of the range.
        from_block: BlockNumber,
        /// Last block of the range.
        to_block: BlockNumber,
        /// Whether the saved progress of an earlier rebuild towards the same
        /// block is resumed; otherwise it is dropped with the tries.
        resume: bool,
        /// The progress over hashed entries to resume from, if any; when
        /// none, counting starts at zero of all hashed entries.
        entities: Option<EntitiesCheckpoint>,
    },
    /// Update the trie with the changes of the range.
    Incremental {
        /// First block of the range.
        from_block: BlockNumber,
        /// Last block of the range.
        to_block: BlockNumber,
    },
}

/// What the unwind part does.
#[derive(Clone, Copy, Debug, PartialEq, Eq, Structural)]
pub enum MerkleUnwindPlan {
    /// Nothing to do; the stage reports this output.
    Done(UnwindOutput),
    /// Unwinding to the genesis block: clear the tries and report this
    /// output.
    Clear(UnwindOutput),
    /// Unwind the changes of the range, check the root against the target
    /// block, and report this output.
    Incremental {
        /// First block of the range.
        from_block: BlockNumber,
        /// Last block of the range.
        to_block: BlockNumber,
        /// The output once the root checks out.
        output: UnwindOutput,
    },
}

/// A computed state root differs from the one a block commits to.
#[derive(Clone, Copy, Debug, PartialEq, Eq, Structural)]
pub struct StateRootMismatch {
    /// The block whose root was expected.
    pub block: SealedHeader,
    /// The computed root.
    pub got: H256,
    /// The root the block commits to.
    pub expected: H256,
}

impl MerkleStage {
    /// Stage default for the execution part.
    pub fn default_execution() -> (r: MerkleStage)
        ensures
            r == (MerkleStage::Execution { clean_threshold: 50_000 }),
    {
        MerkleStage::Execution { clean_threshold: 50_000 }
    }

    /// Stage default for the unwind part.
    pub fn default_unwind() -> (r: MerkleStage)
        ensures
            r == MerkleStage::Unwind,
    {
        MerkleStage::Unwind
    }

    /// Creates the execution part with the given threshold.
    pub fn new_execution(clean_threshold: u64) -> (r: MerkleStage)
        ensures
            r == (MerkleStage::Execution { clean_threshold }),
    {
        MerkleStage::Execution { clean_threshold }
    }

    /// Checks that the computed state root matches the root in the expected
    /// header.
    pub fn validate_state_root(&self, got: H256, expected: SealedHeader) -> (r: Result<(), StateRootMismatch>)
        ensures
            r == if got == expected.state_root {
                Ok(())
            } else {
                Err(StateRootMismatch { block: expected, got, expected: expected.state_root })
            },
    {
        if got.0 == expected.state_root.0 && got.1 == expected.state_root.1 {
            Ok(())
        } else {
            Err(StateRootMismatch { block: expected, got, expected: expected.state_root })
        }
    }

    /// Decides what the execution part computes, given the block a saved
    /// rebuild was working towards, if any.
    ///
    /// The unwind part is always done at the target. With no new blocks,
    /// the target's root stands. A range longer than the threshold, or one
    /// that starts at the first block, rebuilds the trie; otherwise it is
    /// updated incrementally.
    pub fn execution_plan(&self, input: &ExecInput, saved_target: Option<BlockNumber>) -> (r: MerkleExecPlan)
        requires
            *self == MerkleStage::Unwind || input.checkpoint_spec().block_number < u64::MAX,
        ensures
            ({
                let from = input.checkpoint_spec().block_number + 1;
                let to = input.target_spec();
                let entities = match input.checkpoint_spec().stage_checkpoint {
                    Some(StageUnitCheckpoint::Entities(c)) => Some(c),
                    _ => None::<EntitiesCheckpoint>,
                };
                r == match *self {
                    MerkleStage::Unwind => MerkleExecPlan::Done(ExecOutput { checkpoint: StageCheckpoint { block_number: to, stage_checkpoint: None }, done: true }),
                    MerkleStage::Execution { clean_threshold } | MerkleStage::Both { clean_threshold } => {
                        if from > to {
                            MerkleExecPlan::BlockRoot { to_block: to, entities: match entities { Some(c) => c, None => EntitiesCheckpoint { processed: 0, total: 0 } } }
                        } else if to - from > clean_threshold || from == 1 {
                            let resume = saved_target == Some(to);
                            MerkleExecPlan::Rebuild { from_block: from as u64, to_block: to, resume, entities: if resume { entities } else { None } }
                        } else {
                            MerkleExecPlan::Incremental { from_block: from as u64, to_block: to }
                        }
                    },
                }
            }),
    {
        let threshold = match self {
            MerkleStage::Unwind => {
                return MerkleExecPlan::Done(ExecOutput::done(StageCheckpoint::new(input.target())));
            },
            MerkleStage::Execution { clean_threshold } => *clean_threshold,
            MerkleStage::Both { clean_threshold } => *clean_threshold,
        };
        let from_block = input.next_block();
        let to_block = input.target();
        let entities = input.checkpoint().entities_stage_checkpoint();
        if from_block > to_block {
            let entities = match entities {
                Some(c) => c,
                None => EntitiesCheckpoint::zero(),
            };
            MerkleExecPlan::BlockRoot { to_block, entities }
        } else if to_block - from_block > threshold || from_block == 1 {
            let resume = match saved_target {
                Some(t) => t == to_block,
                None => false,
            };
            MerkleExecPlan::Rebuild { from_block, to_block, resume, entities: if resume { entities } else { None } }
        } else {
            MerkleExecPlan::Incremental { from_block, to_block }
        }
    }

    /// What the execution part reports when a rebuild stopped part way,
    /// having walked `walked` more hashed entries: not done, at the same
    /// block, with the progress counted on.
    pub fn partial_rebuild_output(input: &ExecInput, entities: EntitiesCheckpoint, walked: u64) -> (r: ExecOutput)
        requires
            entities.processed + walked <= u64::MAX,
        ensures
            r == (ExecOutput {
                checkpoint: StageCheckpoint {
                    block_number: input.checkpoint_spec().block_number,
                    stage_checkpoint: Some(StageUnitCheckpoint::Entities(EntitiesCheckpoint { processed: (entities.processed + walked) as u64, total: entities.total })),
                },
                done: false,
            }),
    {
        let progress = EntitiesCheckpoint { processed: entities.processed + walked, total: entities.total };
        ExecOutput { checkpoint: input.checkpoint().with_entities_stage_checkpoint(progress), done: false }
    }

    /// What the execution part reports once the root of `to_block` checks
    /// out: done at that block, with the progress over hashed entries.
    pub fn final_output(to_block: BlockNumber, entities: EntitiesCheckpoint) -> (r: ExecOutput)
        ensures
            r == (ExecOutput {
                checkpoint: StageCheckpoint { block_number: to_block, stage_checkpoint: Some(StageUnitCheckpoint::Entities(entities)) },
                done: true,
            }),
    {
        ExecOutput { checkpoint: StageCheckpoint::new(to_block).with_entities_stage_checkpoint(entities), done: true }
    }

    /// Decides what the unwind part does, given the progress over hashed
    /// entries to start from when the checkpoint has none.
    ///
    /// The execution part is always done at the unwind target. Unwinding to
    /// the genesis block clears the tries and starts the count over; a
    /// non-empty range is unwound incrementally.
    pub fn unwind_plan(&self, input: &UnwindInput, fallback: EntitiesCheckpoint) -> (r: MerkleUnwindPlan)
        requires
            input.unwind_to < u64::MAX,
        ensures
            ({
                let entities = match input.checkpoint.stage_checkpoint {
                    Some(StageUnitCheckpoint::Entities(c)) => c,
                    _ => fallback,
                };
                let plain = UnwindOutput { checkpoint: StageCheckpoint { block_number: input.unwind_to, stage_checkpoint: None } };
                r == match *self {
                    MerkleStage::Execution { .. } => MerkleUnwindPlan::Done(plain),
                    _ => if input.unwind_to == 0 {
                        MerkleUnwindPlan::Clear(UnwindOutput { checkpoint: StageCheckpoint {
                            block_number: 0,
                            stage_checkpoint: Some(StageUnitCheckpoint::Entities(EntitiesCheckpoint { processed: 0, total: entities.total })),
                        } })
                    } else if input.unwind_to + 1 <= input.checkpoint.block_number {
                        MerkleUnwindPlan::Incremental { from_block: (input.unwind_to + 1) as u64, to_block: input.checkpoint.block_number, output: plain }
                    } else {
                        MerkleUnwindPlan::Done(plain)
                    },
                }
            }),
    {
        let plain = UnwindOutput { checkpoint: StageCheckpoint::new(input.unwind_to) };
        match self {
            MerkleStage::Execution { .. } => {
                return MerkleUnwindPlan::Done(plain);
            },
            _ => {},
        }
        let entities = match input.checkpoint.entities_stage_checkpoint() {
            Some(c) => c,
            None => fallback,
        };
        if input.unwind_to == 0 {
            let cleared = EntitiesCheckpoint { processed: 0, total: entities.total };
            return MerkleUnwindPlan::Clear(UnwindOutput { checkpoint: StageCheckpoint::new(input.unwind_to).with_entities_stage_checkpoint(cleared) });
        }
        let from_block = input.unwind_to + 1;
        let to_block = input.checkpoint.block_number;
        if from_block <= to_block {
            MerkleUnwindPlan::Incremental { from_block, to_block, output: plain }
        } else {
            MerkleUnwindPlan::Done(plain)
        }
    }
}

impl Stage for MerkleStage {
    open spec fn spec_id(&self) -> StageId {
        match *self {
            MerkleStage::Execution { .. } => StageId::MerkleExecute,
            MerkleStage::Unwind => StageId::MerkleUnwind,
            MerkleStage::Both { .. } => StageId::Other(0),
        }
    }

    fn id(&self) -> (r: StageId) {
        match self {
            MerkleStage::Execution { .. } => StageId::MerkleExecute,
            MerkleStage::Unwind => StageId::MerkleUnwind,
            MerkleStage::Both { .. } => StageId::Other(0),
        }
    }
}

} // verus!
