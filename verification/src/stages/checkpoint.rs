//! Stage identifiers and the checkpoints stages save.
use crate::primitives::BlockNumber;
use vstd::prelude::*;

verus! {

/// The identifier of a stage.
#[derive(Clone, Copy, Debug, PartialEq, Eq, Structural, Hash)]
pub enum StageId {
    /// Header stage.
    Headers,
    /// Total difficulty stage.
    TotalDifficulty,
    /// Body stage.
    Bodies,
    /// Sender recovery stage.
    SenderRecovery,
    /// Execution stage.
    Execution,
    /// Merkle stage, unwind part.
    MerkleUnwind,
    /// Account hashing stage.
    AccountHashing,
    /// Storage hashing stage.
    StorageHashing,
    /// Merkle stage, execution part.
    MerkleExecute,
    /// Transaction lookup stage.
    TransactionLookup,
    /// Index storage history stage.
    IndexStorageHistory,
    /// Index account history stage.
    IndexAccountHistory,
    /// Finish stage.
    Finish,
    /// Another stage, told apart by a tag.
    Other(u64),
}

/// Progress over entities of a stage: how many of how many are processed.
#[derive(Clone, Copy, Debug, PartialEq, Eq, Structural)]
pub struct EntitiesCheckpoint {
    /// Number of entities already processed.
    pub processed: u64,
    /// Total entities to be processed.
    pub total: u64,
}

impl EntitiesCheckpoint {
    /// No entities processed out of none.
    pub fn zero() -> (r: EntitiesCheckpoint)
        ensures
            r == (EntitiesCheckpoint { processed: 0, total: 0 }),
    {
        EntitiesCheckpoint { processed: 0, total: 0 }
    }
}

/// A range of blocks a stage works on: `from` to `to`, both included.
#[derive(Clone, Copy, Debug, PartialEq, Eq, Structural)]
pub struct CheckpointBlockRange {
    /// The first block of the range.
    pub from: BlockNumber,
    /// The last block of the range.
    pub to: BlockNumber,
}

/// The headers stage's progress within its block range.
#[derive(Clone, Copy, Debug, PartialEq, Eq, Structural)]
pub struct HeadersCheckpoint {
    /// The block range the stage works on.
    pub block_range: CheckpointBlockRange,
    /// How many headers are processed.
    pub progress: EntitiesCheckpoint,
}

/// The stage-specific part of a checkpoint.
#[derive(Clone, Copy, Debug, PartialEq, Eq, Structural)]
pub enum StageUnitCheckpoint {
    /// Progress over entities.
    Entities(EntitiesCheckpoint),
    /// Progress of the headers stage.
    Headers(HeadersCheckpoint),
}

/// A stage's checkpoint: the block it reached and, optionally, its own
/// finer progress.
#[derive(Clone, Copy, Debug, PartialEq, Eq, Structural)]
pub struct StageCheckpoint {
    /// The block the stage reached.
    pub block_number: BlockNumber,
    /// The stage-specific part.
    pub stage_checkpoint: Option<StageUnitCheckpoint>,
}

impl StageCheckpoint {
    /// A checkpoint at the given block with no stage-specific part.
    pub fn new(block_number: BlockNumber) -> (r: StageCheckpoint)
        ensures
            r == (StageCheckpoint { block_number, stage_checkpoint: None }),
    {
        StageCheckpoint { block_number, stage_checkpoint: None }
    }

    /// The entities progress, if that is the stage-specific part.
    pub fn entities_stage_checkpoint(&self) -> (r: Option<EntitiesCheckpoint>)
        ensures
            r == match self.stage_checkpoint {
                Some(StageUnitCheckpoint::Entities(c)) => Some(c),
                _ => None::<EntitiesCheckpoint>,
            },
    {
        match self.stage_checkpoint {
            Some(StageUnitCheckpoint::Entities(c)) => Some(c),
            _ => None,
        }
    }

    /// The checkpoint with the given entities progress as its stage-specific
    /// part.
    pub fn with_entities_stage_checkpoint(self, checkpoint: EntitiesCheckpoint) -> (r: StageCheckpoint)
        ensures
            r == (StageCheckpoint { block_number: self.block_number, stage_checkpoint: Some(StageUnitCheckpoint::Entities(checkpoint)) }),
    {
        StageCheckpoint { block_number: self.block_number, stage_checkpoint: Some(StageUnitCheckpoint::Entities(checkpoint)) }
    }

    /// The headers progress, if that is the stage-specific part.
    pub fn headers_stage_checkpoint(&self) -> (r: Option<HeadersCheckpoint>)
        ensures
            r == match self.stage_checkpoint {
                Some(StageUnitCheckpoint::Headers(c)) => Some(c),
                _ => None::<HeadersCheckpoint>,
            },
    {
        match self.stage_checkpoint {
            Some(StageUnitCheckpoint::Headers(c)) => Some(c),
            _ => None,
        }
    }

    /// The checkpoint with the given headers progress as its stage-specific
    /// part.
    pub fn with_headers_stage_checkpoint(self, checkpoint: HeadersCheckpoint) -> (r: StageCheckpoint)
        ensures
            r == (StageCheckpoint { block_number: self.block_number, stage_checkpoint: Some(StageUnitCheckpoint::Headers(checkpoint)) }),
    {
        StageCheckpoint { block_number: self.block_number, stage_checkpoint: Some(StageUnitCheckpoint::Headers(checkpoint)) }
    }
}

impl Default for StageCheckpoint {
    fn default() -> (r: StageCheckpoint)
        ensures
            r == (StageCheckpoint { block_number: 0, stage_checkpoint: None }),
    {
        StageCheckpoint::new(0)
    }
}

/// The checkpoint, or the default one at block zero when there is none.
pub open spec fn checkpoint_or_default(c: Option<StageCheckpoint>) -> StageCheckpoint {
    match c {
        Some(c) => c,
        None => StageCheckpoint { block_number: 0, stage_checkpoint: None },
    }
}

} // verus!
