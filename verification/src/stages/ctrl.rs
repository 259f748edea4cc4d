//! What the pipeline does after a stage ran.
use crate::primitives::{BlockNumber, SealedHeader};
use vstd::prelude::*;

verus! {

/// Determines the control flow during pipeline execution.
#[derive(Clone, Copy, Debug, PartialEq, Eq, Structural)]
pub enum ControlFlow {
    /// An unwind was requested and must be performed before continuing.
    Unwind {
        /// The block to unwind to.
        target: BlockNumber,
        /// The block that caused the unwind.
        bad_block: SealedHeader,
    },
    /// The pipeline is allowed to continue executing stages.
    Continue {
        /// The block the last stage reached.
        progress: BlockNumber,
    },
    /// The pipeline made no progress.
    NoProgress {
        /// The current stage progress.
        stage_progress: Option<BlockNumber>,
    },
}

impl ControlFlow {
    /// Whether the pipeline should continue executing stages.
    pub fn should_continue(&self) -> (r: bool)
        ensures
            r == (self is Continue || self is NoProgress),
    {
        match self {
            ControlFlow::Continue { .. } | ControlFlow::NoProgress { .. } => true,
            ControlFlow::Unwind { .. } => false,
        }
    }

    /// Returns true if the control flow is unwind.
    pub fn is_unwind(&self) -> (r: bool)
        ensures
            r == self is Unwind,
    {
        match self {
            ControlFlow::Unwind { .. } => true,
            _ => false,
        }
    }

    /// Returns the pipeline progress, if the state is not `Unwind`.
    pub fn progress(&self) -> (r: Option<BlockNumber>)
        ensures
            r == match *self {
                ControlFlow::Unwind { .. } => None::<BlockNumber>,
                ControlFlow::Continue { progress } => Some(progress),
                ControlFlow::NoProgress { stage_progress } => stage_progress,
            },
    {
        match self {
            ControlFlow::Unwind { .. } => None,
            ControlFlow::Continue { progress } => Some(*progress),
            ControlFlow::NoProgress { stage_progress } => *stage_progress,
        }
    }
}

} // verus!
