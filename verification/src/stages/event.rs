//! Events the pipeline emits.
use crate::stages::checkpoint::{StageCheckpoint, StageId};
use crate::stages::stage::{ExecOutput, UnwindInput, UnwindOutput};
use vstd::prelude::*;

verus! {

/// An event emitted by the pipeline.
///
/// Many of these may be emitted over a pipeline's run: stages may ask the
/// pipeline to unwind, and the pipeline loops until a target block is
/// reached.
#[derive(Clone, Copy, Debug, PartialEq, Eq, Structural)]
pub enum PipelineEvent {
    /// A stage is about to be run.
    Running {
        /// 1-indexed position of the stage among the stages of the pipeline.
        pipeline_position: usize,
        /// Total number of stages in the pipeline.
        pipeline_total: usize,
        /// The stage that is about to be run.
        stage_id: StageId,
        /// The previous checkpoint of the stage.
        checkpoint: Option<StageCheckpoint>,
    },
    /// A stage has run a single time.
    Ran {
        /// 1-indexed position of the stage among the stages of the pipeline.
        pipeline_position: usize,
        /// Total number of stages in the pipeline.
        pipeline_total: usize,
        /// The stage that was run.
        stage_id: StageId,
        /// The result of executing the stage.
        result: ExecOutput,
    },
    /// A stage is about to be unwound.
    Unwinding {
        /// The stage that is about to be unwound.
        stage_id: StageId,
        /// The unwind parameters.
        input: UnwindInput,
    },
    /// A stage has been unwound.
    Unwound {
        /// The stage that was unwound.
        stage_id: StageId,
        /// The result of unwinding the stage.
        result: UnwindOutput,
    },
    /// A stage encountered an error either during execution or unwinding.
    Error {
        /// The stage that encountered an error.
        stage_id: StageId,
    },
    /// A stage was skipped because its run conditions were not met.
    Skipped {
        /// The stage that was skipped.
        stage_id: StageId,
    },
}

} // verus!
