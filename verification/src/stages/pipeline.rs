//! The decisions of the staged sync pipeline.
//!
//! The pipeline executes its stages serially, each until it is done, and
//! after a pass starts over unless told to stop. When a stage reports a bad
//! block, the pipeline unwinds the stages in reverse order of execution.
//! Reading and saving checkpoints, running stages and telling listeners is
//! left to the caller: the machine here is told what came back and says
//! what to do next.
use crate::primitives::{BlockNumber, SealedHeader};
use crate::stages::headers::BlockHashOrNumber;
use crate::stages::checkpoint::{checkpoint_or_default, StageCheckpoint, StageId};
use crate::stages::ctrl::ControlFlow;
use crate::stages::event::PipelineEvent;
use crate::stages::progress::{opt_max, opt_min, PipelineProgress};
use crate::stages::stage::{ExecInput, ExecOutput, UnwindInput, UnwindOutput};
use vstd::prelude::*;

verus! {

/// A database entry a stage needs that is missing.
#[derive(Clone, Copy, Debug, PartialEq, Eq, Structural)]
pub enum ProviderError {
    /// The header of this block is missing.
    HeaderNotFound(BlockHashOrNumber),
    /// The body indices of this block are missing.
    BlockBodyIndicesNotFound(BlockNumber),
}

/// How a stage failed.
///
/// The errors that only outside code can describe (a broken consensus
/// rule, an error of the stage's own) are carried by their kind.
#[derive(Clone, Copy, Debug, PartialEq, Eq, Structural)]
pub enum StageError {
    /// The stage found an invalid block.
    Validation {
        /// The invalid block.
        block: SealedHeader,
    },
    /// The downloaded headers do not attach to the local head.
    DetachedHead {
        /// The local head.
        local_head: SealedHeader,
        /// The header that does not attach.
        header: SealedHeader,
    },
    /// The database is missing an entry the stage needs.
    DatabaseIntegrity(ProviderError),
    /// The stage's checkpoint at this block is inconsistent.
    StageCheckpoint(BlockNumber),
    /// A channel the stage reads from closed.
    ChannelClosed,
    /// An error the stage cannot recover from.
    Fatal,
    /// An error after which the stage can be run again.
    Recoverable,
}

/// Whether an error ends the run: a missing database entry, an
/// inconsistent checkpoint, a closed channel or a fatal error. Validation
/// errors lead to an unwind, and the others to running the stage again.
pub open spec fn spec_is_fatal(e: StageError) -> bool {
    match e {
        StageError::DatabaseIntegrity(_) | StageError::StageCheckpoint(_) | StageError::ChannelClosed | StageError::Fatal => true,
        _ => false,
    }
}

impl StageError {
    /// Whether the error ends the run.
    pub fn is_fatal(&self) -> (r: bool)
        ensures
            r == spec_is_fatal(*self),
    {
        match self {
            StageError::DatabaseIntegrity(_) | StageError::StageCheckpoint(_) | StageError::ChannelClosed | StageError::Fatal => true,
            _ => false,
        }
    }
}

/// Why a pipeline run stopped with an error.
#[derive(Clone, Copy, Debug, PartialEq, Eq, Structural)]
pub enum PipelineError {
    /// A stage failed while executing and cannot recover: its error.
    Stage(StageError),
    /// A stage failed while unwinding: the stage and its error.
    UnwindFailed(StageId, StageError),
}

/// Where the pipeline stands.
#[derive(Clone, Copy, Debug)]
pub enum Phase {
    /// No pass and no unwind is under way.
    Idle,
    /// Waiting for the checkpoint of the stage at `index` before running it.
    Checking {
        /// Position of the stage.
        index: usize,
        /// The stage before it and its checkpoint.
        previous: Option<(StageId, StageCheckpoint)>,
        /// Whether the stage moved its checkpoint in this pass.
        made_progress: bool,
    },
    /// Waiting for the result of running the stage at `index`.
    Running {
        /// Position of the stage.
        index: usize,
        /// The stage before it and its checkpoint.
        previous: Option<(StageId, StageCheckpoint)>,
        /// Whether the stage moved its checkpoint in this pass.
        made_progress: bool,
        /// The stage's checkpoint when it was started.
        prev_checkpoint: Option<StageCheckpoint>,
    },
    /// Waiting for the checkpoint of the finished stage at `index`, which
    /// the next stage works towards.
    Advancing {
        /// Position of the finished stage.
        index: usize,
    },
    /// Waiting for the checkpoint of the stage at `remaining - 1`, the next
    /// one to unwind.
    UnwindChecking {
        /// Number of stages not yet unwound.
        remaining: usize,
        /// The block to unwind to.
        to: BlockNumber,
        /// The bad block that caused the unwind, if any.
        bad_block: Option<BlockNumber>,
        /// What the pass returns after the unwind, when a pass asked for it.
        outcome: Option<ControlFlow>,
    },
    /// Waiting for the result of unwinding the stage at `remaining - 1`.
    Unwinding {
        /// Number of stages not yet unwound.
        remaining: usize,
        /// The block to unwind to.
        to: BlockNumber,
        /// The bad block that caused the unwind, if any.
        bad_block: Option<BlockNumber>,
        /// What the pass returns after the unwind, when a pass asked for it.
        outcome: Option<ControlFlow>,
        /// The stage's checkpoint.
        stage_progress: StageCheckpoint,
    },
}

/// What the caller reports back.
#[derive(Clone, Copy, Debug)]
pub enum StepInput {
    /// The saved checkpoint of the stage asked about.
    Checkpoint(Option<StageCheckpoint>),
    /// The result of running a stage.
    Executed(Result<ExecOutput, StageError>),
    /// The result of unwinding a stage.
    Unwound(Result<UnwindOutput, StageError>),
}

/// What the caller must do next, after telling the listeners the events and
/// saving the checkpoint.
#[derive(Clone, Copy, Debug)]
pub enum Request {
    /// Read the saved checkpoint of a stage.
    ReadCheckpoint(StageId),
    /// Run the stage at `stage_index` with `input`.
    Execute {
        /// Position of the stage.
        stage_index: usize,
        /// Its input.
        input: ExecInput,
    },
    /// Unwind the stage at `stage_index` with `input`.
    Unwind {
        /// Position of the stage.
        stage_index: usize,
        /// Its input.
        input: UnwindInput,
    },
    /// The pass or the unwind is over: the control flow a pass returns
    /// (none for an unwind that was asked for on its own), or an error.
    Finish(Result<Option<ControlFlow>, PipelineError>),
}

/// One step of the pipeline: events for the listeners, a checkpoint to save
/// (and commit), and the next request.
#[derive(Clone, Debug)]
pub struct Action {
    /// Events for the listeners, in order.
    pub events: Vec<PipelineEvent>,
    /// A checkpoint to save for a stage.
    pub save: Option<(StageId, StageCheckpoint)>,
    /// What to do next.
    pub request: Request,
}

/// The pipeline's configuration and where it stands.
#[derive(Clone, Debug)]
pub struct Pipeline {
    /// All configured stages in the order they are executed.
    pub stages: Vec<StageId>,
    /// The maximum block number to sync to.
    pub max_block: Option<BlockNumber>,
    /// The progress of the pipeline across passes.
    pub progress: PipelineProgress,
    /// Where the pipeline stands.
    pub phase: Phase,
}

/// The input a stage is run with: towards the checkpoint of the stage
/// before it, from its own checkpoint.
pub open spec fn exec_input(previous: Option<(StageId, StageCheckpoint)>, checkpoint: Option<StageCheckpoint>) -> ExecInput {
    ExecInput {
        target: match previous {
            Some((_, c)) => Some(c.block_number),
            None => None::<BlockNumber>,
        },
        checkpoint,
    }
}

/// The stage's checkpoint has reached the maximum block.
pub open spec fn reached_max_block(checkpoint: Option<StageCheckpoint>, max_block: Option<BlockNumber>) -> bool {
    match (checkpoint, max_block) {
        (Some(c), Some(m)) => c.block_number >= m,
        _ => false,
    }
}

/// The progress after a stage finished with the given control flow.
pub open spec fn progress_after(p: PipelineProgress, ctrl: ControlFlow) -> PipelineProgress {
    match ctrl {
        ControlFlow::Continue { progress } => PipelineProgress {
            progress: Some(progress),
            minimum_progress: opt_min(p.minimum_progress, progress),
            maximum_progress: opt_max(p.maximum_progress, progress),
        },
        ControlFlow::NoProgress { stage_progress: Some(progress) } => PipelineProgress {
            progress: Some(progress),
            minimum_progress: opt_min(p.minimum_progress, progress),
            maximum_progress: opt_max(p.maximum_progress, progress),
        },
        _ => p,
    }
}

/// The phase and request that continue an unwind with the stages before
/// position `remaining`.
pub open spec fn next_unwind(stages: Seq<StageId>, remaining: usize, to: BlockNumber, bad_block: Option<BlockNumber>, outcome: Option<ControlFlow>) -> (Phase, Request) {
    if remaining == 0 {
        (Phase::Idle, Request::Finish(Ok(outcome)))
    } else {
        (Phase::UnwindChecking { remaining, to, bad_block, outcome }, Request::ReadCheckpoint(stages[remaining - 1]))
    }
}

/// Whether a run of passes stops after a pass: it allows going on and the
/// smallest progress reached the maximum block.
pub open spec fn should_stop(next_action: ControlFlow, minimum_progress: Option<BlockNumber>, max_block: Option<BlockNumber>) -> bool {
    (next_action is Continue || next_action is NoProgress) && match (minimum_progress, max_block) {
        (Some(p), Some(t)) => p >= t,
        _ => false,
    }
}

/// Whether a run of passes stops after a pass that returned `next_action`.
pub fn run_should_stop(next_action: &ControlFlow, minimum_progress: Option<BlockNumber>, max_block: Option<BlockNumber>) -> (r: bool)
    ensures
        r == should_stop(*next_action, minimum_progress, max_block),
{
    next_action.should_continue() && match (minimum_progress, max_block) {
        (Some(p), Some(t)) => p >= t,
        _ => false,
    }
}

impl Pipeline {
    /// The input is the one the phase waits for.
    pub open spec fn accepts(&self, input: StepInput) -> bool {
        match (self.phase, input) {
            (Phase::Checking { .. }, StepInput::Checkpoint(_)) => true,
            (Phase::Running { .. }, StepInput::Executed(_)) => true,
            (Phase::Advancing { .. }, StepInput::Checkpoint(_)) => true,
            (Phase::UnwindChecking { .. }, StepInput::Checkpoint(_)) => true,
            (Phase::Unwinding { .. }, StepInput::Unwound(_)) => true,
            _ => false,
        }
    }

    /// The positions the phase names are positions of stages.
    pub open spec fn wf(&self) -> bool {
        match self.phase {
            Phase::Idle => true,
            Phase::Checking { index, .. } => index < self.stages@.len(),
            Phase::Running { index, .. } => index < self.stages@.len(),
            Phase::Advancing { index } => index < self.stages@.len(),
            Phase::UnwindChecking { remaining, .. } => 0 < remaining <= self.stages@.len(),
            Phase::Unwinding { remaining, .. } => 0 < remaining <= self.stages@.len(),
        }
    }

    /// A pipeline with the given stages that has not run yet.
    pub fn new(stages: Vec<StageId>, max_block: Option<BlockNumber>) -> (r: Pipeline)
        ensures
            r.wf(),
            r.stages@ == stages@,
            r.max_block == max_block,
            r.progress == PipelineProgress::spec_new(),
            r.phase == Phase::Idle,
    {
        Pipeline { stages, max_block, progress: PipelineProgress::new(), phase: Phase::Idle }
    }

    /// Returns the minimum progress any stage reported.
    pub fn minimum_progress(&self) -> (r: Option<BlockNumber>)
        ensures
            r == self.progress.minimum_progress,
    {
        self.progress.minimum_progress
    }

    /// Whether the caller's report fits the phase.
    pub fn accepts_input(&self, input: &StepInput) -> (r: bool)
        ensures
            r == self.accepts(*input),
    {
        match (&self.phase, input) {
            (Phase::Checking { .. }, StepInput::Checkpoint(_)) => true,
            (Phase::Running { .. }, StepInput::Executed(_)) => true,
            (Phase::Advancing { .. }, StepInput::Checkpoint(_)) => true,
            (Phase::UnwindChecking { .. }, StepInput::Checkpoint(_)) => true,
            (Phase::Unwinding { .. }, StepInput::Unwound(_)) => true,
            _ => false,
        }
    }

    /// Starts a pass over all stages: asks for the first stage's
    /// checkpoint, or ends the pass at once when there are no stages.
    pub fn run_loop(&mut self) -> (a: Action)
        requires
            old(self).phase == Phase::Idle,
        ensures
            final(self).wf(),
            final(self).stages == old(self).stages,
            final(self).max_block == old(self).max_block,
            final(self).progress == old(self).progress,
            a.events@ == Seq::<PipelineEvent>::empty(),
            a.save is None,
            if old(self).stages@.len() == 0 {
                &&& final(self).phase == Phase::Idle
                &&& a.request == Request::Finish(Ok(Some(old(self).progress.next_ctrl_spec())))
            } else {
                &&& final(self).phase == (Phase::Checking { index: 0, previous: None, made_progress: false })
                &&& a.request == Request::ReadCheckpoint(old(self).stages@[0])
            },
    {
        if self.stages.len() == 0 {
            return Action { events: Vec::new(), save: None, request: Request::Finish(Ok(Some(self.progress.next_ctrl()))) };
        }
        self.phase = Phase::Checking { index: 0, previous: None, made_progress: false };
        Action { events: Vec::new(), save: None, request: Request::ReadCheckpoint(self.stages[0]) }
    }

    /// Starts unwinding all stages, last first, to block `to`.
    pub fn unwind(&mut self, to: BlockNumber, bad_block: Option<BlockNumber>) -> (a: Action)
        requires
            old(self).phase == Phase::Idle,
        ensures
            final(self).wf(),
            final(self).stages == old(self).stages,
            final(self).max_block == old(self).max_block,
            final(self).progress == old(self).progress,
            a.events@ == Seq::<PipelineEvent>::empty(),
            a.save is None,
            (final(self).phase, a.request) == next_unwind(old(self).stages@, old(self).stages@.len() as usize, to, bad_block, None),
    {
        self.start_unwind(self.stages.len(), to, bad_block, None)
    }

    /// Continues an unwind with the stages before position `remaining`.
    fn start_unwind(&mut self, remaining: usize, to: BlockNumber, bad_block: Option<BlockNumber>, outcome: Option<ControlFlow>) -> (a: Action)
        requires
            remaining <= old(self).stages@.len(),
        ensures
            final(self).wf(),
            final(self).stages == old(self).stages,
            final(self).max_block == old(self).max_block,
            final(self).progress == old(self).progress,
            a.events@ == Seq::<PipelineEvent>::empty(),
            a.save is None,
            (final(self).phase, a.request) == next_unwind(old(self).stages@, remaining, to, bad_block, outcome),
    {
        if remaining == 0 {
            self.phase = Phase::Idle;
            Action { events: Vec::new(), save: None, request: Request::Finish(Ok(outcome)) }
        } else {
            self.phase = Phase::UnwindChecking { remaining, to, bad_block, outcome };
            Action { events: Vec::new(), save: None, request: Request::ReadCheckpoint(self.stages[remaining - 1]) }
        }
    }

    /// Takes the caller's report and decides the next step.
    #[verifier::rlimit(40)]
    pub fn step(&mut self, input: StepInput) -> (a: Action)
        requires
            old(self).wf(),
            old(self).accepts(input),
        ensures
            final(self).wf(),
            final(self).stages == old(self).stages,
            final(self).max_block == old(self).max_block,
            ({
                let stages = old(self).stages@;
                let total = stages.len() as usize;
                match (old(self).phase, input) {
                    (Phase::Checking { index, previous, made_progress }, StepInput::Checkpoint(c)) => {
                        let id = stages[index as int];
                        if reached_max_block(c, old(self).max_block) {
                            // The stage reached the maximum block: it is skipped.
                            let ctrl = ControlFlow::NoProgress { stage_progress: match c { Some(cp) => Some(cp.block_number), None => None::<BlockNumber> } };
                            &&& a.events@ == seq![PipelineEvent::Skipped { stage_id: id }]
                            &&& a.save is None
                            &&& final(self).progress == progress_after(old(self).progress, ctrl)
                            &&& final(self).phase == Phase::Advancing { index }
                            &&& a.request == Request::ReadCheckpoint(id)
                        } else {
                            &&& a.events@ == seq![PipelineEvent::Running { pipeline_position: (index + 1) as usize, pipeline_total: total, stage_id: id, checkpoint: c }]
                            &&& a.save is None
                            &&& final(self).progress == old(self).progress
                            &&& final(self).phase == (Phase::Running { index, previous, made_progress, prev_checkpoint: c })
                            &&& a.request == (Request::Execute { stage_index: index, input: exec_input(previous, c) })
                        }
                    },
                    (Phase::Running { index, previous, made_progress, prev_checkpoint }, StepInput::Executed(Ok(out))) => {
                        let id = stages[index as int];
                        let made = made_progress || out.checkpoint.block_number != checkpoint_or_default(prev_checkpoint).block_number;
                        &&& a.events@ == seq![PipelineEvent::Ran { pipeline_position: (index + 1) as usize, pipeline_total: total, stage_id: id, result: out }]
                        &&& a.save == Some((id, out.checkpoint))
                        &&& a.request == Request::ReadCheckpoint(id)
                        &&& if out.done {
                            let ctrl = if made {
                                ControlFlow::Continue { progress: out.checkpoint.block_number }
                            } else {
                                ControlFlow::NoProgress { stage_progress: Some(out.checkpoint.block_number) }
                            };
                            &&& final(self).progress == progress_after(old(self).progress, ctrl)
                            &&& final(self).phase == Phase::Advancing { index }
                        } else {
                            &&& final(self).progress == old(self).progress
                            &&& final(self).phase == (Phase::Checking { index, previous, made_progress: made })
                        }
                    },
                    (Phase::Running { index, previous, made_progress, prev_checkpoint }, StepInput::Executed(Err(f))) => {
                        let id = stages[index as int];
                        &&& a.events@ == seq![PipelineEvent::Error { stage_id: id }]
                        &&& a.save is None
                        &&& final(self).progress == old(self).progress
                        &&& match f {
                            StageError::Validation { block } => {
                                // Unwind all stages to the failing stage's checkpoint,
                                // then end the pass with the unwind.
                                let target = checkpoint_or_default(prev_checkpoint).block_number;
                                (final(self).phase, a.request) == next_unwind(stages, total, target, Some(block.number),
                                    Some(ControlFlow::Unwind { target, bad_block: block }))
                            },
                            _ => if spec_is_fatal(f) {
                                // The run ends with the stage's error.
                                &&& final(self).phase == Phase::Idle
                                &&& a.request == Request::Finish(Err(PipelineError::Stage(f)))
                            } else {
                                // The stage is run again.
                                &&& final(self).phase == (Phase::Checking { index, previous, made_progress })
                                &&& a.request == Request::ReadCheckpoint(id)
                            },
                        }
                    },
                    (Phase::Advancing { index }, StepInput::Checkpoint(c)) => {
                        &&& a.events@ == Seq::<PipelineEvent>::empty()
                        &&& a.save is None
                        &&& final(self).progress == old(self).progress
                        &&& if index + 1 < total {
                            &&& final(self).phase == (Phase::Checking { index: (index + 1) as usize, previous: Some((stages[index as int], checkpoint_or_default(c))), made_progress: false })
                            &&& a.request == Request::ReadCheckpoint(stages[index + 1])
                        } else {
                            &&& final(self).phase == Phase::Idle
                            &&& a.request == Request::Finish(Ok(Some(old(self).progress.next_ctrl_spec())))
                        }
                    },
                    (Phase::UnwindChecking { remaining, to, bad_block, outcome }, StepInput::Checkpoint(c)) => {
                        let id = stages[remaining - 1];
                        let sp = checkpoint_or_default(c);
                        &&& a.save is None
                        &&& final(self).progress == old(self).progress
                        &&& if sp.block_number < to {
                            // Not past the unwind target: skipped.
                            &&& a.events@ == seq![PipelineEvent::Skipped { stage_id: id }]
                            &&& (final(self).phase, a.request) == next_unwind(stages, (remaining - 1) as usize, to, bad_block, outcome)
                        } else if sp.block_number > to {
                            let input = UnwindInput { checkpoint: sp, unwind_to: to, bad_block };
                            &&& a.events@ == seq![PipelineEvent::Unwinding { stage_id: id, input }]
                            &&& final(self).phase == (Phase::Unwinding { remaining, to, bad_block, outcome, stage_progress: sp })
                            &&& a.request == (Request::Unwind { stage_index: (remaining - 1) as usize, input })
                        } else {
                            &&& a.events@ == Seq::<PipelineEvent>::empty()
                            &&& (final(self).phase, a.request) == next_unwind(stages, (remaining - 1) as usize, to, bad_block, outcome)
                        }
                    },
                    (Phase::Unwinding { remaining, to, bad_block, outcome, stage_progress }, StepInput::Unwound(r)) => {
                        let id = stages[remaining - 1];
                        &&& final(self).progress == old(self).progress
                        &&& match r {
                            Ok(out) => {
                                let sp = out.checkpoint;
                                &&& a.save == Some((id, sp))
                                &&& if sp.block_number > to {
                                    let input = UnwindInput { checkpoint: sp, unwind_to: to, bad_block };
                                    &&& a.events@ == seq![PipelineEvent::Unwound { stage_id: id, result: out }, PipelineEvent::Unwinding { stage_id: id, input }]
                                    &&& final(self).phase == (Phase::Unwinding { remaining, to, bad_block, outcome, stage_progress: sp })
                                    &&& a.request == (Request::Unwind { stage_index: (remaining - 1) as usize, input })
                                } else {
                                    &&& a.events@ == seq![PipelineEvent::Unwound { stage_id: id, result: out }]
                                    &&& (final(self).phase, a.request) == next_unwind(stages, (remaining - 1) as usize, to, bad_block, outcome)
                                }
                            },
                            Err(e) => {
                                &&& a.events@ == seq![PipelineEvent::Error { stage_id: id }]
                                &&& a.save is None
                                &&& final(self).phase == Phase::Idle
                                &&& a.request == Request::Finish(Err(PipelineError::UnwindFailed(id, e)))
                            },
                        }
                    },
                    _ => false,
                }
            }),
    {
        let total = self.stages.len();
        match (self.phase, input) {
            (Phase::Checking { index, previous, made_progress }, StepInput::Checkpoint(c)) => {
                let id = self.stages[index];
                let reached = match (c, self.max_block) {
                    (Some(cp), Some(m)) => cp.block_number >= m,
                    _ => false,
                };
                if reached {
                    let mut events = Vec::new();
                    events.push(PipelineEvent::Skipped { stage_id: id });
                    match c {
                        Some(cp) => self.progress.update(cp.block_number),
                        None => {},
                    }
                    self.phase = Phase::Advancing { index };
                    Action { events, save: None, request: Request::ReadCheckpoint(id) }
                } else {
                    let mut events = Vec::new();
                    events.push(PipelineEvent::Running { pipeline_position: index + 1, pipeline_total: total, stage_id: id, checkpoint: c });
                    let target = match previous {
                        Some((_, pc)) => Some(pc.block_number),
                        None => None,
                    };
                    self.phase = Phase::Running { index, previous, made_progress, prev_checkpoint: c };
                    Action { events, save: None, request: Request::Execute { stage_index: index, input: ExecInput { target, checkpoint: c } } }
                }
            },
            (Phase::Running { index, previous, made_progress, prev_checkpoint }, StepInput::Executed(Ok(out))) => {
                let id = self.stages[index];
                let prev_block = match prev_checkpoint {
                    Some(pc) => pc.block_number,
                    None => 0,
                };
                let made = made_progress || out.checkpoint.block_number != prev_block;
                let mut events = Vec::new();
                events.push(PipelineEvent::Ran { pipeline_position: index + 1, pipeline_total: total, stage_id: id, result: out });
                if out.done {
                    self.progress.update(out.checkpoint.block_number);
                    self.phase = Phase::Advancing { index };
                } else {
                    self.phase = Phase::Checking { index, previous, made_progress: made };
                }
                Action { events, save: Some((id, out.checkpoint)), request: Request::ReadCheckpoint(id) }
            },
            (Phase::Running { index, previous, made_progress, prev_checkpoint }, StepInput::Executed(Err(f))) => {
                let id = self.stages[index];
                let mut events = Vec::new();
                events.push(PipelineEvent::Error { stage_id: id });
                match f {
                    StageError::Validation { block } => {
                        let target = match prev_checkpoint {
                            Some(pc) => pc.block_number,
                            None => 0,
                        };
                        let a = self.start_unwind(total, target, Some(block.number), Some(ControlFlow::Unwind { target, bad_block: block }));
                        Action { events, save: None, request: a.request }
                    },
                    _ => {
                        if f.is_fatal() {
                            self.phase = Phase::Idle;
                            Action { events, save: None, request: Request::Finish(Err(PipelineError::Stage(f))) }
                        } else {
                            self.phase = Phase::Checking { index, previous, made_progress };
                            Action { events, save: None, request: Request::ReadCheckpoint(id) }
                        }
                    },
                }
            },
            (Phase::Advancing { index }, StepInput::Checkpoint(c)) => {
                let id = self.stages[index];
                if index + 1 < total {
                    let cp = match c {
                        Some(cp) => cp,
                        None => StageCheckpoint::default(),
                    };
                    self.phase = Phase::Checking { index: index + 1, previous: Some((id, cp)), made_progress: false };
                    Action { events: Vec::new(), save: None, request: Request::ReadCheckpoint(self.stages[index + 1]) }
                } else {
                    self.phase = Phase::Idle;
                    Action { events: Vec::new(), save: None, request: Request::Finish(Ok(Some(self.progress.next_ctrl()))) }
                }
            },
            (Phase::UnwindChecking { remaining, to, bad_block, outcome }, StepInput::Checkpoint(c)) => {
                let id = self.stages[remaining - 1];
                let sp = match c {
                    Some(cp) => cp,
                    None => StageCheckpoint::default(),
                };
                if sp.block_number < to {
                    let mut events = Vec::new();
                    events.push(PipelineEvent::Skipped { stage_id: id });
                    let a = self.start_unwind(remaining - 1, to, bad_block, outcome);
                    Action { events, save: None, request: a.request }
                } else if sp.block_number > to {
                    let input = UnwindInput { checkpoint: sp, unwind_to: to, bad_block };
                    let mut events = Vec::new();
                    events.push(PipelineEvent::Unwinding { stage_id: id, input });
                    self.phase = Phase::Unwinding { remaining, to, bad_block, outcome, stage_progress: sp };
                    Action { events, save: None, request: Request::Unwind { stage_index: remaining - 1, input } }
                } else {
                    self.start_unwind(remaining - 1, to, bad_block, outcome)
                }
            },
            (Phase::Unwinding { remaining, to, bad_block, outcome, stage_progress }, StepInput::Unwound(r)) => {
                let id = self.stages[remaining - 1];
                match r {
                    Ok(out) => {
                        let sp = out.checkpoint;
                        let mut events = Vec::new();
                        events.push(PipelineEvent::Unwound { stage_id: id, result: out });
                        if sp.block_number > to {
                            let input = UnwindInput { checkpoint: sp, unwind_to: to, bad_block };
                            events.push(PipelineEvent::Unwinding { stage_id: id, input });
                            self.phase = Phase::Unwinding { remaining, to, bad_block, outcome, stage_progress: sp };
                            Action { events, save: Some((id, sp)), request: Request::Unwind { stage_index: remaining - 1, input } }
                        } else {
                            let a = self.start_unwind(remaining - 1, to, bad_block, outcome);
                            Action { events, save: Some((id, sp)), request: a.request }
                        }
                    },
                    Err(e) => {
                        let mut events = Vec::new();
                        events.push(PipelineEvent::Error { stage_id: id });
                        self.phase = Phase::Idle;
                        Action { events, save: None, request: Request::Finish(Err(PipelineError::UnwindFailed(id, e))) }
                    },
                }
            },
            _ => {
                proof { assert(false); }
                Action { events: Vec::new(), save: None, request: Request::Finish(Ok(None)) }
            },
        }
    }
}

} // verus!
