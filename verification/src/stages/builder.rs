//! Builds a pipeline from stages and stage sets.
use crate::primitives::BlockNumber;
use crate::stages::checkpoint::StageId;
use crate::stages::pipeline::{Phase, Pipeline};
use crate::stages::progress::PipelineProgress;
use crate::stages::set::StageSet;
use crate::stages::stage::Stage;
use vstd::prelude::*;

verus! {

/// Builds a [`Pipeline`]: the stages in the order they run, and the block
/// to sync to.
pub struct PipelineBuilder<S> {
    /// All configured stages in the order they will be executed.
    pub stages: Vec<S>,
    /// The maximum block number to sync to.
    pub max_block: Option<BlockNumber>,
}

/// The identifiers of the stages, in order.
pub open spec fn ids_in_order<S: Stage>(stages: Seq<S>) -> Seq<StageId> {
    stages.map_values(|s: S| s.spec_id())
}

impl<S: Stage> PipelineBuilder<S> {
    /// A builder with no stages and no maximum block.
    pub fn new() -> (r: PipelineBuilder<S>)
        ensures
            r.stages@ == Seq::<S>::empty(),
            r.max_block is None,
    {
        PipelineBuilder { stages: Vec::new(), max_block: None }
    }

    /// Adds a stage to the end of the pipeline.
    pub fn add_stage(self, stage: S) -> (r: PipelineBuilder<S>)
        ensures
            r.stages@ == self.stages@.push(stage),
            r.max_block == self.max_block,
    {
        let mut this = self;
        this.stages.push(stage);
        this
    }

    /// Adds the enabled stages of a set to the end of the pipeline, in the
    /// set's order.
    pub fn add_stages<T: StageSet<S>>(self, set: T) -> (r: PipelineBuilder<S>)
        ensures
            r.stages@ == self.stages@ + set.stage_seq(),
            r.max_block == self.max_block,
    {
        let ghost start = self.stages@;
        let mut this = self;
        let mut rest = set.builder().build();
        let ghost all = rest@;
        let mut k: usize = 0;
        let n = rest.len();
        while rest.len() > 0
            invariant
                k + rest@.len() == n == all.len(),
                forall|i: int| 0 <= i < rest@.len() ==> #[trigger] rest@[i] == all[k + i],
                this.stages@ == start + all.subrange(0, k as int),
                this.max_block == self.max_block,
            decreases rest.len(),
        {
            let stage = rest.remove(0);
            proof {
                assert(stage == all[k as int]);
                assert(all.subrange(0, k + 1) =~= all.subrange(0, k as int).push(stage));
            }
            this.stages.push(stage);
            k += 1;
            proof {
                assert(this.stages@ =~= start + all.subrange(0, k as int));
            }
        }
        proof {
            assert(all.subrange(0, k as int) =~= all);
        }
        this
    }

    /// Sets the maximum block the pipeline syncs to.
    pub fn with_max_block(self, block: BlockNumber) -> (r: PipelineBuilder<S>)
        ensures
            r.stages@ == self.stages@,
            r.max_block == Some(block),
    {
        PipelineBuilder { stages: self.stages, max_block: Some(block) }
    }

    /// Builds the pipeline, which decides over the stages' identifiers, and
    /// hands back the stages, which the caller runs at the pipeline's
    /// request.
    pub fn build(self) -> (r: (Pipeline, Vec<S>))
        ensures
            r.0.wf(),
            r.0.stages@ == ids_in_order(self.stages@),
            r.0.max_block == self.max_block,
            r.0.progress == PipelineProgress::spec_new(),
            r.0.phase == Phase::Idle,
            r.1@ == self.stages@,
    {
        let mut ids: Vec<StageId> = Vec::new();
        let mut i: usize = 0;
        while i < self.stages.len()
            invariant
                i <= self.stages@.len(),
                ids@ == ids_in_order(self.stages@.subrange(0, i as int)),
            decreases self.stages@.len() - i,
        {
            let id = self.stages[i].id();
            proof {
                assert(self.stages@.subrange(0, i + 1) =~= self.stages@.subrange(0, i as int).push(self.stages@[i as int]));
            }
            ids.push(id);
            i += 1;
            proof {
                assert(ids@ =~= ids_in_order(self.stages@.subrange(0, i as int)));
            }
        }
        proof {
            assert(self.stages@.subrange(0, i as int) =~= self.stages@);
        }
        (Pipeline::new(ids, self.max_block), self.stages)
    }
}

impl Pipeline {
    /// A builder for a pipeline.
    pub fn builder<S: Stage>() -> (r: PipelineBuilder<S>)
        ensures
            r.stages@ == Seq::<S>::empty(),
            r.max_block is None,
    {
        PipelineBuilder::new()
    }
}

} // verus!
