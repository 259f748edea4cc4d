//! The progress of one pass of the pipeline over its stages.
use crate::primitives::BlockNumber;
use crate::stages::ctrl::ControlFlow;
use vstd::prelude::*;

verus! {

/// The smaller of a possibly missing value and a value.
pub open spec fn opt_min(a: Option<BlockNumber>, b: BlockNumber) -> Option<BlockNumber> {
    match a {
        Some(x) => Some(if x < b { x } else { b }),
        None => Some(b),
    }
}

/// The larger of a possibly missing value and a value.
pub open spec fn opt_max(a: Option<BlockNumber>, b: BlockNumber) -> Option<BlockNumber> {
    match a {
        Some(x) => Some(if x > b { x } else { b }),
        None => Some(b),
    }
}

/// The progress the stages of a pass reported: the last one, and the
/// smallest and largest.
#[derive(Clone, Copy, Debug, PartialEq, Eq, Structural)]
pub struct PipelineProgress {
    /// The progress the last stage reported.
    pub progress: Option<BlockNumber>,
    /// The smallest progress any stage reported.
    pub minimum_progress: Option<BlockNumber>,
    /// The largest progress any stage reported.
    pub maximum_progress: Option<BlockNumber>,
}

impl PipelineProgress {
    /// Either nothing was reported, or the smallest report is at most the
    /// last, which is at most the largest.
    pub open spec fn wf(&self) -> bool {
        match (self.progress, self.minimum_progress, self.maximum_progress) {
            (None, None, None) => true,
            (Some(p), Some(lo), Some(hi)) => lo <= p <= hi,
            _ => false,
        }
    }

    /// Progress where nothing was reported yet.
    pub open spec fn spec_new() -> PipelineProgress {
        PipelineProgress { progress: None, minimum_progress: None, maximum_progress: None }
    }

    /// The control flow after a pass: continue from the last progress, or
    /// no progress when none was reported.
    pub open spec fn next_ctrl_spec(&self) -> ControlFlow {
        match self.progress {
            Some(progress) => ControlFlow::Continue { progress },
            None => ControlFlow::NoProgress { stage_progress: None },
        }
    }

    /// Progress of a pass where nothing was reported yet.
    pub fn new() -> (r: PipelineProgress)
        ensures
            r == (PipelineProgress { progress: None, minimum_progress: None, maximum_progress: None }),
            r.wf(),
    {
        PipelineProgress { progress: None, minimum_progress: None, maximum_progress: None }
    }

    /// Records the progress a stage reported.
    pub fn update(&mut self, progress: BlockNumber)
        ensures
            final(self).progress == Some(progress),
            final(self).minimum_progress == opt_min(old(self).minimum_progress, progress),
            final(self).maximum_progress == opt_max(old(self).maximum_progress, progress),
            old(self).wf() ==> final(self).wf(),
    {
        self.progress = Some(progress);
        self.minimum_progress = match self.minimum_progress {
            Some(x) => Some(if x < progress { x } else { progress }),
            None => Some(progress),
        };
        self.maximum_progress = match self.maximum_progress {
            Some(x) => Some(if x > progress { x } else { progress }),
            None => Some(progress),
        };
    }

    /// The control flow after a pass: continue from the last progress, or
    /// no progress when none was reported.
    pub fn next_ctrl(&self) -> (r: ControlFlow)
        ensures
            r == self.next_ctrl_spec(),
    {
        match self.progress {
            Some(progress) => ControlFlow::Continue { progress },
            None => ControlFlow::NoProgress { stage_progress: None },
        }
    }
}

impl Default for PipelineProgress {
    fn default() -> (r: PipelineProgress)
        ensures
            r == (PipelineProgress { progress: None, minimum_progress: None, maximum_progress: None }),
    {
        PipelineProgress::new()
    }
}

/// The smallest of a non-empty sequence of reports.
pub open spec fn seq_min(s: Seq<BlockNumber>) -> BlockNumber
    decreases s.len(),
{
    if s.len() <= 1 {
        s[0]
    } else {
        let m = seq_min(s.drop_last());
        if m < s.last() { m } else { s.last() }
    }
}

/// The largest of a non-empty sequence of reports.
pub open spec fn seq_max(s: Seq<BlockNumber>) -> BlockNumber
    decreases s.len(),
{
    if s.len() <= 1 {
        s[0]
    } else {
        let m = seq_max(s.drop_last());
        if m > s.last() { m } else { s.last() }
    }
}

/// The progress after recording each report in turn, from `p`.
pub open spec fn updated(p: PipelineProgress, s: Seq<BlockNumber>) -> PipelineProgress
    decreases s.len(),
{
    if s.len() == 0 {
        p
    } else {
        let q = updated(p, s.drop_last());
        PipelineProgress {
            progress: Some(s.last()),
            minimum_progress: opt_min(q.minimum_progress, s.last()),
            maximum_progress: opt_max(q.maximum_progress, s.last()),
        }
    }
}

/// Law: after recording a non-empty sequence of reports into fresh
/// progress, the smallest and largest recorded are the smallest and largest
/// of the reports, and the last recorded is the last report.
pub proof fn lemma_progress_outliers(s: Seq<BlockNumber>)
    requires
        s.len() > 0,
    ensures
        updated(PipelineProgress { progress: None, minimum_progress: None, maximum_progress: None }, s)
            == (PipelineProgress { progress: Some(s.last()), minimum_progress: Some(seq_min(s)), maximum_progress: Some(seq_max(s)) }),
    decreases s.len(),
{
    let p0 = PipelineProgress { progress: None, minimum_progress: None, maximum_progress: None };
    if s.len() > 1 {
        lemma_progress_outliers(s.drop_last());
        assert(s.drop_last().last() == s[s.len() - 2]);
    } else {
        assert(updated(p0, s.drop_last()) == p0);
        assert(s.last() == s[0]);
    }
}

} // verus!
