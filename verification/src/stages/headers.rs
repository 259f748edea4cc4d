//! The headers stage: the decisions around downloading headers in reverse,
//! from the tip of the chain down to the local head.
use crate::primitives::{BlockNumber, SealedHeader, H256};
use crate::stages::checkpoint::{CheckpointBlockRange, EntitiesCheckpoint, HeadersCheckpoint, StageCheckpoint, StageId, StageUnitCheckpoint};
use crate::stages::pipeline::StageError;
use crate::stages::stage::{ExecOutput, Stage, UnwindInput, UnwindOutput};
use vstd::prelude::*;

verus! {

/// A block named by its hash or its number.
#[derive(Clone, Copy, Debug, PartialEq, Eq, Structural)]
pub enum BlockHashOrNumber {
    /// The block's hash.
    Hash(H256),
    /// The block's number.
    Number(BlockNumber),
}

/// How the headers stage learns what to sync to.
#[derive(Clone, Copy, Debug, PartialEq, Eq, Structural)]
pub enum HeaderSyncMode {
    /// Keep asking for the block after the local head.
    Continuous,
    /// Wait for a tip to be announced.
    Tip,
}

/// What to sync the headers to.
#[derive(Clone, Copy, Debug, PartialEq, Eq, Structural)]
pub enum SyncTarget {
    /// The announced tip of the chain.
    Tip(H256),
    /// The header just above a gap in the local headers.
    Gap(SealedHeader),
    /// The block with this number.
    TipNum(BlockNumber),
}

impl SyncTarget {
    /// The block the sync reaches: the tip, the parent of the header above
    /// the gap, or the numbered block.
    pub open spec fn tip_spec(&self) -> BlockHashOrNumber {
        match *self {
            SyncTarget::Tip(h) => BlockHashOrNumber::Hash(h),
            SyncTarget::Gap(h) => BlockHashOrNumber::Hash(h.parent_hash),
            SyncTarget::TipNum(n) => BlockHashOrNumber::Number(n),
        }
    }

    /// Returns the block the sync reaches.
    pub fn tip(&self) -> (r: BlockHashOrNumber)
        ensures
            r == self.tip_spec(),
            match *self {
                SyncTarget::Tip(h) => r == BlockHashOrNumber::Hash(h),
                SyncTarget::Gap(h) => r == BlockHashOrNumber::Hash(h.parent_hash),
                SyncTarget::TipNum(n) => r == BlockHashOrNumber::Number(n),
            },
    {
        match self {
            SyncTarget::Tip(h) => BlockHashOrNumber::Hash(*h),
            SyncTarget::Gap(h) => BlockHashOrNumber::Hash(h.parent_hash),
            SyncTarget::TipNum(n) => BlockHashOrNumber::Number(*n),
        }
    }
}

/// A gap target reaches the parent of the header above the gap, by hash:
/// the gap is closed exactly when the local head is that parent, and a
/// downloaded header is the tip exactly when it is that parent.
pub proof fn lemma_gap_tip_is_parent(local_head: SealedHeader, h: SealedHeader, first_downloaded: SealedHeader)
    ensures
        SyncTarget::Gap(h).tip_spec() == BlockHashOrNumber::Hash(h.parent_hash),
        (match (SyncGap { local_head, target: SyncTarget::Gap(h) }).target.tip_spec() {
            BlockHashOrNumber::Hash(x) => local_head.hash == x,
            BlockHashOrNumber::Number(n) => local_head.number == n,
        }) <==> local_head.hash == h.parent_hash,
        (match SyncTarget::Gap(h).tip_spec() {
            BlockHashOrNumber::Hash(x) => first_downloaded.hash == x,
            BlockHashOrNumber::Number(n) => false,
        }) <==> first_downloaded.hash == h.parent_hash,
{
}

/// The announced tip is reached by its hash, and a numbered target by its
/// number.
pub proof fn lemma_tip_of_target(hash: H256, number: BlockNumber)
    ensures
        SyncTarget::Tip(hash).tip_spec() == BlockHashOrNumber::Hash(hash),
        SyncTarget::TipNum(number).tip_spec() == BlockHashOrNumber::Number(number),
{
}

/// A gap to sync: from the local head up to the target.
#[derive(Clone, Copy, Debug, PartialEq, Eq, Structural)]
pub struct SyncGap {
    /// The local head block: the lower bound of the range.
    pub local_head: SealedHeader,
    /// The sync target: the upper bound of the range.
    pub target: SyncTarget,
}

impl SyncGap {
    /// Returns `true` if the local head is the target's block.
    pub fn is_closed(&self) -> (r: bool)
        ensures
            r == match self.target.tip_spec() {
                BlockHashOrNumber::Hash(h) => self.local_head.hash == h,
                BlockHashOrNumber::Number(n) => self.local_head.number == n,
            },
    {
        match self.target.tip() {
            BlockHashOrNumber::Hash(h) => self.local_head.hash.0 == h.0 && self.local_head.hash.1 == h.1,
            BlockHashOrNumber::Number(n) => self.local_head.number == n,
        }
    }
}

/// The headers stage's configuration.
#[derive(Clone, Copy, Debug, PartialEq, Eq, Structural)]
pub struct HeaderStage {
    /// The sync mode for the stage.
    pub mode: HeaderSyncMode,
}

impl HeaderStage {
    /// Creates a new header stage.
    pub fn new(mode: HeaderSyncMode) -> (r: HeaderStage)
        ensures
            r.mode == mode,
    {
        HeaderStage { mode }
    }

    /// The target after the local head at `checkpoint`, given the next
    /// local header above it: a gap up to that header, none when there is
    /// no header above (the target must then come from the sync mode), and
    /// an error when the header right above the checkpoint is already
    /// there.
    pub fn gap_target(checkpoint: BlockNumber, next_header: Option<SealedHeader>) -> (r: Result<Option<SyncTarget>, StageError>)
        ensures
            r == match next_header {
                Some(h) => if checkpoint + 1 != h.number {
                    Ok(Some(SyncTarget::Gap(h)))
                } else {
                    Err(StageError::StageCheckpoint(checkpoint))
                },
                None => Ok(None::<SyncTarget>),
            },
    {
        match next_header {
            Some(h) => {
                if h.number == 0 || h.number - 1 != checkpoint {
                    Ok(Some(SyncTarget::Gap(h)))
                } else {
                    Err(StageError::StageCheckpoint(checkpoint))
                }
            },
            None => Ok(None),
        }
    }

    /// The output when the gap is closed: the target is reached and the
    /// stage is done at its checkpoint; none when there is a gap to sync.
    pub fn closed_gap_output(current: StageCheckpoint, gap: &SyncGap) -> (r: Option<ExecOutput>)
        ensures
            r == if match gap.target.tip_spec() {
                BlockHashOrNumber::Hash(h) => gap.local_head.hash == h,
                BlockHashOrNumber::Number(n) => gap.local_head.number == n,
            } {
                Some(ExecOutput { checkpoint: current, done: true })
            } else {
                None::<ExecOutput>
            },
    {
        if gap.is_closed() {
            Some(ExecOutput::done(current))
        } else {
            None
        }
    }

    /// The next target in the continuous mode: the block after the head.
    pub fn continuous_target(head: BlockNumber) -> (r: SyncTarget)
        requires
            head < u64::MAX,
        ensures
            r == SyncTarget::TipNum((head + 1) as u64),
    {
        SyncTarget::TipNum(head + 1)
    }

    /// The number of the tip: the numbered block, or the first downloaded
    /// header's number when it is the tip by hash.
    pub fn tip_block_number(tip: BlockHashOrNumber, first_downloaded: Option<SealedHeader>) -> (r: Option<BlockNumber>)
        ensures
            r == match tip {
                BlockHashOrNumber::Hash(h) => match first_downloaded {
                    Some(header) => if header.hash == h { Some(header.number) } else { None::<BlockNumber> },
                    None => None::<BlockNumber>,
                },
                BlockHashOrNumber::Number(n) => Some(n),
            },
    {
        match tip {
            BlockHashOrNumber::Hash(h) => match first_downloaded {
                Some(header) => if header.hash.0 == h.0 && header.hash.1 == h.1 { Some(header.number) } else { None },
                None => None,
            },
            BlockHashOrNumber::Number(n) => Some(n),
        }
    }

    /// The block the stage works towards: the tip's number, or the highest
    /// local header when that is higher.
    pub fn target_block_number(tip_block_number: Option<BlockNumber>, local_max: Option<BlockNumber>) -> (r: Option<BlockNumber>)
        ensures
            r == match tip_block_number {
                Some(t) => Some(match local_max {
                    Some(l) => if l > t { l } else { t },
                    None => t,
                }),
                None => None::<BlockNumber>,
            },
    {
        match tip_block_number {
            Some(t) => Some(match local_max {
                Some(l) => if l > t { l } else { t },
                None => t,
            }),
            None => None,
        }
    }

    /// The stage keeps the headers progress of its checkpoint when that
    /// progress starts at the checkpoint's block.
    pub open spec fn keeps_progress(current: StageCheckpoint) -> bool {
        match current.stage_checkpoint {
            Some(StageUnitCheckpoint::Headers(c)) => c.block_range.from == current.block_number,
            _ => false,
        }
    }

    /// The headers progress after downloading `downloaded` headers: the
    /// checkpoint's own progress when it starts at the checkpoint's block,
    /// else a fresh one from the checkpoint to the target, counting the
    /// headers below the local head and above the tip as processed; its
    /// total is the target when known.
    pub fn headers_progress(current: StageCheckpoint, local_head: BlockNumber, tip_block_number: Option<BlockNumber>, target_block_number: Option<BlockNumber>, downloaded: u64) -> (r: HeadersCheckpoint)
        requires
            !Self::keeps_progress(current) ==> {
                &&& target_block_number is Some
                &&& (match tip_block_number { Some(t) => t, None => 0 }) <= target_block_number->0
                &&& local_head + (target_block_number->0 - match tip_block_number { Some(t) => t, None => 0 }) + downloaded <= u64::MAX
            },
            Self::keeps_progress(current) ==> match current.stage_checkpoint {
                Some(StageUnitCheckpoint::Headers(c)) => c.progress.processed + downloaded <= u64::MAX,
                _ => true,
            },
        ensures
            ({
                let base = if Self::keeps_progress(current) {
                    match current.stage_checkpoint {
                        Some(StageUnitCheckpoint::Headers(c)) => c,
                        _ => r,
                    }
                } else {
                    let t = target_block_number->0;
                    let tip = match tip_block_number { Some(x) => x, None => 0 };
                    HeadersCheckpoint {
                        block_range: CheckpointBlockRange { from: current.block_number, to: t },
                        progress: EntitiesCheckpoint { processed: (local_head + (t - tip)) as u64, total: t },
                    }
                };
                &&& r.block_range == base.block_range
                &&& r.progress.total == match target_block_number { Some(t) => t, None => base.progress.total }
                &&& r.progress.processed == base.progress.processed + downloaded
            }),
    {
        let mut sc = match current.headers_stage_checkpoint() {
            Some(c) => {
                if c.block_range.from == current.block_number {
                    c
                } else {
                    Self::fresh_progress(current, local_head, tip_block_number, target_block_number)
                }
            },
            None => Self::fresh_progress(current, local_head, tip_block_number, target_block_number),
        };
        match target_block_number {
            Some(t) => {
                sc.progress.total = t;
            },
            None => {},
        }
        sc.progress.processed = sc.progress.processed + downloaded;
        sc
    }

    /// A fresh headers progress from the checkpoint to the target.
    fn fresh_progress(current: StageCheckpoint, local_head: BlockNumber, tip_block_number: Option<BlockNumber>, target_block_number: Option<BlockNumber>) -> (r: HeadersCheckpoint)
        requires
            target_block_number is Some,
            (match tip_block_number { Some(t) => t, None => 0 }) <= target_block_number->0,
            local_head + (target_block_number->0 - match tip_block_number { Some(t) => t, None => 0 }) <= u64::MAX,
        ensures
            ({
                let t = target_block_number->0;
                let tip = match tip_block_number { Some(x) => x, None => 0 };
                r == (HeadersCheckpoint {
                    block_range: CheckpointBlockRange { from: current.block_number, to: t },
                    progress: EntitiesCheckpoint { processed: (local_head + (t - tip)) as u64, total: t },
                })
            }),
    {
        let t = match target_block_number {
            Some(t) => t,
            None => 0,
        };
        let tip = match tip_block_number {
            Some(x) => x,
            None => 0,
        };
        HeadersCheckpoint {
            block_range: CheckpointBlockRange { from: current.block_number, to: t },
            progress: EntitiesCheckpoint { processed: local_head + (t - tip), total: t },
        }
    }

    /// The number of the last header written, when headers are written in
    /// rising order after skipping the genesis block: the first non-zero
    /// number of the downloaded headers, which come in falling order.
    pub fn latest_written(numbers: &Vec<BlockNumber>) -> (r: Option<BlockNumber>)
        ensures
            match r {
                Some(n) => n != 0 && exists|i: int| 0 <= i < numbers@.len() && numbers@[i] == n
                    && forall|k: int| 0 <= k < i ==> numbers@[k] == 0,
                None => forall|k: int| 0 <= k < numbers@.len() ==> numbers@[k] == 0,
            },
    {
        let mut i: usize = 0;
        while i < numbers.len()
            invariant
                i <= numbers.len(),
                forall|k: int| 0 <= k < i ==> numbers@[k] == 0,
            decreases numbers.len() - i,
        {
            if numbers[i] != 0 {
                return Some(numbers[i]);
            }
            i += 1;
        }
        None
    }

    /// Whether the stage is done: the local header right above the
    /// checkpoint's header follows it.
    pub fn is_stage_done(head_num: BlockNumber, next_num: Option<BlockNumber>) -> (r: bool)
        ensures
            r == match next_num {
                Some(n) => head_num + 1 == n,
                None => false,
            },
    {
        match next_num {
            Some(n) => n > 0 && n - 1 == head_num,
            None => false,
        }
    }

    /// What the stage reports after writing headers: when done, done at the
    /// higher of the checkpoint and the last local header; else not done at
    /// the checkpoint; with the headers progress either way.
    pub fn execute_output(current: StageCheckpoint, done: bool, last_canonical: Option<BlockNumber>, progress: HeadersCheckpoint) -> (r: ExecOutput)
        ensures
            r == if done {
                let last = match last_canonical { Some(n) => n, None => 0 };
                ExecOutput {
                    checkpoint: StageCheckpoint {
                        block_number: if current.block_number > last { current.block_number } else { last },
                        stage_checkpoint: Some(StageUnitCheckpoint::Headers(progress)),
                    },
                    done: true,
                }
            } else {
                ExecOutput { checkpoint: StageCheckpoint { block_number: current.block_number, stage_checkpoint: Some(StageUnitCheckpoint::Headers(progress)) }, done: false }
            },
    {
        if done {
            let last = match last_canonical {
                Some(n) => n,
                None => 0,
            };
            let checkpoint = if current.block_number > last { current.block_number } else { last };
            ExecOutput { checkpoint: StageCheckpoint::new(checkpoint).with_headers_stage_checkpoint(progress), done: true }
        } else {
            ExecOutput { checkpoint: current.with_headers_stage_checkpoint(progress), done: false }
        }
    }

    /// What the stage reports after unwinding, having removed
    /// `unwound_headers` headers: the unwind target, with the headers
    /// progress reduced by them.
    pub fn unwind_output(input: &UnwindInput, unwound_headers: u64) -> (r: UnwindOutput)
        ensures
            r == (UnwindOutput {
                checkpoint: StageCheckpoint {
                    block_number: input.unwind_to,
                    stage_checkpoint: match input.checkpoint.stage_checkpoint {
                        Some(StageUnitCheckpoint::Headers(c)) => Some(StageUnitCheckpoint::Headers(HeadersCheckpoint {
                            block_range: c.block_range,
                            progress: EntitiesCheckpoint {
                                processed: if c.progress.processed < unwound_headers { 0 } else { (c.progress.processed - unwound_headers) as u64 },
                                total: c.progress.total,
                            },
                        })),
                        _ => None::<StageUnitCheckpoint>,
                    },
                },
            }),
    {
        let mut checkpoint = StageCheckpoint::new(input.unwind_to);
        match input.checkpoint.headers_stage_checkpoint() {
            Some(c) => {
                let progress = HeadersCheckpoint {
                    block_range: c.block_range,
                    progress: EntitiesCheckpoint { processed: c.progress.processed.saturating_sub(unwound_headers), total: c.progress.total },
                };
                checkpoint = checkpoint.with_headers_stage_checkpoint(progress);
            },
            None => {},
        }
        UnwindOutput { checkpoint }
    }
}

impl Stage for HeaderStage {
    open spec fn spec_id(&self) -> StageId {
        StageId::Headers
    }

    fn id(&self) -> (r: StageId) {
        StageId::Headers
    }
}

} // verus!
