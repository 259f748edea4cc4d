//! The bodies stage: how downloaded block bodies are numbered into the
//! transaction table, and what unwinding removes.
use crate::primitives::{BlockNumber, TxNumber};
use crate::stages::checkpoint::{StageCheckpoint, StageId};
use crate::stages::stage::{ExecInput, ExecOutput, Stage, UnwindInput, UnwindOutput};
use crate::storage::blocks::StoredBlockBodyIndices;
use std::ops::Range;
use vstd::prelude::*;

verus! {

/// What the stage reads of a downloaded block: its number, whether the
/// body came with it, how many transactions it holds, and whether it has
/// ommers and withdrawals.
#[derive(Clone, Copy, Debug, PartialEq, Eq, Structural)]
pub struct BodySummary {
    /// The block number.
    pub block_number: BlockNumber,
    /// Whether the full block came; an empty response has no transactions.
    pub full: bool,
    /// The number of transactions of a full block.
    pub tx_count: u64,
    /// Whether a full block has ommers.
    pub has_ommers: bool,
    /// Whether a full block has withdrawals.
    pub has_withdrawals: bool,
}

/// The number of transactions the stage counts for a block.
pub open spec fn counted(b: BodySummary) -> nat {
    if b.full { b.tx_count as nat } else { 0 }
}

/// The number of transactions of the first `k` blocks.
pub open spec fn txs_before(s: Seq<BodySummary>, k: int) -> nat
    decreases k,
{
    if k <= 0 || k > s.len() {
        0
    } else {
        txs_before(s, k - 1) + counted(s[k - 1])
    }
}

/// More blocks count at least as many transactions.
pub proof fn lemma_txs_before_mono(s: Seq<BodySummary>, a: int, b: int)
    requires
        0 <= a <= b <= s.len(),
    ensures
        txs_before(s, a) <= txs_before(s, b),
    decreases b - a,
{
    if a < b {
        lemma_txs_before_mono(s, a, b - 1);
    }
}

/// What to write for a batch of downloaded bodies.
#[derive(Clone, Debug)]
pub struct BodyWrites {
    /// The body indices of each block, in order.
    pub indices: Vec<(BlockNumber, StoredBlockBodyIndices)>,
    /// For each block with transactions: its last transaction number and
    /// the block.
    pub tx_blocks: Vec<(TxNumber, BlockNumber)>,
    /// The blocks whose ommers are stored.
    pub ommers: Vec<BlockNumber>,
    /// The blocks whose withdrawals are stored.
    pub withdrawals: Vec<BlockNumber>,
    /// The number the next transaction gets.
    pub next_tx_num: TxNumber,
    /// What the stage reports.
    pub output: ExecOutput,
}

/// What unwinding removes for one block.
#[derive(Debug)]
pub struct BodyUnwindStep {
    /// The block.
    pub block_number: BlockNumber,
    /// The transaction-to-block entry to remove, for a block with
    /// transactions: its last transaction number.
    pub tx_block_key: Option<TxNumber>,
    /// The transaction numbers to remove.
    pub tx_range: Range<TxNumber>,
}

/// The bodies stage.
#[derive(Clone, Copy, Debug, PartialEq, Eq, Structural)]
pub struct BodyStage;

impl BodyStage {
    /// The number the first new transaction gets: one after the last
    /// stored transaction, or zero.
    pub fn first_new_tx_num(last_tx_num: Option<TxNumber>) -> (r: TxNumber)
        requires
            match last_tx_num {
                Some(n) => n < u64::MAX,
                None => true,
            },
        ensures
            r == match last_tx_num {
                Some(n) => (n + 1) as u64,
                None => 0,
            },
    {
        match last_tx_num {
            Some(n) => n + 1,
            None => 0,
        }
    }

    /// The output when there are no blocks to download: done at the end of
    /// the range, if it is empty; none otherwise.
    pub fn nothing_to_do(input: &ExecInput) -> (r: Option<ExecOutput>)
        requires
            input.checkpoint_spec().block_number < u64::MAX,
        ensures
            r == if input.checkpoint_spec().block_number + 1 > input.target_spec() {
                Some(ExecOutput { checkpoint: StageCheckpoint { block_number: input.target_spec(), stage_checkpoint: None }, done: true })
            } else {
                None::<ExecOutput>
            },
    {
        let from = input.next_block();
        let to = input.target();
        if from > to {
            Some(ExecOutput::done(StageCheckpoint::new(to)))
        } else {
            None
        }
    }

    /// Numbers the transactions of the downloaded bodies from
    /// `next_tx_num` on and says what to write: each block's indices, the
    /// last transaction of each block with transactions, the blocks with
    /// ommers or withdrawals, and the output, which is done when the last
    /// block is the end of the range `from_block..=to_block`.
    pub fn plan_writes(next_tx_num: TxNumber, bodies: &Vec<BodySummary>, from_block: BlockNumber, to_block: BlockNumber) -> (r: BodyWrites)
        requires
            next_tx_num + txs_before(bodies@, bodies@.len() as int) <= u64::MAX,
        ensures
            r.indices@.len() == bodies@.len(),
            forall|k: int| 0 <= k < bodies@.len() ==> #[trigger] r.indices@[k] == (bodies@[k].block_number,
                StoredBlockBodyIndices { first_tx_num: (next_tx_num + txs_before(bodies@, k)) as u64, tx_count: counted(bodies@[k]) as u64 }),
            r.tx_blocks@ == r.indices@.filter(|p: (BlockNumber, StoredBlockBodyIndices)| p.1.tx_count > 0).map_values(
                |p: (BlockNumber, StoredBlockBodyIndices)| ((p.1.first_tx_num + p.1.tx_count - 1) as u64, p.0)),
            r.ommers@ == bodies@.filter(|b: BodySummary| b.full && b.has_ommers).map_values(|b: BodySummary| b.block_number),
            r.withdrawals@ == bodies@.filter(|b: BodySummary| b.full && b.has_withdrawals).map_values(|b: BodySummary| b.block_number),
            r.next_tx_num == next_tx_num + txs_before(bodies@, bodies@.len() as int),
            r.output == (ExecOutput {
                checkpoint: StageCheckpoint { block_number: if bodies@.len() == 0 { from_block } else { bodies@.last().block_number }, stage_checkpoint: None },
                done: (if bodies@.len() == 0 { from_block } else { bodies@.last().block_number }) == to_block,
            }),
    {
        let mut indices: Vec<(BlockNumber, StoredBlockBodyIndices)> = Vec::new();
        let mut tx_blocks: Vec<(TxNumber, BlockNumber)> = Vec::new();
        let mut ommers: Vec<BlockNumber> = Vec::new();
        let mut withdrawals: Vec<BlockNumber> = Vec::new();
        let mut next = next_tx_num;
        let mut highest_block = from_block;
        let mut k: usize = 0;
        while k < bodies.len()
            invariant
                k <= bodies.len(),
                next_tx_num + txs_before(bodies@, bodies@.len() as int) <= u64::MAX,
                next == next_tx_num + txs_before(bodies@, k as int),
                highest_block == if k == 0 { from_block } else { bodies@[k - 1].block_number },
                indices@.len() == k,
                forall|j: int| 0 <= j < k ==> #[trigger] indices@[j] == (bodies@[j].block_number,
                    StoredBlockBodyIndices { first_tx_num: (next_tx_num + txs_before(bodies@, j)) as u64, tx_count: counted(bodies@[j]) as u64 }),
                tx_blocks@ == indices@.filter(|p: (BlockNumber, StoredBlockBodyIndices)| p.1.tx_count > 0).map_values(
                    |p: (BlockNumber, StoredBlockBodyIndices)| ((p.1.first_tx_num + p.1.tx_count - 1) as u64, p.0)),
                ommers@ == bodies@.subrange(0, k as int).filter(|b: BodySummary| b.full && b.has_ommers).map_values(|b: BodySummary| b.block_number),
                withdrawals@ == bodies@.subrange(0, k as int).filter(|b: BodySummary| b.full && b.has_withdrawals).map_values(|b: BodySummary| b.block_number),
            decreases bodies.len() - k,
        {
            let b = bodies[k];
            let ghost pre = bodies@.subrange(0, k as int);
            proof {
                assert(bodies@.subrange(0, k + 1) =~= pre.push(b));
                pre.lemma_filter_push(b, |x: BodySummary| x.full && x.has_ommers);
                pre.lemma_filter_push(b, |x: BodySummary| x.full && x.has_withdrawals);
                assert(txs_before(bodies@, k + 1) == txs_before(bodies@, k as int) + counted(b));
                lemma_txs_before_mono(bodies@, k + 1, bodies@.len() as int);
            }
            let count = if b.full { b.tx_count } else { 0 };
            let block_indices = StoredBlockBodyIndices { first_tx_num: next, tx_count: count };
            let ghost tb_before = tx_blocks@;
            let last = block_indices.last_tx_num();
            if b.full {
                if count > 0 {
                    tx_blocks.push((last, b.block_number));
                }
                next = next + count;
                if b.has_ommers {
                    ommers.push(b.block_number);
                }
                if b.has_withdrawals {
                    withdrawals.push(b.block_number);
                }
            }
            let ghost ind_before = indices@;
            indices.push((b.block_number, block_indices));
            highest_block = b.block_number;
            proof {
                let fb = |x: BodySummary| x.block_number;
                let pi = |p: (BlockNumber, StoredBlockBodyIndices)| p.1.tx_count > 0;
                let fi = |p: (BlockNumber, StoredBlockBodyIndices)| ((p.1.first_tx_num + p.1.tx_count - 1) as u64, p.0);
                ind_before.lemma_filter_push((b.block_number, block_indices), pi);
                let fpi = ind_before.filter(pi);
                if count > 0 {
                    assert(tx_blocks@ == tb_before.push((last, b.block_number)));
                    assert(fpi.push((b.block_number, block_indices)).map_values(fi) =~= fpi.map_values(fi).push(fi((b.block_number, block_indices))));
                } else {
                    assert(tx_blocks@ == tb_before);
                }
                let fo = pre.filter(|x: BodySummary| x.full && x.has_ommers);
                assert(fo.push(b).map_values(fb) =~= fo.map_values(fb).push(b.block_number));
                let fw = pre.filter(|x: BodySummary| x.full && x.has_withdrawals);
                assert(fw.push(b).map_values(fb) =~= fw.map_values(fb).push(b.block_number));
            }
            k += 1;
        }
        proof {
            assert(bodies@.subrange(0, k as int) =~= bodies@);
        }
        BodyWrites { indices, tx_blocks, ommers, withdrawals, next_tx_num: next, output: ExecOutput { checkpoint: StageCheckpoint::new(highest_block), done: highest_block == to_block } }
    }

    /// What unwinding removes, walking the stored body indices from the
    /// highest block down: for each block above the unwind target, its
    /// transaction-to-block entry and its transactions; the walk stops at
    /// the first block at or below the target.
    pub fn plan_unwind(stored: &Vec<(BlockNumber, StoredBlockBodyIndices)>, unwind_to: BlockNumber) -> (r: Vec<BodyUnwindStep>)
        requires
            forall|k: int| 0 <= k < stored@.len() ==> (#[trigger] stored@[k]).1.fits(),
        ensures
            r@.len() <= stored@.len(),
            forall|k: int| 0 <= k < r@.len() ==> stored@[k].0 > unwind_to,
            r@.len() < stored@.len() ==> stored@[r@.len() as int].0 <= unwind_to,
            forall|k: int| 0 <= k < r@.len() ==> #[trigger] r@[k] == (BodyUnwindStep {
                block_number: stored@[k].0,
                tx_block_key: if stored@[k].1.tx_count == 0 {
                    None::<TxNumber>
                } else {
                    Some((stored@[k].1.first_tx_num + stored@[k].1.tx_count - 1) as u64)
                },
                tx_range: stored@[k].1.first_tx_num..(stored@[k].1.first_tx_num + stored@[k].1.tx_count) as u64,
            }),
    {
        let mut out: Vec<BodyUnwindStep> = Vec::new();
        let mut k: usize = 0;
        while k < stored.len()
            invariant
                k <= stored.len(),
                forall|j: int| 0 <= j < stored@.len() ==> (#[trigger] stored@[j]).1.fits(),
                out@.len() == k,
                forall|j: int| 0 <= j < k ==> stored@[j].0 > unwind_to,
                forall|j: int| 0 <= j < k ==> #[trigger] out@[j] == (BodyUnwindStep {
                    block_number: stored@[j].0,
                    tx_block_key: if stored@[j].1.tx_count == 0 {
                        None::<TxNumber>
                    } else {
                        Some((stored@[j].1.first_tx_num + stored@[j].1.tx_count - 1) as u64)
                    },
                    tx_range: stored@[j].1.first_tx_num..(stored@[j].1.first_tx_num + stored@[j].1.tx_count) as u64,
                }),
            ensures
                k < stored.len() ==> stored@[k as int].0 <= unwind_to,
            decreases stored.len() - k,
        {
            let (number, meta) = stored[k];
            if number <= unwind_to {
                break;
            }
            let tx_block_key = if meta.is_empty() { None } else { Some(meta.last_tx_num()) };
            out.push(BodyUnwindStep { block_number: number, tx_block_key, tx_range: meta.tx_num_range() });
            k += 1;
        }
        out
    }

    /// What the stage reports after unwinding: the unwind target.
    pub fn unwind_output(input: &UnwindInput) -> (r: UnwindOutput)
        ensures
            r == (UnwindOutput { checkpoint: StageCheckpoint { block_number: input.unwind_to, stage_checkpoint: None } }),
    {
        UnwindOutput { checkpoint: StageCheckpoint::new(input.unwind_to) }
    }
}

impl Stage for BodyStage {
    open spec fn spec_id(&self) -> StageId {
        StageId::Bodies
    }

    fn id(&self) -> (r: StageId) {
        StageId::Bodies
    }
}

} // verus!
