//! What the node tracks of the chain: the canonical head, and the safe and
//! finalized blocks.
use crate::primitives::{BlockNumber, SealedHeader, H256};
use vstd::prelude::*;

verus! {

/// The best block of the chain.
#[derive(Clone, Copy, Debug, PartialEq, Eq, Structural)]
pub struct ChainInfo {
    /// The hash of the best block.
    pub best_hash: H256,
    /// The number of the best block.
    pub best_number: BlockNumber,
}

/// A block number with its hash.
#[derive(Clone, Copy, Debug, PartialEq, Eq, Structural)]
pub struct BlockNumHash {
    /// The block number.
    pub number: BlockNumber,
    /// The block hash.
    pub hash: H256,
}

/// The number and hash of a header.
pub open spec fn num_hash(h: SealedHeader) -> BlockNumHash {
    BlockNumHash { number: h.number, hash: h.hash }
}

/// Tracks the chain info: the canonical head, the safe and finalized
/// blocks, and when the last forkchoice update came.
///
/// The instant of the last forkchoice update is whatever clock reading the
/// caller hands in.
#[derive(Clone, Copy, Debug)]
pub struct ChainInfoTracker {
    /// When the last forkchoice update was received.
    pub last_forkchoice_update: Option<u64>,
    /// The number of the canonical head.
    pub canonical_head_number: BlockNumber,
    /// The canonical head.
    pub canonical_head: SealedHeader,
    /// The safe block.
    pub safe_block: Option<SealedHeader>,
    /// The finalized block.
    pub finalized_block: Option<SealedHeader>,
}

impl ChainInfoTracker {
    /// The tracked number of the canonical head is the head's number.
    pub open spec fn wf(&self) -> bool {
        self.canonical_head_number == self.canonical_head.number
    }

    /// Creates a tracker with the given canonical head.
    pub fn new(head: SealedHeader) -> (r: ChainInfoTracker)
        ensures
            r.wf(),
            r.canonical_head == head,
            r.last_forkchoice_update is None,
            r.safe_block is None,
            r.finalized_block is None,
    {
        ChainInfoTracker { last_forkchoice_update: None, canonical_head_number: head.number, canonical_head: head, safe_block: None, finalized_block: None }
    }

    /// Returns the best block: the canonical head.
    pub fn chain_info(&self) -> (r: ChainInfo)
        ensures
            r == (ChainInfo { best_hash: self.canonical_head.hash, best_number: self.canonical_head.number }),
    {
        ChainInfo { best_hash: self.canonical_head.hash, best_number: self.canonical_head.number }
    }

    /// Records that a forkchoice update was received at `now`.
    pub fn on_forkchoice_update_received(&mut self, now: u64)
        ensures
            *final(self) == (ChainInfoTracker { last_forkchoice_update: Some(now), ..*old(self) }),
    {
        self.last_forkchoice_update = Some(now);
    }

    /// Returns when the last forkchoice update was received.
    pub fn last_forkchoice_update_received_at(&self) -> (r: Option<u64>)
        ensures
            r == self.last_forkchoice_update,
    {
        self.last_forkchoice_update
    }

    /// Returns the canonical head.
    pub fn get_canonical_head(&self) -> (r: SealedHeader)
        ensures
            r == self.canonical_head,
    {
        self.canonical_head
    }

    /// Returns the safe header, if any.
    pub fn get_safe_header(&self) -> (r: Option<SealedHeader>)
        ensures
            r == self.safe_block,
    {
        self.safe_block
    }

    /// Returns the finalized header, if any.
    pub fn get_finalized_header(&self) -> (r: Option<SealedHeader>)
        ensures
            r == self.finalized_block,
    {
        self.finalized_block
    }

    /// Returns the number and hash of the canonical head.
    pub fn get_canonical_num_hash(&self) -> (r: BlockNumHash)
        ensures
            r == num_hash(self.canonical_head),
    {
        BlockNumHash { number: self.canonical_head.number, hash: self.canonical_head.hash }
    }

    /// Returns the number of the canonical head.
    pub fn get_canonical_block_number(&self) -> (r: BlockNumber)
        ensures
            r == self.canonical_head_number,
    {
        self.canonical_head_number
    }

    /// Returns the number and hash of the safe block, if any.
    pub fn get_safe_num_hash(&self) -> (r: Option<BlockNumHash>)
        ensures
            r == match self.safe_block {
                Some(h) => Some(num_hash(h)),
                None => None::<BlockNumHash>,
            },
    {
        match self.safe_block {
            Some(h) => Some(BlockNumHash { number: h.number, hash: h.hash }),
            None => None,
        }
    }

    /// Returns the number and hash of the finalized block, if any.
    pub fn get_finalized_num_hash(&self) -> (r: Option<BlockNumHash>)
        ensures
            r == match self.finalized_block {
                Some(h) => Some(num_hash(h)),
                None => None::<BlockNumHash>,
            },
    {
        match self.finalized_block {
            Some(h) => Some(BlockNumHash { number: h.number, hash: h.hash }),
            None => None,
        }
    }

    /// Sets the canonical head and its number.
    pub fn set_canonical_head(&mut self, header: SealedHeader)
        ensures
            final(self).wf(),
            *final(self) == (ChainInfoTracker { canonical_head: header, canonical_head_number: header.number, ..*old(self) }),
    {
        let number = header.number;
        self.canonical_head = header;
        self.canonical_head_number = number;
    }

    /// Sets the safe block.
    pub fn set_safe(&mut self, header: SealedHeader)
        ensures
            *final(self) == (ChainInfoTracker { safe_block: Some(header), ..*old(self) }),
    {
        self.safe_block = Some(header);
    }

    /// Sets the finalized block.
    pub fn set_finalized(&mut self, header: SealedHeader)
        ensures
            *final(self) == (ChainInfoTracker { finalized_block: Some(header), ..*old(self) }),
    {
        self.finalized_block = Some(header);
    }
}

/// Law: after setting the canonical head, reading it back gives the header,
/// its number is the tracked block number, and the best block is it.
pub proof fn lemma_canonical_head_read_back(t: ChainInfoTracker, header: SealedHeader)
    ensures
        ({
            let t2 = ChainInfoTracker { canonical_head: header, canonical_head_number: header.number, ..t };
            &&& t2.wf()
            &&& t2.canonical_head == header
            &&& t2.canonical_head_number == header.number
            &&& (ChainInfo { best_hash: t2.canonical_head.hash, best_number: t2.canonical_head.number }) == (ChainInfo { best_hash: header.hash, best_number: header.number })
        }),
{
}

} // verus!
