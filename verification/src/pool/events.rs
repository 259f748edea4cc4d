//! Events of single transactions in the pool.
use crate::pool::validate::ValidPoolTransaction;
use crate::primitives::{TxHash, H256};
use vstd::prelude::*;

verus! {

/// The id of a network peer: a 64-byte public key, held as two halves.
#[derive(Clone, Copy, Debug, PartialEq, Eq, Structural)]
pub struct PeerId(pub H256, pub H256);

/// How a transaction was propagated to a peer.
#[derive(Clone, Copy, Debug, PartialEq, Eq, Structural)]
pub enum PropagateKind {
    /// The full transaction was sent to the peer.
    Full(PeerId),
    /// Only the hash was announced to the peer.
    Hash(PeerId),
}

/// An event of a transaction, with the transaction's hash.
#[derive(Clone, Debug)]
pub enum FullTransactionEvent {
    /// The transaction was added to the pending sub-pool.
    Pending(TxHash),
    /// The transaction was added to the queued sub-pool.
    Queued(TxHash),
    /// The transaction was included in a block.
    Mined {
        /// The transaction.
        tx_hash: TxHash,
        /// The block that holds it.
        block_hash: H256,
    },
    /// The transaction was replaced by another one.
    Replaced {
        /// The transaction that was replaced.
        transaction: ValidPoolTransaction,
        /// The hash of the transaction that replaced it.
        replaced_by: TxHash,
    },
    /// The transaction was dropped by the pool.
    Discarded(TxHash),
    /// The transaction became invalid indefinitely.
    Invalid(TxHash),
    /// The transaction was propagated to peers.
    Propagated(Vec<PropagateKind>),
}

/// An event of a transaction.
#[derive(Clone, Debug, PartialEq, Eq)]
pub enum TransactionEvent {
    /// The transaction was added to the pending sub-pool.
    Pending,
    /// The transaction was added to the queued sub-pool.
    Queued,
    /// The transaction was included in the block with this hash.
    Mined(H256),
    /// The transaction was replaced by the transaction with this hash.
    Replaced(TxHash),
    /// The transaction was dropped by the pool.
    Discarded,
    /// The transaction became invalid indefinitely.
    Invalid,
    /// The transaction was propagated to peers.
    Propagated(Vec<PropagateKind>),
}

impl TransactionEvent {
    /// Whether no further event follows for the transaction: it was
    /// replaced, mined or discarded.
    pub fn is_final(&self) -> (r: bool)
        ensures
            r == (self is Replaced || self is Mined || self is Discarded),
    {
        match self {
            TransactionEvent::Replaced(_) | TransactionEvent::Mined(_) | TransactionEvent::Discarded => true,
            _ => false,
        }
    }
}

} // verus!
