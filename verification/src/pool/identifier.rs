//! Identifiers of senders and of the transactions they send.
use vstd::prelude::*;

verus! {

/// The pool's internal id of a sender address.
pub type SenderId = u64;

/// A transaction's place in the pool: its sender and its nonce.
///
/// Ids are ordered by sender first and nonce second, so the transactions of
/// one sender are adjacent and ascend by nonce.
#[derive(Clone, Copy, Debug, PartialEq, Eq, Structural)]
pub struct TransactionId {
    /// The sender of the transaction.
    pub sender: SenderId,
    /// The nonce of the transaction.
    pub nonce: u64,
}

/// Strict order on ids: by sender, then by nonce.
pub open spec fn id_lt(a: TransactionId, b: TransactionId) -> bool {
    a.sender < b.sender || (a.sender == b.sender && a.nonce < b.nonce)
}

impl TransactionId {
    /// Creates an id.
    pub fn new(sender: SenderId, nonce: u64) -> (r: TransactionId)
        ensures
            r == (TransactionId { sender, nonce }),
    {
        TransactionId { sender, nonce }
    }

    /// The id of the transaction that must come before a transaction with
    /// `transaction_nonce`, if the chain's nonce does not already cover it.
    ///
    /// `None` when the transaction is the next one the chain expects, or
    /// older.
    pub fn ancestor(transaction_nonce: u64, on_chain_nonce: u64, sender: SenderId) -> (r: Option<
        TransactionId,
    >)
        ensures
            r == (if transaction_nonce <= on_chain_nonce {
                None
            } else {
                Some(TransactionId { sender, nonce: (transaction_nonce - 1) as u64 })
            }),
    {
        if transaction_nonce == on_chain_nonce {
            None
        } else {
            let prev_nonce = transaction_nonce.saturating_sub(1);
            if on_chain_nonce <= prev_nonce {
                Some(TransactionId::new(sender, prev_nonce))
            } else {
                None
            }
        }
    }

    /// Whether `self` comes strictly before `other`.
    pub fn lt(&self, other: &TransactionId) -> (r: bool)
        ensures
            r == id_lt(*self, *other),
    {
        self.sender < other.sender || (self.sender == other.sender && self.nonce < other.nonce)
    }
}

} // verus!
