//! The conditions a pooled transaction meets and the sub-pool they select.
use vstd::prelude::*;

verus! {

/// The sub-pools a pooled transaction can sit in.
#[derive(Clone, Copy, Debug, PartialEq, Eq, Structural)]
pub enum SubPool {
    /// Blocked by a nonce gap, a parked ancestor, the balance or the gas limit.
    Queued,
    /// Ready to be included in the next block.
    Pending,
    /// Ready but for the block's base fee.
    BaseFee,
}

impl SubPool {
    /// Whether this is the pending sub-pool.
    pub fn is_pending(&self) -> (r: bool)
        ensures
            r == (*self == SubPool::Pending),
    {
        match self {
            SubPool::Pending => true,
            _ => false,
        }
    }
}

/// The conditions tracked for a pooled transaction.
///
/// A transaction is pending when all five hold; it waits for the base fee
/// when all but the fee condition hold; otherwise it is queued.
#[derive(Clone, Copy, Debug, PartialEq, Eq, Structural)]
pub struct TxState {
    /// Every earlier transaction of the sender in the pool is pending.
    pub no_parked_ancestors: bool,
    /// The transaction is the sender's next, or every earlier nonce is pooled.
    pub no_nonce_gaps: bool,
    /// The sender's balance covers this transaction and all before it.
    pub enough_balance: bool,
    /// The gas limit is below the block's gas limit.
    pub not_too_much_gas: bool,
    /// The fee cap covers the pending block's base fee.
    pub enough_fee_cap_block: bool,
}

/// Whether a state belongs in the pending sub-pool.
pub open spec fn spec_is_pending(s: TxState) -> bool {
    s.no_parked_ancestors && s.no_nonce_gaps && s.enough_balance && s.not_too_much_gas
        && s.enough_fee_cap_block
}

/// The sub-pool a state selects.
pub open spec fn spec_subpool(s: TxState) -> SubPool {
    if spec_is_pending(s) {
        SubPool::Pending
    } else if s.no_parked_ancestors && s.no_nonce_gaps && s.enough_balance && s.not_too_much_gas {
        SubPool::BaseFee
    } else {
        SubPool::Queued
    }
}

impl TxState {
    /// The state with no condition met.
    pub fn empty() -> (r: TxState)
        ensures
            !r.no_parked_ancestors && !r.no_nonce_gaps && !r.enough_balance
                && !r.not_too_much_gas && !r.enough_fee_cap_block,
    {
        TxState {
            no_parked_ancestors: false,
            no_nonce_gaps: false,
            enough_balance: false,
            not_too_much_gas: false,
            enough_fee_cap_block: false,
        }
    }

    /// Whether every condition holds.
    pub fn is_pending(&self) -> (r: bool)
        ensures
            r == spec_is_pending(*self),
    {
        self.no_parked_ancestors && self.no_nonce_gaps && self.enough_balance
            && self.not_too_much_gas && self.enough_fee_cap_block
    }

    /// Whether an earlier nonce of the sender is missing.
    pub fn has_nonce_gap(&self) -> (r: bool)
        ensures
            r == !self.no_nonce_gaps,
    {
        !self.no_nonce_gaps
    }

    /// The sub-pool this state selects.
    pub fn subpool(&self) -> (r: SubPool)
        ensures
            r == spec_subpool(*self),
    {
        if self.is_pending() {
            SubPool::Pending
        } else if self.no_parked_ancestors && self.no_nonce_gaps && self.enough_balance
            && self.not_too_much_gas {
            SubPool::BaseFee
        } else {
            SubPool::Queued
        }
    }
}

} // verus!
