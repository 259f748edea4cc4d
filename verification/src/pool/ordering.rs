//! How pending transactions are ranked.
use crate::pool::validate::{spec_effective_tip, PooledTransaction};
use crate::primitives::U256;
use vstd::prelude::*;

verus! {

/// Priority of a transaction; transactions with missing priorities rank
/// lower.
#[derive(Clone, Copy, Debug, PartialEq, Eq)]
pub enum Priority<T> {
    /// The value of the priority of the transaction.
    Value(T),
    /// Missing priority due to ordering internals.
    Missing,
}

impl<T> Priority<T> {
    /// The priority of a value that may be missing.
    pub fn from_option(value: Option<T>) -> (r: Priority<T>)
        ensures
            r == match value {
                Some(v) => Priority::Value(v),
                None => Priority::<T>::Missing,
            },
    {
        match value {
            Some(val) => Priority::Value(val),
            None => Priority::Missing,
        }
    }
}

impl<T> From<Option<T>> for Priority<T> {
    fn from(value: Option<T>) -> (r: Priority<T>) {
        Priority::from_option(value)
    }
}

impl<T> vstd::std_specs::convert::FromSpecImpl<Option<T>> for Priority<T> {
    open spec fn obeys_from_spec() -> bool {
        true
    }

    open spec fn from_spec(v: Option<T>) -> Priority<T> {
        match v {
            Some(x) => Priority::Value(x),
            None => Priority::<T>::Missing,
        }
    }
}

/// `a` ranks strictly below `b`: a missing priority ranks below any value,
/// and values compare as numbers.
pub open spec fn priority_below(a: Priority<U256>, b: Priority<U256>) -> bool {
    match (a, b) {
        (Priority::Missing, Priority::Value(_)) => true,
        (Priority::Value(x), Priority::Value(y)) => x.value() < y.value(),
        _ => false,
    }
}

/// Whether two priorities are the same.
pub fn priority_eq(a: &Priority<U256>, b: &Priority<U256>) -> (r: bool)
    ensures
        r == (*a == *b),
{
    match (a, b) {
        (Priority::Missing, Priority::Missing) => true,
        (Priority::Value(x), Priority::Value(y)) => x.hi == y.hi && x.lo == y.lo,
        _ => false,
    }
}

/// Whether `a` ranks strictly below `b`.
pub fn priority_lt(a: &Priority<U256>, b: &Priority<U256>) -> (r: bool)
    ensures
        r == priority_below(*a, *b),
{
    match (a, b) {
        (Priority::Missing, Priority::Value(_)) => true,
        (Priority::Value(x), Priority::Value(y)) => x.lt(y),
        _ => false,
    }
}

/// Decides how transactions are ordered within the pending pool: the higher
/// the priority, the better.
pub trait TransactionOrdering {
    /// The priority score of a transaction at a base fee.
    spec fn priority_of(&self, transaction: PooledTransaction, base_fee: u64) -> Priority<U256>;

    /// Returns the priority score for the given transaction.
    fn priority(&self, transaction: &PooledTransaction, base_fee: u64) -> (r: Priority<U256>)
        ensures
            r == self.priority_of(*transaction, base_fee),
    ;
}

/// The default ordering: by coinbase tip, the higher the better.
#[derive(Clone, Copy, Debug, Default)]
pub struct CoinbaseTipOrdering;

/// The coinbase tip priority of a transaction: its effective tip per gas.
pub open spec fn coinbase_tip_priority(transaction: PooledTransaction, base_fee: u64) -> Priority<U256> {
    match spec_effective_tip(transaction, base_fee) {
        Some(t) => Priority::Value(U256 { hi: 0, lo: t }),
        None => Priority::<U256>::Missing,
    }
}

impl CoinbaseTipOrdering {
    /// The priority of a transaction: its effective tip at the base fee.
    pub fn tip_priority(&self, transaction: &PooledTransaction, base_fee: u64) -> (r: Priority<U256>)
        ensures
            r == coinbase_tip_priority(*transaction, base_fee),
    {
        match transaction.effective_tip_per_gas(base_fee) {
            Some(t) => Priority::Value(U256::from_u128(t)),
            None => Priority::Missing,
        }
    }
}

impl TransactionOrdering for CoinbaseTipOrdering {
    open spec fn priority_of(&self, transaction: PooledTransaction, base_fee: u64) -> Priority<U256> {
        coinbase_tip_priority(transaction, base_fee)
    }

    fn priority(&self, transaction: &PooledTransaction, base_fee: u64) -> (r: Priority<U256>) {
        self.tip_priority(transaction, base_fee)
    }
}

} // verus!
