//! The pending sub-pool: transactions ready to be executed on the current
//! state, ranked by the pool's ordering.
use crate::pool::by_id::{find, has_id, id_map, index_of_id, lemma_id_map_insert, lemma_id_map_len, lemma_id_map_remove, lemma_index_of_id, lower_bound, sorted, Keyed};
use crate::pool::identifier::{id_lt, TransactionId};
use crate::pool::ordering::{priority_below, priority_eq, priority_lt, Priority, TransactionOrdering};
use crate::pool::parked::{lemma_sum_sizes_remove, sum_sizes};
use crate::pool::validate::ValidPoolTransaction;
use crate::primitives::U256;
use vstd::prelude::*;

verus! {

/// A transaction in the pending pool with its priority and submission tag.
#[derive(Clone, Copy, Debug)]
pub struct PendingTransaction {
    /// Identifier that tags when the transaction was submitted in the pool.
    pub submission_id: u64,
    /// The actual transaction.
    pub transaction: ValidPoolTransaction,
    /// The priority the ordering gave the transaction.
    pub priority: Priority<U256>,
}

impl Keyed for PendingTransaction {
    open spec fn key(&self) -> TransactionId {
        self.transaction.transaction_id
    }

    fn get_key(&self) -> (r: TransactionId) {
        self.transaction.transaction_id
    }
}

/// `a` ranks strictly below `b`: a lower priority, or the later submission
/// when the priorities are equal.
pub open spec fn pending_worse(a: PendingTransaction, b: PendingTransaction) -> bool {
    priority_below(a.priority, b.priority) || (a.priority == b.priority && a.submission_id
        > b.submission_id)
}

/// Whether the transaction at position `i` leaves the pool when the base
/// fee becomes `basefee`: its fee cap is below it, or the transaction just
/// before it is of the same sender and leaves.
pub open spec fn leaves_at(s: Seq<PendingTransaction>, i: int, basefee: u64) -> bool
    decreases i,
{
    if i < 0 || i >= s.len() {
        false
    } else {
        s[i].transaction.transaction.max_fee_per_gas < basefee || (i > 0 && s[i - 1].key().sender
            == s[i].key().sender && leaves_at(s, i - 1, basefee))
    }
}

/// The transactions among the first `n` that leave at `basefee`, in order.
pub open spec fn leaving(s: Seq<PendingTransaction>, n: int, basefee: u64) -> Seq<ValidPoolTransaction>
    decreases n,
{
    if n <= 0 || n > s.len() {
        seq![]
    } else if leaves_at(s, n - 1, basefee) {
        leaving(s, n - 1, basefee).push(s[n - 1].transaction)
    } else {
        leaving(s, n - 1, basefee)
    }
}

/// The ids of a sequence of transactions.
pub open spec fn ids_of(s: Seq<ValidPoolTransaction>) -> Seq<TransactionId> {
    s.map_values(|t: ValidPoolTransaction| t.transaction_id)
}

/// A pool of transactions that are ready on the current state.
pub struct PendingPool<T: TransactionOrdering> {
    /// How to rank the transactions.
    pub ordering: T,
    /// The submission id the next transaction gets.
    pub submission_id: u64,
    /// All transactions, sorted by id.
    pub by_id: Vec<PendingTransaction>,
}

impl<T: TransactionOrdering> PendingPool<T> {
    /// The entries keyed by id.
    pub open spec fn entries(&self) -> Map<TransactionId, PendingTransaction> {
        id_map(self.by_id@)
    }

    /// The transactions keyed by id.
    pub open spec fn view(&self) -> Map<TransactionId, ValidPoolTransaction> {
        self.entries().map_values(|p: PendingTransaction| p.transaction)
    }

    /// The pool is ordered by id.
    pub open spec fn wf(&self) -> bool {
        sorted(self.by_id@)
    }

    /// An empty pool with the given ordering.
    pub fn new(ordering: T) -> (r: PendingPool<T>)
        ensures
            r.wf(),
            r.entries() == Map::<TransactionId, PendingTransaction>::empty(),
            r@ == Map::<TransactionId, ValidPoolTransaction>::empty(),
            r.ordering == ordering,
            r.submission_id == 0,
    {
        let r = PendingPool { ordering, submission_id: 0, by_id: Vec::new() };
        assert(r.entries() =~= Map::<TransactionId, PendingTransaction>::empty());
        assert(r@ =~= Map::<TransactionId, ValidPoolTransaction>::empty());
        r
    }

    /// Whether the pool holds the id.
    pub fn contains(&self, id: &TransactionId) -> (r: bool)
        requires
            self.wf(),
        ensures
            r == self@.contains_key(*id),
    {
        find(&self.by_id, *id).is_some()
    }

    /// Number of transactions in the pool.
    pub fn len(&self) -> (r: usize)
        requires
            self.wf(),
        ensures
            r == self@.len(),
            r == self.by_id@.len(),
    {
        proof {
            lemma_id_map_len(self.by_id@);
            assert(self@.dom() =~= id_map(self.by_id@).dom());
        }
        self.by_id.len()
    }

    /// Whether the pool is empty.
    pub fn is_empty(&self) -> (r: bool)
        requires
            self.wf(),
        ensures
            r == (self@.len() == 0),
    {
        self.len() == 0
    }

    /// The transactions of the pool, in id order.
    pub fn all(&self) -> (r: Vec<ValidPoolTransaction>)
        ensures
            r@ == self.by_id@.map_values(|p: PendingTransaction| p.transaction),
    {
        let mut out: Vec<ValidPoolTransaction> = Vec::new();
        let mut i: usize = 0;
        while i < self.by_id.len()
            invariant
                i <= self.by_id.len(),
                out@ == self.by_id@.subrange(0, i as int).map_values(|p: PendingTransaction| p.transaction),
            decreases self.by_id.len() - i,
        {
            out.push(self.by_id[i].transaction);
            i += 1;
            assert(out@ =~= self.by_id@.subrange(0, i as int).map_values(|p: PendingTransaction| p.transaction));
        }
        assert(self.by_id@.subrange(0, i as int) =~= self.by_id@);
        out
    }

    /// The combined size of the transactions, capped at `usize::MAX`.
    pub open spec fn size_spec(&self) -> nat {
        let total = sum_sizes(self.by_id@.map_values(|p: PendingTransaction| p.transaction));
        if total <= usize::MAX {
            total
        } else {
            usize::MAX as nat
        }
    }

    /// The reported size of all transactions in this pool, capped at
    /// `usize::MAX`.
    pub fn size(&self) -> (r: usize)
        ensures
            r == self.size_spec(),
    {
        let ghost all = self.by_id@.map_values(|p: PendingTransaction| p.transaction);
        let mut total: usize = 0;
        let mut i: usize = 0;
        while i < self.by_id.len()
            invariant
                i <= self.by_id.len(),
                all == self.by_id@.map_values(|p: PendingTransaction| p.transaction),
                total == (if sum_sizes(all.subrange(0, i as int)) <= usize::MAX { sum_sizes(all.subrange(0, i as int)) } else { usize::MAX as nat }),
            decreases self.by_id.len() - i,
        {
            let sz = self.by_id[i].transaction.transaction.size;
            assert(all.subrange(0, i + 1).drop_last() =~= all.subrange(0, i as int));
            total = total.saturating_add(sz);
            i += 1;
        }
        assert(all.subrange(0, i as int) =~= all);
        total
    }

    /// The next submission id.
    fn next_id(&mut self) -> (r: u64)
        ensures
            r == old(self).submission_id,
            final(self).submission_id == (if old(self).submission_id == u64::MAX { 0 } else { old(self).submission_id + 1 }),
            final(self).by_id@ == old(self).by_id@,
            final(self).ordering == old(self).ordering,
    {
        let id = self.submission_id;
        self.submission_id = if self.submission_id == u64::MAX { 0 } else { self.submission_id + 1 };
        id
    }

    /// Adds a transaction, ranked by the ordering at `base_fee`.
    pub fn add_transaction(&mut self, tx: ValidPoolTransaction, base_fee: u64)
        requires
            old(self).wf(),
            !old(self)@.contains_key(tx.transaction_id),
        ensures
            final(self).wf(),
            final(self).entries() == old(self).entries().insert(
                tx.transaction_id,
                PendingTransaction {
                    submission_id: old(self).submission_id,
                    transaction: tx,
                    priority: old(self).ordering.priority_of(tx.transaction, base_fee),
                },
            ),
            final(self)@ == old(self)@.insert(tx.transaction_id, tx),
            final(self).ordering == old(self).ordering,
            final(self).submission_id == (if old(self).submission_id == u64::MAX { 0 } else { old(self).submission_id + 1 }),
    {
        let id = tx.transaction_id;
        let submission_id = self.next_id();
        let priority = self.ordering.priority(&tx.transaction, base_fee);
        let transaction = PendingTransaction { submission_id, transaction: tx, priority };
        let ghost s = self.by_id@;
        let p = lower_bound(&self.by_id, id);
        proof {
            assert forall|j: int| p <= j < s.len() implies id_lt(id, #[trigger] s[j].key()) by {
                if s[j].key() == id {
                    assert(has_id(s, id));
                    assert(id_map(s).dom().contains(id));
                    assert(old(self)@.contains_key(id));
                }
            }
            lemma_id_map_insert(s, p as int, transaction);
        }
        self.by_id.insert(p, transaction);
        proof {
            assert(self@ =~= old(self)@.insert(id, tx));
        }
    }

    /// Removes the transaction from the pool.
    pub fn remove_transaction(&mut self, id: &TransactionId) -> (r: Option<ValidPoolTransaction>)
        requires
            old(self).wf(),
        ensures
            final(self).wf(),
            final(self).by_id@.len() == old(self).by_id@.len() - (if r is Some { 1int } else { 0int }),
            final(self).size_spec() <= old(self).size_spec(),
            final(self).ordering == old(self).ordering,
            final(self).submission_id == old(self).submission_id,
            final(self).entries() == old(self).entries().remove(*id),
            match r {
                Some(t) => old(self)@.contains_key(*id) && t == old(self)@[*id] && final(self)@ == old(self)@.remove(*id),
                None => !old(self)@.contains_key(*id) && final(self)@ == old(self)@,
            },
    {
        match find(&self.by_id, *id) {
            Some(i) => {
                let ghost s = self.by_id@;
                proof { lemma_id_map_remove(s, i as int); }
                let tx = self.by_id.remove(i);
                proof {
                    assert(self.by_id@.map_values(|p: PendingTransaction| p.transaction) =~= s.map_values(|p: PendingTransaction| p.transaction).remove(i as int));
                    lemma_sum_sizes_remove(s.map_values(|p: PendingTransaction| p.transaction), i as int);
                }
                proof { assert(self@ =~= old(self)@.remove(*id)); }
                Some(tx.transaction)
            },
            None => {
                proof { assert(old(self).entries().remove(*id) =~= old(self).entries()); }
                None
            },
        }
    }

    /// Removes a transaction that was included in a block.
    pub fn prune_transaction(&mut self, id: &TransactionId) -> (r: Option<ValidPoolTransaction>)
        requires
            old(self).wf(),
        ensures
            final(self).wf(),
            final(self).by_id@.len() == old(self).by_id@.len() - (if r is Some { 1int } else { 0int }),
            final(self).size_spec() <= old(self).size_spec(),
            final(self).ordering == old(self).ordering,
            final(self).submission_id == old(self).submission_id,
            final(self).entries() == old(self).entries().remove(*id),
            match r {
                Some(t) => old(self)@.contains_key(*id) && t == old(self)@[*id] && final(self)@ == old(self)@.remove(*id),
                None => !old(self)@.contains_key(*id) && final(self)@ == old(self)@,
            },
    {
        self.remove_transaction(id)
    }

    /// Applies a higher base fee: removes every transaction whose fee cap is
    /// below it, with all later transactions of its sender, and ranks the
    /// others anew at that base fee. Returns the removed transactions in id
    /// order.
    pub fn update_base_fee(&mut self, base_fee: u64) -> (r: Vec<ValidPoolTransaction>)
        requires
            old(self).wf(),
        ensures
            final(self).wf(),
            final(self).ordering == old(self).ordering,
            final(self).submission_id == old(self).submission_id,
            r@ == leaving(old(self).by_id@, old(self).by_id@.len() as int, base_fee),
            forall|a: int, b: int| 0 <= a < b < r@.len() ==> id_lt(r@[a].transaction_id, r@[b].transaction_id),
            forall|k: int| 0 <= k < r@.len() ==> old(self)@.contains_key(#[trigger] r@[k].transaction_id) && old(self)@[r@[k].transaction_id] == r@[k],
            final(self)@ == old(self)@.remove_keys(ids_of(r@).to_set()),
            forall|id: TransactionId| #[trigger] final(self).entries().contains_key(id) ==> final(self).entries()[id]
                == (PendingTransaction { priority: old(self).ordering.priority_of(old(self).entries()[id].transaction.transaction, base_fee), ..old(self).entries()[id] }),
    {
        let ghost s = self.by_id@;
        let ghost m0 = self@;
        let mut kept: Vec<PendingTransaction> = Vec::new();
        let mut removed: Vec<ValidPoolTransaction> = Vec::new();
        let mut prev_left = false;
        let n = self.by_id.len();
        let mut i: usize = 0;
        while i < n
            invariant
                i <= n == s.len(),
                self.by_id@ == s,
                self.wf(),
                m0 == self@,
                self.ordering == old(self).ordering,
                i > 0 ==> prev_left == leaves_at(s, i - 1, base_fee),
                removed@ == leaving(s, i as int, base_fee),
                sorted(kept@),
                forall|k: int, j: int| 0 <= k < kept@.len() && i <= j < n ==> id_lt(#[trigger] kept@[k].key(), #[trigger] s[j].key()),
                forall|k: int, j: int| 0 <= k < removed@.len() && i <= j < n ==> id_lt(#[trigger] removed@[k].transaction_id, #[trigger] s[j].key()),
                forall|a: int, b: int| 0 <= a < b < removed@.len() ==> id_lt(removed@[a].transaction_id, removed@[b].transaction_id),
                forall|k: int| 0 <= k < removed@.len() ==> m0.contains_key(#[trigger] removed@[k].transaction_id) && m0[removed@[k].transaction_id] == removed@[k],
                forall|id: TransactionId| #[trigger] id_map(kept@).contains_key(id) ==> m0.contains_key(id) && !ids_of(removed@).contains(id)
                    && id_map(kept@)[id] == (PendingTransaction { priority: self.ordering.priority_of(self.entries()[id].transaction.transaction, base_fee), ..self.entries()[id] }),
                forall|j: int| 0 <= j < i ==> (#[trigger] id_map(kept@).contains_key(s[j].key())) || ids_of(removed@).contains(s[j].key()),
            decreases n - i,
        {
            let t = self.by_id[i];
            let id = t.transaction.transaction_id;
            let same_as_prev = i > 0 && self.by_id[i - 1].transaction.transaction_id.sender == id.sender;
            let leaves = t.transaction.transaction.max_fee_per_gas < base_fee as u128 || (same_as_prev && prev_left);
            proof {
                lemma_index_of_id(s, i as int);
                assert(leaves == leaves_at(s, i as int, base_fee));
                assert(self.entries()[id] == t);
            }
            let ghost old_kept = kept@;
            let ghost old_removed = removed@;
            if leaves {
                removed.push(t.transaction);
                proof {
                    assert(ids_of(removed@) =~= ids_of(old_removed).push(id));
                    assert forall|x: TransactionId| ids_of(old_removed).contains(x) implies ids_of(removed@).contains(x) by {
                        let k = choose|k: int| 0 <= k < ids_of(old_removed).len() && ids_of(old_removed)[k] == x;
                        assert(ids_of(removed@)[k] == x);
                    }
                    assert(ids_of(removed@)[old_removed.len() as int] == id);
                    assert forall|x: TransactionId| #[trigger] id_map(kept@).contains_key(x) implies !ids_of(removed@).contains(x) by {
                        if ids_of(removed@).contains(x) {
                            let k = choose|k: int| 0 <= k < ids_of(removed@).len() && ids_of(removed@)[k] == x;
                            if k < old_removed.len() {
                                assert(ids_of(old_removed)[k] == x);
                            } else {
                                let kk = index_of_id(kept@, x);
                                assert(id_lt(kept@[kk].key(), s[i as int].key()));
                            }
                        }
                    }
                }
            } else {
                let priority = self.ordering.priority(&t.transaction.transaction, base_fee);
                let refreshed = PendingTransaction { priority, ..t };
                proof {
                    lemma_id_map_insert(kept@, kept@.len() as int, refreshed);
                    assert(kept@.insert(kept@.len() as int, refreshed) =~= kept@.push(refreshed));
                    if ids_of(removed@).contains(id) {
                        let k = choose|k: int| 0 <= k < ids_of(removed@).len() && ids_of(removed@)[k] == id;
                        assert(id_lt(removed@[k].transaction_id, s[i as int].key()));
                    }
                }
                kept.push(refreshed);
            }
            prev_left = leaves;
            proof {
                assert(leaving(s, i + 1, base_fee) == if leaves_at(s, i as int, base_fee) {
                    leaving(s, i as int, base_fee).push(s[i as int].transaction)
                } else {
                    leaving(s, i as int, base_fee)
                });
                assert forall|k: int, j: int| 0 <= k < kept@.len() && i + 1 <= j < n implies id_lt(#[trigger] kept@[k].key(), #[trigger] s[j].key()) by {
                    if k < old_kept.len() {
                        assert(id_lt(old_kept[k].key(), s[j].key()));
                    } else {
                        assert(id_lt(s[i as int].key(), s[j].key()));
                    }
                }
                assert forall|k: int, j: int| 0 <= k < removed@.len() && i + 1 <= j < n implies id_lt(#[trigger] removed@[k].transaction_id, #[trigger] s[j].key()) by {
                    if k < old_removed.len() {
                        assert(id_lt(old_removed[k].transaction_id, s[j].key()));
                    } else {
                        assert(id_lt(s[i as int].key(), s[j].key()));
                    }
                }
                assert forall|j: int| 0 <= j < i + 1 implies (#[trigger] id_map(kept@).contains_key(s[j].key())) || ids_of(removed@).contains(s[j].key()) by {
                    if j < i {
                        if id_map(old_kept).contains_key(s[j].key()) {
                        } else {
                            let k = choose|k: int| 0 <= k < ids_of(old_removed).len() && ids_of(old_removed)[k] == s[j].key();
                            assert(ids_of(removed@)[k] == s[j].key());
                        }
                    } else if leaves {
                        assert(ids_of(removed@)[old_removed.len() as int] == id);
                    }
                }
            }
            i += 1;
        }
        self.by_id = kept;
        proof {
            let r = ids_of(removed@).to_set();
            assert forall|x: TransactionId| #[trigger] self@.contains_key(x) <==> old(self)@.remove_keys(r).contains_key(x) by {
                if old(self)@.contains_key(x) && !r.contains(x) {
                    assert(has_id(s, x));
                    let j = index_of_id(s, x);
                    assert(s[j].key() == x);
                }
            }
            assert(self@ =~= old(self)@.remove_keys(r));
        }
        removed
    }

    /// Removes the worst transaction from the pool.
    pub fn pop_worst(&mut self) -> (r: Option<ValidPoolTransaction>)
        requires
            old(self).wf(),
        ensures
            final(self).wf(),
            final(self).by_id@.len() == old(self).by_id@.len() - (if r is Some { 1int } else { 0int }),
            final(self).size_spec() <= old(self).size_spec(),
            r is None <==> old(self).by_id@.len() == 0,
            final(self).ordering == old(self).ordering,
            final(self).submission_id == old(self).submission_id,
            match r {
                Some(t) => old(self)@.contains_key(t.transaction_id) && t == old(self)@[t.transaction_id]
                    && final(self)@ == old(self)@.remove(t.transaction_id)
                    && final(self).entries() == old(self).entries().remove(t.transaction_id)
                    && forall|id: TransactionId| #[trigger] old(self).entries().contains_key(id) ==> !pending_worse(old(self).entries()[id], old(self).entries()[t.transaction_id]),
                None => old(self)@.len() == 0 && final(self)@ == old(self)@,
            },
    {
        if self.by_id.len() == 0 {
            proof { lemma_id_map_len(self.by_id@); assert(self@.dom() =~= id_map(self.by_id@).dom()); }
            return None;
        }
        let mut w: usize = 0;
        let mut i: usize = 1;
        while i < self.by_id.len()
            invariant
                0 < self.by_id.len(),
                w < i <= self.by_id.len(),
                forall|j: int| 0 <= j < i ==> !pending_worse(#[trigger] self.by_id@[j], self.by_id@[w as int]),
            decreases self.by_id.len() - i,
        {
            let a = self.by_id[i];
            let b = self.by_id[w];
            let worse = priority_lt(&a.priority, &b.priority) || (priority_eq(&a.priority, &b.priority)
                && a.submission_id > b.submission_id);
            if worse {
                w = i;
            }
            i += 1;
        }
        let id = self.by_id[w].transaction.transaction_id;
        proof {
            lemma_index_of_id(self.by_id@, w as int);
            assert forall|x: TransactionId| #[trigger] self.entries().contains_key(x) implies !pending_worse(self.entries()[x], self.entries()[id]) by {
                let j = index_of_id(self.by_id@, x);
                assert(self.by_id@[j] == self.entries()[x]);
            }
        }
        self.remove_transaction(&id)
    }
}

} // verus!
