//! Sub-pools of transactions parked until external changes move them.
use crate::pool::by_id::{find, has_id, id_map, index_of_id, lemma_id_map_insert, lemma_id_map_len, lemma_id_map_remove, lemma_index_of_id, lemma_sorted_unique, lower_bound, sorted, Keyed};
use crate::pool::identifier::{id_lt, SenderId, TransactionId};
use crate::pool::validate::ValidPoolTransaction;
use vstd::prelude::*;

verus! {

/// How a parked sub-pool ranks its transactions.
#[derive(Clone, Copy, Debug, PartialEq, Eq, Structural)]
pub enum ParkedOrder {
    /// By fee cap: the lower the fee cap, the worse.
    BaseFee,
    /// Queued transactions: by fee cap, the lower the worse; among equal
    /// fee caps, the younger the worse.
    Queued,
}

/// A transaction in a parked pool, tagged with when it was submitted.
#[derive(Clone, Copy, Debug, PartialEq, Eq, Structural)]
pub struct ParkedPoolTransaction {
    /// Identifier that tags when transaction was submitted in the pool.
    pub submission_id: u64,
    /// Actual transaction.
    pub transaction: ValidPoolTransaction,
}

impl Keyed for ParkedPoolTransaction {
    open spec fn key(&self) -> TransactionId {
        self.transaction.transaction_id
    }

    fn get_key(&self) -> (r: TransactionId) {
        self.transaction.transaction_id
    }
}

/// `a` ranks strictly below `b`: by the order's key first, and the later
/// submission is worse when the keys tie.
pub open spec fn parked_worse(order: ParkedOrder, a: ParkedPoolTransaction, b: ParkedPoolTransaction) -> bool {
    match order {
        ParkedOrder::BaseFee => {
            let fa = a.transaction.transaction.max_fee_per_gas;
            let fb = b.transaction.transaction.max_fee_per_gas;
            fa < fb || (fa == fb && a.submission_id > b.submission_id)
        },
        ParkedOrder::Queued => {
            let fa = a.transaction.transaction.max_fee_per_gas;
            let fb = b.transaction.transaction.max_fee_per_gas;
            let ta = a.transaction.timestamp;
            let tb = b.transaction.timestamp;
            fa < fb || (fa == fb && (ta > tb || (ta == tb && a.submission_id > b.submission_id)))
        },
    }
}

/// Both parked orders rank by fee cap first: a transaction with a lower fee
/// cap is always worse, and one with a higher fee cap never is.
pub proof fn lemma_parked_order_by_fee_cap(order: ParkedOrder, a: ParkedPoolTransaction, b: ParkedPoolTransaction)
    ensures
        a.transaction.transaction.max_fee_per_gas < b.transaction.transaction.max_fee_per_gas ==> parked_worse(order, a, b),
        a.transaction.transaction.max_fee_per_gas > b.transaction.transaction.max_fee_per_gas ==> !parked_worse(order, a, b),
{
}

/// Among equal fee caps, the base-fee order ranks the later submission
/// worse; the queued order ranks the younger transaction worse, and the later
/// submission among equally old ones.
pub proof fn lemma_parked_order_ties(a: ParkedPoolTransaction, b: ParkedPoolTransaction)
    requires
        a.transaction.transaction.max_fee_per_gas == b.transaction.transaction.max_fee_per_gas,
    ensures
        parked_worse(ParkedOrder::BaseFee, a, b) <==> a.submission_id > b.submission_id,
        parked_worse(ParkedOrder::Queued, a, b) <==> (a.transaction.timestamp > b.transaction.timestamp
            || (a.transaction.timestamp == b.transaction.timestamp && a.submission_id > b.submission_id)),
{
}

/// The combined size of the transactions, capped at `usize::MAX`.
pub open spec fn sum_sizes(s: Seq<ValidPoolTransaction>) -> nat
    decreases s.len(),
{
    if s.len() == 0 {
        0
    } else {
        sum_sizes(s.drop_last()) + s.last().transaction.size as nat
    }
}

/// Removing a transaction takes its size off the combined size.
pub proof fn lemma_sum_sizes_remove(s: Seq<ValidPoolTransaction>, i: int)
    requires
        0 <= i < s.len(),
    ensures
        sum_sizes(s.remove(i)) + s[i].transaction.size == sum_sizes(s),
    decreases s.len(),
{
    if i == s.len() - 1 {
        assert(s.remove(i) =~= s.drop_last());
    } else {
        let d = s.drop_last();
        lemma_sum_sizes_remove(d, i);
        assert(s.remove(i).drop_last() =~= d.remove(i));
        assert(s.remove(i).last() == s.last());
    }
}

/// The ids, in id order from position `i` on, of the transactions whose fee
/// cap satisfies `basefee`.
pub open spec fn satisfy_walk(s: Seq<ParkedPoolTransaction>, i: int, basefee: u64) -> Seq<TransactionId>
    decreases s.len() - i,
{
    if i < 0 || i >= s.len() {
        seq![]
    } else if s[i].transaction.transaction.max_fee_per_gas < basefee {
        satisfy_walk(s, i + 1, basefee)
    } else {
        seq![s[i].key()] + satisfy_walk(s, i + 1, basefee)
    }
}

/// The walk yields ids of the pool from position `i` on, in increasing
/// order.
pub proof fn lemma_satisfy_walk(s: Seq<ParkedPoolTransaction>, i: int, basefee: u64)
    requires
        sorted(s),
        0 <= i,
    ensures
        forall|k: int| #![trigger satisfy_walk(s, i, basefee)[k]] 0 <= k < satisfy_walk(s, i, basefee).len() ==> exists|j: int| i <= j < s.len() && #[trigger] s[j].key() == satisfy_walk(s, i, basefee)[k],
        forall|a: int, b: int| 0 <= a < b < satisfy_walk(s, i, basefee).len() ==> id_lt(satisfy_walk(s, i, basefee)[a], satisfy_walk(s, i, basefee)[b]),
    decreases s.len() - i,
{
    if i >= s.len() {
    } else if s[i].transaction.transaction.max_fee_per_gas < basefee {
        lemma_satisfy_walk(s, i + 1, basefee);
        let r = satisfy_walk(s, i, basefee);
        assert(r == satisfy_walk(s, i + 1, basefee));
        assert forall|k: int| #![trigger r[k]] 0 <= k < r.len() implies exists|j: int| i <= j < s.len() && #[trigger] s[j].key() == r[k] by {
            let j = choose|j: int| i + 1 <= j < s.len() && #[trigger] s[j].key() == r[k];
            assert(s[j].key() == r[k]);
        }
    } else {
        let id = s[i].key();
        lemma_satisfy_walk(s, i + 1, basefee);
        let rest = satisfy_walk(s, i + 1, basefee);
        let r = satisfy_walk(s, i, basefee);
        assert(r == seq![id] + rest);
        assert forall|k: int| #![trigger r[k]] 0 <= k < r.len() implies exists|j: int| i <= j < s.len() && #[trigger] s[j].key() == r[k] by {
            if k == 0 {
                assert(s[i].key() == r[0]);
            } else {
                assert(r[k] == rest[k - 1]);
                let j = choose|j: int| i + 1 <= j < s.len() && #[trigger] s[j].key() == rest[k - 1];
                assert(s[j].key() == r[k]);
            }
        }
        assert forall|a: int, b: int| 0 <= a < b < r.len() implies id_lt(r[a], r[b]) by {
            if a == 0 {
                let j = choose|j: int| i + 1 <= j < s.len() && #[trigger] s[j].key() == rest[b - 1];
                assert(id_lt(s[i].key(), s[j].key()));
            } else {
                assert(r[a] == rest[a - 1] && r[b] == rest[b - 1]);
            }
        }
    }
}

/// A pool of transactions that are parked and wait for external changes
/// (base fee, ancestor transactions, balance) to move them into the pending
/// pool.
#[derive(Clone, Debug)]
pub struct ParkedPool {
    /// How this pool ranks its transactions.
    pub order: ParkedOrder,
    /// The submission id the next transaction gets.
    pub submission_id: u64,
    /// All transactions in the pool, sorted by id.
    pub by_id: Vec<ParkedPoolTransaction>,
}

impl ParkedPool {
    /// The transactions keyed by id.
    pub open spec fn view(&self) -> Map<TransactionId, ValidPoolTransaction> {
        id_map(self.by_id@).map_values(|p: ParkedPoolTransaction| p.transaction)
    }

    /// The pool is ordered by id, and each entry carries the id of its
    /// transaction.
    pub open spec fn wf(&self) -> bool {
        sorted(self.by_id@)
    }

    /// An empty pool with the given ranking.
    pub fn new(order: ParkedOrder) -> (r: ParkedPool)
        ensures
            r.wf(),
            r@ == Map::<TransactionId, ValidPoolTransaction>::empty(),
            r.order == order,
    {
        let r = ParkedPool { order, submission_id: 0, by_id: Vec::new() };
        assert(r@ =~= Map::<TransactionId, ValidPoolTransaction>::empty());
        r
    }

    /// Whether the pool holds the id.
    pub fn contains(&self, id: &TransactionId) -> (r: bool)
        requires
            self.wf(),
        ensures
            r == self@.contains_key(*id),
    {
        find(&self.by_id, *id).is_some()
    }

    /// Number of transactions in the entire pool.
    pub fn len(&self) -> (r: usize)
        requires
            self.wf(),
        ensures
            r == self@.len(),
            r == self.by_id@.len(),
    {
        proof {
            lemma_id_map_len(self.by_id@);
            assert(self@.dom() =~= id_map(self.by_id@).dom());
        }
        self.by_id.len()
    }

    /// Whether the pool is empty.
    pub fn is_empty(&self) -> (r: bool)
        requires
            self.wf(),
        ensures
            r == (self@.len() == 0),
    {
        self.len() == 0
    }

    /// The transactions of the pool, in id order.
    pub fn all(&self) -> (r: Vec<ValidPoolTransaction>)
        ensures
            r@ == self.by_id@.map_values(|p: ParkedPoolTransaction| p.transaction),
    {
        let mut out: Vec<ValidPoolTransaction> = Vec::new();
        let mut i: usize = 0;
        while i < self.by_id.len()
            invariant
                i <= self.by_id.len(),
                out@ == self.by_id@.subrange(0, i as int).map_values(|p: ParkedPoolTransaction| p.transaction),
            decreases self.by_id.len() - i,
        {
            out.push(self.by_id[i].transaction);
            i += 1;
            assert(out@ =~= self.by_id@.subrange(0, i as int).map_values(|p: ParkedPoolTransaction| p.transaction));
        }
        assert(self.by_id@.subrange(0, i as int) =~= self.by_id@);
        out
    }

    /// The combined size of the transactions, capped at `usize::MAX`.
    pub open spec fn size_spec(&self) -> nat {
        let total = sum_sizes(self.by_id@.map_values(|p: ParkedPoolTransaction| p.transaction));
        if total <= usize::MAX {
            total
        } else {
            usize::MAX as nat
        }
    }

    /// The reported size of all transactions in this pool, capped at
    /// `usize::MAX`.
    pub fn size(&self) -> (r: usize)
        ensures
            r == self.size_spec(),
    {
        let ghost all = self.by_id@.map_values(|p: ParkedPoolTransaction| p.transaction);
        let mut total: usize = 0;
        let mut i: usize = 0;
        while i < self.by_id.len()
            invariant
                i <= self.by_id.len(),
                all == self.by_id@.map_values(|p: ParkedPoolTransaction| p.transaction),
                total == (if sum_sizes(all.subrange(0, i as int)) <= usize::MAX { sum_sizes(all.subrange(0, i as int)) } else { usize::MAX as nat }),
            decreases self.by_id.len() - i,
        {
            let sz = self.by_id[i].transaction.transaction.size;
            assert(all.subrange(0, i + 1).drop_last() =~= all.subrange(0, i as int));
            total = total.saturating_add(sz);
            i += 1;
        }
        assert(all.subrange(0, i as int) =~= all);
        total
    }

    /// The next submission id.
    fn next_id(&mut self) -> (r: u64)
        ensures
            r == old(self).submission_id,
            final(self).submission_id == (if old(self).submission_id == u64::MAX { 0 } else { old(self).submission_id + 1 }),
            final(self).by_id@ == old(self).by_id@,
            final(self).order == old(self).order,
    {
        let id = self.submission_id;
        self.submission_id = if self.submission_id == u64::MAX { 0 } else { self.submission_id + 1 };
        id
    }

    /// Adds a new transaction to the pool.
    pub fn add_transaction(&mut self, tx: ValidPoolTransaction)
        requires
            old(self).wf(),
            !old(self)@.contains_key(tx.transaction_id),
        ensures
            final(self).wf(),
            final(self)@ == old(self)@.insert(tx.transaction_id, tx),
            final(self).order == old(self).order,
    {
        let id = tx.transaction_id;
        let submission_id = self.next_id();
        let transaction = ParkedPoolTransaction { submission_id, transaction: tx };
        let ghost s = self.by_id@;
        let p = lower_bound(&self.by_id, id);
        proof {
            if has_id(s, id) {
                let j = index_of_id(s, id);
                assert(id_map(s).contains_key(id));
            }
            assert forall|j: int| p <= j < s.len() implies id_lt(id, #[trigger] s[j].key()) by {
                if s[j].key() == id {
                    assert(has_id(s, id));
                    assert(id_map(s).dom().contains(id));
                    assert(self@.contains_key(id));
                }
            }
            lemma_id_map_insert(s, p as int, transaction);
        }
        self.by_id.insert(p, transaction);
        proof {
            assert(self@ =~= old(self)@.insert(id, tx));
        }
    }

    /// Removes the transaction from the pool.
    pub fn remove_transaction(&mut self, id: &TransactionId) -> (r: Option<ValidPoolTransaction>)
        requires
            old(self).wf(),
        ensures
            final(self).wf(),
            final(self).by_id@.len() == old(self).by_id@.len() - (if r is Some { 1int } else { 0int }),
            final(self).size_spec() <= old(self).size_spec(),
            final(self).order == old(self).order,
            id_map(final(self).by_id@) == id_map(old(self).by_id@).remove(*id),
            match r {
                Some(t) => old(self)@.contains_key(*id) && t == old(self)@[*id] && final(self)@ == old(self)@.remove(*id),
                None => !old(self)@.contains_key(*id) && final(self)@ == old(self)@,
            },
    {
        match find(&self.by_id, *id) {
            Some(i) => {
                let ghost s = self.by_id@;
                proof { lemma_id_map_remove(s, i as int); }
                let tx = self.by_id.remove(i);
                proof {
                    assert(self.by_id@.map_values(|p: ParkedPoolTransaction| p.transaction) =~= s.map_values(|p: ParkedPoolTransaction| p.transaction).remove(i as int));
                    lemma_sum_sizes_remove(s.map_values(|p: ParkedPoolTransaction| p.transaction), i as int);
                }
                proof { assert(self@ =~= old(self)@.remove(*id)); }
                Some(tx.transaction)
            },
            None => {
                proof { assert(id_map(self.by_id@) =~= id_map(old(self).by_id@).remove(*id)); }
                None
            },
        }
    }

    /// Returns the ids, in id order, of all transactions whose fee cap
    /// satisfies the given base fee.
    pub fn satisfy_base_fee_ids(&self, basefee: u64) -> (r: Vec<TransactionId>)
        requires
            self.wf(),
        ensures
            r@ == satisfy_walk(self.by_id@, 0, basefee),
    {
        let mut out: Vec<TransactionId> = Vec::new();
        let mut i: usize = 0;
        while i < self.by_id.len()
            invariant
                i <= self.by_id.len(),
                out@ + satisfy_walk(self.by_id@, i as int, basefee) == satisfy_walk(self.by_id@, 0, basefee),
            decreases self.by_id.len() - i,
        {
            let t = self.by_id[i];
            let id = t.transaction.transaction_id;
            let ghost prev = out@;
            if t.transaction.transaction.max_fee_per_gas >= basefee as u128 {
                out.push(id);
                assert(out@ + satisfy_walk(self.by_id@, i + 1, basefee) =~= prev + (seq![id] + satisfy_walk(self.by_id@, i + 1, basefee)));
            }
            i += 1;
        }
        assert(out@ =~= satisfy_walk(self.by_id@, 0, basefee));
        out
    }

    /// Returns all transactions that satisfy the given base fee, see
    /// [`Self::satisfy_base_fee_ids`]. Does not remove them.
    pub fn satisfy_base_fee_transactions(&self, basefee: u64) -> (r: Vec<ValidPoolTransaction>)
        requires
            self.wf(),
        ensures
            r@.len() == satisfy_walk(self.by_id@, 0, basefee).len(),
            forall|k: int| 0 <= k < r@.len() ==> #[trigger] r@[k] == self@[satisfy_walk(self.by_id@, 0, basefee)[k]],
            forall|k: int| 0 <= k < r@.len() ==> self@.contains_key(#[trigger] satisfy_walk(self.by_id@, 0, basefee)[k]),
    {
        let ids = self.satisfy_base_fee_ids(basefee);
        proof {
            lemma_satisfy_walk(self.by_id@, 0, basefee);
            assert forall|a: int| 0 <= a < ids@.len() implies self@.contains_key(#[trigger] ids@[a]) by {
                let w = satisfy_walk(self.by_id@, 0, basefee);
                let j = choose|j: int| 0 <= j < self.by_id@.len() && #[trigger] self.by_id@[j].key() == w[a];
                assert(has_id(self.by_id@, ids@[a]));
            }
        }
        let mut txs: Vec<ValidPoolTransaction> = Vec::new();
        let mut k: usize = 0;
        while k < ids.len()
            invariant
                k <= ids.len(),
                self.wf(),
                ids@ == satisfy_walk(self.by_id@, 0, basefee),
                txs@.len() == k,
                forall|a: int| 0 <= a < k ==> #[trigger] txs@[a] == self@[ids@[a]],
                forall|a: int| 0 <= a < ids@.len() ==> self@.contains_key(#[trigger] ids@[a]),
            decreases ids.len() - k,
        {
            let id = ids[k];
            match find(&self.by_id, id) {
                Some(j) => {
                    proof { assert(id_map(self.by_id@).contains_key(id)); }
                    txs.push(self.by_id[j].transaction);
                },
                None => {
                    proof {
                        assert(self@.contains_key(ids@[k as int]));
                        assert(id_map(self.by_id@).contains_key(id));
                    }
                },
            }
            k += 1;
        }
        txs
    }

    /// Removes all transactions that satisfy the given base fee, see
    /// [`Self::satisfy_base_fee_ids`], and returns them in id order.
    pub fn enforce_basefee(&mut self, basefee: u64) -> (r: Vec<ValidPoolTransaction>)
        requires
            old(self).wf(),
        ensures
            final(self).wf(),
            final(self).order == old(self).order,
            ({
                let ids = satisfy_walk(old(self).by_id@, 0, basefee);
                &&& r@.len() == ids.len()
                &&& forall|k: int| 0 <= k < ids.len() ==> old(self)@.contains_key(#[trigger] ids[k]) && r@[k] == old(self)@[ids[k]]
                &&& final(self)@ == old(self)@.remove_keys(ids.to_set())
            }),
    {
        let ids = self.satisfy_base_fee_ids(basefee);
        let ghost m0 = self@;
        proof {
            lemma_satisfy_walk(self.by_id@, 0, basefee);
            assert forall|a: int| 0 <= a < ids@.len() implies m0.contains_key(#[trigger] ids@[a]) by {
                let j = choose|j: int| 0 <= j < self.by_id@.len() && #[trigger] self.by_id@[j].key() == ids@[a];
                assert(has_id(self.by_id@, ids@[a]));
            }
        }
        let mut removed: Vec<ValidPoolTransaction> = Vec::new();
        let mut k: usize = 0;
        while k < ids.len()
            invariant
                k <= ids.len(),
                self.wf(),
                self.order == old(self).order,
                forall|a: int| 0 <= a < ids@.len() ==> m0.contains_key(#[trigger] ids@[a]),
                forall|a: int, b: int| 0 <= a < b < ids@.len() ==> id_lt(ids@[a], ids@[b]),
                self@ == m0.remove_keys(ids@.subrange(0, k as int).to_set()),
                removed@.len() == k,
                forall|a: int| 0 <= a < k ==> #[trigger] removed@[a] == m0[ids@[a]],
            decreases ids.len() - k,
        {
            let id = ids[k];
            proof {
                assert(!ids@.subrange(0, k as int).to_set().contains(id)) by {
                    if ids@.subrange(0, k as int).to_set().contains(id) {
                        let a = choose|a: int| 0 <= a < k && ids@.subrange(0, k as int)[a] == id;
                        assert(id_lt(ids@[a], ids@[k as int]));
                    }
                }
            }
            let t = self.remove_transaction(&id);
            match t {
                Some(t) => removed.push(t),
                None => {},
            }
            proof {
                assert(ids@.subrange(0, k + 1) =~= ids@.subrange(0, k as int).push(id));
                ids@.subrange(0, k as int).lemma_push_to_set_commute(id);
                assert(self@ =~= m0.remove_keys(ids@.subrange(0, k + 1).to_set()));
            }
            k += 1;
        }
        proof { assert(ids@.subrange(0, k as int) =~= ids@); }
        removed
    }

    /// Removes the worst transaction from this pool.
    pub fn pop_worst(&mut self) -> (r: Option<ValidPoolTransaction>)
        requires
            old(self).wf(),
        ensures
            final(self).wf(),
            final(self).by_id@.len() == old(self).by_id@.len() - (if r is Some { 1int } else { 0int }),
            final(self).size_spec() <= old(self).size_spec(),
            r is None <==> old(self).by_id@.len() == 0,
            final(self).order == old(self).order,
            match r {
                Some(t) => old(self)@.contains_key(t.transaction_id) && t == old(self)@[t.transaction_id]
                    && final(self)@ == old(self)@.remove(t.transaction_id)
                    && id_map(final(self).by_id@) == id_map(old(self).by_id@).remove(t.transaction_id)
                    && forall|j: int| 0 <= j < old(self).by_id@.len() ==> !parked_worse(old(self).order, #[trigger] old(self).by_id@[j], old(self).by_id@[index_of_id(old(self).by_id@, t.transaction_id)])
                    && forall|x: TransactionId| #[trigger] id_map(old(self).by_id@).contains_key(x) ==> !parked_worse(old(self).order,
                        id_map(old(self).by_id@)[x], id_map(old(self).by_id@)[t.transaction_id])
                    && forall|x: TransactionId| #[trigger] old(self)@.contains_key(x)
                        ==> t.transaction.max_fee_per_gas <= old(self)@[x].transaction.max_fee_per_gas,
                None => old(self)@.len() == 0 && final(self)@ == old(self)@,
            },
    {
        if self.by_id.len() == 0 {
            proof { lemma_id_map_len(self.by_id@); assert(self@.dom() =~= id_map(self.by_id@).dom()); }
            return None;
        }
        let mut w: usize = 0;
        let mut i: usize = 1;
        while i < self.by_id.len()
            invariant
                0 < self.by_id.len(),
                w < i <= self.by_id.len(),
                forall|j: int| 0 <= j < i ==> !parked_worse(self.order, #[trigger] self.by_id@[j], self.by_id@[w as int]),
            decreases self.by_id.len() - i,
        {
            let a = self.by_id[i];
            let b = self.by_id[w];
            let worse = match self.order {
                ParkedOrder::BaseFee => {
                    let fa = a.transaction.transaction.max_fee_per_gas;
                    let fb = b.transaction.transaction.max_fee_per_gas;
                    fa < fb || (fa == fb && a.submission_id > b.submission_id)
                },
                ParkedOrder::Queued => {
                    let fa = a.transaction.transaction.max_fee_per_gas;
                    let fb = b.transaction.transaction.max_fee_per_gas;
                    let ta = a.transaction.timestamp;
                    let tb = b.transaction.timestamp;
                    fa < fb || (fa == fb && (ta > tb || (ta == tb && a.submission_id > b.submission_id)))
                },
            };
            if worse {
                w = i;
            }
            i += 1;
        }
        let id = self.by_id[w].transaction.transaction_id;
        let ghost s = self.by_id@;
        proof {
            lemma_index_of_id(s, w as int);
            assert forall|x: TransactionId| #[trigger] id_map(s).contains_key(x) implies !parked_worse(self.order, id_map(s)[x], id_map(s)[id]) by {
                let j = index_of_id(s, x);
                assert(0 <= j < s.len() && s[j].key() == x);
                assert(!parked_worse(self.order, s[j], s[w as int]));
            }
        }
        proof {
            assert forall|x: TransactionId| #[trigger] self@.contains_key(x)
                implies self@[id].transaction.max_fee_per_gas <= self@[x].transaction.max_fee_per_gas by {
                lemma_parked_order_by_fee_cap(self.order, id_map(s)[x], id_map(s)[id]);
            }
        }
        self.remove_transaction(&id)
    }
}

} // verus!
