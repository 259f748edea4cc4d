//! The pool of transactions: the set of all transactions and the three
//! sub-pools derived from it.
//!
//! Every transaction of the pool has a record in [`AllTransactions`] that
//! names the sub-pool it belongs to: pending (ready on the current state),
//! base fee (ready but its fee cap is below the pending block's base fee) or
//! queued (nonce gap, missing funds or a parked ancestor).
use crate::pool::by_id::{has_id, id_map, index_of_id, lemma_id_map_same_keys, lemma_index_of_id, lemma_sorted_same_ids, sorted, Keyed};
use crate::pool::config::PoolConfig;
use crate::pool::identifier::{id_lt, SenderId, TransactionId};
use crate::pool::moves::{ids_ascend, lemma_insert_walk, lemma_update_walk, lemma_upd_map, lemma_upd_map_step, move_of, upd_map};
use crate::pool::ordering::TransactionOrdering;
use crate::pool::parked::{parked_worse, satisfy_walk, lemma_satisfy_walk, ParkedOrder, ParkedPool};
use crate::pool::pending::{ids_of, leaving, pending_worse, PendingPool};
use crate::pool::sender_map::{sender_map_extend, sender_map_insert, sender_map_new};
use crate::pool::state::{spec_is_pending, spec_subpool, SubPool};
use crate::pool::txpool::{
    fee_flagged, insert_error, insert_outcome, map_has_hash, txs_of_sender, update_walk, AllTransactions, InsertErr, PoolInternalTransaction,
    SenderInfo, WalkMode,
};
use crate::pool::update::{Destination, PoolUpdate};
use crate::pool::validate::{InvalidPoolTransactionError, ValidPoolTransaction};
use crate::primitives::{Address, TxHash, H256, U256};
use fnv::FnvHashMap;
use std::collections::HashMap;
use vstd::prelude::*;

verus! {

/// Block values the pool tracks.
#[derive(Clone, Copy, Debug, PartialEq, Eq, Structural)]
pub struct BlockInfo {
    /// Hash of the last seen block.
    pub last_seen_block_hash: H256,
    /// Number of the last seen block.
    pub last_seen_block_number: u64,
    /// Expected base fee of the pending block.
    pub pending_basefee: u64,
}

/// Sizes of the sub-pools and the number of all transactions.
#[derive(Clone, Copy, Debug, PartialEq, Eq, Structural)]
pub struct PoolSize {
    /// Number of transactions in the pending sub-pool.
    pub pending: usize,
    /// Reported size of the transactions in the pending sub-pool.
    pub pending_size: usize,
    /// Number of transactions in the base fee sub-pool.
    pub basefee: usize,
    /// Reported size of the transactions in the base fee sub-pool.
    pub basefee_size: usize,
    /// Number of transactions in the queued sub-pool.
    pub queued: usize,
    /// Reported size of the transactions in the queued sub-pool.
    pub queued_size: usize,
    /// Number of all transactions of the pool.
    pub total: usize,
}

/// The transactions moved to the pending sub-pool and those discarded.
#[derive(Clone, Debug)]
pub struct UpdateOutcome {
    /// Transactions promoted to the pending sub-pool.
    pub promoted: Vec<ValidPoolTransaction>,
    /// Hashes of the discarded transactions.
    pub discarded: Vec<TxHash>,
}

/// What a new canonical block changed.
#[derive(Clone, Debug)]
pub struct OnNewCanonicalStateOutcome {
    /// Hash of the block.
    pub block_hash: H256,
    /// Hashes of the mined transactions.
    pub mined: Vec<TxHash>,
    /// Transactions promoted to the pending sub-pool.
    pub promoted: Vec<ValidPoolTransaction>,
    /// Hashes of the discarded transactions.
    pub discarded: Vec<TxHash>,
}

/// A transaction that entered the pending sub-pool.
#[derive(Clone, Debug)]
pub struct AddedPendingTransaction {
    /// The inserted transaction.
    pub transaction: ValidPoolTransaction,
    /// The transaction it replaced, if any.
    pub replaced: Option<ValidPoolTransaction>,
    /// Transactions promoted to the pending sub-pool by the insert.
    pub promoted: Vec<ValidPoolTransaction>,
    /// Hashes of transactions discarded by the insert.
    pub discarded: Vec<TxHash>,
}

/// Where an added transaction went.
#[derive(Clone, Debug)]
pub enum AddedTransaction {
    /// Into the pending sub-pool.
    Pending(AddedPendingTransaction),
    /// Into a parked sub-pool.
    Parked {
        /// The inserted transaction.
        transaction: ValidPoolTransaction,
        /// The transaction it replaced, if any.
        replaced: Option<ValidPoolTransaction>,
        /// The sub-pool it went to.
        subpool: SubPool,
    },
}

/// Where the transactions ready for a block come from, see
/// [`TxPool::best_transactions_with_base_fee`].
#[derive(Clone, Debug)]
pub enum BestTransactionsSource {
    /// The pending sub-pool, as it is ranked.
    Pending,
    /// The pending sub-pool, without the transactions whose fee cap is
    /// below this base fee.
    PendingWithBaseFee(u64),
    /// The pending sub-pool together with these transactions of the base
    /// fee sub-pool, ranked at this base fee.
    PendingWithUnlocked {
        /// The base fee sub-pool's transactions that the base fee unlocks.
        unlocked: Vec<ValidPoolTransaction>,
        /// The base fee to rank them at.
        base_fee: u64,
    },
}

/// The outcome of pruning transactions: those promoted, those whose
/// promotion failed, and those pruned.
#[derive(Clone, Debug)]
pub struct PruneResult {
    /// Transactions promoted to the pending sub-pool.
    pub promoted: Vec<AddedTransaction>,
    /// Hashes of transactions that failed to be promoted.
    pub failed: Vec<TxHash>,
    /// The pruned transactions.
    pub pruned: Vec<ValidPoolTransaction>,
}

/// Why a transaction was not added.
#[derive(Clone, Copy, Debug, PartialEq, Eq, Structural)]
pub enum PoolError {
    /// A transaction with this hash is already in the pool.
    AlreadyImported(TxHash),
    /// The transaction would replace the one with this hash, but its price
    /// is not bumped enough.
    ReplacementUnderpriced(TxHash),
    /// The fee cap is below the chain's minimum: `(hash, fee cap)`.
    FeeCapBelowMinimumProtocolFeeCap(TxHash, u128),
    /// The sender has too many transactions in the pool: `(sender, hash)`.
    SpammerExceededCapacity(Address, TxHash),
    /// The transaction can never be valid: `(hash, why)`.
    InvalidTransaction(TxHash, InvalidPoolTransactionError),
}

/// The error a refused insert is reported as.
pub open spec fn pool_error_of(e: InsertErr) -> PoolError {
    match e {
        InsertErr::Underpriced { existing, .. } => PoolError::ReplacementUnderpriced(existing),
        InsertErr::FeeCapBelowMinimumProtocolFeeCap { transaction, fee_cap } => PoolError::FeeCapBelowMinimumProtocolFeeCap(transaction.transaction.hash, fee_cap),
        InsertErr::ExceededSenderTransactionsCapacity { transaction } => PoolError::SpammerExceededCapacity(transaction.transaction.sender, transaction.transaction.hash),
        InsertErr::TxGasLimitMoreThanAvailableBlockGas { transaction, block_gas_limit, tx_gas_limit } => PoolError::InvalidTransaction(
            transaction.transaction.hash,
            InvalidPoolTransactionError::ExceedsGasLimit(block_gas_limit, tx_gas_limit),
        ),
    }
}

/// Reports a refused insert as a pool error.
pub fn pool_error(e: InsertErr) -> (r: PoolError)
    ensures
        r == pool_error_of(e),
{
    match e {
        InsertErr::Underpriced { existing, .. } => PoolError::ReplacementUnderpriced(existing),
        InsertErr::FeeCapBelowMinimumProtocolFeeCap { transaction, fee_cap } => PoolError::FeeCapBelowMinimumProtocolFeeCap(transaction.transaction.hash, fee_cap),
        InsertErr::ExceededSenderTransactionsCapacity { transaction } => PoolError::SpammerExceededCapacity(transaction.transaction.sender, transaction.transaction.hash),
        InsertErr::TxGasLimitMoreThanAvailableBlockGas { transaction, block_gas_limit, tx_gas_limit } => PoolError::InvalidTransaction(
            transaction.transaction.hash,
            InvalidPoolTransactionError::ExceedsGasLimit(block_gas_limit, tx_gas_limit),
        ),
    }
}

/// The place of a sub-pool in the order in which evictions visit them:
/// pending, then base fee, then queued.
pub open spec fn eviction_rank(p: SubPool) -> int {
    match p {
        SubPool::Pending => 0,
        SubPool::BaseFee => 1,
        SubPool::Queued => 2,
    }
}

/// The ids of the transactions at positions `from` on.
pub open spec fn ids_from(r: Seq<ValidPoolTransaction>, from: int) -> Set<TransactionId> {
    Set::new(|id: TransactionId| exists|a: int| from <= a < r.len() && r[a].transaction_id == id)
}

/// No two transactions share a hash.
pub open spec fn unique_hashes(m: Map<TransactionId, PoolInternalTransaction>) -> bool {
    forall|a: TransactionId, b: TransactionId| #[trigger] m.contains_key(a) && #[trigger] m.contains_key(b)
        && m[a].transaction.transaction.hash == m[b].transaction.transaction.hash ==> a == b
}

/// The id of the transaction with the given hash.
pub open spec fn hash_id(m: Map<TransactionId, PoolInternalTransaction>, hash: TxHash) -> TransactionId {
    choose|id: TransactionId| #[trigger] m.contains_key(id) && m[id].transaction.transaction.hash == hash
}

/// The sub-pool a transaction is held in while moves are outstanding: the
/// one it moves from when a move to another sub-pool is outstanding, else
/// the one its record names.
pub open spec fn held_in(rec: PoolInternalTransaction, pend: Map<TransactionId, PoolUpdate>, id: TransactionId) -> SubPool {
    if pend.contains_key(id) && pend[id].destination is Pool {
        pend[id].current
    } else {
        rec.subpool
    }
}

/// The pool after removing, one hash after the other, the transaction with
/// each hash, and the removed transactions in order.
pub open spec fn drop_hashes(m: Map<TransactionId, PoolInternalTransaction>, hs: Seq<TxHash>) -> (Map<TransactionId, PoolInternalTransaction>, Seq<ValidPoolTransaction>)
    decreases hs.len(),
{
    if hs.len() == 0 {
        (m, seq![])
    } else {
        let (m1, r1) = drop_hashes(m, hs.drop_last());
        let h = hs.last();
        if map_has_hash(m1, h) {
            let id = hash_id(m1, h);
            (m1.remove(id), r1.push(m1[id].transaction))
        } else {
            (m1, r1)
        }
    }
}

/// The records after setting the fee condition of each id in turn.
pub open spec fn flag_ids(m: Map<TransactionId, PoolInternalTransaction>, ids: Seq<TransactionId>, enough: bool) -> Map<TransactionId, PoolInternalTransaction>
    decreases ids.len(),
{
    if ids.len() == 0 {
        m
    } else {
        let m1 = flag_ids(m, ids.drop_last(), enough);
        m1.insert(ids.last(), fee_flagged(m1[ids.last()], enough))
    }
}

/// Hashes of the transactions the moves discard, in order.
pub open spec fn discarded_hashes(ups: Seq<PoolUpdate>) -> Seq<TxHash> {
    ups.filter(|u: PoolUpdate| u.destination is Discard).map_values(|u: PoolUpdate| u.hash)
}

/// The transactions the moves promote to the pending sub-pool, as recorded
/// in `m`, in order.
pub open spec fn promoted_of(ups: Seq<PoolUpdate>, m: Map<TransactionId, PoolInternalTransaction>) -> Seq<ValidPoolTransaction> {
    ups.filter(|u: PoolUpdate| u.destination == Destination::Pool(SubPool::Pending)).map_values(|u: PoolUpdate| m[u.id].transaction)
}

/// The ids the moves discard.
pub open spec fn discarded_ids(ups: Seq<PoolUpdate>) -> Set<TransactionId> {
    Set::new(|id: TransactionId| upd_map(ups).contains_key(id) && upd_map(ups)[id].destination is Discard)
}

/// A pool that manages transactions: the set of all transactions, the three
/// sub-pools, what is known of the senders, and the settings.
pub struct TxPool<T: TransactionOrdering> {
    /// The currently known information about the senders.
    pub sender_info: FnvHashMap<SenderId, SenderInfo>,
    /// Transactions that are ready to be executed on the current state.
    pub pending_pool: PendingPool<T>,
    /// Pool settings to enforce limits.
    pub config: PoolConfig,
    /// Transactions blocked by a nonce gap, missing funds or a parked
    /// ancestor.
    pub queued_pool: ParkedPool,
    /// Transactions whose fee cap is below the pending block's base fee.
    pub basefee_pool: ParkedPool,
    /// All transactions in the pool.
    pub all_transactions: AllTransactions,
}

impl<T: TransactionOrdering> TxPool<T> {
    /// The transactions of a sub-pool, keyed by id.
    pub open spec fn sub(&self, p: SubPool) -> Map<TransactionId, ValidPoolTransaction> {
        match p {
            SubPool::Pending => self.pending_pool@,
            SubPool::Queued => self.queued_pool@,
            SubPool::BaseFee => self.basefee_pool@,
        }
    }

    /// The records of all transactions, keyed by id.
    pub open spec fn records(&self) -> Map<TransactionId, PoolInternalTransaction> {
        self.all_transactions@
    }

    /// Each part is well formed and each parked sub-pool has its ranking.
    pub open spec fn parts_wf(&self) -> bool {
        &&& self.all_transactions.wf()
        &&& self.pending_pool.wf()
        &&& self.queued_pool.wf()
        &&& self.basefee_pool.wf()
        &&& self.queued_pool.order == ParkedOrder::Queued
        &&& self.basefee_pool.order == ParkedOrder::BaseFee
    }

    /// Each transaction a sub-pool holds has a record, is the recorded
    /// transaction, and is held where it is held while the moves `pend` are
    /// outstanding.
    pub open spec fn placed_as(&self, pend: Map<TransactionId, PoolUpdate>) -> bool {
        forall|p: SubPool, id: TransactionId| #[trigger] self.sub(p).contains_key(id) ==> self.records().contains_key(id)
            && self.sub(p)[id] == self.records()[id].transaction && p == held_in(self.records()[id], pend, id)
    }

    /// The outstanding moves agree with the records: a move to a sub-pool
    /// names the recorded one and another it comes from; a discard names the
    /// recorded one.
    pub open spec fn moves_recorded(&self, pend: Map<TransactionId, PoolUpdate>) -> bool {
        forall|id: TransactionId| #[trigger] pend.contains_key(id) ==> self.records().contains_key(id) && pend[id].id == id
            && pend[id].hash == self.records()[id].transaction.transaction.hash && match pend[id].destination {
                Destination::Pool(to) => to == self.records()[id].subpool && to != pend[id].current,
                Destination::Discard => pend[id].current == self.records()[id].subpool,
            }
    }

    /// Every transaction is held in a sub-pool, where it is held while the
    /// moves `pend` are outstanding.
    pub open spec fn complete_as(&self, pend: Map<TransactionId, PoolUpdate>) -> bool {
        forall|id: TransactionId| #[trigger] self.records().contains_key(id) ==> self.sub(held_in(self.records()[id], pend, id)).contains_key(id)
    }

    /// The pool is well formed: its parts are, hashes are unique, and every
    /// transaction a sub-pool holds is in the sub-pool its record names.
    pub open spec fn wf(&self) -> bool {
        &&& self.parts_wf()
        &&& unique_hashes(self.records())
        &&& self.placed_as(Map::empty())
    }

    /// Every transaction of the pool is held in the sub-pool its record
    /// names.
    pub open spec fn complete(&self) -> bool {
        self.complete_as(Map::empty())
    }

    /// The parts other than the transactions are as in `o`: sender info,
    /// settings, ordering and tracked block values.
    pub open spec fn frame(&self, o: &Self) -> bool {
        &&& self.sender_info == o.sender_info
        &&& self.config == o.config
        &&& self.pending_pool.ordering == o.pending_pool.ordering
        &&& self.all_transactions.minimal_protocol_basefee == o.all_transactions.minimal_protocol_basefee
        &&& self.all_transactions.block_gas_limit == o.all_transactions.block_gas_limit
        &&& self.all_transactions.max_account_slots == o.all_transactions.max_account_slots
        &&& self.all_transactions.pending_basefee == o.all_transactions.pending_basefee
        &&& self.all_transactions.last_seen_block_number == o.all_transactions.last_seen_block_number
        &&& self.all_transactions.last_seen_block_hash == o.all_transactions.last_seen_block_hash
    }

    /// No sub-pool holds more entries or a larger size than in `o`.
    pub open spec fn sizes_le(&self, o: &Self) -> bool {
        &&& self.pending_pool.by_id@.len() <= o.pending_pool.by_id@.len()
        &&& self.pending_pool.size_spec() <= o.pending_pool.size_spec()
        &&& self.queued_pool.by_id@.len() <= o.queued_pool.by_id@.len()
        &&& self.queued_pool.size_spec() <= o.queued_pool.size_spec()
        &&& self.basefee_pool.by_id@.len() <= o.basefee_pool.by_id@.len()
        &&& self.basefee_pool.size_spec() <= o.basefee_pool.size_spec()
    }

    /// `a` ranks strictly below `b` in sub-pool `p`, by the entries the
    /// sub-pool holds.
    pub open spec fn ranks_below(&self, p: SubPool, a: TransactionId, b: TransactionId) -> bool {
        match p {
            SubPool::Pending => pending_worse(self.pending_pool.entries()[a], self.pending_pool.entries()[b]),
            SubPool::Queued => parked_worse(self.queued_pool.order, id_map(self.queued_pool.by_id@)[a], id_map(self.queued_pool.by_id@)[b]),
            SubPool::BaseFee => parked_worse(self.basefee_pool.order, id_map(self.basefee_pool.by_id@)[a], id_map(self.basefee_pool.by_id@)[b]),
        }
    }

    /// Each entry a sub-pool holds is one it held in `o`, unchanged.
    pub open spec fn entries_within(&self, o: &Self) -> bool {
        &&& forall|id: TransactionId| #[trigger] self.pending_pool.entries().contains_key(id) ==> o.pending_pool.entries().contains_key(id)
            && self.pending_pool.entries()[id] == o.pending_pool.entries()[id]
        &&& forall|id: TransactionId| #[trigger] id_map(self.queued_pool.by_id@).contains_key(id) ==> id_map(o.queued_pool.by_id@).contains_key(id)
            && id_map(self.queued_pool.by_id@)[id] == id_map(o.queued_pool.by_id@)[id]
        &&& forall|id: TransactionId| #[trigger] id_map(self.basefee_pool.by_id@).contains_key(id) ==> id_map(o.basefee_pool.by_id@).contains_key(id)
            && id_map(self.basefee_pool.by_id@)[id] == id_map(o.basefee_pool.by_id@)[id]
        &&& self.queued_pool.order == o.queued_pool.order
        &&& self.basefee_pool.order == o.basefee_pool.order
    }

    /// The transactions of `r`, as removed from this pool until it became
    /// `fin`, were evicted worst first, and each eviction was needed. Each
    /// one marked with a sub-pool was held there, and that sub-pool, without
    /// the transactions removed before it, exceeded its limits; no
    /// transaction still held there ranks below it, nor does any later one
    /// evicted from there as worst; neither it nor a later transaction of
    /// its sender keeps a record; and later marks name the same sub-pool or
    /// one visited after it (pending, then base fee, then queued). Each
    /// unmarked one is a later transaction of the sender of an earlier
    /// marked one.
    pub open spec fn evicts_worst_first(&self, fin: &Self, r: Seq<ValidPoolTransaction>, marks: Seq<Option<SubPool>>) -> bool {
        &&& marks.len() == r.len()
        &&& forall|k: int| 0 <= k < r.len() && (#[trigger] marks[k]) is Some ==> {
            let p = marks[k]->0;
            let w = r[k].transaction_id;
            &&& self.sub(p).contains_key(w)
            &&& forall|x: TransactionId| #[trigger] fin.sub(p).contains_key(x) ==> !self.ranks_below(p, x, w)
            &&& forall|j: int| k < j < r.len() && #[trigger] marks[j] == Some(p) ==> !self.ranks_below(p, r[j].transaction_id, w)
            &&& forall|x: TransactionId| #[trigger] fin.records().contains_key(x) ==> !(x.sender == w.sender && x.nonce >= w.nonce)
            &&& self.over_limit_without(p, ids_from(r.subrange(0, k), 0))
            &&& forall|j: int| k < j < r.len() && (#[trigger] marks[j]) is Some ==> eviction_rank(p) <= eviction_rank(marks[j]->0)
        }
        &&& forall|k: int| 0 <= k < r.len() && (#[trigger] marks[k]) is None ==> exists|j: int| 0 <= j < k && marks[j] is Some
            && r[j].transaction_id.sender == r[k].transaction_id.sender && r[j].transaction_id.nonce < r[k].transaction_id.nonce
    }

    /// A sub-pool `p` that holds this pool's sub-pool `p` without `ids`,
    /// under this pool's limits, exceeds them. Every such sub-pool has the
    /// same number and size of transactions (`lemma_sub_fixes_size`), so
    /// this says that the transactions left exceed the limits.
    pub open spec fn over_limit_without(&self, p: SubPool, ids: Set<TransactionId>) -> bool {
        exists|q: Self| q.parts_wf() && q.config == self.config && #[trigger] q.sub(p) == self.sub(p).remove_keys(ids)
            && q.limit_of(p).is_exceeded_spec(q.len_of(p), q.size_of(p))
    }

    /// The size limits of a sub-pool.
    pub open spec fn limit_of(&self, p: SubPool) -> crate::pool::config::SubPoolLimit {
        match p {
            SubPool::Pending => self.config.pending_limit,
            SubPool::Queued => self.config.queued_limit,
            SubPool::BaseFee => self.config.basefee_limit,
        }
    }

    /// The number of entries of a sub-pool.
    pub open spec fn len_of(&self, p: SubPool) -> nat {
        match p {
            SubPool::Pending => self.pending_pool.by_id@.len(),
            SubPool::Queued => self.queued_pool.by_id@.len(),
            SubPool::BaseFee => self.basefee_pool.by_id@.len(),
        }
    }

    /// The reported size of a sub-pool.
    pub open spec fn size_of(&self, p: SubPool) -> nat {
        match p {
            SubPool::Pending => self.pending_pool.size_spec(),
            SubPool::Queued => self.queued_pool.size_spec(),
            SubPool::BaseFee => self.basefee_pool.size_spec(),
        }
    }

    /// Creates a new pool.
    pub fn new(ordering: T, config: PoolConfig) -> (r: TxPool<T>)
        ensures
            r.wf(),
            r.complete(),
            r.records() == Map::<TransactionId, PoolInternalTransaction>::empty(),
            forall|p: SubPool| #[trigger] r.sub(p) == Map::<TransactionId, ValidPoolTransaction>::empty(),
            r.sender_info@ == Map::<SenderId, SenderInfo>::empty(),
            r.config == config,
            r.pending_pool.ordering == ordering,
            r.all_transactions.max_account_slots == config.max_account_slots,
            r.all_transactions.pending_basefee == 0,
            r.all_transactions.minimal_protocol_basefee == crate::pool::txpool::MIN_PROTOCOL_BASE_FEE,
            r.all_transactions.block_gas_limit == crate::pool::txpool::ETHEREUM_BLOCK_GAS_LIMIT,
            r.all_transactions.last_seen_block_number == 0,
            r.all_transactions.last_seen_block_hash == H256(0, 0),
    {
        let max_account_slots = config.max_account_slots;
        TxPool {
            sender_info: sender_map_new(),
            pending_pool: PendingPool::new(ordering),
            config,
            queued_pool: ParkedPool::new(ParkedOrder::Queued),
            basefee_pool: ParkedPool::new(ParkedOrder::BaseFee),
            all_transactions: AllTransactions::new(max_account_slots),
        }
    }

    /// Returns stats about the size of the pool.
    pub fn size(&self) -> (r: PoolSize)
        requires
            self.wf(),
        ensures
            r.pending == self.sub(SubPool::Pending).len(),
            r.basefee == self.sub(SubPool::BaseFee).len(),
            r.queued == self.sub(SubPool::Queued).len(),
            r.total == self.records().len(),
            r.pending_size == self.pending_pool.size_spec(),
            r.basefee_size == self.basefee_pool.size_spec(),
            r.queued_size == self.queued_pool.size_spec(),
    {
        PoolSize {
            pending: self.pending_pool.len(),
            pending_size: self.pending_pool.size(),
            basefee: self.basefee_pool.len(),
            basefee_size: self.basefee_pool.size(),
            queued: self.queued_pool.len(),
            queued_size: self.queued_pool.size(),
            total: self.all_transactions.len(),
        }
    }

    /// The tracked block values.
    pub open spec fn block_info_spec(&self) -> BlockInfo {
        BlockInfo {
            last_seen_block_hash: self.all_transactions.last_seen_block_hash,
            last_seen_block_number: self.all_transactions.last_seen_block_number,
            pending_basefee: self.all_transactions.pending_basefee,
        }
    }

    /// Returns the currently tracked block values.
    pub fn block_info(&self) -> (r: BlockInfo)
        ensures
            r == self.block_info_spec(),
    {
        BlockInfo {
            last_seen_block_hash: self.all_transactions.last_seen_block_hash,
            last_seen_block_number: self.all_transactions.last_seen_block_number,
            pending_basefee: self.all_transactions.pending_basefee,
        }
    }

    /// Number of transactions in the entire pool.
    pub fn len(&self) -> (r: usize)
        requires
            self.wf(),
        ensures
            r == self.records().len(),
    {
        self.all_transactions.len()
    }

    /// Whether the pool is empty.
    pub fn is_empty(&self) -> (r: bool)
        requires
            self.wf(),
        ensures
            r == (self.records().len() == 0),
    {
        self.all_transactions.is_empty()
    }

    /// Returns `true` if the transaction with the given hash is already in
    /// the pool.
    pub fn contains(&self, tx_hash: &TxHash) -> (r: bool)
        requires
            self.wf(),
        ensures
            r == map_has_hash(self.records(), *tx_hash),
    {
        self.all_transactions.contains(tx_hash)
    }

    /// Returns the transaction with the given hash.
    pub fn get(&self, tx_hash: &TxHash) -> (r: Option<ValidPoolTransaction>)
        requires
            self.wf(),
        ensures
            r == (if map_has_hash(self.records(), *tx_hash) {
                Some(self.records()[hash_id(self.records(), *tx_hash)].transaction)
            } else {
                None::<ValidPoolTransaction>
            }),
    {
        let r = self.all_transactions.get_by_hash(tx_hash);
        proof {
            if let Some(t) = r {
                let id = hash_id(self.records(), *tx_hash);
                assert(self.records().contains_key(t.transaction_id));
            }
        }
        r
    }

    /// Returns the transactions for the given hashes that are in the pool,
    /// in the order of the hashes.
    pub fn get_all(&self, txs: Vec<TxHash>) -> (r: Vec<ValidPoolTransaction>)
        requires
            self.wf(),
        ensures
            r@ == txs@.filter(|h: TxHash| map_has_hash(self.records(), h)).map_values(|h: TxHash| self.records()[hash_id(self.records(), h)].transaction),
    {
        let ghost m = self.records();
        let mut out: Vec<ValidPoolTransaction> = Vec::new();
        let mut i: usize = 0;
        while i < txs.len()
            invariant
                i <= txs.len(),
                self.wf(),
                m == self.records(),
                out@ == txs@.subrange(0, i as int).filter(|h: TxHash| map_has_hash(m, h)).map_values(|h: TxHash| m[hash_id(m, h)].transaction),
            decreases txs.len() - i,
        {
            let h = txs[i];
            let ghost pre = txs@.subrange(0, i as int);
            let ghost pred = |x: TxHash| map_has_hash(m, x);
            let ghost f = |x: TxHash| m[hash_id(m, x)].transaction;
            proof {
                assert(txs@.subrange(0, i + 1) =~= pre.push(h));
                pre.lemma_filter_push(h, pred);
            }
            let ghost fp = pre.filter(pred);
            match self.get(&h) {
                Some(t) => {
                    out.push(t);
                    assert(pre.push(h).filter(pred) == fp.push(h));
                    assert(fp.push(h).map_values(f) =~= fp.map_values(f).push(f(h)));
                },
                None => {
                    assert(pre.push(h).filter(pred) == fp);
                },
            }
            i += 1;
        }
        assert(txs@.subrange(0, i as int) =~= txs@);
        out
    }

    /// Returns all transactions sent from the given sender, in nonce order.
    pub fn get_transactions_by_sender(&self, sender: SenderId) -> (r: Vec<ValidPoolTransaction>)
        ensures
            r@ == txs_of_sender(self.all_transactions.txs@, sender),
    {
        self.all_transactions.txs_of(sender)
    }

    /// Where the transactions ready for a block with the given base fee come
    /// from. At the tracked base fee, the pending sub-pool as it is ranked.
    /// Above it, the pending sub-pool, without the transactions whose fee
    /// cap is below the given base fee. Below it, the pending sub-pool
    /// together with the base fee sub-pool's transactions whose fee cap
    /// satisfies the given base fee, in id order, ranked at the tracked
    /// base fee.
    pub fn best_transactions_with_base_fee(&self, basefee: u64) -> (r: BestTransactionsSource)
        requires
            self.wf(),
        ensures
            match r {
                BestTransactionsSource::Pending => basefee == self.all_transactions.pending_basefee,
                BestTransactionsSource::PendingWithBaseFee(b) => basefee > self.all_transactions.pending_basefee && b == basefee,
                BestTransactionsSource::PendingWithUnlocked { unlocked, base_fee } => {
                    let ids = satisfy_walk(self.basefee_pool.by_id@, 0, basefee);
                    &&& basefee < self.all_transactions.pending_basefee
                    &&& base_fee == self.all_transactions.pending_basefee
                    &&& unlocked@.len() == ids.len()
                    &&& forall|k: int| 0 <= k < ids.len() ==> self.sub(SubPool::BaseFee).contains_key(#[trigger] ids[k])
                        && unlocked@[k] == self.sub(SubPool::BaseFee)[ids[k]]
                },
            },
    {
        let current = self.all_transactions.pending_basefee;
        if basefee == current {
            BestTransactionsSource::Pending
        } else if basefee > current {
            BestTransactionsSource::PendingWithBaseFee(basefee)
        } else {
            let unlocked = self.basefee_pool.satisfy_base_fee_transactions(basefee);
            BestTransactionsSource::PendingWithUnlocked { unlocked, base_fee: current }
        }
    }

    /// Returns all transactions of the pending sub-pool, in id order.
    pub fn pending_transactions(&self) -> (r: Vec<ValidPoolTransaction>)
        ensures
            r@ == self.pending_pool.by_id@.map_values(|p: crate::pool::pending::PendingTransaction| p.transaction),
    {
        self.pending_pool.all()
    }

    /// Returns all transactions of the parked sub-pools: those of the base
    /// fee sub-pool, then those of the queued one, each in id order.
    pub fn queued_transactions(&self) -> (r: Vec<ValidPoolTransaction>)
        ensures
            r@ == self.basefee_pool.by_id@.map_values(|p: crate::pool::parked::ParkedPoolTransaction| p.transaction)
                + self.queued_pool.by_id@.map_values(|p: crate::pool::parked::ParkedPoolTransaction| p.transaction),
    {
        let mut queued = self.basefee_pool.all();
        let mut rest = self.queued_pool.all();
        queued.append(&mut rest);
        queued
    }

    /// Removes the transaction from the given sub-pool only.
    fn remove_from_subpool(&mut self, pool: SubPool, tx: &TransactionId) -> (r: Option<ValidPoolTransaction>)
        requires
            old(self).parts_wf(),
        ensures
            final(self).parts_wf(),
            final(self).all_transactions == old(self).all_transactions,
            final(self).sender_info == old(self).sender_info,
            final(self).config == old(self).config,
            final(self).pending_pool.ordering == old(self).pending_pool.ordering,
            forall|p: SubPool| p != pool ==> #[trigger] final(self).sub(p) == old(self).sub(p),
            final(self).sizes_le(&*old(self)),
            final(self).entries_within(&*old(self)),
            final(self).sub(pool) == old(self).sub(pool).remove(*tx),
            match r {
                Some(t) => old(self).sub(pool).contains_key(*tx) && t == old(self).sub(pool)[*tx],
                None => !old(self).sub(pool).contains_key(*tx),
            },
    {
        match pool {
            SubPool::Queued => self.queued_pool.remove_transaction(tx),
            SubPool::Pending => self.pending_pool.remove_transaction(tx),
            SubPool::BaseFee => self.basefee_pool.remove_transaction(tx),
        }
    }

    /// Removes the transaction from the given sub-pool, expecting that it was
    /// included in a block.
    fn prune_from_subpool(&mut self, pool: SubPool, tx: &TransactionId) -> (r: Option<ValidPoolTransaction>)
        requires
            old(self).parts_wf(),
        ensures
            final(self).parts_wf(),
            final(self).all_transactions == old(self).all_transactions,
            final(self).sender_info == old(self).sender_info,
            final(self).config == old(self).config,
            final(self).pending_pool.ordering == old(self).pending_pool.ordering,
            forall|p: SubPool| p != pool ==> #[trigger] final(self).sub(p) == old(self).sub(p),
            final(self).sizes_le(&*old(self)),
            final(self).sub(pool) == old(self).sub(pool).remove(*tx),
            match r {
                Some(t) => old(self).sub(pool).contains_key(*tx) && t == old(self).sub(pool)[*tx],
                None => !old(self).sub(pool).contains_key(*tx),
            },
    {
        match pool {
            SubPool::Queued => self.queued_pool.remove_transaction(tx),
            SubPool::Pending => self.pending_pool.prune_transaction(tx),
            SubPool::BaseFee => self.basefee_pool.remove_transaction(tx),
        }
    }

    /// Inserts the transaction into the given sub-pool.
    fn add_transaction_to_subpool(&mut self, pool: SubPool, tx: ValidPoolTransaction)
        requires
            old(self).parts_wf(),
            !old(self).sub(pool).contains_key(tx.transaction_id),
        ensures
            final(self).parts_wf(),
            final(self).all_transactions == old(self).all_transactions,
            final(self).sender_info == old(self).sender_info,
            final(self).config == old(self).config,
            final(self).pending_pool.ordering == old(self).pending_pool.ordering,
            forall|p: SubPool| p != pool ==> #[trigger] final(self).sub(p) == old(self).sub(p),
            final(self).sub(pool) == old(self).sub(pool).insert(tx.transaction_id, tx),
    {
        match pool {
            SubPool::Queued => {
                self.queued_pool.add_transaction(tx);
            },
            SubPool::Pending => {
                let base_fee = self.all_transactions.pending_basefee;
                self.pending_pool.add_transaction(tx, base_fee);
            },
            SubPool::BaseFee => {
                self.basefee_pool.add_transaction(tx);
            },
        }
    }

    /// Moves a transaction from one sub-pool to another, if the first holds
    /// it.
    fn move_transaction(&mut self, from: SubPool, to: SubPool, id: &TransactionId) -> (r: Option<ValidPoolTransaction>)
        requires
            old(self).parts_wf(),
            from != to,
            !old(self).sub(to).contains_key(*id),
        ensures
            final(self).parts_wf(),
            final(self).frame(&*old(self)),
            final(self).all_transactions == old(self).all_transactions,
            forall|p: SubPool| p != from && p != to ==> #[trigger] final(self).sub(p) == old(self).sub(p),
            match r {
                Some(t) => old(self).sub(from).contains_key(*id) && t == old(self).sub(from)[*id]
                    && final(self).sub(from) == old(self).sub(from).remove(*id)
                    && final(self).sub(to) == old(self).sub(to).insert(*id, t),
                None => !old(self).sub(from).contains_key(*id) && final(self).sub(from) == old(self).sub(from)
                    && final(self).sub(to) == old(self).sub(to),
            },
    {
        let tx = match self.remove_from_subpool(from, id) {
            Some(t) => t,
            None => {
                proof { assert(self.sub(from) =~= old(self).sub(from)); }
                return None;
            },
        };
        proof { assert(tx.transaction_id == *id); }
        self.add_transaction_to_subpool(to, tx);
        Some(tx)
    }

    /// Removes the transaction from the entire pool: its record and the
    /// sub-pool that holds it.
    fn remove_transaction(&mut self, id: &TransactionId) -> (r: Option<ValidPoolTransaction>)
        requires
            old(self).wf(),
        ensures
            final(self).wf(),
            final(self).frame(&*old(self)),
            old(self).complete() ==> final(self).complete(),
            final(self).sizes_le(&*old(self)),
            final(self).entries_within(&*old(self)),
            final(self).records() == old(self).records().remove(*id),
            forall|p: SubPool| #[trigger] final(self).sub(p) == old(self).sub(p).remove(*id),
            r == (if old(self).records().contains_key(*id) && old(self).sub(old(self).records()[*id].subpool).contains_key(*id) {
                Some(old(self).records()[*id].transaction)
            } else {
                None::<ValidPoolTransaction>
            }),
    {
        let (tx, pool) = match self.all_transactions.remove_transaction(id) {
            Some(x) => x,
            None => {
                proof {
                    assert forall|p: SubPool| #[trigger] self.sub(p) == old(self).sub(p).remove(*id) by {
                        assert(self.sub(p) =~= old(self).sub(p).remove(*id));
                    }
                }
                return None;
            },
        };
        let ghost mid = *self;
        let r = self.remove_from_subpool(pool, &tx.transaction_id);
        proof {
            assert forall|p: SubPool| #[trigger] self.sub(p) == old(self).sub(p).remove(*id) by {
                if p != pool {
                    assert(!old(self).sub(p).contains_key(*id));
                    assert(self.sub(p) =~= old(self).sub(p).remove(*id));
                }
            }
            assert(unique_hashes(self.records()));
            assert forall|p: SubPool, k: TransactionId| #[trigger] self.sub(p).contains_key(k) implies self.records().contains_key(k)
                && self.sub(p)[k] == self.records()[k].transaction && p == held_in(self.records()[k], Map::empty(), k) by {
                assert(old(self).sub(p).contains_key(k));
            }
            if old(self).complete() {
                assert forall|k: TransactionId| #[trigger] self.records().contains_key(k) implies self.sub(held_in(self.records()[k], Map::empty(), k)).contains_key(k) by {
                    assert(old(self).records().contains_key(k));
                    assert(old(self).sub(old(self).records()[k].subpool).contains_key(k));
                }
            }
        }
        r
    }


    /// Removes the transaction with the given hash from the entire pool.
    fn remove_transaction_by_hash(&mut self, tx_hash: &TxHash) -> (r: Option<ValidPoolTransaction>)
        requires
            old(self).parts_wf(),
            unique_hashes(old(self).records()),
        ensures
            final(self).parts_wf(),
            unique_hashes(final(self).records()),
            final(self).frame(&*old(self)),
            old(self).wf() ==> final(self).wf(),
            old(self).wf() && old(self).complete() ==> final(self).complete(),
            if map_has_hash(old(self).records(), *tx_hash) {
                let id = hash_id(old(self).records(), *tx_hash);
                let pool = old(self).records()[id].subpool;
                &&& final(self).records() == old(self).records().remove(id)
                &&& final(self).sub(pool) == old(self).sub(pool).remove(id)
                &&& forall|p: SubPool| p != pool ==> #[trigger] final(self).sub(p) == old(self).sub(p)
                &&& old(self).wf() ==> forall|p: SubPool| #[trigger] final(self).sub(p) == old(self).sub(p).remove(id)
                &&& r == (if old(self).sub(pool).contains_key(id) { Some(old(self).sub(pool)[id]) } else { None::<ValidPoolTransaction> })
            } else {
                &&& final(self).records() == old(self).records()
                &&& forall|p: SubPool| #[trigger] final(self).sub(p) == old(self).sub(p)
                &&& r is None
            },
    {
        let (tx, pool) = match self.all_transactions.remove_transaction_by_hash(tx_hash) {
            Some(x) => x,
            None => {
                proof {
                    assert(self.records() =~= old(self).records());
                    if old(self).wf() {
                        assert forall|p: SubPool, k: TransactionId| #[trigger] self.sub(p).contains_key(k) implies self.records().contains_key(k)
                            && self.sub(p)[k] == self.records()[k].transaction && p == held_in(self.records()[k], Map::empty(), k) by {
                            assert(old(self).sub(p).contains_key(k));
                        }
                        if old(self).complete() {
                            assert forall|k: TransactionId| #[trigger] self.records().contains_key(k) implies self.sub(held_in(self.records()[k], Map::empty(), k)).contains_key(k) by {
                                assert(old(self).records().contains_key(k));
                            }
                        }
                    }
                }
                return None;
            },
        };
        let ghost id = hash_id(old(self).records(), *tx_hash);
        proof {
            assert(old(self).records().contains_key(id));
            assert(id == tx.transaction_id);
        }
        let r = self.remove_from_subpool(pool, &tx.transaction_id);
        proof {
            if old(self).wf() {
                assert forall|p: SubPool| #[trigger] self.sub(p) == old(self).sub(p).remove(id) by {
                    if p != pool {
                        assert(!old(self).sub(p).contains_key(id));
                        assert(self.sub(p) =~= old(self).sub(p).remove(id));
                    }
                }
                assert forall|p: SubPool, k: TransactionId| #[trigger] self.sub(p).contains_key(k) implies self.records().contains_key(k)
                    && self.sub(p)[k] == self.records()[k].transaction && p == held_in(self.records()[k], Map::empty(), k) by {
                    assert(old(self).sub(p).contains_key(k));
                }
                if old(self).complete() {
                    assert forall|k: TransactionId| #[trigger] self.records().contains_key(k) implies self.sub(held_in(self.records()[k], Map::empty(), k)).contains_key(k) by {
                        assert(old(self).records().contains_key(k));
                        assert(old(self).sub(old(self).records()[k].subpool).contains_key(k));
                    }
                }
            }
        }
        r
    }

    /// Removes the transaction with the given hash from the entire pool,
    /// expecting that it was included in a block.
    fn prune_transaction_by_hash(&mut self, tx_hash: &TxHash) -> (r: Option<ValidPoolTransaction>)
        requires
            old(self).parts_wf(),
            unique_hashes(old(self).records()),
        ensures
            final(self).parts_wf(),
            unique_hashes(final(self).records()),
            final(self).frame(&*old(self)),
            old(self).wf() ==> final(self).wf(),
            old(self).wf() && old(self).complete() ==> final(self).complete(),
            if map_has_hash(old(self).records(), *tx_hash) {
                let id = hash_id(old(self).records(), *tx_hash);
                let pool = old(self).records()[id].subpool;
                &&& final(self).records() == old(self).records().remove(id)
                &&& final(self).sub(pool) == old(self).sub(pool).remove(id)
                &&& forall|p: SubPool| p != pool ==> #[trigger] final(self).sub(p) == old(self).sub(p)
                &&& old(self).wf() ==> forall|p: SubPool| #[trigger] final(self).sub(p) == old(self).sub(p).remove(id)
                &&& r == (if old(self).sub(pool).contains_key(id) { Some(old(self).sub(pool)[id]) } else { None::<ValidPoolTransaction> })
            } else {
                &&& final(self).records() == old(self).records()
                &&& forall|p: SubPool| #[trigger] final(self).sub(p) == old(self).sub(p)
                &&& r is None
            },
    {
        let (tx, pool) = match self.all_transactions.remove_transaction_by_hash(tx_hash) {
            Some(x) => x,
            None => {
                proof {
                    assert(self.records() =~= old(self).records());
                    if old(self).wf() {
                        assert forall|p: SubPool, k: TransactionId| #[trigger] self.sub(p).contains_key(k) implies self.records().contains_key(k)
                            && self.sub(p)[k] == self.records()[k].transaction && p == held_in(self.records()[k], Map::empty(), k) by {
                            assert(old(self).sub(p).contains_key(k));
                        }
                        if old(self).complete() {
                            assert forall|k: TransactionId| #[trigger] self.records().contains_key(k) implies self.sub(held_in(self.records()[k], Map::empty(), k)).contains_key(k) by {
                                assert(old(self).records().contains_key(k));
                            }
                        }
                    }
                }
                return None;
            },
        };
        let ghost id = hash_id(old(self).records(), *tx_hash);
        proof {
            assert(old(self).records().contains_key(id));
            assert(id == tx.transaction_id);
        }
        let r = self.prune_from_subpool(pool, &tx.transaction_id);
        proof {
            if old(self).wf() {
                assert forall|p: SubPool| #[trigger] self.sub(p) == old(self).sub(p).remove(id) by {
                    if p != pool {
                        assert(!old(self).sub(p).contains_key(id));
                        assert(self.sub(p) =~= old(self).sub(p).remove(id));
                    }
                }
                assert forall|p: SubPool, k: TransactionId| #[trigger] self.sub(p).contains_key(k) implies self.records().contains_key(k)
                    && self.sub(p)[k] == self.records()[k].transaction && p == held_in(self.records()[k], Map::empty(), k) by {
                    assert(old(self).sub(p).contains_key(k));
                }
                if old(self).complete() {
                    assert forall|k: TransactionId| #[trigger] self.records().contains_key(k) implies self.sub(held_in(self.records()[k], Map::empty(), k)).contains_key(k) by {
                        assert(old(self).records().contains_key(k));
                        assert(old(self).sub(old(self).records()[k].subpool).contains_key(k));
                    }
                }
            }
        }
        r
    }

    /// Removes the transactions with the given hashes from the entire pool
    /// and returns those a sub-pool held, in the order of the hashes.
    pub fn remove_transactions(&mut self, hashes: Vec<TxHash>) -> (r: Vec<ValidPoolTransaction>)
        requires
            old(self).wf(),
        ensures
            final(self).wf(),
            final(self).frame(&*old(self)),
            old(self).complete() ==> final(self).complete(),
            final(self).records() == drop_hashes(old(self).records(), hashes@).0,
            old(self).complete() ==> r@ == drop_hashes(old(self).records(), hashes@).1,
    {
        let ghost c0 = old(self).complete();
        let mut out: Vec<ValidPoolTransaction> = Vec::new();
        let mut i: usize = 0;
        while i < hashes.len()
            invariant
                i <= hashes.len(),
                self.wf(),
                self.frame(&*old(self)),
                c0 == old(self).complete(),
                c0 ==> self.complete(),
                self.records() == drop_hashes(old(self).records(), hashes@.subrange(0, i as int)).0,
                c0 ==> out@ == drop_hashes(old(self).records(), hashes@.subrange(0, i as int)).1,
            decreases hashes.len() - i,
        {
            let h = hashes[i];
            proof {
                let t = hashes@.subrange(0, i + 1);
                assert(t.drop_last() =~= hashes@.subrange(0, i as int));
                assert(t.last() == h);
            }
            let ghost before = *self;
            let removed = self.remove_transaction_by_hash(&h);
            proof {
                if map_has_hash(before.records(), h) && c0 {
                    let id = hash_id(before.records(), h);
                    assert(before.sub(before.records()[id].subpool).contains_key(id));
                }
            }
            match removed {
                Some(t) => out.push(t),
                None => {},
            }
            i += 1;
        }
        proof { assert(hashes@.subrange(0, i as int) =~= hashes@); }
        out
    }

    /// Removes the transactions of the sender that come after `tx` from the
    /// entire pool, appending those a sub-pool held to `removed` in nonce
    /// order.
    fn remove_descendants(&mut self, tx: &TransactionId, removed: &mut Vec<ValidPoolTransaction>)
        requires
            old(self).wf(),
        ensures
            final(self).wf(),
            final(self).frame(&*old(self)),
            old(self).complete() ==> final(self).complete(),
            final(self).sizes_le(&*old(self)),
            final(self).entries_within(&*old(self)),
            final(self).records() == old(self).records().remove_keys(Set::new(|k: TransactionId| k.sender == tx.sender && k.nonce > tx.nonce)),
            forall|p: SubPool| #[trigger] final(self).sub(p) == old(self).sub(p).remove_keys(Set::new(|k: TransactionId| k.sender == tx.sender && k.nonce > tx.nonce)),
            final(removed)@.len() >= old(removed)@.len(),
            final(removed)@.subrange(0, old(removed)@.len() as int) == old(removed)@,
            forall|a: int, b: int| old(removed)@.len() <= a < b < final(removed)@.len() ==> id_lt(#[trigger] final(removed)@[a].transaction_id, #[trigger] final(removed)@[b].transaction_id),
            forall|a: int| old(removed)@.len() <= a < final(removed)@.len() ==> {
                let k = (#[trigger] final(removed)@[a]).transaction_id;
                &&& k.sender == tx.sender && k.nonce > tx.nonce
                &&& old(self).records().contains_key(k)
                &&& final(removed)@[a] == old(self).records()[k].transaction
            },
            old(self).complete() ==> forall|k: TransactionId| #[trigger] old(self).records().contains_key(k) && k.sender == tx.sender && k.nonce > tx.nonce
                ==> exists|a: int| old(removed)@.len() <= a < final(removed)@.len() && final(removed)@[a].transaction_id == k,
            forall|p: SubPool, k: TransactionId| #[trigger] old(self).sub(p).contains_key(k) && k.sender == tx.sender && k.nonce > tx.nonce
                ==> exists|a: int| old(removed)@.len() <= a < final(removed)@.len() && final(removed)@[a].transaction_id == k,
    {
        let ghost c0 = old(self).complete();
        let ghost n0 = old(removed)@.len();
        let mut id = *tx;
        loop
            invariant
                old(self).wf(),
                self.wf(),
                self.sizes_le(&*old(self)),
                self.entries_within(&*old(self)),
                self.frame(&*old(self)),
                c0 == old(self).complete(),
                c0 ==> self.complete(),
                id.sender == tx.sender,
                id.nonce >= tx.nonce,
                self.records() == old(self).records().remove_keys(Set::new(|k: TransactionId| k.sender == tx.sender && tx.nonce < k.nonce <= id.nonce)),
                forall|p: SubPool| #[trigger] self.sub(p) == old(self).sub(p).remove_keys(Set::new(|k: TransactionId| k.sender == tx.sender && tx.nonce < k.nonce <= id.nonce)),
                removed@.len() >= n0,
                removed@.subrange(0, n0 as int) == old(removed)@,
                forall|a: int, b: int| n0 <= a < b < removed@.len() ==> id_lt(#[trigger] removed@[a].transaction_id, #[trigger] removed@[b].transaction_id),
                forall|a: int| n0 <= a < removed@.len() ==> {
                    let k = (#[trigger] removed@[a]).transaction_id;
                    &&& k.sender == tx.sender && tx.nonce < k.nonce <= id.nonce
                    &&& old(self).records().contains_key(k)
                    &&& removed@[a] == old(self).records()[k].transaction
                },
                c0 ==> forall|k: TransactionId| #[trigger] old(self).records().contains_key(k) && k.sender == tx.sender && tx.nonce < k.nonce <= id.nonce
                    ==> exists|a: int| n0 <= a < removed@.len() && removed@[a].transaction_id == k,
                forall|p: SubPool, k: TransactionId| #[trigger] old(self).sub(p).contains_key(k) && k.sender == tx.sender && tx.nonce < k.nonce <= id.nonce
                    ==> exists|a: int| n0 <= a < removed@.len() && removed@[a].transaction_id == k,
            decreases u64::MAX - id.nonce,
        {
            let descendant = self.all_transactions.first_descendant(&id);
            match descendant {
                Some(d) => {
                    let ghost before = *self;
                    let ghost rem_before = removed@;
                    let t = self.remove_transaction(&d);
                    match t {
                        Some(t) => removed.push(t),
                        None => {},
                    }
                    proof {
                        lemma_entries_within_trans(*self, before, *old(self));
                        assert(removed@.subrange(0, n0 as int) =~= rem_before.subrange(0, n0 as int));
                        let s_old = Set::new(|k: TransactionId| k.sender == tx.sender && tx.nonce < k.nonce <= id.nonce);
                        let s_new = Set::new(|k: TransactionId| k.sender == tx.sender && tx.nonce < k.nonce <= d.nonce);
                        assert forall|k: TransactionId| #[trigger] s_new.contains(k) == (s_old.contains(k) || (before.records().contains_key(k) && k == d) || (!old(self).records().contains_key(k) && s_new.contains(k))) by {
                            if s_new.contains(k) && !s_old.contains(k) && old(self).records().contains_key(k) {
                                assert(before.records().contains_key(k));
                            }
                        }
                        assert(self.records() =~= old(self).records().remove_keys(s_new));
                        assert forall|p: SubPool| #[trigger] self.sub(p) == old(self).sub(p).remove_keys(s_new) by {
                            assert forall|k: TransactionId| old(self).sub(p).contains_key(k) && s_new.contains(k) && !s_old.contains(k) implies k == d by {
                                assert(old(self).records().contains_key(k));
                                assert(before.records().contains_key(k));
                            }
                            assert(self.sub(p) =~= old(self).sub(p).remove_keys(s_new));
                        }
                        if c0 {
                            assert forall|k: TransactionId| #[trigger] old(self).records().contains_key(k) && k.sender == tx.sender && tx.nonce < k.nonce <= d.nonce
                                implies exists|a: int| n0 <= a < removed@.len() && removed@[a].transaction_id == k by {
                                if k.nonce <= id.nonce {
                                    let a = choose|a: int| n0 <= a < rem_before.len() && rem_before[a].transaction_id == k;
                                    assert(removed@[a] == rem_before[a]);
                                } else {
                                    assert(before.records().contains_key(k));
                                    assert(k == d);
                                    assert(before.sub(before.records()[d].subpool).contains_key(d));
                                    assert(removed@[removed@.len() - 1].transaction_id == k);
                                }
                            }
                        }
                        assert forall|p: SubPool, k: TransactionId| #[trigger] old(self).sub(p).contains_key(k) && k.sender == tx.sender && tx.nonce < k.nonce <= d.nonce
                            implies exists|a: int| n0 <= a < removed@.len() && removed@[a].transaction_id == k by {
                            if k.nonce <= id.nonce {
                                let a = choose|a: int| n0 <= a < rem_before.len() && rem_before[a].transaction_id == k;
                                assert(removed@[a] == rem_before[a]);
                            } else {
                                assert(before.sub(p).contains_key(k));
                                assert(before.records().contains_key(k));
                                assert(k == d);
                                assert(p == before.records()[d].subpool);
                                assert(removed@[removed@.len() - 1].transaction_id == k);
                            }
                        }
                    }
                    id = d;
                },
                None => {
                    proof {
                        let s_old = Set::new(|k: TransactionId| k.sender == tx.sender && tx.nonce < k.nonce <= id.nonce);
                        let s_all = Set::new(|k: TransactionId| k.sender == tx.sender && k.nonce > tx.nonce);
                        assert forall|k: TransactionId| old(self).records().contains_key(k) && s_all.contains(k) implies s_old.contains(k) by {
                            if !s_old.contains(k) {
                                assert(self.records().contains_key(k));
                            }
                        }
                        assert(self.records() =~= old(self).records().remove_keys(s_all));
                        if c0 {
                            assert forall|k: TransactionId| #[trigger] old(self).records().contains_key(k) && k.sender == tx.sender && k.nonce > tx.nonce
                                implies exists|a: int| n0 <= a < removed@.len() && removed@[a].transaction_id == k by {
                                if k.nonce > id.nonce {
                                    assert(self.records().contains_key(k));
                                }
                            }
                        }
                        assert forall|p: SubPool, k: TransactionId| #[trigger] old(self).sub(p).contains_key(k) && k.sender == tx.sender && k.nonce > tx.nonce
                            implies exists|a: int| n0 <= a < removed@.len() && removed@[a].transaction_id == k by {
                            if k.nonce > id.nonce {
                                assert(self.sub(p).contains_key(k));
                                assert(self.records().contains_key(k));
                            }
                        }
                        assert forall|p: SubPool| #[trigger] self.sub(p) == old(self).sub(p).remove_keys(s_all) by {
                            assert forall|k: TransactionId| old(self).sub(p).contains_key(k) && s_all.contains(k) implies s_old.contains(k) by {
                                assert(old(self).records().contains_key(k));
                            }
                            assert(self.sub(p) =~= old(self).sub(p).remove_keys(s_all));
                        }
                    }
                    return;
                },
            }
        }
    }

    /// Applies a series of moves: discards transactions from the entire
    /// pool and moves others between sub-pools.
    #[verifier::rlimit(40)]
    fn process_updates(&mut self, updates: Vec<PoolUpdate>) -> (r: UpdateOutcome)
        requires
            old(self).parts_wf(),
            unique_hashes(old(self).records()),
            ids_ascend(updates@),
            old(self).placed_as(upd_map(updates@)),
            old(self).moves_recorded(upd_map(updates@)),
        ensures
            final(self).wf(),
            final(self).frame(&*old(self)),
            old(self).complete_as(upd_map(updates@)) ==> final(self).complete(),
            final(self).records() == old(self).records().remove_keys(discarded_ids(updates@)),
            r.discarded@ == discarded_hashes(updates@),
            old(self).complete_as(upd_map(updates@)) ==> r.promoted@ == promoted_of(updates@, old(self).records()),
    {
        let ghost ups = updates@;
        let ghost m0 = upd_map(ups);
        let ghost c0 = old(self).complete_as(m0);
        let ghost n = ups.len() as int;
        proof {
            lemma_upd_map(ups);
            assert(ups.subrange(0, n) =~= ups);
        }
        let mut outcome = UpdateOutcome { promoted: Vec::new(), discarded: Vec::new() };
        let mut k: usize = 0;
        while k < updates.len()
            invariant
                k <= updates.len(),
                ups == updates@,
                n == ups.len(),
                m0 == upd_map(ups),
                ids_ascend(ups),
                forall|j: int| 0 <= j < ups.len() ==> m0.contains_key(#[trigger] ups[j].id) && m0[ups[j].id] == ups[j],
                self.parts_wf(),
                unique_hashes(self.records()),
                self.frame(&*old(self)),
                self.placed_as(upd_map(ups.subrange(k as int, n))),
                self.moves_recorded(upd_map(ups.subrange(k as int, n))),
                c0 == old(self).complete_as(m0),
                c0 ==> self.complete_as(upd_map(ups.subrange(k as int, n))),
                forall|id: TransactionId| #[trigger] upd_map(ups.subrange(k as int, n)).contains_key(id) ==> m0.contains_key(id)
                    && upd_map(ups.subrange(k as int, n))[id] == m0[id],
                self.records() == old(self).records().remove_keys(Set::new(|id: TransactionId| m0.contains_key(id)
                    && m0[id].destination is Discard && !upd_map(ups.subrange(k as int, n)).contains_key(id))),
                outcome.discarded@ == discarded_hashes(ups.subrange(0, k as int)),
                c0 ==> outcome.promoted@ == promoted_of(ups.subrange(0, k as int), old(self).records()),
            decreases updates.len() - k,
        {
            let u = updates[k];
            let ghost pend = upd_map(ups.subrange(k as int, n));
            let ghost pend2 = upd_map(ups.subrange(k + 1, n));
            let ghost before = *self;
            proof {
                lemma_upd_map_step(ups, k as int);
                assert(pend2 =~= pend.remove(u.id));
                assert(pend.contains_key(u.id) && pend[u.id] == u);
                assert(ups.subrange(0, k + 1) =~= ups.subrange(0, k as int).push(u));
                ups.subrange(0, k as int).lemma_filter_push(u, |x: PoolUpdate| x.destination is Discard);
                ups.subrange(0, k as int).lemma_filter_push(u, |x: PoolUpdate| x.destination == Destination::Pool(SubPool::Pending));
            }
            match u.destination {
                Destination::Discard => {
                    proof {
                        assert(map_has_hash(self.records(), u.hash));
                        assert(hash_id(self.records(), u.hash) == u.id);
                    }
                    self.prune_transaction_by_hash(&u.hash);
                    outcome.discarded.push(u.hash);
                    proof {
                        let pool = u.current;
                        assert forall|p: SubPool, x: TransactionId| #[trigger] self.sub(p).contains_key(x) implies self.records().contains_key(x)
                            && self.sub(p)[x] == self.records()[x].transaction && p == held_in(self.records()[x], pend2, x) by {
                            assert(before.sub(p).contains_key(x));
                            assert(x != u.id);
                        }
                        assert forall|x: TransactionId| #[trigger] pend2.contains_key(x) implies self.records().contains_key(x) && pend2[x].id == x
                            && pend2[x].hash == self.records()[x].transaction.transaction.hash && match pend2[x].destination {
                                Destination::Pool(to) => to == self.records()[x].subpool && to != pend2[x].current,
                                Destination::Discard => pend2[x].current == self.records()[x].subpool,
                            } by {
                            assert(pend.contains_key(x));
                        }
                        if c0 {
                            assert forall|x: TransactionId| #[trigger] self.records().contains_key(x) implies self.sub(held_in(self.records()[x], pend2, x)).contains_key(x) by {
                                assert(before.records().contains_key(x));
                                assert(before.sub(held_in(before.records()[x], pend, x)).contains_key(x));
                            }
                        }
                        assert(self.records() =~= old(self).records().remove_keys(Set::new(|id: TransactionId| m0.contains_key(id)
                            && m0[id].destination is Discard && !pend2.contains_key(id))));
                        let f = |x: PoolUpdate| x.hash;
                        let fd = ups.subrange(0, k as int).filter(|x: PoolUpdate| x.destination is Discard);
                        assert(fd.push(u).map_values(f) =~= fd.map_values(f).push(u.hash));
                    }
                },
                Destination::Pool(move_to) => {
                    proof {
                        if self.sub(move_to).contains_key(u.id) {
                            assert(move_to == held_in(self.records()[u.id], pend, u.id));
                        }
                    }
                    let moved = self.move_transaction(u.current, move_to, &u.id);
                    if move_to == SubPool::Pending {
                        match moved {
                            Some(tx) => outcome.promoted.push(tx),
                            None => {},
                        }
                    }
                    proof {
                        assert forall|p: SubPool, x: TransactionId| #[trigger] self.sub(p).contains_key(x) implies self.records().contains_key(x)
                            && self.sub(p)[x] == self.records()[x].transaction && p == held_in(self.records()[x], pend2, x) by {
                            if x != u.id {
                                assert(before.sub(p).contains_key(x));
                            }
                        }
                        assert forall|x: TransactionId| #[trigger] pend2.contains_key(x) implies self.records().contains_key(x) && pend2[x].id == x
                            && pend2[x].hash == self.records()[x].transaction.transaction.hash && match pend2[x].destination {
                                Destination::Pool(to) => to == self.records()[x].subpool && to != pend2[x].current,
                                Destination::Discard => pend2[x].current == self.records()[x].subpool,
                            } by {
                            assert(pend.contains_key(x));
                        }
                        if c0 {
                            assert(before.sub(u.current).contains_key(u.id));
                            assert forall|x: TransactionId| #[trigger] self.records().contains_key(x) implies self.sub(held_in(self.records()[x], pend2, x)).contains_key(x) by {
                                assert(before.sub(held_in(before.records()[x], pend, x)).contains_key(x));
                            }
                            let f = |x: PoolUpdate| old(self).records()[x.id].transaction;
                            let fp = ups.subrange(0, k as int).filter(|x: PoolUpdate| x.destination == Destination::Pool(SubPool::Pending));
                            assert(fp.push(u).map_values(f) =~= fp.map_values(f).push(f(u)));
                            assert(old(self).records().contains_key(u.id));
                        }
                        assert(self.records() =~= old(self).records().remove_keys(Set::new(|id: TransactionId| m0.contains_key(id)
                            && m0[id].destination is Discard && !pend2.contains_key(id))));
                    }
                },
            }
            k += 1;
        }
        proof {
            assert(ups.subrange(k as int, n) =~= Seq::<PoolUpdate>::empty());
            assert(upd_map(ups.subrange(k as int, n)) == Map::<TransactionId, PoolUpdate>::empty());
            assert(Set::new(|id: TransactionId| m0.contains_key(id) && m0[id].destination is Discard
                && !upd_map(ups.subrange(k as int, n)).contains_key(id)) =~= discarded_ids(ups));
            assert(ups.subrange(0, k as int) =~= ups);
        }
        outcome
    }

    /// Records what is known of the changed senders and rechecks the
    /// transactions against them, applying the resulting moves.
    #[verifier::rlimit(40)]
    pub fn update_accounts(&mut self, changed_senders: HashMap<SenderId, SenderInfo>) -> (r: UpdateOutcome)
        requires
            old(self).wf(),
        ensures
            final(self).wf(),
            old(self).complete() ==> final(self).complete(),
            final(self).sender_info@ == old(self).sender_info@.union_prefer_right(changed_senders@),
            final(self).config == old(self).config,
            final(self).pending_pool.ordering == old(self).pending_pool.ordering,
            final(self).all_transactions.pending_basefee == old(self).all_transactions.pending_basefee,
            final(self).all_transactions.last_seen_block_number == old(self).all_transactions.last_seen_block_number,
            final(self).all_transactions.last_seen_block_hash == old(self).all_transactions.last_seen_block_hash,
            final(self).all_transactions.max_account_slots == old(self).all_transactions.max_account_slots,
            final(self).all_transactions.block_gas_limit == old(self).all_transactions.block_gas_limit,
            final(self).all_transactions.minimal_protocol_basefee == old(self).all_transactions.minimal_protocol_basefee,
            ({
                let (s2, ups) = update_walk(old(self).all_transactions.txs@, 0, changed_senders@, old(self).all_transactions.pending_basefee, WalkMode::Head);
                &&& final(self).records() == id_map(s2).remove_keys(discarded_ids(ups))
                &&& r.discarded@ == discarded_hashes(ups)
                &&& old(self).complete() ==> r.promoted@ == promoted_of(ups, id_map(s2))
            }),
    {
        sender_map_extend(&mut self.sender_info, &changed_senders);
        let ghost s = self.all_transactions.txs@;
        let ghost before = *self;
        let updates = self.all_transactions.update(&changed_senders);
        proof {
            let (s2, ups) = update_walk(s, 0, changed_senders@, old(self).all_transactions.pending_basefee, WalkMode::Head);
            lemma_update_walk(s, 0, changed_senders@, old(self).all_transactions.pending_basefee, WalkMode::Head);
            lemma_id_map_same_keys(s, s2);
            let m = upd_map(ups);
            assert(self.all_transactions.txs@ == s2 && updates@ == ups);
            assert forall|a: TransactionId, b: TransactionId| #[trigger] self.records().contains_key(a) && #[trigger] self.records().contains_key(b)
                && self.records()[a].transaction.transaction.hash == self.records()[b].transaction.transaction.hash implies a == b by {
                assert(old(self).records().contains_key(a) && old(self).records().contains_key(b));
            }
            assert forall|x: TransactionId| #[trigger] m.contains_key(x) implies self.records().contains_key(x) && m[x].id == x
                && m[x].hash == self.records()[x].transaction.transaction.hash && match m[x].destination {
                    Destination::Pool(to) => to == self.records()[x].subpool && to != m[x].current,
                    Destination::Discard => m[x].current == self.records()[x].subpool,
                } by {
                assert(has_id(s, x));
                let j = index_of_id(s, x);
                assert(s[j].key() == x);
                assert(move_of(m[x], s[j], s2[j]));
                assert(id_map(s2).contains_key(x) == id_map(s).contains_key(x));
                assert(id_map(s2)[x] == s2[j]);
            }
            assert forall|p: SubPool, x: TransactionId| #[trigger] self.sub(p).contains_key(x) implies self.records().contains_key(x)
                && self.sub(p)[x] == self.records()[x].transaction && p == held_in(self.records()[x], m, x) by {
                assert(old(self).sub(p).contains_key(x));
                assert(old(self).records().contains_key(x));
                assert(has_id(s, x));
                let j = index_of_id(s, x);
                assert(id_map(s2).contains_key(x) == id_map(s).contains_key(x));
                assert(id_map(s2)[x] == s2[j]);
                assert(s2[j].subpool != s[j].subpool ==> m.contains_key(s[j].key()));
            }
            if old(self).complete() {
                assert forall|x: TransactionId| #[trigger] self.records().contains_key(x) implies self.sub(held_in(self.records()[x], m, x)).contains_key(x) by {
                    assert(old(self).records().contains_key(x));
                    let j = index_of_id(s, x);
                    assert(s2[j].subpool != s[j].subpool ==> m.contains_key(s[j].key()));
                }
            }
        }
        self.process_updates(updates)
    }

    /// Moves a new transaction into its sub-pool, first dropping the one it
    /// replaces from that one's sub-pool.
    fn add_new_transaction(&mut self, transaction: ValidPoolTransaction, replaced: Option<(ValidPoolTransaction, SubPool)>, pool: SubPool)
        requires
            old(self).parts_wf(),
            match replaced {
                Some((t, rp)) => t.transaction_id == transaction.transaction_id && forall|p: SubPool| p != rp ==> !(#[trigger] old(self).sub(p).contains_key(transaction.transaction_id)),
                None => forall|p: SubPool| !(#[trigger] old(self).sub(p).contains_key(transaction.transaction_id)),
            },
        ensures
            final(self).parts_wf(),
            final(self).frame(&*old(self)),
            final(self).all_transactions == old(self).all_transactions,
            forall|p: SubPool| p != pool ==> #[trigger] final(self).sub(p) == old(self).sub(p).remove(transaction.transaction_id),
            final(self).sub(pool) == old(self).sub(pool).insert(transaction.transaction_id, transaction),
    {
        match replaced {
            Some((replaced, replaced_pool)) => {
                self.remove_from_subpool(replaced_pool, &replaced.transaction_id);
            },
            None => {},
        }
        let ghost mid = *self;
        self.add_transaction_to_subpool(pool, transaction);
        proof {
            assert forall|p: SubPool| p != pool implies #[trigger] self.sub(p) == old(self).sub(p).remove(transaction.transaction_id) by {
                assert(self.sub(p) =~= old(self).sub(p).remove(transaction.transaction_id));
            }
            assert(self.sub(pool) =~= old(self).sub(pool).insert(transaction.transaction_id, transaction));
        }
    }

    /// Adds a validated transaction to the pool, given the sender's balance
    /// and nonce on chain.
    ///
    /// A transaction whose hash is known is refused. Otherwise the sender's
    /// info is recorded and the transaction inserted: into the pending
    /// sub-pool when it is ready on the current state, else into the base
    /// fee or queued sub-pool. Moves of the sender's other transactions that
    /// the insert causes are applied.
    #[verifier::rlimit(60)]
    #[verifier::spinoff_prover]
    pub fn add_transaction(&mut self, tx: ValidPoolTransaction, on_chain_balance: U256, on_chain_nonce: u64) -> (r: Result<AddedTransaction, PoolError>)
        requires
            old(self).wf(),
            on_chain_nonce <= tx.transaction.nonce,
            tx.transaction_id.nonce == tx.transaction.nonce,
        ensures
            final(self).wf(),
            old(self).complete() ==> final(self).complete(),
            final(self).config == old(self).config,
            final(self).pending_pool.ordering == old(self).pending_pool.ordering,
            final(self).all_transactions.pending_basefee == old(self).all_transactions.pending_basefee,
            final(self).sender_info@ == (if map_has_hash(old(self).records(), tx.transaction.hash) {
                old(self).sender_info@
            } else {
                old(self).sender_info@.insert(tx.transaction_id.sender, SenderInfo { state_nonce: on_chain_nonce, balance: on_chain_balance })
            }),
            match r {
                Err(e) => {
                    &&& final(self).records() == old(self).records()
                    &&& forall|p: SubPool| #[trigger] final(self).sub(p) == old(self).sub(p)
                    &&& if map_has_hash(old(self).records(), tx.transaction.hash) {
                        e == PoolError::AlreadyImported(tx.transaction.hash)
                    } else {
                        insert_error(old(self).all_transactions, tx) is Some && e == pool_error_of(insert_error(old(self).all_transactions, tx)->0)
                    }
                },
                Ok(added) => {
                    let (m, ups) = insert_outcome(old(self).all_transactions, tx, on_chain_balance, on_chain_nonce);
                    let replaced = if old(self).records().contains_key(tx.transaction_id) {
                        Some(old(self).records()[tx.transaction_id].transaction)
                    } else {
                        None::<ValidPoolTransaction>
                    };
                    &&& !map_has_hash(old(self).records(), tx.transaction.hash)
                    &&& insert_error(old(self).all_transactions, tx) is None
                    &&& final(self).records() == m.remove_keys(discarded_ids(ups))
                    &&& match added {
                        AddedTransaction::Pending(p) => {
                            &&& m[tx.transaction_id].subpool == SubPool::Pending
                            &&& p.transaction == tx
                            &&& p.replaced == replaced
                            &&& p.discarded@ == discarded_hashes(ups)
                            &&& old(self).complete() ==> p.promoted@ == promoted_of(ups, m)
                        },
                        AddedTransaction::Parked { transaction, replaced: rep, subpool } => {
                            &&& subpool == m[tx.transaction_id].subpool
                            &&& subpool != SubPool::Pending
                            &&& transaction == tx
                            &&& rep == replaced
                        },
                    }
                },
            },
    {
        if self.contains(&tx.transaction.hash) {
            return Err(PoolError::AlreadyImported(tx.transaction.hash));
        }
        sender_map_insert(&mut self.sender_info, tx.transaction_id.sender, SenderInfo { state_nonce: on_chain_nonce, balance: on_chain_balance });
        let ghost before = *self;
        match self.all_transactions.insert_tx(tx, on_chain_balance, on_chain_nonce) {
            Ok(ok) => {
                let ghost (m, ups) = insert_outcome(old(self).all_transactions, tx, on_chain_balance, on_chain_nonce);
                let ghost placed = old(self).records().insert(tx.transaction_id, crate::pool::txpool::initial_entry(old(self).all_transactions, tx, on_chain_nonce));
                let ghost um = upd_map(ups);
                proof {
                    assert forall|id: TransactionId| #[trigger] placed.contains_key(id) implies placed[id].key() == id by {
                        if id != tx.transaction_id {
                            assert(old(self).records().contains_key(id));
                            let j = index_of_id(old(self).all_transactions.txs@, id);
                        }
                    }
                    lemma_insert_walk(placed, tx.transaction_id.sender, on_chain_nonce as int, U256 { hi: 0, lo: 0 },
                        crate::pool::txpool::initial_parked(placed, tx, on_chain_nonce), on_chain_balance, tx.transaction_id);
                    assert(self.records() == m);
                    match ok.replaced_tx {
                        Some((t, rp)) => {
                            assert forall|p: SubPool| p != rp implies !(#[trigger] self.sub(p).contains_key(tx.transaction_id)) by {
                                if self.sub(p).contains_key(tx.transaction_id) {
                                    assert(old(self).sub(p).contains_key(tx.transaction_id));
                                }
                            }
                        },
                        None => {
                            assert forall|p: SubPool| !(#[trigger] self.sub(p).contains_key(tx.transaction_id)) by {
                                if self.sub(p).contains_key(tx.transaction_id) {
                                    assert(old(self).sub(p).contains_key(tx.transaction_id));
                                }
                            }
                        },
                    }
                }
                self.add_new_transaction(ok.transaction, ok.replaced_tx, ok.move_to);
                proof {
                    assert forall|a: TransactionId, b: TransactionId| #[trigger] self.records().contains_key(a) && #[trigger] self.records().contains_key(b)
                        && self.records()[a].transaction.transaction.hash == self.records()[b].transaction.transaction.hash implies a == b by {
                        assert(placed.contains_key(a) && placed.contains_key(b));
                        if a != tx.transaction_id && b != tx.transaction_id {
                            assert(old(self).records().contains_key(a) && old(self).records().contains_key(b));
                        } else if a == tx.transaction_id && b != tx.transaction_id {
                            assert(old(self).records().contains_key(b));
                        } else if b == tx.transaction_id && a != tx.transaction_id {
                            assert(old(self).records().contains_key(a));
                        }
                    }
                    assert forall|x: TransactionId| #[trigger] um.contains_key(x) implies self.records().contains_key(x) && um[x].id == x
                        && um[x].hash == self.records()[x].transaction.transaction.hash && match um[x].destination {
                            Destination::Pool(to) => to == self.records()[x].subpool && to != um[x].current,
                            Destination::Discard => um[x].current == self.records()[x].subpool,
                        } by {
                    }
                    assert forall|p: SubPool, x: TransactionId| #[trigger] self.sub(p).contains_key(x) implies self.records().contains_key(x)
                        && self.sub(p)[x] == self.records()[x].transaction && p == held_in(self.records()[x], um, x) by {
                        if x != tx.transaction_id {
                            assert(old(self).sub(p).contains_key(x));
                            assert(old(self).records().contains_key(x));
                            assert(placed[x] == old(self).records()[x]);
                            assert(self.sub(p)[x] == old(self).sub(p)[x]);
                            assert(m.contains_key(x));
                            assert(m[x].transaction == placed[x].transaction);
                            if !um.contains_key(x) {
                                assert(m[x].subpool == placed[x].subpool);
                            }
                        } else {
                            assert(!um.contains_key(x));
                            assert(p == ok.move_to);
                            assert(m.contains_key(x));
                            assert(m[x].transaction == placed[x].transaction);
                        }
                    }
                    if old(self).complete() {
                        assert forall|x: TransactionId| #[trigger] self.records().contains_key(x) implies self.sub(held_in(self.records()[x], um, x)).contains_key(x) by {
                            if x != tx.transaction_id {
                                assert(old(self).records().contains_key(x));
                                assert(placed[x] == old(self).records()[x]);
                                assert(old(self).sub(old(self).records()[x].subpool).contains_key(x));
                            }
                        }
                    }
                }
                let outcome = self.process_updates(ok.updates);
                let replaced = match ok.replaced_tx {
                    Some((t, _)) => Some(t),
                    None => None,
                };
                if ok.move_to.is_pending() {
                    Ok(AddedTransaction::Pending(AddedPendingTransaction {
                        transaction: ok.transaction,
                        replaced,
                        promoted: outcome.promoted,
                        discarded: outcome.discarded,
                    }))
                } else {
                    Ok(AddedTransaction::Parked { transaction: ok.transaction, replaced, subpool: ok.move_to })
                }
            },
            Err(e) => {
                proof {
                    assert(self.records() =~= old(self).records());
                    assert forall|p: SubPool, k: TransactionId| #[trigger] self.sub(p).contains_key(k) implies self.records().contains_key(k)
                        && self.sub(p)[k] == self.records()[k].transaction && p == held_in(self.records()[k], Map::empty(), k) by {
                        assert(old(self).sub(p).contains_key(k));
                    }
                    if old(self).complete() {
                        assert forall|k: TransactionId| #[trigger] self.records().contains_key(k) implies self.sub(held_in(self.records()[k], Map::empty(), k)).contains_key(k) by {
                            assert(old(self).records().contains_key(k));
                        }
                    }
                }
                Err(pool_error(e))
            },
        }
    }

    /// Sets the fee condition of each given transaction, which no sub-pool
    /// holds, and moves it into the sub-pool its record then names.
    fn move_flagged(&mut self, removed: Vec<ValidPoolTransaction>, enough: bool)
        requires
            old(self).parts_wf(),
            unique_hashes(old(self).records()),
            old(self).placed_as(Map::empty()),
            forall|a: int, b: int| 0 <= a < b < removed@.len() ==> id_lt(#[trigger] removed@[a].transaction_id, #[trigger] removed@[b].transaction_id),
            forall|k: int| 0 <= k < removed@.len() ==> old(self).records().contains_key(#[trigger] removed@[k].transaction_id)
                && old(self).records()[removed@[k].transaction_id].transaction == removed@[k],
            forall|k: int, p: SubPool| 0 <= k < removed@.len() ==> !(#[trigger] old(self).sub(p).contains_key(removed@[k].transaction_id)),
        ensures
            final(self).wf(),
            final(self).frame(&*old(self)),
            final(self).records() == flag_ids(old(self).records(), ids_of(removed@), enough),
            (forall|id: TransactionId| #[trigger] old(self).records().contains_key(id) ==> old(self).sub(old(self).records()[id].subpool).contains_key(id)
                || ids_of(removed@).contains(id)) ==> final(self).complete(),
    {
        let ghost ids = ids_of(removed@);
        let ghost m0 = old(self).records();
        let ghost c0 = forall|id: TransactionId| #[trigger] old(self).records().contains_key(id) ==> old(self).sub(old(self).records()[id].subpool).contains_key(id)
            || ids_of(removed@).contains(id);
        let n = removed.len();
        proof { assert(ids.subrange(0, n as int) =~= ids); }
        let mut k: usize = 0;
        while k < n
            invariant
                k <= n == removed@.len() == ids.len(),
                ids == ids_of(removed@),
                m0 == old(self).records(),
                forall|a: int, b: int| 0 <= a < b < removed@.len() ==> id_lt(#[trigger] removed@[a].transaction_id, #[trigger] removed@[b].transaction_id),
                self.parts_wf(),
                unique_hashes(self.records()),
                self.placed_as(Map::empty()),
                self.frame(&*old(self)),
                self.records() == flag_ids(m0, ids.subrange(0, k as int), enough),
                forall|j: int| k <= j < n ==> self.records().contains_key(#[trigger] removed@[j].transaction_id)
                    && self.records()[removed@[j].transaction_id] == m0[removed@[j].transaction_id]
                    && m0[removed@[j].transaction_id].transaction == removed@[j],
                forall|j: int, p: SubPool| k <= j < n ==> !(#[trigger] self.sub(p).contains_key(removed@[j].transaction_id)),
                c0 ==> forall|id: TransactionId| #[trigger] self.records().contains_key(id) ==> self.sub(self.records()[id].subpool).contains_key(id)
                    || ids.subrange(k as int, n as int).contains(id),
            decreases n - k,
        {
            let tx = removed[k];
            let id = tx.transaction_id;
            let ghost before = *self;
            proof {
                assert(ids.subrange(0, k + 1).drop_last() =~= ids.subrange(0, k as int));
                assert(ids.subrange(0, k + 1).last() == id);
            }
            proof {
                assert forall|p: SubPool| !(#[trigger] before.sub(p).contains_key(id)) by {
                    assert(!before.sub(p).contains_key(removed@[k as int].transaction_id));
                }
            }
            let to = self.all_transactions.set_fee_flag(&id, enough);
            proof { assert(self.sub(to) == before.sub(to)); }
            self.add_transaction_to_subpool(to, tx);
            proof {
                assert forall|a: TransactionId, b: TransactionId| #[trigger] self.records().contains_key(a) && #[trigger] self.records().contains_key(b)
                    && self.records()[a].transaction.transaction.hash == self.records()[b].transaction.transaction.hash implies a == b by {
                    assert(before.records().contains_key(a) && before.records().contains_key(b));
                }
                assert forall|p: SubPool, x: TransactionId| #[trigger] self.sub(p).contains_key(x) implies self.records().contains_key(x)
                    && self.sub(p)[x] == self.records()[x].transaction && p == held_in(self.records()[x], Map::empty(), x) by {
                    if x != id {
                        assert(before.sub(p).contains_key(x));
                    }
                }
                assert forall|j: int| k + 1 <= j < n implies self.records().contains_key(#[trigger] removed@[j].transaction_id)
                    && self.records()[removed@[j].transaction_id] == m0[removed@[j].transaction_id]
                    && m0[removed@[j].transaction_id].transaction == removed@[j] by {
                    assert(id_lt(removed@[k as int].transaction_id, removed@[j].transaction_id));
                }
                assert forall|j: int, p: SubPool| k + 1 <= j < n implies !(#[trigger] self.sub(p).contains_key(removed@[j].transaction_id)) by {
                    assert(id_lt(removed@[k as int].transaction_id, removed@[j].transaction_id));
                    assert(!before.sub(p).contains_key(removed@[j].transaction_id));
                }
                if c0 {
                    assert forall|x: TransactionId| #[trigger] self.records().contains_key(x) implies self.sub(self.records()[x].subpool).contains_key(x)
                        || ids.subrange(k + 1, n as int).contains(x) by {
                        if x != id {
                            assert(before.records().contains_key(x));
                            if ids.subrange(k as int, n as int).contains(x) {
                                let j = choose|j: int| 0 <= j < n - k && ids.subrange(k as int, n as int)[j] == x;
                                assert(ids.subrange(k + 1, n as int)[j - 1] == x);
                            }
                        }
                    }
                }
            }
            k += 1;
        }
        proof {
            assert(ids.subrange(0, k as int) =~= ids);
            if c0 {
                assert forall|x: TransactionId| #[trigger] self.records().contains_key(x) implies self.sub(held_in(self.records()[x], Map::empty(), x)).contains_key(x) by {
                    assert(ids.subrange(k as int, n as int).len() == 0);
                }
            }
        }
    }

    /// Applies a new pending base fee to the sub-pools.
    ///
    /// When it rose, pending transactions whose fee cap falls below it, and
    /// the later ones of their senders, lose the fee condition and move to
    /// the sub-pool their records then name. When it fell, the base fee
    /// sub-pool's transactions that now satisfy it gain the fee condition
    /// and move likewise. The tracked base fee is compared, not changed.
    pub fn update_basefee(&mut self, pending_basefee: u64)
        requires
            old(self).wf(),
        ensures
            final(self).wf(),
            final(self).frame(&*old(self)),
            old(self).complete() ==> final(self).complete(),
            final(self).records() == (if pending_basefee == old(self).all_transactions.pending_basefee {
                old(self).records()
            } else if pending_basefee > old(self).all_transactions.pending_basefee {
                flag_ids(old(self).records(), ids_of(leaving(old(self).pending_pool.by_id@, old(self).pending_pool.by_id@.len() as int, pending_basefee)), false)
            } else {
                flag_ids(old(self).records(), satisfy_walk(old(self).basefee_pool.by_id@, 0, pending_basefee), true)
            }),
            pending_basefee == old(self).all_transactions.pending_basefee ==> forall|p: SubPool| #[trigger] final(self).sub(p) == old(self).sub(p),
    {
        if pending_basefee == self.all_transactions.pending_basefee {
            return;
        }
        if pending_basefee > self.all_transactions.pending_basefee {
            let removed = self.pending_pool.update_base_fee(pending_basefee);
            proof {
                assert forall|k: int| 0 <= k < removed@.len() implies old(self).records().contains_key(#[trigger] removed@[k].transaction_id)
                    && old(self).records()[removed@[k].transaction_id].transaction == removed@[k] by {
                    assert(old(self).sub(SubPool::Pending).contains_key(removed@[k].transaction_id));
                }
                assert forall|k: int, p: SubPool| 0 <= k < removed@.len() implies !(#[trigger] self.sub(p).contains_key(removed@[k].transaction_id)) by {
                    let x = removed@[k].transaction_id;
                    assert(old(self).sub(SubPool::Pending).contains_key(x));
                    if p != SubPool::Pending {
                        assert(!old(self).sub(p).contains_key(x));
                    } else {
                        assert(ids_of(removed@)[k] == x);
                    }
                }
                assert forall|p: SubPool, x: TransactionId| #[trigger] self.sub(p).contains_key(x) implies self.records().contains_key(x)
                    && self.sub(p)[x] == self.records()[x].transaction && p == held_in(self.records()[x], Map::empty(), x) by {
                    assert(old(self).sub(p).contains_key(x));
                }
                if old(self).complete() {
                    assert forall|x: TransactionId| #[trigger] self.records().contains_key(x) implies self.sub(self.records()[x].subpool).contains_key(x)
                        || ids_of(removed@).contains(x) by {
                        assert(old(self).sub(old(self).records()[x].subpool).contains_key(x));
                    }
                }
            }
            self.move_flagged(removed, false);
        } else {
            let removed = self.basefee_pool.enforce_basefee(pending_basefee);
            let ghost ids = satisfy_walk(old(self).basefee_pool.by_id@, 0, pending_basefee);
            proof {
                lemma_satisfy_walk(old(self).basefee_pool.by_id@, 0, pending_basefee);
                assert forall|k: int| 0 <= k < removed@.len() implies #[trigger] removed@[k].transaction_id == ids[k] by {
                    assert(old(self).sub(SubPool::BaseFee).contains_key(ids[k]));
                    assert(old(self).records().contains_key(ids[k]));
                }
                assert(ids_of(removed@) =~= ids);
                assert forall|k: int, p: SubPool| 0 <= k < removed@.len() implies !(#[trigger] self.sub(p).contains_key(removed@[k].transaction_id)) by {
                    let x = removed@[k].transaction_id;
                    assert(old(self).sub(SubPool::BaseFee).contains_key(x));
                    if p != SubPool::BaseFee {
                        assert(!old(self).sub(p).contains_key(x));
                    } else {
                        assert(ids[k] == x);
                    }
                }
                assert forall|k: int| 0 <= k < removed@.len() implies old(self).records().contains_key(#[trigger] removed@[k].transaction_id)
                    && old(self).records()[removed@[k].transaction_id].transaction == removed@[k] by {
                    assert(old(self).sub(SubPool::BaseFee).contains_key(ids[k]));
                }
                assert forall|p: SubPool, x: TransactionId| #[trigger] self.sub(p).contains_key(x) implies self.records().contains_key(x)
                    && self.sub(p)[x] == self.records()[x].transaction && p == held_in(self.records()[x], Map::empty(), x) by {
                    assert(old(self).sub(p).contains_key(x));
                }
                if old(self).complete() {
                    assert forall|x: TransactionId| #[trigger] self.records().contains_key(x) implies self.sub(self.records()[x].subpool).contains_key(x)
                        || ids_of(removed@).contains(x) by {
                        assert(old(self).sub(old(self).records()[x].subpool).contains_key(x));
                    }
                }
            }
            self.move_flagged(removed, true);
        }
    }

    /// Sets the tracked block values and applies the new base fee to the
    /// sub-pools, see [`Self::update_basefee`]: the new base fee is compared
    /// with the one tracked so far, and then recorded.
    pub fn set_block_info(&mut self, info: BlockInfo)
        requires
            old(self).wf(),
        ensures
            final(self).wf(),
            old(self).complete() ==> final(self).complete(),
            final(self).block_info_spec() == info,
            final(self).records() == (if info.pending_basefee == old(self).all_transactions.pending_basefee {
                old(self).records()
            } else if info.pending_basefee > old(self).all_transactions.pending_basefee {
                flag_ids(old(self).records(), ids_of(leaving(old(self).pending_pool.by_id@, old(self).pending_pool.by_id@.len() as int, info.pending_basefee)), false)
            } else {
                flag_ids(old(self).records(), satisfy_walk(old(self).basefee_pool.by_id@, 0, info.pending_basefee), true)
            }),
            info.pending_basefee == old(self).all_transactions.pending_basefee ==> forall|p: SubPool| #[trigger] final(self).sub(p) == old(self).sub(p),
            final(self).sender_info == old(self).sender_info,
            final(self).config == old(self).config,
    {
        self.update_basefee(info.pending_basefee);
        let ghost mid = *self;
        self.all_transactions.set_block_info(info.last_seen_block_hash, info.last_seen_block_number, info.pending_basefee);
        proof {
            assert(self.records() =~= mid.records());
            assert forall|p: SubPool| #[trigger] self.sub(p) == mid.sub(p) by {
                assert(self.sub(p) =~= mid.sub(p));
            }
            assert forall|p: SubPool, x: TransactionId| #[trigger] self.sub(p).contains_key(x) implies self.records().contains_key(x)
                && self.sub(p)[x] == self.records()[x].transaction && p == held_in(self.records()[x], Map::empty(), x) by {
                assert(mid.sub(p).contains_key(x));
            }
            if old(self).complete() {
                assert forall|x: TransactionId| #[trigger] self.records().contains_key(x) implies self.sub(held_in(self.records()[x], Map::empty(), x)).contains_key(x) by {
                    assert(mid.records().contains_key(x));
                }
            }
        }
    }

    /// Evicts the worst transactions of a sub-pool, each with the later
    /// transactions of its sender, from the entire pool, until the sub-pool
    /// is within its limits. `s0` is the pool before the evictions began,
    /// and `marks_in` says how the transactions removed so far left it.
    #[verifier::rlimit(60)]
    #[verifier::spinoff_prover]
    fn discard_worst_of(
        &mut self,
        pool: SubPool,
        removed: &mut Vec<ValidPoolTransaction>,
        Ghost(s0): Ghost<TxPool<T>>,
        Ghost(marks_in): Ghost<Seq<Option<SubPool>>>,
    ) -> (marks: Ghost<Seq<Option<SubPool>>>)
        requires
            old(self).wf(),
            old(self).entries_within(&s0),
            forall|p: SubPool, id: TransactionId| #[trigger] old(self).sub(p).contains_key(id) ==> s0.sub(p).contains_key(id),
            s0.evicts_worst_first(&*old(self), old(removed)@, marks_in),
            old(self).config == s0.config,
            forall|p: SubPool| #[trigger] old(self).sub(p) == s0.sub(p).remove_keys(ids_from(old(removed)@, 0)),
            forall|k: int| 0 <= k < marks_in.len() && (#[trigger] marks_in[k]) is Some ==> eviction_rank(marks_in[k]->0) <= eviction_rank(pool),
        ensures
            final(self).wf(),
            final(self).frame(&*old(self)),
            final(self).sizes_le(&*old(self)),
            final(self).entries_within(&s0),
            old(self).complete() ==> final(self).complete(),
            !final(self).limit_of(pool).is_exceeded_spec(final(self).len_of(pool), final(self).size_of(pool)),
            forall|id: TransactionId| #[trigger] final(self).records().contains_key(id) ==> old(self).records().contains_key(id)
                && final(self).records()[id] == old(self).records()[id],
            forall|p: SubPool, id: TransactionId| #[trigger] final(self).sub(p).contains_key(id) ==> old(self).sub(p).contains_key(id)
                && final(self).sub(p)[id] == old(self).sub(p)[id],
            final(removed)@.len() >= old(removed)@.len(),
            final(removed)@.subrange(0, old(removed)@.len() as int) == old(removed)@,
            forall|a: int| old(removed)@.len() <= a < final(removed)@.len() ==> old(self).records().contains_key((#[trigger] final(removed)@[a]).transaction_id)
                && old(self).records()[final(removed)@[a].transaction_id].transaction == final(removed)@[a],
            s0.evicts_worst_first(&*final(self), final(removed)@, marks@),
            marks@.subrange(0, old(removed)@.len() as int) == marks_in,
            old(self).complete() ==> final(self).records() == old(self).records().remove_keys(ids_from(final(removed)@, old(removed)@.len() as int)),
            forall|p: SubPool| #[trigger] final(self).sub(p) == s0.sub(p).remove_keys(ids_from(final(removed)@, 0)),
            forall|k: int| 0 <= k < marks@.len() && (#[trigger] marks@[k]) is Some ==> eviction_rank(marks@[k]->0) <= eviction_rank(pool),
    {
        let ghost n0 = old(removed)@.len();
        let ghost c0 = old(self).complete();
        let ghost mut marks: Seq<Option<SubPool>> = marks_in;
        loop
            invariant
                old(self).wf(),
                self.wf(),
                self.frame(&*old(self)),
                self.sizes_le(&*old(self)),
                old(self).entries_within(&s0),
                self.entries_within(&s0),
                forall|p: SubPool, id: TransactionId| #[trigger] old(self).sub(p).contains_key(id) ==> s0.sub(p).contains_key(id),
                c0 == old(self).complete(),
                c0 ==> self.complete(),
                forall|id: TransactionId| #[trigger] self.records().contains_key(id) ==> old(self).records().contains_key(id)
                    && self.records()[id] == old(self).records()[id],
                forall|p: SubPool, id: TransactionId| #[trigger] self.sub(p).contains_key(id) ==> old(self).sub(p).contains_key(id)
                    && self.sub(p)[id] == old(self).sub(p)[id],
                removed@.len() >= n0,
                removed@.subrange(0, n0 as int) == old(removed)@,
                forall|a: int| n0 <= a < removed@.len() ==> old(self).records().contains_key((#[trigger] removed@[a]).transaction_id)
                    && old(self).records()[removed@[a].transaction_id].transaction == removed@[a],
                s0.evicts_worst_first(&*self, removed@, marks),
                marks.subrange(0, n0 as int) == marks_in,
                c0 ==> self.records() == old(self).records().remove_keys(ids_from(removed@, n0 as int)),
                old(self).config == s0.config,
                forall|p: SubPool| #[trigger] self.sub(p) == s0.sub(p).remove_keys(ids_from(removed@, 0)),
                forall|k: int| 0 <= k < marks.len() && (#[trigger] marks[k]) is Some ==> eviction_rank(marks[k]->0) <= eviction_rank(pool),
            decreases self.len_of(pool),
        {
            let (limit, len, size) = match pool {
                SubPool::Pending => (self.config.pending_limit, self.pending_pool.len(), self.pending_pool.size()),
                SubPool::Queued => (self.config.queued_limit, self.queued_pool.len(), self.queued_pool.size()),
                SubPool::BaseFee => (self.config.basefee_limit, self.basefee_pool.len(), self.basefee_pool.size()),
            };
            if !limit.is_exceeded(len, size) {
                return Ghost(marks);
            }
            let ghost before = *self;
            let ghost rem_before = removed@;
            let ghost marks_before = marks;
            proof {
                if self.len_of(pool) == 0 {
                    match pool {
                        SubPool::Pending => assert(self.pending_pool.by_id@.map_values(|p: crate::pool::pending::PendingTransaction| p.transaction) =~= Seq::<ValidPoolTransaction>::empty()),
                        SubPool::Queued => assert(self.queued_pool.by_id@.map_values(|p: crate::pool::parked::ParkedPoolTransaction| p.transaction) =~= Seq::<ValidPoolTransaction>::empty()),
                        SubPool::BaseFee => assert(self.basefee_pool.by_id@.map_values(|p: crate::pool::parked::ParkedPoolTransaction| p.transaction) =~= Seq::<ValidPoolTransaction>::empty()),
                    }
                }
            }
            let worst = match pool {
                SubPool::Pending => self.pending_pool.pop_worst(),
                SubPool::Queued => self.queued_pool.pop_worst(),
                SubPool::BaseFee => self.basefee_pool.pop_worst(),
            };
            match worst {
                Some(tx) => {
                    let w = tx.transaction_id;
                    let ghost mid = *self;
                    proof {
                        assert(before.sub(pool).contains_key(w));
                        assert(mid.sub(pool) == before.sub(pool).remove(w));
                        assert(forall|p: SubPool| p != pool ==> #[trigger] mid.sub(p) == before.sub(p));
                        assert forall|x: TransactionId| #[trigger] before.sub(pool).contains_key(x) implies !before.ranks_below(pool, x, w) by {
                            match pool {
                                SubPool::Pending => assert(before.pending_pool.entries().contains_key(x)),
                                SubPool::Queued => assert(id_map(before.queued_pool.by_id@).contains_key(x)),
                                SubPool::BaseFee => assert(id_map(before.basefee_pool.by_id@).contains_key(x)),
                            }
                        }
                        assert(mid.entries_within(&before));
                        assert forall|p: SubPool, x: TransactionId| #[trigger] mid.sub(p).contains_key(x) implies mid.records().contains_key(x)
                            && mid.sub(p)[x] == mid.records()[x].transaction && p == held_in(mid.records()[x], Map::empty(), x) by {
                            assert(before.sub(p).contains_key(x));
                        }
                        assert forall|p: SubPool| !(#[trigger] mid.sub(p)).contains_key(w) by {
                            if p != pool && before.sub(p).contains_key(w) {
                                assert(p == held_in(before.records()[w], Map::empty(), w));
                                assert(pool == held_in(before.records()[w], Map::empty(), w));
                            }
                        }
                    }
                    let _ = self.remove_transaction(&w);
                    let ghost mid2 = *self;
                    proof {
                        assert forall|p: SubPool| #[trigger] mid2.sub(p) == mid.sub(p) by {
                            assert(mid2.sub(p) =~= mid.sub(p));
                        }
                        if c0 {
                            assert forall|k: TransactionId| #[trigger] mid2.records().contains_key(k) implies mid2.sub(held_in(mid2.records()[k], Map::empty(), k)).contains_key(k) by {
                                assert(before.records().contains_key(k));
                                assert(before.sub(before.records()[k].subpool).contains_key(k));
                            }
                        }
                        lemma_entries_within_trans(mid2, mid, before);
                    }
                    removed.push(tx);
                    let ghost rem_mid = removed@;
                    self.remove_descendants(&w, removed);
                    let ghost n_desc = (removed@.len() - rem_mid.len()) as nat;
                    proof {
                        marks = marks_before.push(Some(pool)) + Seq::new(n_desc, |i: int| None::<SubPool>);
                        let fin = *self;
                        let r = removed@;
                        let kw = rem_before.len() as int;
                        lemma_entries_within_trans(fin, mid2, before);
                        lemma_entries_within_trans(fin, before, s0);
                        assert(r.subrange(0, rem_mid.len() as int) == rem_mid);
                        assert forall|a: int| 0 <= a < rem_before.len() implies #[trigger] r[a] == rem_before[a] by {
                            assert(r[a] == r.subrange(0, rem_mid.len() as int)[a]);
                            assert(rem_mid[a] == rem_before[a]);
                        }
                        assert(r[kw] == tx) by {
                            assert(r[kw] == r.subrange(0, rem_mid.len() as int)[kw]);
                        }
                        assert(removed@.subrange(0, n0 as int) =~= rem_before.subrange(0, n0 as int));
                        assert(marks.subrange(0, n0 as int) =~= marks_before.subrange(0, n0 as int));
                        assert(forall|a: int| 0 <= a < marks_before.len() ==> #[trigger] marks[a] == marks_before[a]);
                        assert(marks[kw] == Some(pool));
                        assert(forall|a: int| kw < a < marks.len() ==> #[trigger] marks[a] == None::<SubPool>);
                        // subs and records only shrink
                        assert forall|p: SubPool, x: TransactionId| #[trigger] fin.sub(p).contains_key(x) implies before.sub(p).contains_key(x)
                            && x != w && fin.sub(p)[x] == before.sub(p)[x] by {
                            assert(mid2.sub(p).contains_key(x));
                            assert(mid.sub(p).contains_key(x));
                        }
                        assert forall|x: TransactionId| #[trigger] fin.records().contains_key(x) implies before.records().contains_key(x)
                            && fin.records()[x] == before.records()[x] && !(x.sender == w.sender && x.nonce >= w.nonce) by {
                            assert(mid2.records().contains_key(x));
                        }
                        // the eviction order
                        assert forall|k: int| 0 <= k < r.len() && (#[trigger] marks[k]) is Some implies {
                            let p = marks[k]->0;
                            let wk = r[k].transaction_id;
                            &&& s0.sub(p).contains_key(wk)
                            &&& forall|x: TransactionId| #[trigger] fin.sub(p).contains_key(x) ==> !s0.ranks_below(p, x, wk)
                            &&& forall|j: int| k < j < r.len() && #[trigger] marks[j] == Some(p) ==> !s0.ranks_below(p, r[j].transaction_id, wk)
                            &&& forall|x: TransactionId| #[trigger] fin.records().contains_key(x) ==> !(x.sender == wk.sender && x.nonce >= wk.nonce)
                            &&& s0.over_limit_without(p, ids_from(r.subrange(0, k), 0))
                            &&& forall|j: int| k < j < r.len() && (#[trigger] marks[j]) is Some ==> eviction_rank(p) <= eviction_rank(marks[j]->0)
                        } by {
                            let p = marks[k]->0;
                            let wk = r[k].transaction_id;
                            if k < kw {
                                assert(marks_before[k] == marks[k]);
                                assert(r[k] == rem_before[k]);
                                assert(r.subrange(0, k) =~= rem_before.subrange(0, k));
                                assert forall|j: int| k < j < r.len() && (#[trigger] marks[j]) is Some implies eviction_rank(p) <= eviction_rank(marks[j]->0) by {
                                    if j < kw {
                                        assert(marks_before[j] == marks[j]);
                                    } else {
                                        assert(j == kw);
                                        assert(marks_before[k] is Some);
                                    }
                                }
                                assert forall|x: TransactionId| #[trigger] fin.sub(p).contains_key(x) implies !s0.ranks_below(p, x, wk) by {
                                    assert(before.sub(p).contains_key(x));
                                }
                                assert forall|j: int| k < j < r.len() && #[trigger] marks[j] == Some(p) implies !s0.ranks_below(p, r[j].transaction_id, wk) by {
                                    if j < kw {
                                        assert(marks_before[j] == marks[j]);
                                        assert(r[j] == rem_before[j]);
                                    } else {
                                        assert(j == kw);
                                        assert(p == pool);
                                        assert(before.sub(pool).contains_key(w));
                                    }
                                }
                                assert forall|x: TransactionId| #[trigger] fin.records().contains_key(x) implies !(x.sender == wk.sender && x.nonce >= wk.nonce) by {
                                    assert(before.records().contains_key(x));
                                }
                            } else {
                                assert(k == kw);
                                assert(p == pool);
                                assert(wk == w);
                                assert(before.sub(pool).contains_key(w));
                                assert(r.subrange(0, kw) =~= rem_before);
                                assert(before.parts_wf() && before.config == s0.config);
                                assert(before.sub(pool) == s0.sub(pool).remove_keys(ids_from(rem_before, 0)));
                                assert(before.limit_of(pool).is_exceeded_spec(before.len_of(pool), before.size_of(pool)));
                                assert(s0.over_limit_without(pool, ids_from(r.subrange(0, k), 0)));
                                assert forall|x: TransactionId| #[trigger] fin.sub(p).contains_key(x) implies !s0.ranks_below(p, x, wk) by {
                                    assert(before.sub(pool).contains_key(x));
                                    assert(!before.ranks_below(pool, x, w));
                                    lemma_ranks_within(before, s0, pool, x, w);
                                }
                            }
                        }
                        assert forall|k: int| 0 <= k < r.len() && (#[trigger] marks[k]) is None implies exists|j: int| 0 <= j < k && marks[j] is Some
                            && r[j].transaction_id.sender == r[k].transaction_id.sender && r[j].transaction_id.nonce < r[k].transaction_id.nonce by {
                            if k < kw {
                                assert(marks_before[k] == marks[k]);
                                assert(r[k] == rem_before[k]);
                                let j = choose|j: int| 0 <= j < k && marks_before[j] is Some
                                    && rem_before[j].transaction_id.sender == rem_before[k].transaction_id.sender && rem_before[j].transaction_id.nonce < rem_before[k].transaction_id.nonce;
                                assert(marks[j] == marks_before[j]);
                                assert(r[j] == rem_before[j]);
                            } else {
                                assert(k > kw);
                                assert(marks[kw] is Some);
                                assert(r[kw] == tx);
                            }
                        }
                        assert(s0.evicts_worst_first(&fin, r, marks));
                        assert forall|a: int| n0 <= a < r.len() implies old(self).records().contains_key((#[trigger] r[a]).transaction_id)
                            && old(self).records()[r[a].transaction_id].transaction == r[a] by {
                            if a < kw {
                                assert(r[a] == rem_before[a]);
                            } else if a == kw {
                                assert(before.records().contains_key(w));
                            } else {
                                assert(mid2.records().contains_key(r[a].transaction_id));
                                assert(before.records().contains_key(r[a].transaction_id));
                            }
                        }
                        assert forall|p: SubPool, x: TransactionId| #[trigger] fin.sub(p).contains_key(x) implies old(self).sub(p).contains_key(x)
                            && fin.sub(p)[x] == old(self).sub(p)[x] by {
                            assert(before.sub(p).contains_key(x));
                        }
                        assert forall|x: TransactionId| #[trigger] fin.records().contains_key(x) implies old(self).records().contains_key(x)
                            && fin.records()[x] == old(self).records()[x] by {
                            assert(before.records().contains_key(x));
                        }
                        if c0 {
                            let desc = Set::new(|k: TransactionId| k.sender == w.sender && k.nonce > w.nonce);
                            assert(fin.records() =~= old(self).records().remove_keys(ids_from(r, n0 as int))) by {
                                assert forall|x: TransactionId| #[trigger] ids_from(r, n0 as int).contains(x) == (ids_from(rem_before, n0 as int).contains(x) || x == w
                                    || (mid2.records().contains_key(x) && desc.contains(x))) by {
                                    if ids_from(r, n0 as int).contains(x) {
                                        let a = choose|a: int| n0 <= a < r.len() && r[a].transaction_id == x;
                                        if a < kw {
                                            assert(r[a] == rem_before[a]);
                                        } else if a > kw {
                                            assert(mid2.records().contains_key(x));
                                        }
                                    }
                                    if ids_from(rem_before, n0 as int).contains(x) {
                                        let a = choose|a: int| n0 <= a < rem_before.len() && rem_before[a].transaction_id == x;
                                        assert(r[a] == rem_before[a]);
                                    }
                                    if x == w {
                                        assert(r[kw].transaction_id == x);
                                    }
                                    if mid2.records().contains_key(x) && desc.contains(x) {
                                        let a = choose|a: int| rem_mid.len() <= a < r.len() && r[a].transaction_id == x;
                                    }
                                }
                            }
                        }
                    }
                    proof {
                        let fin = *self;
                        let r = removed@;
                        let kw = rem_before.len() as int;
                        let desc = Set::new(|k: TransactionId| k.sender == w.sender && k.nonce > w.nonce);
                        assert forall|a: int| 0 <= a < kw implies #[trigger] r[a] == rem_before[a] by {
                            assert(r[a] == r.subrange(0, rem_mid.len() as int)[a]);
                            assert(rem_mid[a] == rem_before[a]);
                        }
                        assert(r[kw] == tx) by {
                            assert(r[kw] == r.subrange(0, rem_mid.len() as int)[kw]);
                        }
                        assert forall|k: int| 0 <= k < marks.len() && (#[trigger] marks[k]) is Some implies eviction_rank(marks[k]->0) <= eviction_rank(pool) by {
                            if k < kw {
                                assert(marks_before[k] == marks[k]);
                            }
                        }
                        assert forall|p: SubPool| #[trigger] fin.sub(p) == s0.sub(p).remove_keys(ids_from(r, 0)) by {
                            let want = s0.sub(p).remove_keys(ids_from(r, 0));
                            assert forall|x: TransactionId| fin.sub(p).contains_key(x) == want.contains_key(x) by {
                                if fin.sub(p).contains_key(x) {
                                    assert(mid2.sub(p).contains_key(x) && !desc.contains(x));
                                    assert(before.sub(p).contains_key(x) && x != w);
                                    assert(s0.sub(p).contains_key(x) && !ids_from(rem_before, 0).contains(x));
                                    if ids_from(r, 0).contains(x) {
                                        let a = choose|a: int| 0 <= a < r.len() && r[a].transaction_id == x;
                                        if a < kw {
                                            assert(ids_from(rem_before, 0).contains(x));
                                        } else if a > kw {
                                            assert(desc.contains(x));
                                        }
                                    }
                                }
                                if want.contains_key(x) {
                                    assert(!ids_from(rem_before, 0).contains(x)) by {
                                        if ids_from(rem_before, 0).contains(x) {
                                            let a = choose|a: int| 0 <= a < rem_before.len() && rem_before[a].transaction_id == x;
                                            assert(r[a] == rem_before[a]);
                                        }
                                    }
                                    assert(before.sub(p).contains_key(x));
                                    assert(x != w) by {
                                        if x == w {
                                            assert(r[kw].transaction_id == x);
                                        }
                                    }
                                    assert(mid2.sub(p).contains_key(x));
                                    if desc.contains(x) {
                                        let a = choose|a: int| rem_mid.len() <= a < r.len() && r[a].transaction_id == x;
                                        assert(ids_from(r, 0).contains(x));
                                    }
                                }
                            }
                            assert forall|x: TransactionId| #[trigger] fin.sub(p).contains_key(x) implies fin.sub(p)[x] == want[x] by {
                                assert(before.sub(p).contains_key(x));
                            }
                            assert(fin.sub(p) =~= want);
                        }
                    }
                },
                None => {},
            }
        }
    }

    /// Evicts the worst transactions of the pending, base fee and queued
    /// sub-pools, in that order, until each is within its limits, and
    /// returns them. Each evicted transaction leaves the entire pool, and so
    /// do the later transactions of its sender.
    pub fn discard_worst(&mut self) -> (r: Vec<ValidPoolTransaction>)
        requires
            old(self).wf(),
        ensures
            final(self).wf(),
            final(self).frame(&*old(self)),
            final(self).sizes_le(&*old(self)),
            old(self).complete() ==> final(self).complete(),
            forall|p: SubPool| !final(self).limit_of(p).is_exceeded_spec(final(self).len_of(p), #[trigger] final(self).size_of(p)),
            forall|id: TransactionId| #[trigger] final(self).records().contains_key(id) ==> old(self).records().contains_key(id)
                && final(self).records()[id] == old(self).records()[id],
            forall|p: SubPool, id: TransactionId| #[trigger] final(self).sub(p).contains_key(id) ==> old(self).sub(p).contains_key(id)
                && final(self).sub(p)[id] == old(self).sub(p)[id],
            forall|a: int| 0 <= a < r@.len() ==> old(self).records().contains_key((#[trigger] r@[a]).transaction_id)
                && old(self).records()[r@[a].transaction_id].transaction == r@[a],
            exists|marks: Seq<Option<SubPool>>| #[trigger] old(self).evicts_worst_first(&*final(self), r@, marks),
            forall|p: SubPool| #[trigger] final(self).sub(p) == old(self).sub(p).remove_keys(ids_from(r@, 0)),
            old(self).complete() ==> final(self).records() == old(self).records().remove_keys(ids_from(r@, 0)),
    {
        let mut removed: Vec<ValidPoolTransaction> = Vec::new();
        let ghost s0 = *self;
        proof {
            lemma_entries_within_refl(s0);
            assert(s0.evicts_worst_first(&s0, removed@, Seq::<Option<SubPool>>::empty()));
            assert(ids_from(removed@, 0) =~= Set::<TransactionId>::empty());
            assert forall|p: SubPool| #[trigger] s0.sub(p) == s0.sub(p).remove_keys(ids_from(removed@, 0)) by {
                assert(s0.sub(p) =~= s0.sub(p).remove_keys(ids_from(removed@, 0)));
            }
        }
        let Ghost(m1) = self.discard_worst_of(SubPool::Pending, &mut removed, Ghost(s0), Ghost(Seq::<Option<SubPool>>::empty()));
        let ghost s1 = *self;
        let ghost r1 = removed@;
        let Ghost(m2) = self.discard_worst_of(SubPool::BaseFee, &mut removed, Ghost(s0), Ghost(m1));
        let ghost s2 = *self;
        let ghost r2 = removed@;
        let Ghost(m3) = self.discard_worst_of(SubPool::Queued, &mut removed, Ghost(s0), Ghost(m2));
        proof {
            assert forall|p: SubPool| !self.limit_of(p).is_exceeded_spec(self.len_of(p), #[trigger] self.size_of(p)) by {
                if p == SubPool::Pending {
                    assert(!s1.limit_of(p).is_exceeded_spec(s1.len_of(p), s1.size_of(p)));
                } else if p == SubPool::BaseFee {
                    assert(!s2.limit_of(p).is_exceeded_spec(s2.len_of(p), s2.size_of(p)));
                }
            }
            assert forall|a: int| 0 <= a < removed@.len() implies old(self).records().contains_key((#[trigger] removed@[a]).transaction_id)
                && old(self).records()[removed@[a].transaction_id].transaction == removed@[a] by {
                if a < r2.len() {
                    assert(removed@[a] == removed@.subrange(0, r2.len() as int)[a]);
                    if a < r1.len() {
                        assert(r2[a] == r2.subrange(0, r1.len() as int)[a]);
                        assert(s0.records().contains_key(r1[a].transaction_id));
                    } else {
                        assert(s1.records().contains_key(r2[a].transaction_id));
                    }
                } else {
                    assert(s2.records().contains_key(removed@[a].transaction_id));
                }
            }
            assert forall|p: SubPool, x: TransactionId| #[trigger] self.sub(p).contains_key(x) implies old(self).sub(p).contains_key(x)
                && self.sub(p)[x] == old(self).sub(p)[x] by {
                assert(s2.sub(p).contains_key(x));
                assert(s1.sub(p).contains_key(x));
            }
            assert forall|x: TransactionId| #[trigger] self.records().contains_key(x) implies old(self).records().contains_key(x)
                && self.records()[x] == old(self).records()[x] by {
                assert(s2.records().contains_key(x));
                assert(s1.records().contains_key(x));
            }
            if s0.complete() {
                let r3 = removed@;
                assert forall|x: TransactionId| #[trigger] ids_from(r3, 0).contains(x) == (ids_from(r1, 0).contains(x)
                    || ids_from(r2, r1.len() as int).contains(x) || ids_from(r3, r2.len() as int).contains(x)) by {
                    if ids_from(r3, 0).contains(x) {
                        let a = choose|a: int| 0 <= a < r3.len() && r3[a].transaction_id == x;
                        if a < r1.len() {
                            assert(r3[a] == r3.subrange(0, r2.len() as int)[a]);
                            assert(r2[a] == r2.subrange(0, r1.len() as int)[a]);
                        } else if a < r2.len() {
                            assert(r3[a] == r3.subrange(0, r2.len() as int)[a]);
                        }
                    }
                    if ids_from(r1, 0).contains(x) {
                        let a = choose|a: int| 0 <= a < r1.len() && r1[a].transaction_id == x;
                        assert(r3[a] == r3.subrange(0, r2.len() as int)[a]);
                        assert(r2[a] == r2.subrange(0, r1.len() as int)[a]);
                    }
                    if ids_from(r2, r1.len() as int).contains(x) {
                        let a = choose|a: int| r1.len() <= a < r2.len() && r2[a].transaction_id == x;
                        assert(r3[a] == r3.subrange(0, r2.len() as int)[a]);
                    }
                }
                assert(self.records() =~= old(self).records().remove_keys(ids_from(r3, 0)));
            }
        }
        removed
    }

    /// Updates the pool after a new block was mined: records the block
    /// values, removes the mined transactions, and rechecks the changed
    /// senders' transactions.
    #[verifier::rlimit(40)]
    pub fn on_canonical_state_change(&mut self, block_info: BlockInfo, mined_transactions: Vec<TxHash>, changed_senders: HashMap<SenderId, SenderInfo>) -> (r: OnNewCanonicalStateOutcome)
        requires
            old(self).wf(),
        ensures
            final(self).wf(),
            old(self).complete() ==> final(self).complete(),
            final(self).block_info_spec() == block_info,
            final(self).sender_info@ == old(self).sender_info@.union_prefer_right(changed_senders@),
            final(self).config == old(self).config,
            r.block_hash == block_info.last_seen_block_hash,
            r.mined@ == mined_transactions@,
            exists|s1: Seq<PoolInternalTransaction>| #[trigger] id_map(s1) == drop_hashes(old(self).records(), mined_transactions@).0 && sorted(s1) && {
                let (s2, ups) = update_walk(s1, 0, changed_senders@, block_info.pending_basefee, WalkMode::Head);
                &&& final(self).records() == id_map(s2).remove_keys(discarded_ids(ups))
                &&& r.discarded@ == discarded_hashes(ups)
                &&& old(self).complete() ==> r.promoted@ == promoted_of(ups, id_map(s2))
            },
    {
        let block_hash = block_info.last_seen_block_hash;
        self.all_transactions.set_block_info(block_info.last_seen_block_hash, block_info.last_seen_block_number, block_info.pending_basefee);
        let ghost c0 = old(self).complete();
        proof {
            assert(self.records() =~= old(self).records());
            assert forall|p: SubPool, x: TransactionId| #[trigger] self.sub(p).contains_key(x) implies self.records().contains_key(x)
                && self.sub(p)[x] == self.records()[x].transaction && p == held_in(self.records()[x], Map::empty(), x) by {
                assert(old(self).sub(p).contains_key(x));
            }
            if c0 {
                assert forall|x: TransactionId| #[trigger] self.records().contains_key(x) implies self.sub(held_in(self.records()[x], Map::empty(), x)).contains_key(x) by {
                    assert(old(self).records().contains_key(x));
                }
            }
        }
        let mut i: usize = 0;
        while i < mined_transactions.len()
            invariant
                i <= mined_transactions.len(),
                self.wf(),
                c0 == old(self).complete(),
                c0 ==> self.complete(),
                self.block_info_spec() == block_info,
                self.sender_info == old(self).sender_info,
                self.config == old(self).config,
                self.records() == drop_hashes(old(self).records(), mined_transactions@.subrange(0, i as int)).0,
            decreases mined_transactions.len() - i,
        {
            let h = mined_transactions[i];
            proof {
                let t = mined_transactions@.subrange(0, i + 1);
                assert(t.drop_last() =~= mined_transactions@.subrange(0, i as int));
                assert(t.last() == h);
            }
            self.prune_transaction_by_hash(&h);
            i += 1;
        }
        proof { assert(mined_transactions@.subrange(0, i as int) =~= mined_transactions@); }
        let ghost s1 = self.all_transactions.txs@;
        let outcome = self.update_accounts(changed_senders);
        proof {
            assert(id_map(s1) == drop_hashes(old(self).records(), mined_transactions@).0 && sorted(s1));
        }
        OnNewCanonicalStateOutcome {
            block_hash,
            mined: mined_transactions,
            promoted: outcome.promoted,
            discarded: outcome.discarded,
        }
    }
}

/// Law: when every transaction of a well-formed pool is held in the
/// sub-pool its record names, the pool's number of transactions is the sum
/// of the sub-pools' numbers. A new pool is so, and each public operation
/// keeps it so (`old(self).complete() ==> final(self).complete()` in their
/// contracts), so the law holds of every pool they reach.
pub proof fn lemma_total_is_sum_of_subpools<T: TransactionOrdering>(pool: &TxPool<T>)
    requires
        pool.wf(),
        pool.complete(),
    ensures
        pool.records().len() == pool.sub(SubPool::Pending).len() + pool.sub(SubPool::Queued).len() + pool.sub(SubPool::BaseFee).len(),
{
    let a = pool.sub(SubPool::Pending).dom();
    let b = pool.sub(SubPool::Queued).dom();
    let c = pool.sub(SubPool::BaseFee).dom();
    crate::pool::by_id::lemma_id_map_len(pool.pending_pool.by_id@);
    crate::pool::by_id::lemma_id_map_len(pool.queued_pool.by_id@);
    crate::pool::by_id::lemma_id_map_len(pool.basefee_pool.by_id@);
    crate::pool::by_id::lemma_id_map_len(pool.all_transactions.txs@);
    assert(a =~= id_map(pool.pending_pool.by_id@).dom());
    assert(b =~= id_map(pool.queued_pool.by_id@).dom());
    assert(c =~= id_map(pool.basefee_pool.by_id@).dom());
    assert forall|x: TransactionId| a.contains(x) implies !b.contains(x) && !c.contains(x) by {
        assert(pool.sub(SubPool::Pending).contains_key(x));
        if b.contains(x) {
            assert(pool.sub(SubPool::Queued).contains_key(x));
        }
        if c.contains(x) {
            assert(pool.sub(SubPool::BaseFee).contains_key(x));
        }
    }
    assert forall|x: TransactionId| b.contains(x) implies !c.contains(x) by {
        assert(pool.sub(SubPool::Queued).contains_key(x));
        if c.contains(x) {
            assert(pool.sub(SubPool::BaseFee).contains_key(x));
        }
    }
    vstd::set_lib::lemma_set_disjoint_lens(a, b);
    vstd::set_lib::lemma_set_disjoint_lens(a + b, c);
    assert forall|x: TransactionId| pool.records().dom().contains(x) <==> (a + b + c).contains(x) by {
        if pool.records().dom().contains(x) {
            assert(pool.records().contains_key(x));
            assert(pool.sub(held_in(pool.records()[x], Map::empty(), x)).contains_key(x));
        }
        if a.contains(x) {
            assert(pool.sub(SubPool::Pending).contains_key(x));
        }
        if b.contains(x) {
            assert(pool.sub(SubPool::Queued).contains_key(x));
        }
        if c.contains(x) {
            assert(pool.sub(SubPool::BaseFee).contains_key(x));
        }
    }
    assert(pool.records().dom() =~= a + b + c);
}

/// Law: the pending sub-pool of a well-formed pool holds exactly the ready
/// transactions. Each transaction it holds has no nonce gap, no parked
/// ancestor, is funded, fits the block's gas limit and covers the pending
/// base fee; and, when every transaction is held in the sub-pool its record
/// names, each pooled transaction with these five conditions is in it.
pub proof fn lemma_pending_holds_ready<T: TransactionOrdering>(pool: &TxPool<T>, id: TransactionId)
    requires
        pool.wf(),
    ensures
        pool.sub(SubPool::Pending).contains_key(id) ==> pool.records().contains_key(id)
            && spec_is_pending(pool.records()[id].state),
        pool.complete() && pool.records().contains_key(id) && spec_is_pending(pool.records()[id].state)
            ==> pool.sub(SubPool::Pending).contains_key(id),
{
    let s = pool.all_transactions.txs@;
    if pool.records().contains_key(id) {
        let i = index_of_id(s, id);
        assert(0 <= i < s.len() && s[i].key() == id);
        assert(s[i].subpool == spec_subpool(s[i].state));
        assert(pool.records()[id] == s[i]);
    }
    if pool.sub(SubPool::Pending).contains_key(id) {
        assert(pool.records().contains_key(id));
    }
}

/// Holding entries within is transitive.
proof fn lemma_entries_within_trans<T: TransactionOrdering>(a: TxPool<T>, b: TxPool<T>, c: TxPool<T>)
    requires
        a.entries_within(&b),
        b.entries_within(&c),
    ensures
        a.entries_within(&c),
{
    assert forall|id: TransactionId| #[trigger] a.pending_pool.entries().contains_key(id) implies c.pending_pool.entries().contains_key(id)
        && a.pending_pool.entries()[id] == c.pending_pool.entries()[id] by {
        assert(b.pending_pool.entries().contains_key(id));
    }
    assert forall|id: TransactionId| #[trigger] id_map(a.queued_pool.by_id@).contains_key(id) implies id_map(c.queued_pool.by_id@).contains_key(id)
        && id_map(a.queued_pool.by_id@)[id] == id_map(c.queued_pool.by_id@)[id] by {
        assert(id_map(b.queued_pool.by_id@).contains_key(id));
    }
    assert forall|id: TransactionId| #[trigger] id_map(a.basefee_pool.by_id@).contains_key(id) implies id_map(c.basefee_pool.by_id@).contains_key(id)
        && id_map(a.basefee_pool.by_id@)[id] == id_map(c.basefee_pool.by_id@)[id] by {
        assert(id_map(b.basefee_pool.by_id@).contains_key(id));
    }
}

/// A pool holds entries within itself.
proof fn lemma_entries_within_refl<T: TransactionOrdering>(a: TxPool<T>)
    ensures
        a.entries_within(&a),
{
}

/// Between transactions a sub-pool holds, the ranking is the one of a pool
/// whose entries it holds unchanged.
proof fn lemma_ranks_within<T: TransactionOrdering>(a: TxPool<T>, b: TxPool<T>, p: SubPool, x: TransactionId, y: TransactionId)
    requires
        a.entries_within(&b),
        a.sub(p).contains_key(x),
        a.sub(p).contains_key(y),
    ensures
        a.ranks_below(p, x, y) == b.ranks_below(p, x, y),
{
    match p {
        SubPool::Pending => {
            assert(a.pending_pool.entries().contains_key(x));
            assert(a.pending_pool.entries().contains_key(y));
        },
        SubPool::Queued => {
            assert(id_map(a.queued_pool.by_id@).contains_key(x));
            assert(id_map(a.queued_pool.by_id@).contains_key(y));
        },
        SubPool::BaseFee => {
            assert(id_map(a.basefee_pool.by_id@).contains_key(x));
            assert(id_map(a.basefee_pool.by_id@).contains_key(y));
        },
    }
}

/// Law: the number and the combined size of a sub-pool's transactions are
/// fixed by which transactions it holds. So the limits a sub-pool exceeds
/// follow from its transactions alone.
pub proof fn lemma_sub_fixes_size<T: TransactionOrdering>(q1: TxPool<T>, q2: TxPool<T>, p: SubPool)
    requires
        q1.parts_wf(),
        q2.parts_wf(),
        q1.sub(p) == q2.sub(p),
    ensures
        q1.len_of(p) == q2.len_of(p),
        q1.size_of(p) == q2.size_of(p),
{
    match p {
        SubPool::Pending => {
            let s = q1.pending_pool.by_id@;
            let t = q2.pending_pool.by_id@;
            assert(id_map(s).dom() =~= id_map(t).dom()) by {
                assert forall|k: TransactionId| id_map(s).dom().contains(k) == id_map(t).dom().contains(k) by {
                    assert(q1.sub(p).contains_key(k) == id_map(s).contains_key(k));
                    assert(q2.sub(p).contains_key(k) == id_map(t).contains_key(k));
                }
            }
            lemma_sorted_same_ids(s, t);
            assert forall|i: int| 0 <= i < s.len() implies #[trigger] s[i].transaction == t[i].transaction by {
                lemma_index_of_id(s, i);
                lemma_index_of_id(t, i);
                let k = s[i].key();
                assert(q1.sub(p).contains_key(k));
                assert(q1.sub(p)[k] == s[i].transaction);
                assert(q2.sub(p)[k] == t[i].transaction);
            }
            assert(s.map_values(|x: crate::pool::pending::PendingTransaction| x.transaction)
                =~= t.map_values(|x: crate::pool::pending::PendingTransaction| x.transaction));
        },
        SubPool::Queued => {
            let s = q1.queued_pool.by_id@;
            let t = q2.queued_pool.by_id@;
            assert(id_map(s).dom() =~= id_map(t).dom()) by {
                assert forall|k: TransactionId| id_map(s).dom().contains(k) == id_map(t).dom().contains(k) by {
                    assert(q1.sub(p).contains_key(k) == id_map(s).contains_key(k));
                    assert(q2.sub(p).contains_key(k) == id_map(t).contains_key(k));
                }
            }
            lemma_sorted_same_ids(s, t);
            assert forall|i: int| 0 <= i < s.len() implies #[trigger] s[i].transaction == t[i].transaction by {
                lemma_index_of_id(s, i);
                lemma_index_of_id(t, i);
                let k = s[i].key();
                assert(q1.sub(p).contains_key(k));
                assert(q1.sub(p)[k] == s[i].transaction);
                assert(q2.sub(p)[k] == t[i].transaction);
            }
            assert(s.map_values(|x: crate::pool::parked::ParkedPoolTransaction| x.transaction)
                =~= t.map_values(|x: crate::pool::parked::ParkedPoolTransaction| x.transaction));
        },
        SubPool::BaseFee => {
            let s = q1.basefee_pool.by_id@;
            let t = q2.basefee_pool.by_id@;
            assert(id_map(s).dom() =~= id_map(t).dom()) by {
                assert forall|k: TransactionId| id_map(s).dom().contains(k) == id_map(t).dom().contains(k) by {
                    assert(q1.sub(p).contains_key(k) == id_map(s).contains_key(k));
                    assert(q2.sub(p).contains_key(k) == id_map(t).contains_key(k));
                }
            }
            lemma_sorted_same_ids(s, t);
            assert forall|i: int| 0 <= i < s.len() implies #[trigger] s[i].transaction == t[i].transaction by {
                lemma_index_of_id(s, i);
                lemma_index_of_id(t, i);
                let k = s[i].key();
                assert(q1.sub(p).contains_key(k));
                assert(q1.sub(p)[k] == s[i].transaction);
                assert(q2.sub(p)[k] == t[i].transaction);
            }
            assert(s.map_values(|x: crate::pool::parked::ParkedPoolTransaction| x.transaction)
                =~= t.map_values(|x: crate::pool::parked::ParkedPoolTransaction| x.transaction));
        },
    }
}

} // verus!
