//! The set of all pooled transactions and the pool built on it.
use crate::pool::by_id::{find, has_id, id_map, index_of_id, lemma_id_map_insert, lemma_id_map_len, lemma_id_map_remove, lemma_id_map_update, lemma_index_of_id, lemma_remove_sorted, lemma_sorted_unique, lower_bound, sorted, Keyed};
use crate::pool::config::{PoolConfig, TXPOOL_MAX_ACCOUNT_SLOTS_PER_SENDER, DEFAULT_PRICE_BUMP};
use crate::pool::identifier::{id_lt, SenderId, TransactionId};
use crate::pool::sender_map::{sender_map_extend, sender_map_get, sender_map_insert, sender_map_new, sender_map_remove};
use crate::pool::state::{spec_is_pending, spec_subpool, SubPool, TxState};
use crate::pool::update::{Destination, PoolUpdate};
use crate::pool::validate::{TransactionOrigin, ValidPoolTransaction};
use crate::primitives::{spec_add, TxHash, H256, U256};
use fnv::FnvHashMap;
use std::collections::HashMap;
use vstd::prelude::*;

verus! {

/// The block gas limit the pool assumes.
pub const ETHEREUM_BLOCK_GAS_LIMIT: u64 = 30_000_000;

/// The smallest base fee the protocol allows.
pub const MIN_PROTOCOL_BASE_FEE: u64 = 7;

/// A transaction in the pool with what decides its sub-pool.
#[derive(Clone, Copy, Debug, PartialEq, Eq, Structural)]
pub struct PoolInternalTransaction {
    /// The actual transaction object.
    pub transaction: ValidPoolTransaction,
    /// The `SubPool` that currently contains this transaction.
    pub subpool: SubPool,
    /// The conditions the transaction currently meets.
    pub state: TxState,
    /// The combined cost of all transactions of the same sender that come
    /// before this one.
    pub cumulative_cost: U256,
}

impl Keyed for PoolInternalTransaction {
    open spec fn key(&self) -> TransactionId {
        self.transaction.transaction_id
    }

    fn get_key(&self) -> (r: TransactionId) {
        self.transaction.transaction_id
    }
}

impl PoolInternalTransaction {
    /// The cumulative cost including this transaction.
    pub fn next_cumulative_cost(&self) -> (r: U256)
        ensures
            r == spec_add(self.cumulative_cost, self.transaction.transaction.cost),
    {
        self.cumulative_cost.wrapping_add(self.transaction.transaction.cost)
    }
}

/// Stores relevant context about a sender.
#[derive(Clone, Copy, Debug, PartialEq, Eq, Structural)]
pub struct SenderInfo {
    /// Current nonce of the sender.
    pub state_nonce: u64,
    /// Balance of the sender at the current point.
    pub balance: U256,
}

impl SenderInfo {
    /// Updates the info with the new values.
    pub fn update(&mut self, state_nonce: u64, balance: U256)
        ensures
            *final(self) == (SenderInfo { state_nonce, balance }),
    {
        *self = SenderInfo { state_nonce, balance };
    }
}

/// The senders of a sequence of pooled transactions, in order.
pub open spec fn senders_of(s: Seq<PoolInternalTransaction>) -> Seq<SenderId> {
    s.map_values(|t: PoolInternalTransaction| t.key().sender)
}

/// How many of the transactions come from `sender`.
pub open spec fn sender_count(s: Seq<PoolInternalTransaction>, sender: SenderId) -> nat {
    senders_of(s).to_multiset().count(sender)
}

/// The counter holds the number of pooled transactions of each sender that
/// has any.
pub open spec fn counter_ok(m: Map<SenderId, usize>, s: Seq<PoolInternalTransaction>) -> bool {
    &&& forall|k: SenderId| #[trigger] m.contains_key(k) ==> m[k] == sender_count(s, k) && m[k] > 0
    &&& forall|k: SenderId| !m.contains_key(k) ==> #[trigger] sender_count(s, k) == 0
}

/// A sender never has more transactions than the sequence holds.
pub proof fn lemma_count_le_len(s: Seq<SenderId>, x: SenderId)
    ensures
        s.to_multiset().count(x) <= s.len(),
    decreases s.len(),
{
    broadcast use vstd::seq_lib::to_multiset_build;
    if s.len() == 0 {
        s.to_multiset_ensures();
        assert(!s.contains(x));
    } else {
        let d = s.drop_last();
        lemma_count_le_len(d, x);
        assert(s =~= d.push(s.last()));
    }
}

/// The counts after inserting a transaction.
pub proof fn lemma_count_insert(s: Seq<PoolInternalTransaction>, i: int, e: PoolInternalTransaction)
    requires
        0 <= i <= s.len(),
    ensures
        forall|k: SenderId| #[trigger] sender_count(s.insert(i, e), k) == sender_count(s, k) + (if k
            == e.key().sender {
            1int
        } else {
            0int
        }),
{
    broadcast use vstd::seq_lib::to_multiset_insert;
    assert(senders_of(s.insert(i, e)) =~= senders_of(s).insert(i, e.key().sender));
}

/// The counts after removing a transaction.
pub proof fn lemma_count_remove(s: Seq<PoolInternalTransaction>, i: int)
    requires
        0 <= i < s.len(),
    ensures
        forall|k: SenderId| #[trigger] sender_count(s.remove(i), k) == sender_count(s, k) - (if k
            == s[i].key().sender {
            1int
        } else {
            0int
        }),
{
    broadcast use vstd::seq_lib::to_multiset_remove;
    assert(senders_of(s.remove(i)) =~= senders_of(s).remove(i));
    senders_of(s).to_multiset_ensures();
    assert(senders_of(s)[i] == s[i].key().sender);
    assert(senders_of(s).contains(s[i].key().sender));
}

/// The counts after replacing a transaction by one with the same id.
pub proof fn lemma_count_update(s: Seq<PoolInternalTransaction>, i: int, e: PoolInternalTransaction)
    requires
        0 <= i < s.len(),
        e.key().sender == s[i].key().sender,
    ensures
        forall|k: SenderId| #[trigger] sender_count(s.update(i, e), k) == sender_count(s, k),
{
    assert(senders_of(s.update(i, e)) =~= senders_of(s));
}

/// The counter stays exact after an insert that may add one transaction of
/// `sender`.
pub proof fn lemma_counter_insert(old_m: Map<SenderId, usize>, new_m: Map<SenderId, usize>, s_old: Seq<PoolInternalTransaction>, s_new: Seq<PoolInternalTransaction>, sender: SenderId, added: bool)
    requires
        counter_ok(old_m, s_old),
        forall|k: SenderId| #[trigger] sender_count(s_new, k) == sender_count(s_old, k) + (if added && k == sender { 1int } else { 0int }),
        new_m == (if added {
            old_m.insert(sender, (if old_m.contains_key(sender) { old_m[sender] + 1 } else { 1 }) as usize)
        } else {
            old_m
        }),
        added ==> sender_count(s_old, sender) + 1 <= usize::MAX,
    ensures
        counter_ok(new_m, s_new),
{
    assert forall|k: SenderId| #[trigger] new_m.contains_key(k) implies new_m[k] == sender_count(s_new, k) && new_m[k] > 0 by {
        if added && k == sender {
            if old_m.contains_key(sender) {
                assert(old_m[sender] == sender_count(s_old, sender));
            } else {
                assert(sender_count(s_old, sender) == 0);
            }
        } else {
            assert(old_m.contains_key(k));
        }
    }
    assert forall|k: SenderId| !new_m.contains_key(k) implies #[trigger] sender_count(s_new, k) == 0 by {
        assert(!old_m.contains_key(k));
        assert(sender_count(s_old, k) == 0);
    }
}

/// Replacing an element by one with the same id keeps the order.
pub proof fn lemma_update_keeps_order(s: Seq<PoolInternalTransaction>, i: int, e: PoolInternalTransaction)
    requires
        sorted(s),
        0 <= i < s.len(),
        e.key() == s[i].key(),
    ensures
        sorted(s.update(i, e)),
{
    lemma_id_map_update(s, i, e);
}

/// Some pooled transaction carries the hash.
pub open spec fn map_has_hash(m: Map<TransactionId, PoolInternalTransaction>, hash: TxHash) -> bool {
    exists|id: TransactionId| #[trigger] m.contains_key(id) && m[id].transaction.transaction.hash == hash
}

/// Container for _all_ transactions in the pool, kept in id order.
///
/// This is the sole entry point guarding all sub-pools: every sub-pool action
/// is derived from this set.
pub struct AllTransactions {
    /// Transactions with a lower fee cap will never be included by the chain.
    pub minimal_protocol_basefee: u64,
    /// The max gas limit of the block.
    pub block_gas_limit: u64,
    /// Max number of executable transaction slots guaranteed per account.
    pub max_account_slots: usize,
    /// All transactions, sorted by their sender and nonce pair.
    pub txs: Vec<PoolInternalTransaction>,
    /// Tracks the number of transactions by sender that are currently in the pool.
    pub tx_counter: FnvHashMap<SenderId, usize>,
    /// The current block number the pool keeps track of.
    pub last_seen_block_number: u64,
    /// The current block hash the pool keeps track of.
    pub last_seen_block_hash: H256,
    /// Expected base fee for the pending block.
    pub pending_basefee: u64,
}

/// The result of inserting a transaction.
pub type InsertResult = Result<InsertOk, InsertErr>;

/// Why a transaction was not inserted.
#[derive(Clone, Copy, Debug, PartialEq, Eq, Structural)]
pub enum InsertErr {
    /// Attempted to replace an existing transaction, but was underpriced.
    Underpriced {
        /// The transaction that was refused.
        transaction: ValidPoolTransaction,
        /// The hash of the transaction it would have replaced.
        existing: TxHash,
    },
    /// The fee cap is lower than the chain's minimum fee requirement.
    FeeCapBelowMinimumProtocolFeeCap {
        /// The transaction that was refused.
        transaction: ValidPoolTransaction,
        /// Its fee cap.
        fee_cap: u128,
    },
    /// The sender exceeds the configured limit for max account slots.
    ExceededSenderTransactionsCapacity {
        /// The transaction that was refused.
        transaction: ValidPoolTransaction,
    },
    /// The gas limit exceeds the block's gas limit.
    TxGasLimitMoreThanAvailableBlockGas {
        /// The transaction that was refused.
        transaction: ValidPoolTransaction,
        /// The block's gas limit.
        block_gas_limit: u64,
        /// The transaction's gas limit.
        tx_gas_limit: u64,
    },
}

/// A transaction was inserted into the pool.
#[derive(Clone, Debug)]
pub struct InsertOk {
    /// The inserted transaction.
    pub transaction: ValidPoolTransaction,
    /// The sub-pool the transaction goes to.
    pub move_to: SubPool,
    /// Current state of the inserted transaction.
    pub state: TxState,
    /// The transaction that was replaced by this one, and its sub-pool.
    pub replaced_tx: Option<(ValidPoolTransaction, SubPool)>,
    /// Moves of other transactions caused by this insert.
    pub updates: Vec<PoolUpdate>,
}

/// `a` is underpriced compared to `b`: its fee cap, or both priority fees
/// when both are set, do not exceed `b`'s by more than `price_bump` percent.
pub open spec fn spec_is_underpriced(a: ValidPoolTransaction, b: ValidPoolTransaction, price_bump: u128) -> bool {
    let a_prio = match a.transaction.max_priority_fee_per_gas {
        Some(p) => p as int,
        None => 0,
    };
    let b_prio = match b.transaction.max_priority_fee_per_gas {
        Some(p) => p as int,
        None => 0,
    };
    a.transaction.max_fee_per_gas <= b.transaction.max_fee_per_gas * (100 + price_bump) / 100 || (
    a_prio <= b_prio * (100 + price_bump) / 100 && a_prio != 0 && b_prio != 0)
}

/// A replacement is underpriced when its fee cap is not bumped by more than
/// `price_bump` percent, or when both priority fees are set and non-zero and
/// its priority fee is not bumped by more than `price_bump` percent, whatever
/// its fee cap; when it bumps its fee cap, and its priority fee too where
/// both are set and non-zero, it is not.
pub proof fn lemma_underpriced_unless_bumped(a: ValidPoolTransaction, b: ValidPoolTransaction, price_bump: u128)
    ensures
        a.transaction.max_fee_per_gas <= b.transaction.max_fee_per_gas * (100 + price_bump) / 100
            ==> spec_is_underpriced(a, b, price_bump),
        (a.transaction.max_priority_fee_per_gas matches Some(pa) && b.transaction.max_priority_fee_per_gas matches Some(pb)
            && pa != 0 && pb != 0 && pa <= pb * (100 + price_bump) / 100) ==> spec_is_underpriced(a, b, price_bump),
        (a.transaction.max_fee_per_gas > b.transaction.max_fee_per_gas * (100 + price_bump) / 100
            && !(a.transaction.max_priority_fee_per_gas matches Some(pa) && b.transaction.max_priority_fee_per_gas matches Some(pb)
                && pa != 0 && pb != 0 && pa <= pb * (100 + price_bump) / 100)) ==> !spec_is_underpriced(a, b, price_bump),
{
}

/// A transaction that passes the pool's earlier checks but would replace one
/// of the same sender and nonce without bumping the priority fee by more
/// than the default price bump, both priority fees set and non-zero, is
/// refused as underpriced, naming the transaction it would replace.
pub proof fn lemma_unbumped_priority_refused(all: AllTransactions, tx: ValidPoolTransaction, pa: u128, pb: u128)
    requires
        !(tx.origin != TransactionOrigin::Local && all.count_of(tx.transaction_id.sender) >= all.max_account_slots),
        tx.transaction.gas_limit <= all.block_gas_limit,
        tx.transaction.max_fee_per_gas >= all.minimal_protocol_basefee,
        all@.contains_key(tx.transaction_id),
        tx.transaction.max_priority_fee_per_gas == Some(pa),
        all@[tx.transaction_id].transaction.transaction.max_priority_fee_per_gas == Some(pb),
        pa != 0,
        pb != 0,
        pa <= pb * (100 + DEFAULT_PRICE_BUMP) / 100,
    ensures
        insert_error(all, tx) == Some(InsertErr::Underpriced { transaction: tx, existing: all@[tx.transaction_id].transaction.transaction.hash }),
{
}

/// `x * factor / 100`, or `None` when it exceeds `u128`.
fn bumped(x: u128, factor: u128) -> (r: Option<u128>)
    ensures
        match r {
            Some(v) => v == x * factor / 100,
            None => x * factor / 100 > u128::MAX,
        },
{
    let a = x / 100;
    let rem = x % 100;
    let c = factor / 100;
    let d = factor % 100;
    proof {
        assert(rem * d < 10000) by (nonlinear_arith) requires rem < 100, d < 100, rem >= 0, d >= 0;
    }
    let tail = rem * d / 100;
    proof {
        assert(x * factor / 100 == a * factor + rem * c + tail) by (nonlinear_arith)
            requires
                x == 100 * a + rem,
                factor == 100 * c + d,
                tail == rem * d / 100,
                0 <= rem < 100,
                0 <= d < 100,
                a >= 0,
                c >= 0,
        ;
        assert(a * factor >= 0 && rem * c >= 0) by (nonlinear_arith) requires a >= 0, factor >= 0, rem >= 0, c >= 0;
    }
    let p1 = match a.checked_mul(factor) {
        Some(p) => p,
        None => return None,
    };
    let p2 = match rem.checked_mul(c) {
        Some(p) => p,
        None => return None,
    };
    if p1 > u128::MAX - p2 {
        return None;
    }
    let sum = p1 + p2;
    if sum > u128::MAX - tail {
        return None;
    }
    Some(sum + tail)
}

/// One step of re-checking a sender's gapless chain: the transaction has no
/// nonce gap, carries the cost of those before it, is funded when the
/// balance covers its cumulative cost, and has a parked ancestor when one
/// before it is not pending.
pub open spec fn walk_step(t: PoolInternalTransaction, cum: U256, parked: bool, balance: U256) -> PoolInternalTransaction {
    let next = spec_add(cum, t.transaction.transaction.cost);
    let st = TxState {
        no_nonce_gaps: true,
        enough_balance: !(next.value() > balance.value()),
        no_parked_ancestors: !parked,
        ..t.state
    };
    PoolInternalTransaction { state: st, cumulative_cost: cum, subpool: spec_subpool(st), ..t }
}

/// The move recorded for a re-checked transaction other than `new_id` whose
/// sub-pool changed.
pub open spec fn walk_update(id: TransactionId, t: PoolInternalTransaction, t2: PoolInternalTransaction, new_id: TransactionId) -> Seq<PoolUpdate> {
    if id != new_id && t.subpool != t2.subpool {
        seq![PoolUpdate { id, hash: t.transaction.transaction.hash, current: t.subpool, destination: Destination::Pool(t2.subpool) }]
    } else {
        seq![]
    }
}

/// Re-checks the transactions of `sender` with consecutive nonces starting at
/// `nonce`, and collects the moves of those other than `new_id`.
pub open spec fn insert_walk(
    m: Map<TransactionId, PoolInternalTransaction>,
    sender: SenderId,
    nonce: int,
    cum: U256,
    parked: bool,
    balance: U256,
    new_id: TransactionId,
) -> (Map<TransactionId, PoolInternalTransaction>, Seq<PoolUpdate>)
    decreases u64::MAX + 1 - nonce,
{
    let id = TransactionId { sender, nonce: nonce as u64 };
    if 0 <= nonce <= u64::MAX && m.contains_key(id) {
        let t = m[id];
        let t2 = walk_step(t, cum, parked, balance);
        let rest = insert_walk(
            m.insert(id, t2),
            sender,
            nonce + 1,
            spec_add(cum, t.transaction.transaction.cost),
            !spec_is_pending(t2.state),
            balance,
            new_id,
        );
        (rest.0, walk_update(id, t, t2, new_id) + rest.1)
    } else {
        (m, seq![])
    }
}

/// The state a new transaction starts with, before its sender's chain is
/// re-checked.
pub open spec fn initial_state(all: AllTransactions, tx: ValidPoolTransaction, on_chain_nonce: u64) -> TxState {
    let next = tx.transaction.nonce == on_chain_nonce;
    TxState {
        no_parked_ancestors: next,
        no_nonce_gaps: next,
        enough_balance: false,
        not_too_much_gas: tx.transaction.gas_limit < all.block_gas_limit,
        enough_fee_cap_block: tx.transaction.max_fee_per_gas >= all.pending_basefee,
    }
}

/// The new transaction as first placed in the pool.
pub open spec fn initial_entry(all: AllTransactions, tx: ValidPoolTransaction, on_chain_nonce: u64) -> PoolInternalTransaction {
    let st = initial_state(all, tx, on_chain_nonce);
    PoolInternalTransaction { transaction: tx, subpool: spec_subpool(st), state: st, cumulative_cost: U256 { hi: 0, lo: 0 } }
}

/// The pool after placing the new transaction, replacing one with its id.
pub open spec fn placed(all: AllTransactions, tx: ValidPoolTransaction, on_chain_nonce: u64) -> Map<TransactionId, PoolInternalTransaction> {
    all@.insert(tx.transaction_id, initial_entry(all, tx, on_chain_nonce))
}

/// Whether the chain walk starts with a parked ancestor: the new transaction
/// is not the next one and the sender's next one is not pending.
pub open spec fn initial_parked(m: Map<TransactionId, PoolInternalTransaction>, tx: ValidPoolTransaction, on_chain_nonce: u64) -> bool {
    let k0 = TransactionId { sender: tx.transaction_id.sender, nonce: on_chain_nonce };
    tx.transaction.nonce != on_chain_nonce && !(m.contains_key(k0) && spec_is_pending(m[k0].state))
}

/// The pool and the moves after a successful insert.
pub open spec fn insert_outcome(all: AllTransactions, tx: ValidPoolTransaction, balance: U256, on_chain_nonce: u64) -> (Map<TransactionId, PoolInternalTransaction>, Seq<PoolUpdate>) {
    let m = placed(all, tx, on_chain_nonce);
    insert_walk(m, tx.transaction_id.sender, on_chain_nonce as int, U256 { hi: 0, lo: 0 }, initial_parked(m, tx, on_chain_nonce), balance, tx.transaction_id)
}

/// Why an insert is refused, if it is, in the order the checks run.
pub open spec fn insert_error(all: AllTransactions, tx: ValidPoolTransaction) -> Option<InsertErr> {
    if tx.origin != TransactionOrigin::Local && all.count_of(tx.transaction_id.sender) >= all.max_account_slots {
        Some(InsertErr::ExceededSenderTransactionsCapacity { transaction: tx })
    } else if tx.transaction.gas_limit > all.block_gas_limit {
        Some(InsertErr::TxGasLimitMoreThanAvailableBlockGas { transaction: tx, block_gas_limit: all.block_gas_limit, tx_gas_limit: tx.transaction.gas_limit })
    } else if tx.transaction.max_fee_per_gas < all.minimal_protocol_basefee {
        Some(InsertErr::FeeCapBelowMinimumProtocolFeeCap { transaction: tx, fee_cap: tx.transaction.max_fee_per_gas })
    } else if all@.contains_key(tx.transaction_id) && spec_is_underpriced(tx, all@[tx.transaction_id].transaction, DEFAULT_PRICE_BUMP) {
        Some(InsertErr::Underpriced { transaction: tx, existing: all@[tx.transaction_id].transaction.transaction.hash })
    } else {
        None
    }
}

/// The chain walk from a nonce no transaction of the sender holds changes
/// nothing.
pub proof fn lemma_walk_absent(m: Map<TransactionId, PoolInternalTransaction>, sender: SenderId, nonce: int, cum: U256, parked: bool, balance: U256, new_id: TransactionId)
    requires
        !(0 <= nonce <= u64::MAX && m.contains_key(TransactionId { sender, nonce: nonce as u64 })),
    ensures
        insert_walk(m, sender, nonce, cum, parked, balance, new_id) == (m, Seq::<PoolUpdate>::empty()),
{
}

/// Where the account re-check stands while walking the pool in id order.
#[derive(Clone, Copy, Debug, PartialEq, Eq, Structural)]
pub enum WalkMode {
    /// At the first transaction of a sender still to be examined.
    Head,
    /// Following a sender's chain: the next cumulative cost, whether an
    /// earlier transaction is parked, and the sender's new balance if it
    /// changed.
    Chain { sender: SenderId, cum: U256, parked: bool, balance: Option<U256> },
    /// Skipping the rest of a sender's transactions.
    Skip { sender: SenderId },
}

/// The mode at a transaction of `sender`: a chain or skip of another sender
/// ends there.
pub open spec fn norm_mode(mode: WalkMode, sender: SenderId) -> WalkMode {
    match mode {
        WalkMode::Head => WalkMode::Head,
        WalkMode::Chain { sender: s, .. } => if s == sender { mode } else { WalkMode::Head },
        WalkMode::Skip { sender: s } => if s == sender { mode } else { WalkMode::Head },
    }
}

/// Sets the fee condition against the pending block's base fee and the
/// sub-pool the state selects.
pub open spec fn with_base_fee(t: PoolInternalTransaction, basefee: u64) -> PoolInternalTransaction {
    let st = TxState { enough_fee_cap_block: t.transaction.transaction.max_fee_per_gas >= basefee, ..t.state };
    PoolInternalTransaction { state: st, subpool: spec_subpool(st), ..t }
}

/// The move recorded when a transaction's sub-pool changed.
pub open spec fn subpool_update(t: PoolInternalTransaction, t2: PoolInternalTransaction) -> Seq<PoolUpdate> {
    if t.subpool != t2.subpool {
        seq![PoolUpdate { id: t.key(), hash: t.transaction.transaction.hash, current: t.subpool, destination: Destination::Pool(t2.subpool) }]
    } else {
        seq![]
    }
}

/// A sender's first transaction at the account's new nonce: no gap, no
/// parked ancestor, no cost before it, funded when the balance covers it.
pub open spec fn reset_head(t: PoolInternalTransaction, info: SenderInfo) -> PoolInternalTransaction {
    let st = TxState {
        no_nonce_gaps: true,
        no_parked_ancestors: true,
        enough_balance: !(t.transaction.transaction.cost.value() > info.balance.value()),
        ..t.state
    };
    PoolInternalTransaction { state: st, cumulative_cost: U256 { hi: 0, lo: 0 }, ..t }
}

/// A transaction following its sender's chain.
pub open spec fn chain_step(t: PoolInternalTransaction, cum: U256, parked: bool, balance: Option<U256>) -> PoolInternalTransaction {
    let next = spec_add(cum, t.transaction.transaction.cost);
    let st = TxState {
        enough_balance: match balance {
            Some(b) => !(next.value() > b.value()),
            None => t.state.enough_balance,
        },
        no_parked_ancestors: !parked,
        ..t.state
    };
    PoolInternalTransaction { state: st, cumulative_cost: cum, ..t }
}

/// One step of the account re-check at a transaction: its new value, the
/// moves it causes, and the mode for the next transaction.
pub open spec fn walk_one(t: PoolInternalTransaction, changed: Map<SenderId, SenderInfo>, basefee: u64, mode: WalkMode) -> (PoolInternalTransaction, Seq<PoolUpdate>, WalkMode) {
    let id = t.key();
    match norm_mode(mode, id.sender) {
        WalkMode::Skip { sender } => (t, seq![], WalkMode::Skip { sender }),
        WalkMode::Chain { sender, cum, parked, balance } => {
            if !t.state.no_nonce_gaps {
                (t, seq![], WalkMode::Skip { sender })
            } else {
                let t1 = chain_step(t, cum, parked, balance);
                let t2 = with_base_fee(t1, basefee);
                (t2, subpool_update(t, t2), WalkMode::Chain { sender, cum: spec_add(cum, t.transaction.transaction.cost), parked: !spec_is_pending(t1.state), balance })
            }
        },
        WalkMode::Head => {
            if changed.contains_key(id.sender) && id.nonce < changed[id.sender].state_nonce {
                (t, seq![PoolUpdate { id, hash: t.transaction.transaction.hash, current: t.subpool, destination: Destination::Discard }], WalkMode::Head)
            } else {
                let t1 = if changed.contains_key(id.sender) && id.nonce == changed[id.sender].state_nonce {
                    reset_head(t, changed[id.sender])
                } else {
                    t
                };
                let balance = if changed.contains_key(id.sender) { Some(changed[id.sender].balance) } else { None };
                if !t1.state.no_nonce_gaps {
                    (t1, seq![], WalkMode::Skip { sender: id.sender })
                } else {
                    let t2 = with_base_fee(PoolInternalTransaction { state: TxState { no_parked_ancestors: true, ..t1.state }, ..t1 }, basefee);
                    (t2, subpool_update(t, t2), WalkMode::Chain { sender: id.sender, cum: spec_add(t2.cumulative_cost, t.transaction.transaction.cost), parked: !spec_is_pending(t2.state), balance })
                }
            }
        },
    }
}

/// Re-checks every transaction from position `i` on against changed
/// accounts and the base fee, and collects the moves and discards.
///
/// For each sender, transactions below the account's new nonce are
/// discarded; from the first remaining one, the chain is followed until a
/// transaction with a nonce gap, after which the sender is skipped.
pub open spec fn update_walk(
    s: Seq<PoolInternalTransaction>,
    i: int,
    changed: Map<SenderId, SenderInfo>,
    basefee: u64,
    mode: WalkMode,
) -> (Seq<PoolInternalTransaction>, Seq<PoolUpdate>)
    decreases s.len() - i,
{
    if i < 0 || i >= s.len() {
        (s, seq![])
    } else {
        let (t2, u, next) = walk_one(s[i], changed, basefee, mode);
        let rest = update_walk(s.update(i, t2), i + 1, changed, basefee, next);
        (rest.0, u + rest.1)
    }
}

impl AllTransactions {
    /// The transactions keyed by their id.
    pub open spec fn view(&self) -> Map<TransactionId, PoolInternalTransaction> {
        id_map(self.txs@)
    }

    /// The container is well formed: ordered by id, each transaction in the
    /// sub-pool its state selects, and the counter matches the transactions.
    pub open spec fn wf(&self) -> bool {
        &&& sorted(self.txs@)
        &&& forall|i: int| 0 <= i < self.txs@.len() ==> #[trigger] self.txs@[i].subpool
            == spec_subpool(self.txs@[i].state)
        &&& counter_ok(self.tx_counter@, self.txs@)
    }

    /// The number of pooled transactions of `sender`.
    pub open spec fn count_of(&self, sender: SenderId) -> nat {
        sender_count(self.txs@, sender)
    }

    /// Creates an empty container with the given slot limit per sender.
    pub fn new(max_account_slots: usize) -> (r: AllTransactions)
        ensures
            r.wf(),
            r@ == Map::<TransactionId, PoolInternalTransaction>::empty(),
            r.max_account_slots == max_account_slots,
            r.minimal_protocol_basefee == MIN_PROTOCOL_BASE_FEE,
            r.block_gas_limit == ETHEREUM_BLOCK_GAS_LIMIT,
            r.last_seen_block_number == 0,
            r.last_seen_block_hash == H256(0, 0),
            r.pending_basefee == 0,
    {
        let r = AllTransactions {
            minimal_protocol_basefee: MIN_PROTOCOL_BASE_FEE,
            block_gas_limit: ETHEREUM_BLOCK_GAS_LIMIT,
            max_account_slots,
            txs: Vec::new(),
            tx_counter: sender_map_new(),
            last_seen_block_number: 0,
            last_seen_block_hash: H256::zero(),
            pending_basefee: 0,
        };
        proof {
            assert(r@ =~= Map::<TransactionId, PoolInternalTransaction>::empty());
            assert forall|k: SenderId| !r.tx_counter@.contains_key(k) implies #[trigger] sender_count(
                r.txs@,
                k,
            ) == 0 by {
                assert(senders_of(r.txs@) =~= Seq::<SenderId>::empty());
                senders_of(r.txs@).to_multiset_ensures();
                assert(!senders_of(r.txs@).contains(k));
            }
        }
        r
    }

    /// An empty container with the default slot limit.
    pub fn default_all() -> (r: AllTransactions)
        ensures
            r.wf(),
            r@ == Map::<TransactionId, PoolInternalTransaction>::empty(),
            r.max_account_slots == TXPOOL_MAX_ACCOUNT_SLOTS_PER_SENDER,
            r.minimal_protocol_basefee == MIN_PROTOCOL_BASE_FEE,
            r.block_gas_limit == ETHEREUM_BLOCK_GAS_LIMIT,
            r.pending_basefee == 0,
    {
        AllTransactions::new(TXPOOL_MAX_ACCOUNT_SLOTS_PER_SENDER)
    }

    /// Number of transactions in the entire pool.
    pub fn len(&self) -> (r: usize)
        requires
            self.wf(),
        ensures
            r == self@.len(),
    {
        proof { lemma_id_map_len(self.txs@); }
        self.txs.len()
    }

    /// Whether the pool is empty.
    pub fn is_empty(&self) -> (r: bool)
        requires
            self.wf(),
        ensures
            r == (self@.len() == 0),
    {
        proof { lemma_id_map_len(self.txs@); }
        self.txs.len() == 0
    }

    /// Returns if the transaction for the given hash is already included in
    /// this pool.
    pub fn contains(&self, tx_hash: &TxHash) -> (r: bool)
        requires
            self.wf(),
        ensures
            r == map_has_hash(self@, *tx_hash),
    {
        let mut i: usize = 0;
        while i < self.txs.len()
            invariant
                i <= self.txs.len(),
                self.wf(),
                forall|j: int| 0 <= j < i ==> (#[trigger] self.txs@[j]).transaction.transaction.hash
                    != *tx_hash,
            decreases self.txs.len() - i,
        {
            if self.txs[i].transaction.transaction.hash == *tx_hash {
                proof {
                    lemma_index_of_id(self.txs@, i as int);
                    let id = self.txs@[i as int].key();
                    assert(self@.contains_key(id));
                }
                return true;
            }
            i += 1;
        }
        proof {
            if map_has_hash(self@, *tx_hash) {
                let id = choose|id: TransactionId| #[trigger] self@.contains_key(id)
                    && self@[id].transaction.transaction.hash == *tx_hash;
                let j = index_of_id(self.txs@, id);
                assert(self.txs@[j].transaction.transaction.hash == *tx_hash);
            }
        }
        false
    }

    /// The number of pooled transactions of `sender`.
    pub fn tx_count(&self, sender: SenderId) -> (r: usize)
        requires
            self.wf(),
        ensures
            r == self.count_of(sender),
    {
        match sender_map_get(&self.tx_counter, sender) {
            Some(c) => c,
            None => 0,
        }
    }

    /// Increments the transaction counter for the sender.
    pub fn tx_inc(&mut self, sender: SenderId)
        requires
            !old(self).tx_counter@.contains_key(sender) || old(self).tx_counter@[sender]
                < usize::MAX,
        ensures
            final(self).tx_counter@ == old(self).tx_counter@.insert(
                sender,
                (if old(self).tx_counter@.contains_key(sender) {
                    old(self).tx_counter@[sender] + 1
                } else {
                    1
                }) as usize,
            ),
            final(self).txs@ == old(self).txs@,
            final(self).minimal_protocol_basefee == old(self).minimal_protocol_basefee,
            final(self).block_gas_limit == old(self).block_gas_limit,
            final(self).max_account_slots == old(self).max_account_slots,
            final(self).pending_basefee == old(self).pending_basefee,
            final(self).last_seen_block_number == old(self).last_seen_block_number,
            final(self).last_seen_block_hash == old(self).last_seen_block_hash,
    {
        let count = match sender_map_get(&self.tx_counter, sender) {
            Some(c) => c,
            None => 0,
        };
        sender_map_insert(&mut self.tx_counter, sender, count + 1);
    }

    /// Decrements the transaction counter for the sender, dropping it at zero.
    pub fn tx_decr(&mut self, sender: SenderId)
        requires
            old(self).tx_counter@.contains_key(sender) ==> old(self).tx_counter@[sender] > 0,
        ensures
            final(self).tx_counter@ == (if old(self).tx_counter@.contains_key(sender) {
                if old(self).tx_counter@[sender] == 1 {
                    old(self).tx_counter@.remove(sender)
                } else {
                    old(self).tx_counter@.insert(sender, (old(self).tx_counter@[sender] - 1) as usize)
                }
            } else {
                old(self).tx_counter@
            }),
            final(self).txs@ == old(self).txs@,
            final(self).minimal_protocol_basefee == old(self).minimal_protocol_basefee,
            final(self).block_gas_limit == old(self).block_gas_limit,
            final(self).max_account_slots == old(self).max_account_slots,
            final(self).pending_basefee == old(self).pending_basefee,
            final(self).last_seen_block_number == old(self).last_seen_block_number,
            final(self).last_seen_block_hash == old(self).last_seen_block_hash,
    {
        match sender_map_get(&self.tx_counter, sender) {
            Some(count) => {
                if count == 1 {
                    sender_map_remove(&mut self.tx_counter, sender);
                    return;
                }
                sender_map_insert(&mut self.tx_counter, sender, count - 1);
            },
            None => {},
        }
    }

    /// Updates the block specific info.
    pub fn set_block_info(&mut self, last_seen_block_hash: H256, last_seen_block_number: u64, pending_basefee: u64)
        ensures
            final(self).last_seen_block_hash == last_seen_block_hash,
            final(self).last_seen_block_number == last_seen_block_number,
            final(self).pending_basefee == pending_basefee,
            final(self).txs@ == old(self).txs@,
            final(self).tx_counter@ == old(self).tx_counter@,
            final(self).minimal_protocol_basefee == old(self).minimal_protocol_basefee,
            final(self).block_gas_limit == old(self).block_gas_limit,
            final(self).max_account_slots == old(self).max_account_slots,
    {
        self.last_seen_block_number = last_seen_block_number;
        self.last_seen_block_hash = last_seen_block_hash;
        self.pending_basefee = pending_basefee;
    }

    /// Removes a transaction from the set by its id.
    ///
    /// Returns the removed transaction and the sub-pool it was in.
    pub fn remove_transaction(&mut self, id: &TransactionId) -> (r: Option<(ValidPoolTransaction, SubPool)>)
        requires
            old(self).wf(),
        ensures
            final(self).wf(),
            match r {
                Some((t, p)) => old(self)@.contains_key(*id) && t == old(self)@[*id].transaction && p
                    == old(self)@[*id].subpool && final(self)@ == old(self)@.remove(*id),
                None => !old(self)@.contains_key(*id) && final(self)@ == old(self)@,
            },
            forall|k: SenderId| #[trigger] final(self).count_of(k) == old(self).count_of(k) - (if r is Some && k == id.sender { 1int } else { 0int }),
            final(self).minimal_protocol_basefee == old(self).minimal_protocol_basefee,
            final(self).block_gas_limit == old(self).block_gas_limit,
            final(self).max_account_slots == old(self).max_account_slots,
            final(self).pending_basefee == old(self).pending_basefee,
            final(self).last_seen_block_number == old(self).last_seen_block_number,
            final(self).last_seen_block_hash == old(self).last_seen_block_hash,
    {
        match find(&self.txs, *id) {
            Some(i) => {
                let ghost s = self.txs@;
                let internal = self.txs.remove(i);
                proof {
                    lemma_id_map_remove(s, i as int);
                    lemma_count_remove(s, i as int);
                }
                self.remove_at_fixup(internal.transaction.transaction_id.sender, Ghost(s), Ghost(i as int));
                Some((internal.transaction, internal.subpool))
            },
            None => None,
        }
    }

    /// Returns true if `transaction_a` is underpriced compared to
    /// `transaction_b`.
    ///
    /// The bumped prices are compared as exact integers.
    pub fn is_underpriced(transaction_a: &ValidPoolTransaction, transaction_b: &ValidPoolTransaction, price_bump: u128) -> (r: bool)
        requires
            price_bump <= u128::MAX - 100,
        ensures
            r == spec_is_underpriced(*transaction_a, *transaction_b, price_bump),
            transaction_a.transaction.max_fee_per_gas <= transaction_b.transaction.max_fee_per_gas * (100 + price_bump) / 100 ==> r,
            (transaction_a.transaction.max_priority_fee_per_gas matches Some(pa)
                && transaction_b.transaction.max_priority_fee_per_gas matches Some(pb)
                && pa != 0 && pb != 0 && pa <= pb * (100 + price_bump) / 100) ==> r,
    {
        let factor = 100 + price_bump;
        let a_prio = transaction_a.transaction.max_priority_fee_per_gas.unwrap_or(0);
        let b_prio = transaction_b.transaction.max_priority_fee_per_gas.unwrap_or(0);
        let fee_under = match bumped(transaction_b.transaction.max_fee_per_gas, factor) {
            Some(v) => transaction_a.transaction.max_fee_per_gas <= v,
            None => true,
        };
        if fee_under {
            return true;
        }
        let prio_under = match bumped(b_prio, factor) {
            Some(v) => a_prio <= v,
            None => true,
        };
        prio_under && a_prio != 0 && b_prio != 0
    }

    /// Checks the pool's rules for a new transaction: a sender that is not
    /// local may not exceed its slots, and the gas limit may not exceed the
    /// block's.
    pub fn ensure_valid(&self, transaction: ValidPoolTransaction) -> (r: Result<ValidPoolTransaction, InsertErr>)
        requires
            self.wf(),
        ensures
            match r {
                Ok(t) => t == transaction && !(transaction.origin != TransactionOrigin::Local
                    && self.count_of(transaction.transaction_id.sender) >= self.max_account_slots)
                    && transaction.transaction.gas_limit <= self.block_gas_limit,
                Err(e) => Some(e) == insert_error(*self, transaction) && (e is ExceededSenderTransactionsCapacity || e is TxGasLimitMoreThanAvailableBlockGas),
            },
    {
        if !transaction.origin.is_local() {
            let current_txs = self.tx_count(transaction.transaction_id.sender);
            if current_txs >= self.max_account_slots {
                return Err(InsertErr::ExceededSenderTransactionsCapacity { transaction });
            }
        }
        if transaction.gas_limit() > self.block_gas_limit {
            return Err(
                InsertErr::TxGasLimitMoreThanAvailableBlockGas {
                    block_gas_limit: self.block_gas_limit,
                    tx_gas_limit: transaction.gas_limit(),
                    transaction,
                },
            );
        }
        Ok(transaction)
    }

    /// Inserts a new transaction into the pool.
    ///
    /// A transaction with the same id is replaced unless the new one is
    /// underpriced. The sender's transactions with consecutive nonces from the
    /// chain's nonce are re-checked: their nonce gaps close, their cumulative
    /// costs and funding are recomputed, and the moves of those other than the
    /// new one are returned.
    #[verifier::rlimit(60)]
    #[verifier::spinoff_prover]
    pub fn insert_tx(&mut self, transaction: ValidPoolTransaction, on_chain_balance: U256, on_chain_nonce: u64) -> (r: InsertResult)
        requires
            old(self).wf(),
            on_chain_nonce <= transaction.transaction.nonce,
            transaction.transaction_id.nonce == transaction.transaction.nonce,
        ensures
            final(self).wf(),
            final(self).minimal_protocol_basefee == old(self).minimal_protocol_basefee,
            final(self).block_gas_limit == old(self).block_gas_limit,
            final(self).max_account_slots == old(self).max_account_slots,
            final(self).pending_basefee == old(self).pending_basefee,
            final(self).last_seen_block_number == old(self).last_seen_block_number,
            final(self).last_seen_block_hash == old(self).last_seen_block_hash,
            match r {
                Err(e) => insert_error(*old(self), transaction) == Some(e) && final(self)@ == old(self)@
                    && final(self).tx_counter@ == old(self).tx_counter@,
                Ok(ok) => {
                    let (m, ups) = insert_outcome(*old(self), transaction, on_chain_balance, on_chain_nonce);
                    &&& insert_error(*old(self), transaction) is None
                    &&& final(self)@ == m
                    &&& ok.transaction == transaction
                    &&& ok.updates@ == ups
                    &&& ok.state == m[transaction.transaction_id].state
                    &&& ok.move_to == m[transaction.transaction_id].subpool
                    &&& ok.replaced_tx == (if old(self)@.contains_key(transaction.transaction_id) {
                        Some((old(self)@[transaction.transaction_id].transaction, old(self)@[transaction.transaction_id].subpool))
                    } else {
                        None
                    })
                },
            },
    {
        let transaction = match self.ensure_valid(transaction) {
            Ok(t) => t,
            Err(e) => return Err(e),
        };
        let tx_id = transaction.id();
        let sender = tx_id.sender;
        let mut state = TxState::empty();
        let ancestor = TransactionId::ancestor(transaction.transaction.nonce, on_chain_nonce, sender);
        if ancestor.is_none() {
            state.no_nonce_gaps = true;
            state.no_parked_ancestors = true;
        }
        let fee_cap = transaction.max_fee_per_gas();
        if fee_cap < self.minimal_protocol_basefee as u128 {
            return Err(InsertErr::FeeCapBelowMinimumProtocolFeeCap { transaction, fee_cap });
        }
        if fee_cap >= self.pending_basefee as u128 {
            state.enough_fee_cap_block = true;
        }
        if transaction.gas_limit() < self.block_gas_limit {
            state.not_too_much_gas = true;
        }
        let pool_tx = PoolInternalTransaction {
            transaction,
            subpool: state.subpool(),
            state,
            cumulative_cost: U256::zero(),
        };
        assert(pool_tx == initial_entry(*old(self), transaction, on_chain_nonce));
        let mut replaced_tx: Option<(ValidPoolTransaction, SubPool)> = None;
        let found = find(&self.txs, tx_id);
        match found {
            Some(i) => {
                let existing = self.txs[i];
                if Self::is_underpriced(&transaction, &existing.transaction, PoolConfig::default_config().price_bump) {
                    return Err(InsertErr::Underpriced { transaction, existing: existing.transaction.hash() });
                }
                replaced_tx = Some((existing.transaction, existing.subpool));
            },
            None => {},
        }
        let ghost s_old = self.txs@;
        let pos = Self::place(&mut self.txs, found, pool_tx);
        let ghost s0 = self.txs@;
        let ghost m0 = placed(*old(self), transaction, on_chain_nonce);
        assert(id_map(s0) == m0);
        let (start, parked0) = Self::chain_start(&self.txs, pos, transaction, on_chain_nonce);
        proof {
            let k0 = TransactionId { sender, nonce: on_chain_nonce };
            let spec_parked = initial_parked(m0, transaction, on_chain_nonce);
            if parked0 != spec_parked {
                lemma_walk_absent(m0, sender, on_chain_nonce as int, U256 { hi: 0, lo: 0 }, parked0, on_chain_balance, tx_id);
                lemma_walk_absent(m0, sender, on_chain_nonce as int, U256 { hi: 0, lo: 0 }, spec_parked, on_chain_balance, tx_id);
            }
        }
        let updates = Self::walk_chain(&mut self.txs, start, sender, on_chain_nonce, parked0, on_chain_balance, tx_id);
        proof {
            lemma_index_of_id(self.txs@, pos as int);
            lemma_index_of_id(s0, pos as int);
            lemma_count_le_len(senders_of(s0), sender);
            assert(senders_of(self.txs@) =~= senders_of(s0));
            assert(senders_of(s0).len() == s0.len());
        }
        let final_entry = self.txs[pos];
        let len_now = self.txs.len();
        proof {
            assert(replaced_tx is None <==> found is None);
            assert forall|k: SenderId| #[trigger] sender_count(self.txs@, k) == sender_count(s0, k) by {
                assert(senders_of(self.txs@) =~= senders_of(s0));
            }
            assert(counter_ok(self.tx_counter@, s_old));
            if found is None && self.tx_counter@.contains_key(sender) {
                assert(self.tx_counter@[sender] == sender_count(s_old, sender));
                assert(sender_count(s0, sender) == sender_count(s_old, sender) + 1);
            }
        }
        let ghost counter_before = self.tx_counter@;
        if replaced_tx.is_none() {
            self.tx_inc(sender);
        }
        proof {
            lemma_counter_insert(counter_before, self.tx_counter@, s_old, self.txs@, sender, replaced_tx is None);
        }
        Ok(InsertOk {
            transaction,
            move_to: final_entry.subpool,
            state: final_entry.state,
            replaced_tx,
            updates,
        })
    }

    /// Places a new transaction: over the one with its id at `found`, or at
    /// its place in id order.
    fn place(txs: &mut Vec<PoolInternalTransaction>, found: Option<usize>, pool_tx: PoolInternalTransaction) -> (pos: usize)
        requires
            sorted(old(txs)@),
            forall|j: int| 0 <= j < old(txs)@.len() ==> #[trigger] old(txs)@[j].subpool == spec_subpool(old(txs)@[j].state),
            pool_tx.subpool == spec_subpool(pool_tx.state),
            match found {
                Some(i) => i < old(txs)@.len() && old(txs)@[i as int].key() == pool_tx.key(),
                None => !has_id(old(txs)@, pool_tx.key()),
            },
        ensures
            sorted(final(txs)@),
            forall|j: int| 0 <= j < final(txs)@.len() ==> #[trigger] final(txs)@[j].subpool == spec_subpool(final(txs)@[j].state),
            id_map(final(txs)@) == id_map(old(txs)@).insert(pool_tx.key(), pool_tx),
            pos < final(txs)@.len(),
            final(txs)@[pos as int] == pool_tx,
            forall|k: SenderId| #[trigger] sender_count(final(txs)@, k) == sender_count(old(txs)@, k) + (if found is None && k == pool_tx.key().sender { 1int } else { 0int }),
    {
        let ghost s_old = txs@;
        match found {
            Some(i) => {
                proof {
                    lemma_id_map_update(s_old, i as int, pool_tx);
                    lemma_count_update(s_old, i as int, pool_tx);
                }
                txs.set(i, pool_tx);
                i
            },
            None => {
                let tx_id = pool_tx.transaction.transaction_id;
                let p = lower_bound(txs, tx_id);
                proof {
                    assert forall|j: int| p <= j < s_old.len() implies id_lt(tx_id, #[trigger] s_old[j].key()) by {
                        if s_old[j].key() == tx_id {
                            assert(has_id(s_old, tx_id));
                        }
                    }
                    lemma_id_map_insert(s_old, p as int, pool_tx);
                    lemma_count_insert(s_old, p as int, pool_tx);
                }
                txs.insert(p, pool_tx);
                proof {
                    let t = txs@;
                    assert forall|j: int| 0 <= j < t.len() implies #[trigger] t[j].subpool == spec_subpool(t[j].state) by {
                        if j < p {
                            assert(t[j] == s_old[j]);
                        } else if j > p {
                            assert(t[j] == s_old[j - 1]);
                        }
                    }
                }
                p
            },
        }
    }

    /// Finds where the sender's chain from the chain's nonce starts, and
    /// whether it starts with a parked ancestor.
    fn chain_start(txs: &Vec<PoolInternalTransaction>, pos: usize, transaction: ValidPoolTransaction, on_chain_nonce: u64) -> (r: (usize, bool))
        requires
            sorted(txs@),
            pos < txs@.len(),
            txs@[pos as int].key() == transaction.transaction_id,
            on_chain_nonce <= transaction.transaction.nonce,
            transaction.transaction_id.nonce == transaction.transaction.nonce,
        ensures
            ({
                let k0 = TransactionId { sender: transaction.transaction_id.sender, nonce: on_chain_nonce };
                &&& r.0 <= txs@.len()
                &&& forall|j: int| 0 <= j < r.0 ==> id_lt(#[trigger] txs@[j].key(), k0)
                &&& r.0 < txs@.len() ==> !id_lt(txs@[r.0 as int].key(), k0)
                &&& (r.1 == initial_parked(id_map(txs@), transaction, on_chain_nonce) || !id_map(txs@).contains_key(k0))
            }),
    {
        let tx_id = transaction.transaction_id;
        let k0 = TransactionId::new(tx_id.sender, on_chain_nonce);
        let start = lower_bound(txs, k0);
        proof {
            if pos < start {
                assert(id_lt(txs@[pos as int].key(), k0));
            }
        }
        if transaction.transaction.nonce == on_chain_nonce {
            return (start, false);
        }
        let e = txs[start];
        proof {
            if start < pos {
                assert(id_lt(txs@[start as int].key(), txs@[pos as int].key()));
            }
            let m = id_map(txs@);
            if m.contains_key(k0) {
                let j = index_of_id(txs@, k0);
                if j > start {
                    assert(id_lt(txs@[start as int].key(), txs@[j].key()));
                }
                assert(txs@[start as int].key() == k0);
                lemma_index_of_id(txs@, start as int);
            }
        }
        let parked = if e.transaction.transaction_id.nonce < tx_id.nonce {
            !e.state.is_pending()
        } else {
            true
        };
        (start, parked)
    }

    /// Re-checks the transactions of `sender` with consecutive nonces from
    /// `on_chain_nonce`, which start at position `start`.
    fn walk_chain(txs: &mut Vec<PoolInternalTransaction>, start: usize, sender: SenderId, on_chain_nonce: u64, parked0: bool, on_chain_balance: U256, tx_id: TransactionId) -> (updates: Vec<PoolUpdate>)
        requires
            sorted(old(txs)@),
            forall|j: int| 0 <= j < old(txs)@.len() ==> #[trigger] old(txs)@[j].subpool == spec_subpool(old(txs)@[j].state),
            start <= old(txs)@.len(),
            forall|j: int| 0 <= j < start ==> id_lt(#[trigger] old(txs)@[j].key(), TransactionId { sender, nonce: on_chain_nonce }),
            start < old(txs)@.len() ==> !id_lt(old(txs)@[start as int].key(), TransactionId { sender, nonce: on_chain_nonce }),
        ensures
            (id_map(final(txs)@), updates@) == insert_walk(id_map(old(txs)@), sender, on_chain_nonce as int, U256 { hi: 0, lo: 0 }, parked0, on_chain_balance, tx_id),
            final(txs)@.len() == old(txs)@.len(),
            sorted(final(txs)@),
            forall|j: int| 0 <= j < old(txs)@.len() ==> (#[trigger] final(txs)@[j]).key() == old(txs)@[j].key(),
            forall|j: int| 0 <= j < old(txs)@.len() ==> (#[trigger] final(txs)@[j]).transaction == old(txs)@[j].transaction,
            forall|j: int| 0 <= j < old(txs)@.len() ==> #[trigger] final(txs)@[j].subpool == spec_subpool(final(txs)@[j].state),
    {
        let ghost s0 = txs@;
        let ghost total = insert_walk(id_map(s0), sender, on_chain_nonce as int, U256 { hi: 0, lo: 0 }, parked0, on_chain_balance, tx_id);
        let mut updates: Vec<PoolUpdate> = Vec::new();
        let mut i = start;
        let mut next_nonce: u64 = on_chain_nonce;
        let mut exhausted = false;
        let ghost mut nn: int = on_chain_nonce as int;
        let mut cum = U256::zero();
        let mut parked = parked0;
        while i < txs.len()
            invariant
                txs@.len() == s0.len(),
                sorted(txs@),
                forall|j: int| 0 <= j < s0.len() ==> (#[trigger] txs@[j]).key() == s0[j].key(),
                forall|j: int| 0 <= j < s0.len() ==> #[trigger] txs@[j].subpool == spec_subpool(txs@[j].state),
                forall|j: int| 0 <= j < s0.len() ==> (#[trigger] txs@[j]).transaction == s0[j].transaction,
                start <= i <= txs.len(),
                exhausted ==> nn == u64::MAX + 1,
                !exhausted ==> nn == next_nonce,
                forall|j: int| 0 <= j < i ==> id_lt(#[trigger] txs@[j].key(), TransactionId { sender, nonce: nn as u64 }) || exhausted,
                i < txs.len() && !exhausted ==> !id_lt(txs@[i as int].key(), TransactionId { sender, nonce: nn as u64 }),
                ({
                    let w = insert_walk(id_map(txs@), sender, nn, cum, parked, on_chain_balance, tx_id);
                    w.0 == total.0 && updates@ + w.1 == total.1
                }),
            ensures
                exhausted || i >= txs.len() || txs@[i as int].key() != (TransactionId { sender, nonce: nn as u64 }),
            decreases txs.len() - i,
        {
            let t = txs[i];
            let key = t.transaction.transaction_id;
            if exhausted || key.sender != sender || key.nonce != next_nonce {
                break;
            }
            let ghost s = txs@;
            proof {
                lemma_index_of_id(s, i as int);
            }
            let mut t2 = t;
            t2.state.no_nonce_gaps = true;
            t2.cumulative_cost = cum;
            let next_cum = t2.next_cumulative_cost();
            t2.state.enough_balance = !next_cum.gt(&on_chain_balance);
            t2.state.no_parked_ancestors = !parked;
            t2.subpool = t2.state.subpool();
            assert(t2 == walk_step(t, cum, parked, on_chain_balance));
            parked = !t2.state.is_pending();
            let ghost prev_updates = updates@;
            if !(key == tx_id) && t.subpool != t2.subpool {
                updates.push(PoolUpdate { id: key, hash: t.transaction.hash(), current: t.subpool, destination: Destination::Pool(t2.subpool) });
            }
            proof {
                lemma_id_map_update(s, i as int, t2);
                assert(updates@ =~= prev_updates + walk_update(key, t, t2, tx_id));
            }
            txs.set(i, t2);
            cum = next_cum;
            if key.nonce == u64::MAX {
                exhausted = true;
                proof { nn = u64::MAX + 1; }
            } else {
                next_nonce = key.nonce + 1;
                proof { nn = next_nonce as int; }
            }
            proof {
                assert forall|j: int| 0 <= j < i + 1 implies id_lt(#[trigger] txs@[j].key(), TransactionId { sender, nonce: nn as u64 }) || exhausted by {
                    if j < i {
                        assert(id_lt(txs@[j].key(), txs@[i as int].key()));
                    }
                }
                if i + 1 < txs.len() && !exhausted {
                    assert(id_lt(txs@[i as int].key(), txs@[i + 1].key()));
                }
                let rest = insert_walk(id_map(txs@), sender, nn, cum, parked, on_chain_balance, tx_id).1;
                assert(updates@ + rest =~= prev_updates + (walk_update(key, t, t2, tx_id) + rest));
            }
            i += 1;
        }
        proof {
            let m = id_map(txs@);
            let k = TransactionId { sender, nonce: nn as u64 };
            if !exhausted && m.contains_key(k) {
                let j = index_of_id(txs@, k);
                if j < i {
                    assert(id_lt(txs@[j].key(), k));
                } else if j > i {
                    assert(id_lt(txs@[i as int].key(), txs@[j].key()));
                }
            }
            lemma_walk_absent(m, sender, nn, cum, parked, on_chain_balance, tx_id);
            assert(updates@ =~= total.1);
        }
        updates
    }

    /// Rechecks all transactions in the pool against changed accounts and the
    /// pending base fee.
    ///
    /// For each changed sender, transactions below its new nonce are
    /// discarded, the transaction at its new nonce starts a gapless chain, and
    /// the chain's funding is rechecked against its new balance. For every
    /// sender, the fee condition and parked ancestors of its chain are
    /// rechecked. Returns the moves to apply to the sub-pools.
    #[verifier::rlimit(60)]
    #[verifier::spinoff_prover]
    pub fn update(&mut self, changed_accounts: &HashMap<SenderId, SenderInfo>) -> (updates: Vec<PoolUpdate>)
        requires
            old(self).wf(),
        ensures
            final(self).wf(),
            (final(self).txs@, updates@) == update_walk(old(self).txs@, 0, changed_accounts@, old(self).pending_basefee, WalkMode::Head),
            final(self).txs@.len() == old(self).txs@.len(),
            forall|j: int| 0 <= j < old(self).txs@.len() ==> (#[trigger] final(self).txs@[j]).transaction == old(self).txs@[j].transaction,
            final(self).tx_counter@ == old(self).tx_counter@,
            final(self).minimal_protocol_basefee == old(self).minimal_protocol_basefee,
            final(self).block_gas_limit == old(self).block_gas_limit,
            final(self).max_account_slots == old(self).max_account_slots,
            final(self).pending_basefee == old(self).pending_basefee,
            final(self).last_seen_block_number == old(self).last_seen_block_number,
            final(self).last_seen_block_hash == old(self).last_seen_block_hash,
    {
        let basefee = self.pending_basefee;
        let ghost s0 = self.txs@;
        let ghost total = update_walk(s0, 0, changed_accounts@, basefee, WalkMode::Head);
        let updates = Self::update_txs(&mut self.txs, changed_accounts, basefee);
        proof {
            assert(senders_of(self.txs@) =~= senders_of(s0));
            assert forall|k: SenderId| #[trigger] sender_count(self.txs@, k) == sender_count(s0, k) by {
            }
        }
        updates
    }

    /// The walk of [`Self::update`] over the transactions alone.
    fn update_txs(txs: &mut Vec<PoolInternalTransaction>, changed_accounts: &HashMap<SenderId, SenderInfo>, basefee: u64) -> (updates: Vec<PoolUpdate>)
        requires
            sorted(old(txs)@),
            forall|j: int| 0 <= j < old(txs)@.len() ==> #[trigger] old(txs)@[j].subpool == spec_subpool(old(txs)@[j].state),
        ensures
            (final(txs)@, updates@) == update_walk(old(txs)@, 0, changed_accounts@, basefee, WalkMode::Head),
            final(txs)@.len() == old(txs)@.len(),
            sorted(final(txs)@),
            forall|j: int| 0 <= j < old(txs)@.len() ==> (#[trigger] final(txs)@[j]).key() == old(txs)@[j].key(),
            forall|j: int| 0 <= j < old(txs)@.len() ==> (#[trigger] final(txs)@[j]).transaction == old(txs)@[j].transaction,
            forall|j: int| 0 <= j < old(txs)@.len() ==> #[trigger] final(txs)@[j].subpool == spec_subpool(final(txs)@[j].state),
    {
        broadcast use vstd::std_specs::hash::group_hash_axioms;
        let ghost s0 = txs@;
        let ghost total = update_walk(s0, 0, changed_accounts@, basefee, WalkMode::Head);
        let mut updates: Vec<PoolUpdate> = Vec::new();
        let mut mode = WalkMode::Head;
        let mut i: usize = 0;
        while i < txs.len()
            invariant
                txs@.len() == s0.len(),
                sorted(txs@),
                i <= txs.len(),
                forall|j: int| 0 <= j < s0.len() ==> (#[trigger] txs@[j]).key() == s0[j].key(),
                forall|j: int| 0 <= j < s0.len() ==> (#[trigger] txs@[j]).transaction == s0[j].transaction,
                forall|j: int| 0 <= j < s0.len() ==> #[trigger] txs@[j].subpool == spec_subpool(txs@[j].state),
                forall|j: int| i <= j < s0.len() ==> #[trigger] txs@[j] == s0[j],
                ({
                    let w = update_walk(txs@, i as int, changed_accounts@, basefee, mode);
                    w.0 == total.0 && updates@ + w.1 == total.1
                }),
            decreases txs.len() - i,
        {
            let ghost s = txs@;
            let ghost prev_updates = updates@;
            let t = txs[i];
            let info = match changed_accounts.get(&t.transaction.transaction_id.sender) {
                Some(info) => Some(*info),
                None => None,
            };
            let (t2, u, next) = Self::walk_step_exec(t, info, basefee, mode);
            proof {
                assert(walk_one(t, changed_accounts@, basefee, mode) == (t2, if u is Some { seq![u.unwrap()] } else { Seq::<PoolUpdate>::empty() }, next));
                lemma_update_keeps_order(s, i as int, t2);
            }
            match u {
                Some(u) => updates.push(u),
                None => {},
            }
            txs.set(i, t2);
            mode = next;
            proof {
                let rest = update_walk(txs@, i + 1, changed_accounts@, basefee, mode).1;
                let us = if u is Some { seq![u.unwrap()] } else { Seq::<PoolUpdate>::empty() };
                assert(updates@ =~= prev_updates + us);
                assert(updates@ + rest =~= prev_updates + (us + rest));
            }
            i += 1;
        }
        updates
    }

    /// One step of the account re-check, see [`walk_one`].
    fn walk_step_exec(t: PoolInternalTransaction, info: Option<SenderInfo>, basefee: u64, mode: WalkMode) -> (r: (PoolInternalTransaction, Option<PoolUpdate>, WalkMode))
        requires
            t.subpool == spec_subpool(t.state),
        ensures
            forall|changed: Map<SenderId, SenderInfo>| info == (if changed.contains_key(t.key().sender) { Some(changed[t.key().sender]) } else { None::<SenderInfo> }) ==> #[trigger] walk_one(t, changed, basefee, mode) == (r.0, if r.1 is Some { seq![r.1.unwrap()] } else { Seq::<PoolUpdate>::empty() }, r.2),
            r.0.key() == t.key(),
            r.0.transaction == t.transaction,
            r.0.subpool == spec_subpool(r.0.state),
    {
        let id = t.transaction.transaction_id;
        let mode = match mode {
            WalkMode::Head => WalkMode::Head,
            WalkMode::Chain { sender, cum, parked, balance } => if sender == id.sender { mode } else { WalkMode::Head },
            WalkMode::Skip { sender } => if sender == id.sender { mode } else { WalkMode::Head },
        };
        match mode {
            WalkMode::Skip { sender } => (t, None, WalkMode::Skip { sender }),
            WalkMode::Chain { sender, cum, parked, balance } => {
                if t.state.has_nonce_gap() {
                    (t, None, WalkMode::Skip { sender })
                } else {
                    let mut t1 = t;
                    t1.cumulative_cost = cum;
                    let next_cum = t1.next_cumulative_cost();
                    match balance {
                        Some(b) => {
                            t1.state.enough_balance = !next_cum.gt(&b);
                        },
                        None => {},
                    }
                    t1.state.no_parked_ancestors = !parked;
                    let next_parked = !t1.state.is_pending();
                    let mut t2 = t1;
                    t2.state.enough_fee_cap_block = t1.transaction.transaction.max_fee_per_gas >= basefee as u128;
                    t2.subpool = t2.state.subpool();
                    let u = if t.subpool != t2.subpool {
                        Some(PoolUpdate { id, hash: t.transaction.transaction.hash, current: t.subpool, destination: Destination::Pool(t2.subpool) })
                    } else {
                        None
                    };
                    (t2, u, WalkMode::Chain { sender, cum: next_cum, parked: next_parked, balance })
                }
            },
            WalkMode::Head => {
                let mut t1 = t;
                let mut balance: Option<U256> = None;
                match info {
                    Some(info) => {
                        if id.nonce < info.state_nonce {
                            return (t, Some(PoolUpdate { id, hash: t.transaction.transaction.hash, current: t.subpool, destination: Destination::Discard }), WalkMode::Head);
                        }
                        if id.nonce == info.state_nonce {
                            t1.state.no_nonce_gaps = true;
                            t1.state.no_parked_ancestors = true;
                            t1.cumulative_cost = U256::zero();
                            t1.state.enough_balance = !t.transaction.transaction.cost.gt(&info.balance);
                        }
                        balance = Some(info.balance);
                    },
                    None => {},
                }
                if t1.state.has_nonce_gap() {
                    (t1, None, WalkMode::Skip { sender: id.sender })
                } else {
                    let mut t2 = t1;
                    t2.state.no_parked_ancestors = true;
                    t2.state.enough_fee_cap_block = t1.transaction.transaction.max_fee_per_gas >= basefee as u128;
                    t2.subpool = t2.state.subpool();
                    let u = if t.subpool != t2.subpool {
                        Some(PoolUpdate { id, hash: t.transaction.transaction.hash, current: t.subpool, destination: Destination::Pool(t2.subpool) })
                    } else {
                        None
                    };
                    let next_cum = t2.next_cumulative_cost();
                    (t2, u, WalkMode::Chain { sender: id.sender, cum: next_cum, parked: !t2.state.is_pending(), balance })
                }
            },
        }
    }

    /// Removes a transaction from the set using its hash.
    ///
    /// Returns the removed transaction and the sub-pool it was in.
    pub fn remove_transaction_by_hash(&mut self, tx_hash: &TxHash) -> (r: Option<(ValidPoolTransaction, SubPool)>)
        requires
            old(self).wf(),
        ensures
            final(self).wf(),
            match r {
                Some((t, p)) => old(self)@.contains_key(t.transaction_id) && t == old(self)@[t.transaction_id].transaction
                    && t.transaction.hash == *tx_hash && p == old(self)@[t.transaction_id].subpool
                    && final(self)@ == old(self)@.remove(t.transaction_id),
                None => !map_has_hash(old(self)@, *tx_hash) && final(self)@ == old(self)@,
            },
            final(self).minimal_protocol_basefee == old(self).minimal_protocol_basefee,
            final(self).block_gas_limit == old(self).block_gas_limit,
            final(self).max_account_slots == old(self).max_account_slots,
            final(self).pending_basefee == old(self).pending_basefee,
            final(self).last_seen_block_number == old(self).last_seen_block_number,
            final(self).last_seen_block_hash == old(self).last_seen_block_hash,
    {
        let mut i: usize = 0;
        while i < self.txs.len()
            invariant
                i <= self.txs.len(),
                self.wf(),
                *self == *old(self),
                forall|j: int| 0 <= j < i ==> (#[trigger] self.txs@[j]).transaction.transaction.hash
                    != *tx_hash,
            decreases self.txs.len() - i,
        {
            if self.txs[i].transaction.transaction.hash == *tx_hash {
                let id = self.txs[i].transaction.transaction_id;
                proof { lemma_index_of_id(self.txs@, i as int); }
                return self.remove_transaction(&id);
            }
            i += 1;
        }
        proof {
            if map_has_hash(self@, *tx_hash) {
                let id = choose|id: TransactionId| #[trigger] self@.contains_key(id)
                    && self@[id].transaction.transaction.hash == *tx_hash;
                let j = index_of_id(self.txs@, id);
                assert(self.txs@[j].transaction.transaction.hash == *tx_hash);
            }
        }
        None
    }

    /// The next transaction of the same sender after `id`, if any.
    pub fn first_descendant(&self, id: &TransactionId) -> (r: Option<TransactionId>)
        requires
            self.wf(),
        ensures
            match r {
                Some(d) => self@.contains_key(d) && d.sender == id.sender && d.nonce > id.nonce
                    && forall|k: TransactionId| #[trigger] self@.contains_key(k) && k.sender == id.sender && k.nonce > id.nonce ==> k.nonce >= d.nonce,
                None => forall|k: TransactionId| #[trigger] self@.contains_key(k) && k.sender == id.sender ==> k.nonce <= id.nonce,
            },
    {
        let lb = lower_bound(&self.txs, *id);
        let mut i = lb;
        if i < self.txs.len() && self.txs[i].transaction.transaction_id == *id {
            i += 1;
        }
        proof {
            assert forall|j: int| i <= j < self.txs@.len() implies id_lt(*id, #[trigger] self.txs@[j].key()) by {
                if j > lb {
                    assert(id_lt(self.txs@[lb as int].key(), self.txs@[j].key()));
                }
            }
        }
        if i < self.txs.len() && self.txs[i].transaction.transaction_id.sender == id.sender {
            let d = self.txs[i].transaction.transaction_id;
            proof {
                lemma_index_of_id(self.txs@, i as int);
                assert forall|k: TransactionId| #[trigger] self@.contains_key(k) && k.sender == id.sender && k.nonce > id.nonce implies k.nonce >= d.nonce by {
                    let j = index_of_id(self.txs@, k);
                    if j < i {
                        assert(!id_lt(*id, k));
                    } else if j > i {
                        assert(id_lt(self.txs@[i as int].key(), self.txs@[j].key()));
                    }
                }
            }
            return Some(d);
        }
        proof {
            assert forall|k: TransactionId| #[trigger] self@.contains_key(k) && k.sender == id.sender implies k.nonce <= id.nonce by {
                let j = index_of_id(self.txs@, k);
                if j >= i {
                    if j > i {
                        assert(id_lt(self.txs@[i as int].key(), self.txs@[j].key()));
                    }
                }
            }
        }
        None
    }

    /// Restores the counter after the transaction at `i` of `s` was removed.
    fn remove_at_fixup(&mut self, sender: SenderId, Ghost(s): Ghost<Seq<PoolInternalTransaction>>, Ghost(i): Ghost<int>)
        requires
            sorted(s),
            0 <= i < s.len(),
            sender == s[i].key().sender,
            old(self).txs@ == s.remove(i),
            counter_ok(old(self).tx_counter@, s),
            forall|j: int| 0 <= j < s.len() ==> #[trigger] s[j].subpool == spec_subpool(s[j].state),
        ensures
            final(self).wf(),
            final(self).txs@ == old(self).txs@,
            final(self).minimal_protocol_basefee == old(self).minimal_protocol_basefee,
            final(self).block_gas_limit == old(self).block_gas_limit,
            final(self).max_account_slots == old(self).max_account_slots,
            final(self).pending_basefee == old(self).pending_basefee,
            final(self).last_seen_block_number == old(self).last_seen_block_number,
            final(self).last_seen_block_hash == old(self).last_seen_block_hash,
    {
        proof {
            lemma_remove_sorted(s, i);
            lemma_count_remove(s, i);
            assert(senders_of(s)[i] == sender);
            senders_of(s).to_multiset_ensures();
            assert(senders_of(s).contains(sender));
        }
        self.tx_decr(sender);
        proof {
            let t = self.txs@;
            assert forall|j: int| 0 <= j < t.len() implies #[trigger] t[j].subpool == spec_subpool(t[j].state) by {
                if j < i {
                    assert(t[j] == s[j]);
                } else {
                    assert(t[j] == s[j + 1]);
                }
            }
        }
    }
}


/// The record with the fee condition set to `enough` and the sub-pool the
/// new state selects.
pub open spec fn fee_flagged(t: PoolInternalTransaction, enough: bool) -> PoolInternalTransaction {
    let st = TxState { enough_fee_cap_block: enough, ..t.state };
    PoolInternalTransaction { state: st, subpool: spec_subpool(st), ..t }
}

/// The transactions of `sender`, in nonce order.
pub open spec fn txs_of_sender(s: Seq<PoolInternalTransaction>, sender: SenderId) -> Seq<ValidPoolTransaction> {
    s.filter(|t: PoolInternalTransaction| t.key().sender == sender).map_values(|t: PoolInternalTransaction| t.transaction)
}

impl AllTransactions {
    /// Returns the transaction with the given hash, if any.
    pub fn get_by_hash(&self, tx_hash: &TxHash) -> (r: Option<ValidPoolTransaction>)
        requires
            self.wf(),
        ensures
            match r {
                Some(t) => self@.contains_key(t.transaction_id) && self@[t.transaction_id].transaction == t && t.transaction.hash == *tx_hash,
                None => !map_has_hash(self@, *tx_hash),
            },
    {
        let mut i: usize = 0;
        while i < self.txs.len()
            invariant
                i <= self.txs.len(),
                self.wf(),
                forall|j: int| 0 <= j < i ==> (#[trigger] self.txs@[j]).transaction.transaction.hash
                    != *tx_hash,
            decreases self.txs.len() - i,
        {
            if self.txs[i].transaction.transaction.hash == *tx_hash {
                proof { lemma_index_of_id(self.txs@, i as int); }
                return Some(self.txs[i].transaction);
            }
            i += 1;
        }
        proof {
            if map_has_hash(self@, *tx_hash) {
                let id = choose|id: TransactionId| #[trigger] self@.contains_key(id)
                    && self@[id].transaction.transaction.hash == *tx_hash;
                let j = index_of_id(self.txs@, id);
                assert(self.txs@[j].transaction.transaction.hash == *tx_hash);
            }
        }
        None
    }

    /// All transactions of `sender`, in nonce order.
    pub fn txs_of(&self, sender: SenderId) -> (r: Vec<ValidPoolTransaction>)
        ensures
            r@ == txs_of_sender(self.txs@, sender),
    {
        let mut out: Vec<ValidPoolTransaction> = Vec::new();
        let mut i: usize = 0;
        while i < self.txs.len()
            invariant
                i <= self.txs.len(),
                out@ == txs_of_sender(self.txs@.subrange(0, i as int), sender),
            decreases self.txs.len() - i,
        {
            let t = self.txs[i];
            let ghost pre = self.txs@.subrange(0, i as int);
            let ghost pred = |x: PoolInternalTransaction| x.key().sender == sender;
            let ghost f = |x: PoolInternalTransaction| x.transaction;
            proof {
                assert(self.txs@.subrange(0, i + 1) =~= pre.push(t));
                pre.lemma_filter_push(t, pred);
            }
            let ghost fp = pre.filter(pred);
            if t.transaction.transaction_id.sender == sender {
                out.push(t.transaction);
                assert(pre.push(t).filter(pred) == fp.push(t));
                assert(fp.push(t).map_values(f) =~= fp.map_values(f).push(f(t)));
            } else {
                assert(pre.push(t).filter(pred) == fp);
            }
            i += 1;
        }
        assert(self.txs@.subrange(0, i as int) =~= self.txs@);
        out
    }

    /// Sets the fee condition of a pooled transaction and moves its record
    /// to the sub-pool its state selects; returns that sub-pool.
    pub fn set_fee_flag(&mut self, id: &TransactionId, enough: bool) -> (r: SubPool)
        requires
            old(self).wf(),
            old(self)@.contains_key(*id),
        ensures
            final(self).wf(),
            final(self)@ == old(self)@.insert(*id, fee_flagged(old(self)@[*id], enough)),
            r == fee_flagged(old(self)@[*id], enough).subpool,
            final(self).tx_counter@ == old(self).tx_counter@,
            final(self).minimal_protocol_basefee == old(self).minimal_protocol_basefee,
            final(self).block_gas_limit == old(self).block_gas_limit,
            final(self).max_account_slots == old(self).max_account_slots,
            final(self).pending_basefee == old(self).pending_basefee,
            final(self).last_seen_block_number == old(self).last_seen_block_number,
            final(self).last_seen_block_hash == old(self).last_seen_block_hash,
    {
        let i = match find(&self.txs, *id) {
            Some(i) => i,
            None => {
                proof { assert(has_id(self.txs@, *id)); }
                return SubPool::Queued;
            },
        };
        let t = self.txs[i];
        let mut state = t.state;
        state.enough_fee_cap_block = enough;
        let subpool = state.subpool();
        let t2 = PoolInternalTransaction { state, subpool, ..t };
        let ghost s = self.txs@;
        proof {
            lemma_index_of_id(s, i as int);
            lemma_id_map_update(s, i as int, t2);
            lemma_count_update(s, i as int, t2);
        }
        self.txs.set(i, t2);
        proof {
            assert(senders_of(self.txs@) =~= senders_of(s));
        }
        subpool
    }
}


impl AllTransactions {
    /// Returns the record of the transaction with the given id, if any.
    pub fn get(&self, id: &TransactionId) -> (r: Option<PoolInternalTransaction>)
        requires
            self.wf(),
        ensures
            r == (if self@.contains_key(*id) { Some(self@[*id]) } else { None::<PoolInternalTransaction> }),
    {
        match find(&self.txs, *id) {
            Some(i) => {
                proof { lemma_index_of_id(self.txs@, i as int); }
                Some(self.txs[i])
            },
            None => None,
        }
    }
}

} // verus!
