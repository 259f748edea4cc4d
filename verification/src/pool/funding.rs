//! What the account re-check decides of a changed sender's funding.
use crate::pool::by_id::{sorted, Keyed};
use crate::pool::identifier::SenderId;
use crate::pool::txpool::{update_walk, walk_one, PoolInternalTransaction, SenderInfo, WalkMode};
use crate::pool::update::{Destination, PoolUpdate};
use crate::primitives::{pow2_128, pow2_256, spec_add, U256};
use vstd::prelude::*;

verus! {

/// The combined cost of the transactions at positions `a` up to, not
/// including, `b`.
pub open spec fn cost_sum(s: Seq<PoolInternalTransaction>, a: int, b: int) -> nat
    decreases b - a,
{
    if b <= a {
        0
    } else {
        cost_sum(s, a, b - 1) + s[b - 1].transaction.transaction.cost.value()
    }
}

/// The mode the re-check is in when it reaches position `k`, having started
/// at position `i` in mode `m`.
pub open spec fn mode_from(
    s: Seq<PoolInternalTransaction>,
    i: int,
    changed: Map<SenderId, SenderInfo>,
    basefee: u64,
    m: WalkMode,
    k: int,
) -> WalkMode
    decreases k - i,
{
    if k <= i {
        m
    } else {
        walk_one(s[k - 1], changed, basefee, mode_from(s, i, changed, basefee, m, k - 1)).2
    }
}

/// The mode follows or skips the transactions of `sender`.
pub open spec fn mode_of_sender(m: WalkMode, sender: SenderId) -> bool {
    match m {
        WalkMode::Head => false,
        WalkMode::Chain { sender: x, .. } => x == sender,
        WalkMode::Skip { sender: x } => x == sender,
    }
}

/// A value of two 128-bit halves is below `2^256`.
proof fn lemma_value_bound(x: U256)
    ensures
        x.value() < pow2_256(),
{
    let p = pow2_128() as int;
    let hi = x.hi as int;
    let lo = x.lo as int;
    assert(hi * p + lo < p * p) by (nonlinear_arith)
        requires
            0 <= hi < p,
            0 <= lo < p,
    ;
}

/// The wrapping sum holds the sum of the values modulo `2^256`.
proof fn lemma_spec_add_value(a: U256, b: U256)
    ensures
        spec_add(a, b).value() == (a.value() + b.value()) % pow2_256(),
        a.value() + b.value() < pow2_256() ==> spec_add(a, b).value() == a.value() + b.value(),
{
    if a.value() + b.value() < pow2_256() {
        vstd::arithmetic::div_mod::lemma_small_mod(a.value() + b.value(), pow2_256());
    }
    let p = pow2_128() as int;
    let v = ((a.value() + b.value()) % pow2_256()) as int;
    assert(0 <= v < p * p);
    let q = v / p;
    let r = v % p;
    assert(0 <= q < p && 0 <= r < p && q * p + r == v) by (nonlinear_arith)
        requires
            0 <= v < p * p,
            p > 0,
            q == v / p,
            r == v % p,
    ;
    let w = U256 { hi: q as u128, lo: r as u128 };
    assert(w.value() == v);
}

/// Extending the range by one position adds that transaction's cost.
proof fn lemma_cost_sum_mono(s: Seq<PoolInternalTransaction>, a: int, b: int, c: int)
    requires
        a <= b <= c,
    ensures
        cost_sum(s, a, b) <= cost_sum(s, a, c),
    decreases c - b,
{
    if b < c {
        lemma_cost_sum_mono(s, a, b, c - 1);
    }
}

/// The re-check leaves the records before its starting position as they
/// were, and keeps the length.
proof fn lemma_walk_prefix(s: Seq<PoolInternalTransaction>, i: int, changed: Map<SenderId, SenderInfo>, basefee: u64, m: WalkMode)
    requires
        0 <= i,
    ensures
        update_walk(s, i, changed, basefee, m).0.len() == s.len(),
        forall|j: int| 0 <= j < i && j < s.len() ==> #[trigger] update_walk(s, i, changed, basefee, m).0[j] == s[j],
    decreases s.len() - i,
{
    if i < s.len() {
        let (t2, u, next) = walk_one(s[i], changed, basefee, m);
        lemma_walk_prefix(s.update(i, t2), i + 1, changed, basefee, next);
    }
}

/// Starting one position later, from the mode the first step left, reaches
/// every later position in the same mode.
proof fn lemma_mode_from_shift(
    s: Seq<PoolInternalTransaction>,
    s1: Seq<PoolInternalTransaction>,
    i: int,
    changed: Map<SenderId, SenderInfo>,
    basefee: u64,
    m: WalkMode,
    k: int,
)
    requires
        i + 1 <= k,
        forall|j: int| i < j < k ==> #[trigger] s1[j] == s[j],
    ensures
        mode_from(s1, i + 1, changed, basefee, walk_one(s[i], changed, basefee, m).2, k) == mode_from(s, i, changed, basefee, m, k),
    decreases k - i,
{
    let next = walk_one(s[i], changed, basefee, m).2;
    if k > i + 1 {
        lemma_mode_from_shift(s, s1, i, changed, basefee, m, k - 1);
        assert(s1[k - 1] == s[k - 1]);
        assert(mode_from(s1, i + 1, changed, basefee, next, k) == walk_one(s1[k - 1], changed, basefee, mode_from(s1, i + 1, changed, basefee, next, k - 1)).2);
        assert(mode_from(s, i, changed, basefee, m, k) == walk_one(s[k - 1], changed, basefee, mode_from(s, i, changed, basefee, m, k - 1)).2);
    } else {
        assert(mode_from(s1, i + 1, changed, basefee, next, k) == next);
        assert(mode_from(s, i, changed, basefee, m, i) == m);
        assert(mode_from(s, i, changed, basefee, m, k) == walk_one(s[i], changed, basefee, mode_from(s, i, changed, basefee, m, i)).2);
    }
}

/// The record the re-check leaves at position `k` is the step taken there,
/// in the mode the walk reached it in.
proof fn lemma_walk_entry(s: Seq<PoolInternalTransaction>, i: int, changed: Map<SenderId, SenderInfo>, basefee: u64, m: WalkMode, k: int)
    requires
        0 <= i <= k < s.len(),
    ensures
        update_walk(s, i, changed, basefee, m).0[k] == walk_one(s[k], changed, basefee, mode_from(s, i, changed, basefee, m, k)).0,
    decreases k - i,
{
    let (t2, u, next) = walk_one(s[i], changed, basefee, m);
    let s1 = s.update(i, t2);
    if k == i {
        lemma_walk_prefix(s1, i + 1, changed, basefee, next);
    } else {
        lemma_walk_entry(s1, i + 1, changed, basefee, next, k);
        lemma_mode_from_shift(s, s1, i, changed, basefee, m, k);
        assert(s1[k] == s[k]);
    }
}

/// Up to a transaction of a changed sender at or below the account's nonce,
/// the walk neither follows nor skips that sender: its earlier transactions
/// are discarded.
proof fn lemma_mode_before_head(s: Seq<PoolInternalTransaction>, changed: Map<SenderId, SenderInfo>, basefee: u64, h: int, k: int)
    requires
        sorted(s),
        0 <= k <= h < s.len(),
        changed.contains_key(s[h].key().sender),
        s[h].key().nonce <= changed[s[h].key().sender].state_nonce,
    ensures
        !mode_of_sender(mode_from(s, 0, changed, basefee, WalkMode::Head, k), s[h].key().sender),
    decreases k,
{
    if k > 0 {
        lemma_mode_before_head(s, changed, basefee, h, k - 1);
        assert(s[k - 1].key() == s[k - 1].transaction.transaction_id);
        if k - 1 < h {
            assert(crate::pool::identifier::id_lt(s[k - 1].key(), s[h].key()));
        }
    }
}

/// The step at the transaction at its sender's new account nonce, reached
/// while the walk neither follows nor skips that sender: the transaction
/// carries no cost before it, is funded when the new balance covers its
/// cost, and the walk goes on following the sender with that cost.
proof fn lemma_head_step(t: PoolInternalTransaction, changed: Map<SenderId, SenderInfo>, basefee: u64, m: WalkMode)
    requires
        !mode_of_sender(m, t.key().sender),
        changed.contains_key(t.key().sender),
        t.key().nonce == changed[t.key().sender].state_nonce,
    ensures
        ({
            let (t2, u, next) = walk_one(t, changed, basefee, m);
            let cost = t.transaction.transaction.cost.value();
            &&& t2.cumulative_cost.value() == 0
            &&& t2.state.enough_balance == (cost <= changed[t.key().sender].balance.value())
            &&& t2.state.no_nonce_gaps && t2.state.no_parked_ancestors
            &&& t2.state.enough_fee_cap_block == (t.transaction.transaction.max_fee_per_gas >= basefee)
            &&& next matches WalkMode::Chain { sender, cum, balance, .. } && sender == t.key().sender
                && cum.value() == cost && balance == Some(changed[t.key().sender].balance)
        }),
{
    let cost = t.transaction.transaction.cost;
    let zero = U256 { hi: 0, lo: 0 };
    lemma_value_bound(cost);
    lemma_spec_add_value(zero, cost);
    assert(zero.value() == 0);
    assert(crate::pool::txpool::norm_mode(m, t.key().sender) == WalkMode::Head);
}

/// The step at a gapless transaction while the walk follows its sender
/// with a new balance: it carries the chain's cost so far, is funded when
/// the balance covers that cost with its own, and the walk goes on with
/// its cost added.
proof fn lemma_chain_step(t: PoolInternalTransaction, changed: Map<SenderId, SenderInfo>, basefee: u64, m: WalkMode, b: U256)
    requires
        t.state.no_nonce_gaps,
        m matches WalkMode::Chain { sender, balance, .. } && sender == t.key().sender && balance == Some(b),
        m->cum.value() + t.transaction.transaction.cost.value() < pow2_256(),
    ensures
        ({
            let (t2, u, next) = walk_one(t, changed, basefee, m);
            let total = m->cum.value() + t.transaction.transaction.cost.value();
            &&& t2.cumulative_cost.value() == m->cum.value()
            &&& t2.state.enough_balance == (total <= b.value())
            &&& t2.state.no_nonce_gaps
            &&& t2.state.enough_fee_cap_block == (t.transaction.transaction.max_fee_per_gas >= basefee)
            &&& next matches WalkMode::Chain { sender, cum, balance, .. } && sender == t.key().sender
                && cum.value() == total && balance == Some(b)
        }),
{
    lemma_spec_add_value(m->cum, t.transaction.transaction.cost);
    assert(crate::pool::txpool::norm_mode(m, t.key().sender) == m);
}

/// Along the changed sender's gapless chain from the account's nonce, the
/// walk follows the sender with the chain's cost so far and its new balance.
proof fn lemma_mode_on_chain(s: Seq<PoolInternalTransaction>, changed: Map<SenderId, SenderInfo>, basefee: u64, h: int, i: int, k: int)
    requires
        sorted(s),
        0 <= h < k <= i + 1,
        i < s.len(),
        changed.contains_key(s[h].key().sender),
        s[h].key().nonce == changed[s[h].key().sender].state_nonce,
        forall|j: int| h <= j <= i ==> (#[trigger] s[j].key()).sender == s[h].key().sender,
        forall|j: int| h < j <= i ==> (#[trigger] s[j].state).no_nonce_gaps,
        cost_sum(s, h, i + 1) < pow2_256(),
    ensures
        mode_from(s, 0, changed, basefee, WalkMode::Head, k) matches WalkMode::Chain { sender, cum, balance, .. }
            && sender == s[h].key().sender && cum.value() == cost_sum(s, h, k)
            && balance == Some(changed[s[h].key().sender].balance),
    decreases k,
{
    let sender = s[h].key().sender;
    lemma_cost_sum_mono(s, h, k, i + 1);
    let prev = mode_from(s, 0, changed, basefee, WalkMode::Head, k - 1);
    assert(mode_from(s, 0, changed, basefee, WalkMode::Head, k) == walk_one(s[k - 1], changed, basefee, prev).2);
    if k == h + 1 {
        lemma_mode_before_head(s, changed, basefee, h, h);
        lemma_head_step(s[h], changed, basefee, prev);
        assert(cost_sum(s, h, h) == 0);
    } else {
        lemma_mode_on_chain(s, changed, basefee, h, i, k - 1);
        assert(s[k - 1].key().sender == sender);
        assert(s[k - 1].state.no_nonce_gaps);
        lemma_chain_step(s[k - 1], changed, basefee, prev, changed[sender].balance);
    }
}

/// The moves the step at position `k` records, in the mode the walk reached
/// it in.
#[verifier::opaque]
spec fn moves_at(s: Seq<PoolInternalTransaction>, i: int, changed: Map<SenderId, SenderInfo>, basefee: u64, m: WalkMode, k: int) -> Seq<PoolUpdate> {
    walk_one(s[k], changed, basefee, mode_from(s, i, changed, basefee, m, k)).1
}

/// The move the step at position `k` records is among the moves of the
/// whole re-check.
proof fn lemma_walk_step_move(s: Seq<PoolInternalTransaction>, i: int, changed: Map<SenderId, SenderInfo>, basefee: u64, m: WalkMode, k: int)
    requires
        0 <= i <= k < s.len(),
        moves_at(s, i, changed, basefee, m, k).len() == 1,
    ensures
        update_walk(s, i, changed, basefee, m).1.contains(moves_at(s, i, changed, basefee, m, k)[0]),
    decreases k - i,
{
    let (t2, u, next) = walk_one(s[i], changed, basefee, m);
    let s1 = s.update(i, t2);
    let ups = update_walk(s, i, changed, basefee, m).1;
    let rest = update_walk(s1, i + 1, changed, basefee, next).1;
    assert(ups == u + rest);
    if k == i {
        assert(moves_at(s, i, changed, basefee, m, k) == u) by {
            reveal(moves_at);
        }
        assert(ups[0] == u[0]);
    } else {
        assert(moves_at(s1, i + 1, changed, basefee, next, k) == moves_at(s, i, changed, basefee, m, k)) by {
            reveal(moves_at);
            lemma_mode_from_shift(s, s1, i, changed, basefee, m, k);
            assert(s1[k] == s[k]);
        }
        lemma_walk_step_move(s1, i + 1, changed, basefee, next, k);
        let e = moves_at(s, i, changed, basefee, m, k)[0];
        let j = choose|j: int| 0 <= j < rest.len() && rest[j] == e;
        assert(ups[u.len() + j] == e);
    }
}

/// After an account re-check, every transaction of a changed sender with a
/// nonce below the account's new nonce is discarded from the sub-pool it was
/// in.
pub proof fn lemma_update_discards_stale(s: Seq<PoolInternalTransaction>, changed: Map<SenderId, SenderInfo>, basefee: u64, k: int)
    requires
        sorted(s),
        0 <= k < s.len(),
        changed.contains_key(s[k].key().sender),
        s[k].key().nonce < changed[s[k].key().sender].state_nonce,
    ensures
        update_walk(s, 0, changed, basefee, WalkMode::Head).1.contains(PoolUpdate {
            id: s[k].key(),
            hash: s[k].transaction.transaction.hash,
            current: s[k].subpool,
            destination: Destination::Discard,
        }),
{
    lemma_mode_before_head(s, changed, basefee, k, k);
    let m = mode_from(s, 0, changed, basefee, WalkMode::Head, k);
    assert(crate::pool::txpool::norm_mode(m, s[k].key().sender) == WalkMode::Head);
    assert(moves_at(s, 0, changed, basefee, WalkMode::Head, k) == seq![PoolUpdate {
        id: s[k].key(),
        hash: s[k].transaction.transaction.hash,
        current: s[k].subpool,
        destination: Destination::Discard,
    }]) by {
        reveal(moves_at);
    }
    lemma_walk_step_move(s, 0, changed, basefee, WalkMode::Head, k);
}

/// After an account re-check, each transaction of a changed sender on its
/// gapless chain from the account's nonce carries the cost of the chain
/// before it, and has enough balance exactly when the cost of the chain up
/// to and including it is at most the sender's new balance. Each has no
/// nonce gap and its fee cap checked against the pending base fee, and the
/// first has no parked ancestor.
///
/// The chain starts at position `h`, the transaction at the account's
/// nonce, and runs on to position `i` through transactions of the same
/// sender without a nonce gap; the chain's cost stays below `2^256`.
pub proof fn lemma_update_rechecks_funding(s: Seq<PoolInternalTransaction>, changed: Map<SenderId, SenderInfo>, basefee: u64, h: int, i: int)
    requires
        sorted(s),
        0 <= h <= i < s.len(),
        changed.contains_key(s[h].key().sender),
        s[h].key().nonce == changed[s[h].key().sender].state_nonce,
        forall|j: int| h <= j <= i ==> (#[trigger] s[j].key()).sender == s[h].key().sender,
        forall|j: int| h < j <= i ==> (#[trigger] s[j].state).no_nonce_gaps,
        cost_sum(s, h, i + 1) < pow2_256(),
    ensures
        ({
            let r = update_walk(s, 0, changed, basefee, WalkMode::Head).0;
            &&& r[i].cumulative_cost.value() == cost_sum(s, h, i)
            &&& r[i].state.enough_balance == (cost_sum(s, h, i + 1) <= changed[s[h].key().sender].balance.value())
            &&& r[i].state.no_nonce_gaps
            &&& r[i].state.enough_fee_cap_block == (s[i].transaction.transaction.max_fee_per_gas >= basefee)
            &&& r[h].state.no_parked_ancestors
        }),
{
    lemma_walk_entry(s, 0, changed, basefee, WalkMode::Head, i);
    lemma_walk_entry(s, 0, changed, basefee, WalkMode::Head, h);
    lemma_mode_before_head(s, changed, basefee, h, h);
    lemma_head_step(s[h], changed, basefee, mode_from(s, 0, changed, basefee, WalkMode::Head, h));
    let sender = s[h].key().sender;
    let m = mode_from(s, 0, changed, basefee, WalkMode::Head, i);
    if i == h {
        lemma_mode_before_head(s, changed, basefee, h, h);
        lemma_head_step(s[h], changed, basefee, m);
        assert(cost_sum(s, h, h) == 0);
    } else {
        lemma_mode_on_chain(s, changed, basefee, h, i, i);
        assert(s[i].key().sender == sender);
        assert(s[i].state.no_nonce_gaps);
        lemma_chain_step(s[i], changed, basefee, m, changed[sender].balance);
    }
}

} // verus!
