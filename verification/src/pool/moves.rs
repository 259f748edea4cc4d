//! What the moves returned by re-checks say about the records they change.
use crate::pool::by_id::{has_id, index_of_id, lemma_index_of_id, sorted, Keyed};
use crate::pool::identifier::{id_lt, SenderId, TransactionId};
use crate::pool::txpool::{insert_outcome, insert_walk, update_walk, walk_one, walk_step, walk_update, AllTransactions, PoolInternalTransaction, SenderInfo, WalkMode};
use crate::pool::validate::ValidPoolTransaction;
use crate::pool::update::{Destination, PoolUpdate};
use crate::primitives::{spec_add, U256};
use crate::pool::state::spec_is_pending;
use vstd::prelude::*;

verus! {

/// The moves keyed by the id they move.
pub open spec fn upd_map(ups: Seq<PoolUpdate>) -> Map<TransactionId, PoolUpdate>
    decreases ups.len(),
{
    if ups.len() == 0 {
        Map::empty()
    } else {
        upd_map(ups.subrange(1, ups.len() as int)).insert(ups[0].id, ups[0])
    }
}

/// The moves are in strictly increasing id order.
pub open spec fn ids_ascend(ups: Seq<PoolUpdate>) -> bool {
    forall|a: int, b: int| 0 <= a < b < ups.len() ==> id_lt(#[trigger] ups[a].id, #[trigger] ups[b].id)
}

/// `u` is the move of the transaction whose record went from `before` to
/// `after`: it names the transaction and its former sub-pool, and either
/// moves it to its new, different sub-pool or discards it from an unchanged
/// one.
pub open spec fn move_of(u: PoolUpdate, before: PoolInternalTransaction, after: PoolInternalTransaction) -> bool {
    &&& u.id == before.key()
    &&& u.hash == before.transaction.transaction.hash
    &&& u.current == before.subpool
    &&& match u.destination {
        Destination::Pool(p) => p == after.subpool && p != before.subpool,
        Destination::Discard => after.subpool == before.subpool,
    }
}

/// The keyed moves hold exactly the moves of the sequence.
pub proof fn lemma_upd_map(ups: Seq<PoolUpdate>)
    requires
        ids_ascend(ups),
    ensures
        forall|j: int| 0 <= j < ups.len() ==> upd_map(ups).contains_key(#[trigger] ups[j].id) && upd_map(ups)[ups[j].id] == ups[j],
        forall|id: TransactionId| #[trigger] upd_map(ups).contains_key(id) ==> exists|j: int| 0 <= j < ups.len() && #[trigger] ups[j].id == id,
    decreases ups.len(),
{
    if ups.len() > 0 {
        let rest = ups.subrange(1, ups.len() as int);
        lemma_upd_map(rest);
        assert forall|j: int| 0 <= j < ups.len() implies upd_map(ups).contains_key(#[trigger] ups[j].id) && upd_map(ups)[ups[j].id] == ups[j] by {
            if j > 0 {
                assert(rest[j - 1] == ups[j]);
                assert(id_lt(ups[0].id, ups[j].id));
            }
        }
        assert forall|id: TransactionId| #[trigger] upd_map(ups).contains_key(id) implies exists|j: int| 0 <= j < ups.len() && #[trigger] ups[j].id == id by {
            if id != ups[0].id {
                assert(upd_map(ups) == upd_map(rest).insert(ups[0].id, ups[0]));
                assert(upd_map(rest).contains_key(id));
                let k = choose|k: int| 0 <= k < rest.len() && #[trigger] rest[k].id == id;
                assert(rest[k] == ups[k + 1]);
                assert(ups[k + 1].id == id);
            } else {
                assert(ups[0].id == id);
            }
        }
    }
}

/// Keyed moves from position `k` on: the move at `k` and those after it.
pub proof fn lemma_upd_map_step(ups: Seq<PoolUpdate>, k: int)
    requires
        ids_ascend(ups),
        0 <= k < ups.len(),
    ensures
        upd_map(ups.subrange(k, ups.len() as int)) == upd_map(ups.subrange(k + 1, ups.len() as int)).insert(ups[k].id, ups[k]),
        !upd_map(ups.subrange(k + 1, ups.len() as int)).contains_key(ups[k].id),
        ids_ascend(ups.subrange(k + 1, ups.len() as int)),
{
    let t = ups.subrange(k, ups.len() as int);
    assert(t.subrange(1, t.len() as int) =~= ups.subrange(k + 1, ups.len() as int));
    let r = ups.subrange(k + 1, ups.len() as int);
    assert(ids_ascend(r)) by {
        assert forall|a: int, b: int| 0 <= a < b < r.len() implies id_lt(#[trigger] r[a].id, #[trigger] r[b].id) by {
            assert(r[a] == ups[k + 1 + a] && r[b] == ups[k + 1 + b]);
        }
    }
    lemma_upd_map(r);
    if upd_map(r).contains_key(ups[k].id) {
        let j = choose|j: int| 0 <= j < r.len() && #[trigger] r[j].id == ups[k].id;
        assert(r[j] == ups[k + 1 + j]);
        assert(id_lt(ups[k].id, ups[k + 1 + j].id));
    }
}

/// What one step of the account re-check changes: the transaction is kept,
/// and its sub-pool changes only with a move.
pub proof fn lemma_walk_one(t: PoolInternalTransaction, changed: Map<SenderId, SenderInfo>, basefee: u64, mode: WalkMode)
    ensures
        ({
            let (t2, u, next) = walk_one(t, changed, basefee, mode);
            &&& t2.transaction == t.transaction
            &&& u.len() <= 1
            &&& u.len() == 1 ==> move_of(u[0], t, t2)
            &&& u.len() == 0 ==> t2.subpool == t.subpool
        }),
{
}

/// What the account re-check from position `i` changes: the transactions
/// are kept, those before `i` untouched, and each changed sub-pool comes
/// with exactly one move, in id order.
pub proof fn lemma_update_walk(s: Seq<PoolInternalTransaction>, i: int, changed: Map<SenderId, SenderInfo>, basefee: u64, mode: WalkMode)
    requires
        sorted(s),
        0 <= i <= s.len(),
    ensures
        ({
            let (s2, ups) = update_walk(s, i, changed, basefee, mode);
            let m = upd_map(ups);
            &&& s2.len() == s.len()
            &&& forall|j: int| 0 <= j < s.len() ==> (#[trigger] s2[j]).transaction == s[j].transaction
            &&& forall|j: int| 0 <= j < i ==> #[trigger] s2[j] == s[j]
            &&& ids_ascend(ups)
            &&& forall|id: TransactionId| #[trigger] m.contains_key(id) ==> has_id(s, id) && i <= index_of_id(s, id)
                && move_of(m[id], s[index_of_id(s, id)], s2[index_of_id(s, id)])
            &&& forall|j: int| i <= j < s.len() && (#[trigger] s2[j]).subpool != s[j].subpool ==> m.contains_key(s[j].key())
        }),
    decreases s.len() - i,
{
    if i < s.len() {
        let (t2, u, next) = walk_one(s[i], changed, basefee, mode);
        lemma_walk_one(s[i], changed, basefee, mode);
        let s1 = s.update(i, t2);
        assert(sorted(s1)) by {
            assert forall|a: int, b: int| 0 <= a < b < s1.len() implies id_lt(#[trigger] s1[a].key(), #[trigger] s1[b].key()) by {
                assert(s1[a].key() == s[a].key() && s1[b].key() == s[b].key());
            }
        }
        lemma_update_walk(s1, i + 1, changed, basefee, next);
        let rest = update_walk(s1, i + 1, changed, basefee, next);
        let (s2, ups) = update_walk(s, i, changed, basefee, mode);
        assert(s2 == rest.0 && ups == u + rest.1);
        let mr = upd_map(rest.1);
        let m = upd_map(ups);
        assert forall|j: int| i < j < s.len() implies #[trigger] s1[j] == s[j] && s1[j].key() == s[j].key() by {}
        assert forall|id: TransactionId| has_id(s1, id) implies has_id(s, id) && index_of_id(s1, id) == index_of_id(s, id) by {
            {
                let j = index_of_id(s1, id);
                assert(s[j].key() == id);
                lemma_index_of_id(s, j);
                lemma_index_of_id(s1, j);
            }
        }
        if u.len() == 0 {
            assert(ups =~= rest.1);
        } else {
            assert(ups[0] == u[0]);
            assert(ups.subrange(1, ups.len() as int) =~= rest.1);
            assert(m == mr.insert(u[0].id, u[0]));
            lemma_index_of_id(s, i);
            assert(ids_ascend(ups)) by {
                assert forall|a: int, b: int| 0 <= a < b < ups.len() implies id_lt(#[trigger] ups[a].id, #[trigger] ups[b].id) by {
                    if a == 0 {
                        assert(ups[b] == rest.1[b - 1]);
                        lemma_upd_map(rest.1);
                        assert(mr.contains_key(rest.1[b - 1].id));
                        let jj = index_of_id(s1, rest.1[b - 1].id);
                        assert(id_lt(s[i].key(), s[jj].key()));
                    } else {
                        assert(ups[a] == rest.1[a - 1] && ups[b] == rest.1[b - 1]);
                    }
                }
            }
        }
        assert forall|id: TransactionId| #[trigger] m.contains_key(id) implies has_id(s, id) && i <= index_of_id(s, id)
            && move_of(m[id], s[index_of_id(s, id)], s2[index_of_id(s, id)]) by {
            if u.len() == 1 && id == u[0].id {
                lemma_index_of_id(s, i);
                if mr.contains_key(id) {
                    let jj = index_of_id(s1, id);
                    lemma_index_of_id(s1, i);
                }
            } else {
                assert(mr.contains_key(id));
            }
        }
        assert forall|j: int| i <= j < s.len() && (#[trigger] s2[j]).subpool != s[j].subpool implies m.contains_key(s[j].key()) by {
            if j == i {
                assert(s2[i] == s1[i]);
            } else {
                assert(s1[j] == s[j]);
            }
        }
    }
}

/// What re-checking a sender's chain from `nonce` changes: the other
/// senders' and earlier records are untouched, the transactions are kept,
/// and each changed sub-pool other than the new transaction's comes with
/// exactly one move, in id order.
pub proof fn lemma_insert_walk(
    m: Map<TransactionId, PoolInternalTransaction>,
    sender: SenderId,
    nonce: int,
    cum: U256,
    parked: bool,
    balance: U256,
    new_id: TransactionId,
)
    requires
        nonce >= 0,
        forall|id: TransactionId| #[trigger] m.contains_key(id) ==> m[id].key() == id,
    ensures
        ({
            let (m2, ups) = insert_walk(m, sender, nonce, cum, parked, balance, new_id);
            let um = upd_map(ups);
            &&& m2.dom() == m.dom()
            &&& forall|id: TransactionId| #[trigger] m2.contains_key(id) ==> m2[id].transaction == m[id].transaction
            &&& forall|id: TransactionId| #[trigger] m.contains_key(id) && (id.sender != sender || id.nonce < nonce) ==> m2[id] == m[id]
            &&& ids_ascend(ups)
            &&& forall|id: TransactionId| #[trigger] um.contains_key(id) ==> m.contains_key(id) && id.sender == sender && nonce <= id.nonce
                && id != new_id && move_of(um[id], m[id], m2[id]) && um[id].destination is Pool
            &&& forall|id: TransactionId| #[trigger] m.contains_key(id) && id != new_id && m2[id].subpool != m[id].subpool ==> um.contains_key(id)
        }),
    decreases u64::MAX + 1 - nonce,
{
    let id = TransactionId { sender, nonce: nonce as u64 };
    if 0 <= nonce <= u64::MAX && m.contains_key(id) {
        let t = m[id];
        let t2 = walk_step(t, cum, parked, balance);
        let m1 = m.insert(id, t2);
        let cum2 = spec_add(cum, t.transaction.transaction.cost);
        let parked2 = !spec_is_pending(t2.state);
        lemma_insert_walk(m1, sender, nonce + 1, cum2, parked2, balance, new_id);
        let rest = insert_walk(m1, sender, nonce + 1, cum2, parked2, balance, new_id);
        let u = walk_update(id, t, t2, new_id);
        let (m2, ups) = insert_walk(m, sender, nonce, cum, parked, balance, new_id);
        assert(m2 == rest.0 && ups == u + rest.1);
        let mr = upd_map(rest.1);
        let um = upd_map(ups);
        assert(m1.dom() =~= m.dom());
        if u.len() == 0 {
            assert(ups =~= rest.1);
        } else {
            assert(ups[0] == u[0]);
            assert(ups.subrange(1, ups.len() as int) =~= rest.1);
            assert(ids_ascend(ups)) by {
                assert forall|a: int, b: int| 0 <= a < b < ups.len() implies id_lt(#[trigger] ups[a].id, #[trigger] ups[b].id) by {
                    if a == 0 {
                        assert(ups[b] == rest.1[b - 1]);
                        lemma_upd_map(rest.1);
                        assert(mr.contains_key(rest.1[b - 1].id));
                    } else {
                        assert(ups[a] == rest.1[a - 1] && ups[b] == rest.1[b - 1]);
                    }
                }
            }
        }
        assert forall|k: TransactionId| #[trigger] um.contains_key(k) implies m.contains_key(k) && k.sender == sender && nonce <= k.nonce
            && k != new_id && move_of(um[k], m[k], m2[k]) && um[k].destination is Pool by {
            if u.len() == 1 && k == id {
                if mr.contains_key(k) {
                    assert(k.nonce >= nonce + 1);
                }
            } else {
                assert(mr.contains_key(k));
            }
        }
    }
}

/// Each move changes a transaction's place: a move into a sub-pool names
/// another sub-pool than the one the transaction is held in.
pub open spec fn moves_change_place(ups: Seq<PoolUpdate>) -> bool {
    forall|k: int| 0 <= k < ups.len() ==> match #[trigger] ups[k].destination {
        Destination::Pool(p) => p != ups[k].current,
        Destination::Discard => true,
    }
}

/// Moves that each change a place, one list after the other, still do.
proof fn lemma_moves_concat(a: Seq<PoolUpdate>, b: Seq<PoolUpdate>)
    requires
        moves_change_place(a),
        moves_change_place(b),
    ensures
        moves_change_place(a + b),
{
    assert forall|k: int| 0 <= k < (a + b).len() implies match #[trigger] (a + b)[k].destination {
        Destination::Pool(p) => p != (a + b)[k].current,
        Destination::Discard => true,
    } by {
        if k < a.len() {
            assert((a + b)[k] == a[k]);
        } else {
            assert((a + b)[k] == b[k - a.len()]);
        }
    }
}

/// Every move the re-check of the accounts records changes the
/// transaction's place.
pub proof fn lemma_update_moves_change_place(
    s: Seq<PoolInternalTransaction>,
    i: int,
    changed: Map<SenderId, SenderInfo>,
    basefee: u64,
    mode: WalkMode,
)
    ensures
        moves_change_place(update_walk(s, i, changed, basefee, mode).1),
    decreases s.len() - i,
{
    if 0 <= i < s.len() {
        let (t2, u, next) = walk_one(s[i], changed, basefee, mode);
        lemma_update_moves_change_place(s.update(i, t2), i + 1, changed, basefee, next);
        assert(moves_change_place(u));
        lemma_moves_concat(u, update_walk(s.update(i, t2), i + 1, changed, basefee, next).1);
    } else {
        assert(update_walk(s, i, changed, basefee, mode).1 =~= Seq::<PoolUpdate>::empty());
    }
}

/// Every move the chain walk of an insert records changes the
/// transaction's place.
proof fn lemma_insert_walk_moves_change_place(
    m: Map<TransactionId, PoolInternalTransaction>,
    sender: SenderId,
    nonce: int,
    cum: U256,
    parked: bool,
    balance: U256,
    new_id: TransactionId,
)
    ensures
        moves_change_place(insert_walk(m, sender, nonce, cum, parked, balance, new_id).1),
    decreases u64::MAX + 1 - nonce,
{
    let id = TransactionId { sender, nonce: nonce as u64 };
    if 0 <= nonce <= u64::MAX && m.contains_key(id) {
        let t = m[id];
        let t2 = walk_step(t, cum, parked, balance);
        lemma_insert_walk_moves_change_place(m.insert(id, t2), sender, nonce + 1,
            spec_add(cum, t.transaction.transaction.cost), !spec_is_pending(t2.state), balance, new_id);
        lemma_moves_concat(walk_update(id, t, t2, new_id), insert_walk(m.insert(id, t2), sender, nonce + 1,
            spec_add(cum, t.transaction.transaction.cost), !spec_is_pending(t2.state), balance, new_id).1);
    } else {
        assert(insert_walk(m, sender, nonce, cum, parked, balance, new_id).1 =~= Seq::<PoolUpdate>::empty());
    }
}

/// Every move an insert records for the sender's other transactions
/// changes the transaction's place.
pub proof fn lemma_insert_moves_change_place(all: AllTransactions, tx: ValidPoolTransaction, balance: U256, on_chain_nonce: u64)
    ensures
        moves_change_place(insert_outcome(all, tx, balance, on_chain_nonce).1),
{
    let m = crate::pool::txpool::placed(all, tx, on_chain_nonce);
    lemma_insert_walk_moves_change_place(m, tx.transaction_id.sender, on_chain_nonce as int, U256 { hi: 0, lo: 0 },
        crate::pool::txpool::initial_parked(m, tx, on_chain_nonce), balance, tx.transaction_id);
}

} // verus!
