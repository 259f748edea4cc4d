//! Vectors kept sorted by transaction id, with unique ids.
use crate::pool::identifier::{id_lt, TransactionId};
use vstd::prelude::*;

verus! {

/// An element that carries a transaction id.
pub trait Keyed {
    /// The id of the element.
    spec fn key(&self) -> TransactionId;

    /// Reads the id of the element.
    fn get_key(&self) -> (r: TransactionId)
        ensures
            r == self.key(),
    ;
}

/// The ids ascend strictly.
pub open spec fn sorted<E: Keyed>(s: Seq<E>) -> bool {
    forall|i: int, j: int| 0 <= i < j < s.len() ==> id_lt(#[trigger] s[i].key(), #[trigger] s[j].key())
}

/// Some element carries `id`.
pub open spec fn has_id<E: Keyed>(s: Seq<E>, id: TransactionId) -> bool {
    exists|i: int| 0 <= i < s.len() && #[trigger] s[i].key() == id
}

/// The index of `id` in a sorted sequence that holds it.
pub open spec fn index_of_id<E: Keyed>(s: Seq<E>, id: TransactionId) -> int {
    choose|i: int| 0 <= i < s.len() && #[trigger] s[i].key() == id
}

/// The elements of a sequence keyed by their ids.
pub open spec fn id_map<E: Keyed>(s: Seq<E>) -> Map<TransactionId, E> {
    Map::new(|k: TransactionId| has_id(s, k), |k: TransactionId| s[index_of_id(s, k)])
}

/// Distinct positions of a sorted sequence carry distinct ids.
pub proof fn lemma_sorted_unique<E: Keyed>(s: Seq<E>, i: int, j: int)
    requires
        sorted(s),
        0 <= i < s.len(),
        0 <= j < s.len(),
        s[i].key() == s[j].key(),
    ensures
        i == j,
{
    if i < j {
        assert(id_lt(s[i].key(), s[j].key()));
    } else if j < i {
        assert(id_lt(s[j].key(), s[i].key()));
    }
}

/// In a sorted sequence, the element that carries `id` sits at
/// `index_of_id`.
pub proof fn lemma_index_of_id<E: Keyed>(s: Seq<E>, i: int)
    requires
        sorted(s),
        0 <= i < s.len(),
    ensures
        has_id(s, s[i].key()),
        index_of_id(s, s[i].key()) == i,
{
    let id = s[i].key();
    assert(has_id(s, id));
    let j = index_of_id(s, id);
    lemma_sorted_unique(s, i, j);
}

/// Inserting an element between smaller and larger ids keeps the order.
pub proof fn lemma_insert_sorted<E: Keyed>(s: Seq<E>, i: int, e: E)
    requires
        sorted(s),
        0 <= i <= s.len(),
        forall|j: int| 0 <= j < i ==> id_lt(#[trigger] s[j].key(), e.key()),
        forall|j: int| i <= j < s.len() ==> id_lt(e.key(), #[trigger] s[j].key()),
    ensures
        sorted(s.insert(i, e)),
{
    let t = s.insert(i, e);
    assert forall|a: int, b: int| 0 <= a < b < t.len() implies id_lt(
        #[trigger] t[a].key(),
        #[trigger] t[b].key(),
    ) by {
        if a < i && b < i {
            assert(t[a] == s[a] && t[b] == s[b]);
        } else if a < i && b == i {
        } else if a < i {
            assert(t[a] == s[a] && t[b] == s[b - 1]);
            assert(id_lt(s[a].key(), e.key()));
        } else if a == i {
            assert(t[b] == s[b - 1]);
        } else {
            assert(t[a] == s[a - 1] && t[b] == s[b - 1]);
        }
    }
}

/// Removing an element keeps the order.
pub proof fn lemma_remove_sorted<E: Keyed>(s: Seq<E>, i: int)
    requires
        sorted(s),
        0 <= i < s.len(),
    ensures
        sorted(s.remove(i)),
{
    let t = s.remove(i);
    assert forall|a: int, b: int| 0 <= a < b < t.len() implies id_lt(
        #[trigger] t[a].key(),
        #[trigger] t[b].key(),
    ) by {
        if b < i {
        } else if a < i {
            assert(t[b] == s[b + 1]);
        } else {
            assert(t[a] == s[a + 1] && t[b] == s[b + 1]);
        }
    }
}

/// Replacing an element by one with the same id updates the map at that id.
pub proof fn lemma_id_map_update<E: Keyed>(s: Seq<E>, i: int, e: E)
    requires
        sorted(s),
        0 <= i < s.len(),
        e.key() == s[i].key(),
    ensures
        sorted(s.update(i, e)),
        id_map(s.update(i, e)) == id_map(s).insert(e.key(), e),
{
    let t = s.update(i, e);
    assert forall|a: int, b: int| 0 <= a < b < t.len() implies id_lt(
        #[trigger] t[a].key(),
        #[trigger] t[b].key(),
    ) by {
        assert(id_lt(s[a].key(), s[b].key()));
    }
    let m1 = id_map(t);
    let m2 = id_map(s).insert(e.key(), e);
    assert forall|k: TransactionId| #[trigger] m1.contains_key(k) <==> m2.contains_key(k) by {
        if has_id(s, k) {
            let j = index_of_id(s, k);
            assert(t[j].key() == k);
        }
        if has_id(t, k) {
            let j = index_of_id(t, k);
            assert(s[j].key() == k);
        }
        if k == e.key() {
            assert(t[i].key() == k);
        }
    }
    assert forall|k: TransactionId| #[trigger] m1.contains_key(k) implies m1[k] == m2[k] by {
        let j = index_of_id(t, k);
        lemma_index_of_id(t, j);
        if k != e.key() {
            assert(s[j].key() == k);
            lemma_index_of_id(s, j);
        } else {
            lemma_sorted_unique(t, i, j);
        }
    }
    assert(m1 =~= m2);
}

/// Inserting an element with a new id between smaller and larger ids adds
/// it to the map.
pub proof fn lemma_id_map_insert<E: Keyed>(s: Seq<E>, i: int, e: E)
    requires
        sorted(s),
        0 <= i <= s.len(),
        forall|j: int| 0 <= j < i ==> id_lt(#[trigger] s[j].key(), e.key()),
        forall|j: int| i <= j < s.len() ==> id_lt(e.key(), #[trigger] s[j].key()),
    ensures
        sorted(s.insert(i, e)),
        !has_id(s, e.key()),
        id_map(s.insert(i, e)) == id_map(s).insert(e.key(), e),
{
    lemma_insert_sorted(s, i, e);
    let t = s.insert(i, e);
    if has_id(s, e.key()) {
        let j = index_of_id(s, e.key());
        if j < i {
            assert(id_lt(s[j].key(), e.key()));
        } else {
            assert(id_lt(e.key(), s[j].key()));
        }
    }
    let m1 = id_map(t);
    let m2 = id_map(s).insert(e.key(), e);
    assert forall|k: TransactionId| #[trigger] m1.contains_key(k) <==> m2.contains_key(k) by {
        if has_id(s, k) {
            let j = index_of_id(s, k);
            if j < i {
                assert(t[j].key() == k);
            } else {
                assert(t[j + 1].key() == k);
            }
        }
        if has_id(t, k) {
            let j = index_of_id(t, k);
            if j < i {
                assert(s[j].key() == k);
            } else if j > i {
                assert(s[j - 1].key() == k);
            }
        }
        if k == e.key() {
            assert(t[i].key() == k);
        }
    }
    assert forall|k: TransactionId| #[trigger] m1.contains_key(k) implies m1[k] == m2[k] by {
        let j = index_of_id(t, k);
        lemma_index_of_id(t, j);
        if j < i {
            assert(s[j].key() == k);
            lemma_index_of_id(s, j);
        } else if j > i {
            assert(s[j - 1].key() == k);
            lemma_index_of_id(s, j - 1);
        }
    }
    assert(m1 =~= m2);
}

/// Removing an element drops its id from the map.
pub proof fn lemma_id_map_remove<E: Keyed>(s: Seq<E>, i: int)
    requires
        sorted(s),
        0 <= i < s.len(),
    ensures
        sorted(s.remove(i)),
        id_map(s.remove(i)) == id_map(s).remove(s[i].key()),
{
    lemma_remove_sorted(s, i);
    let t = s.remove(i);
    let m1 = id_map(t);
    let m2 = id_map(s).remove(s[i].key());
    assert forall|k: TransactionId| #[trigger] m1.contains_key(k) <==> m2.contains_key(k) by {
        if has_id(s, k) && k != s[i].key() {
            let j = index_of_id(s, k);
            if j < i {
                assert(t[j].key() == k);
            } else {
                assert(j != i);
                assert(t[j - 1].key() == k);
            }
        }
        if has_id(t, k) {
            let j = index_of_id(t, k);
            if j < i {
                assert(s[j].key() == k);
                if k == s[i].key() {
                    lemma_sorted_unique(s, i, j);
                }
            } else {
                assert(s[j + 1].key() == k);
                if k == s[i].key() {
                    lemma_sorted_unique(s, i, j + 1);
                }
            }
        }
    }
    assert forall|k: TransactionId| #[trigger] m1.contains_key(k) implies m1[k] == m2[k] by {
        let j = index_of_id(t, k);
        lemma_index_of_id(t, j);
        if j < i {
            assert(s[j].key() == k);
            lemma_index_of_id(s, j);
        } else {
            assert(s[j + 1].key() == k);
            lemma_index_of_id(s, j + 1);
        }
    }
    assert(m1 =~= m2);
}

/// The map of a sorted sequence has as many entries as the sequence.
pub proof fn lemma_id_map_len<E: Keyed>(s: Seq<E>)
    requires
        sorted(s),
    ensures
        id_map(s).dom().finite(),
        id_map(s).len() == s.len(),
{
    let keys = s.map_values(|e: E| e.key());
    assert(keys.no_duplicates()) by {
        assert forall|a: int, b: int| 0 <= a < keys.len() && 0 <= b < keys.len() && a != b
            implies keys[a] != keys[b] by {
            if keys[a] == keys[b] {
                lemma_sorted_unique(s, a, b);
            }
        }
    }
    keys.unique_seq_to_set();
    assert forall|k: TransactionId| #[trigger] id_map(s).dom().contains(k) <==> keys.to_set().contains(k) by {
        if has_id(s, k) {
            let j = index_of_id(s, k);
            assert(keys[j] == k);
        }
        if keys.to_set().contains(k) {
            let j = choose|j: int| 0 <= j < keys.len() && keys[j] == k;
            assert(s[j].key() == k);
        }
    }
    assert(id_map(s).dom() =~= keys.to_set());
}

/// The first position whose id is not below `id`.
pub fn lower_bound<E: Keyed>(v: &Vec<E>, id: TransactionId) -> (r: usize)
    requires
        sorted(v@),
    ensures
        r <= v.len(),
        forall|j: int| 0 <= j < r ==> id_lt(#[trigger] v@[j].key(), id),
        forall|j: int| r <= j < v.len() ==> !id_lt(#[trigger] v@[j].key(), id),
{
    let mut i: usize = 0;
    while i < v.len()
        invariant
            i <= v.len(),
            sorted(v@),
            forall|j: int| 0 <= j < i ==> id_lt(#[trigger] v@[j].key(), id),
        decreases v.len() - i,
    {
        let k = v[i].get_key();
        if !k.lt(&id) {
            assert forall|j: int| i <= j < v.len() implies !id_lt(#[trigger] v@[j].key(), id) by {
                if j > i {
                    assert(id_lt(v@[i as int].key(), v@[j].key()));
                }
            }
            return i;
        }
        i += 1;
    }
    i
}

/// The position of `id`, if some element carries it.
pub fn find<E: Keyed>(v: &Vec<E>, id: TransactionId) -> (r: Option<usize>)
    requires
        sorted(v@),
    ensures
        match r {
            Some(i) => i < v.len() && v@[i as int].key() == id && has_id(v@, id) && index_of_id(
                v@,
                id,
            ) == i,
            None => !has_id(v@, id),
        },
{
    let i = lower_bound(v, id);
    if i < v.len() {
        let k = v[i].get_key();
        if k == id {
            proof { lemma_index_of_id(v@, i as int); }
            return Some(i);
        }
    }
    proof {
        if has_id(v@, id) {
            let j = choose|j: int| 0 <= j < v@.len() && #[trigger] v@[j].key() == id;
            if j > i {
                assert(id_lt(v@[i as int].key(), v@[j].key()));
            }
        }
    }
    None
}


/// A sequence with the same ids, position by position, keeps the order and
/// the keys of the map, each at the same position.
pub proof fn lemma_id_map_same_keys<E: Keyed>(s: Seq<E>, t: Seq<E>)
    requires
        sorted(s),
        t.len() == s.len(),
        forall|j: int| 0 <= j < s.len() ==> (#[trigger] t[j]).key() == s[j].key(),
    ensures
        sorted(t),
        forall|id: TransactionId| #[trigger] id_map(t).contains_key(id) == id_map(s).contains_key(id),
        forall|id: TransactionId| #[trigger] id_map(t).contains_key(id) ==> index_of_id(t, id) == index_of_id(s, id)
            && id_map(t)[id] == t[index_of_id(s, id)],
{
    assert forall|a: int, b: int| 0 <= a < b < t.len() implies id_lt(#[trigger] t[a].key(), #[trigger] t[b].key()) by {
        assert(t[a].key() == s[a].key() && t[b].key() == s[b].key());
    }
    assert forall|id: TransactionId| #[trigger] id_map(t).contains_key(id) == id_map(s).contains_key(id) by {
        if has_id(s, id) {
            let j = index_of_id(s, id);
            assert(t[j].key() == id);
        }
        if has_id(t, id) {
            let j = index_of_id(t, id);
            assert(s[j].key() == id);
        }
    }
    assert forall|id: TransactionId| #[trigger] id_map(t).contains_key(id) implies index_of_id(t, id) == index_of_id(s, id)
        && id_map(t)[id] == t[index_of_id(s, id)] by {
        let j = index_of_id(t, id);
        assert(s[j].key() == id);
        lemma_index_of_id(s, j);
    }
}

/// Two sorted sequences holding the same ids hold them at the same
/// positions.
pub proof fn lemma_sorted_same_ids<E: Keyed>(s: Seq<E>, t: Seq<E>)
    requires
        sorted(s),
        sorted(t),
        id_map(s).dom() == id_map(t).dom(),
    ensures
        s.len() == t.len(),
        forall|i: int| 0 <= i < s.len() ==> #[trigger] s[i].key() == t[i].key(),
    decreases s.len(),
{
    lemma_id_map_len(s);
    lemma_id_map_len(t);
    assert(s.len() == t.len());
    if s.len() > 0 {
        let n = s.len() - 1;
        let a = s[n].key();
        let b = t[n].key();
        assert(has_id(s, a));
        assert(id_map(s).dom().contains(a));
        assert(id_map(t).dom().contains(a));
        let j = choose|j: int| 0 <= j < t.len() && #[trigger] t[j].key() == a;
        assert(has_id(t, b));
        assert(id_map(t).dom().contains(b));
        assert(id_map(s).dom().contains(b));
        let i = choose|i: int| 0 <= i < s.len() && #[trigger] s[i].key() == b;
        if j < n {
            assert(id_lt(t[j].key(), t[n].key()));
            if i < n {
                assert(id_lt(s[i].key(), s[n].key()));
            }
        }
        if i < n {
            assert(id_lt(s[i].key(), s[n].key()));
        }
        assert(a == b);
        lemma_id_map_remove(s, n);
        lemma_id_map_remove(t, n);
        lemma_remove_sorted(s, n);
        lemma_remove_sorted(t, n);
        let s2 = s.remove(n);
        let t2 = t.remove(n);
        assert(s2 =~= s.drop_last());
        assert(t2 =~= t.drop_last());
        assert(id_map(s2).dom() =~= id_map(t2).dom());
        lemma_sorted_same_ids(s2, t2);
        assert forall|k: int| 0 <= k < s.len() implies #[trigger] s[k].key() == t[k].key() by {
            if k < n {
                assert(s2[k] == s[k]);
                assert(t2[k] == t[k]);
            }
        }
    }
}

} // verus!
