//! Laws of the store's operations, stated over its abstract state — a
//! `Map<u64, Seq<char>>` — and proved once for all keys, values and
//! states. Each law matches the contracts in `storage`, which describe
//! `set` as `insert`, `remove` as `remove`, and `get` as a read of the
//! abstract map.

use vstd::prelude::*;

verus! {

/// Read-after-write: after a key is set to a value, looking that key up
/// finds exactly that value.
pub proof fn lemma_read_after_write(m: Map<u64, Seq<char>>, k: u64, v: Seq<char>)
    ensures
        m.insert(k, v).contains_key(k),
        m.insert(k, v)[k] == v,
{
}

/// Overwrite: setting a key twice leaves only the second value, and the
/// first insert leaves no trace at all, so no key ever holds two entries.
pub proof fn lemma_overwrite(m: Map<u64, Seq<char>>, k: u64, v1: Seq<char>, v2: Seq<char>)
    ensures
        m.insert(k, v1).insert(k, v2).contains_key(k),
        m.insert(k, v1).insert(k, v2)[k] == v2,
        m.insert(k, v1).insert(k, v2) == m.insert(k, v2),
{
    assert(m.insert(k, v1).insert(k, v2) =~= m.insert(k, v2));
}

/// Insert then remove: removing a key just set leaves the key absent.
pub proof fn lemma_insert_then_remove(m: Map<u64, Seq<char>>, k: u64, v: Seq<char>)
    ensures
        !m.insert(k, v).remove(k).contains_key(k),
{
}

/// Removing an absent key changes nothing at all.
pub proof fn lemma_remove_absent(m: Map<u64, Seq<char>>, k: u64)
    requires
        !m.contains_key(k),
    ensures
        m.remove(k) == m,
{
    assert(m.remove(k) =~= m);
}

/// Two inserts to one key, taken in either order: a later lookup of that
/// key finds whichever value was written second — one of the two, never
/// anything else.
pub proof fn lemma_same_key_insert_order(m: Map<u64, Seq<char>>, k: u64, v1: Seq<char>, v2: Seq<char>)
    ensures
        m.insert(k, v1).insert(k, v2).contains_key(k),
        m.insert(k, v1).insert(k, v2)[k] == v2,
        m.insert(k, v2).insert(k, v1)[k] == v1,
{
}

/// The store state after setting `keys[i]` to `vals[i]` for `i` rising
/// from `0`, starting from state `m`.
pub open spec fn after_inserts(
    m: Map<u64, Seq<char>>,
    keys: Seq<u64>,
    vals: Seq<Seq<char>>,
) -> Map<u64, Seq<char>>
    decreases keys.len(),
{
    if keys.len() == 0 || keys.len() != vals.len() {
        m
    } else {
        after_inserts(m, keys.drop_last(), vals.drop_last()).insert(keys.last(), vals.last())
    }
}

/// A key is present after a sequence of inserts exactly when it was
/// present before or is one of the inserted keys.
pub proof fn lemma_after_inserts_contains(
    m: Map<u64, Seq<char>>,
    keys: Seq<u64>,
    vals: Seq<Seq<char>>,
    k: u64,
)
    requires
        keys.len() == vals.len(),
    ensures
        after_inserts(m, keys, vals).contains_key(k) <==> (m.contains_key(k) || keys.contains(k)),
    decreases keys.len(),
{
    if keys.len() == 0 {
        assert(!keys.contains(k));
    } else {
        let kp = keys.drop_last();
        lemma_after_inserts_contains(m, kp, vals.drop_last(), k);
        if keys.contains(k) {
            let i = choose|i: int| 0 <= i < keys.len() && keys[i] == k;
            if i < keys.len() - 1 {
                assert(kp[i] == k);
                assert(kp.contains(k));
            }
        }
        if kp.contains(k) {
            let i = choose|i: int| 0 <= i < kp.len() && kp[i] == k;
            assert(keys[i] == k);
            assert(keys.contains(k));
        }
        if keys.last() == k {
            assert(keys.contains(k));
        }
    }
}

/// Enumeration completeness, the counting half: inserting distinct keys
/// that were all absent before grows the entry count by exactly the
/// number of keys inserted, so a later enumeration returns exactly that
/// many more pairs.
pub proof fn lemma_distinct_inserts_count(
    m: Map<u64, Seq<char>>,
    keys: Seq<u64>,
    vals: Seq<Seq<char>>,
)
    requires
        keys.len() == vals.len(),
        keys.no_duplicates(),
        m.dom().finite(),
        forall|i: int| 0 <= i < keys.len() ==> !m.contains_key(#[trigger] keys[i]),
    ensures
        after_inserts(m, keys, vals).dom().finite(),
        after_inserts(m, keys, vals).dom().len() == m.dom().len() + keys.len(),
    decreases keys.len(),
{
    if keys.len() > 0 {
        let kp = keys.drop_last();
        let vp = vals.drop_last();
        assert forall|i: int, j: int| 0 <= i < j < kp.len() implies kp[i] != kp[j] by {
            assert(kp[i] == keys[i]);
            assert(kp[j] == keys[j]);
        }
        assert forall|i: int| 0 <= i < kp.len() implies !m.contains_key(#[trigger] kp[i]) by {
            assert(kp[i] == keys[i]);
        }
        lemma_distinct_inserts_count(m, kp, vp);
        let prev = after_inserts(m, kp, vp);
        lemma_after_inserts_contains(m, kp, vp, keys.last());
        if kp.contains(keys.last()) {
            let i = choose|i: int| 0 <= i < kp.len() && kp[i] == keys.last();
            assert(keys[i] == keys[keys.len() - 1]);
            assert(false);
        }
        assert(!prev.contains_key(keys.last()));
        assert(prev.insert(keys.last(), vals.last()).dom() =~= prev.dom().insert(keys.last()));
        vstd::set::axiom_set_insert_len(prev.dom(), keys.last());
    }
}

/// Enumeration completeness, the content half: after inserting distinct
/// keys, every inserted key holds exactly the value inserted with it.
pub proof fn lemma_after_inserts_values(
    m: Map<u64, Seq<char>>,
    keys: Seq<u64>,
    vals: Seq<Seq<char>>,
)
    requires
        keys.len() == vals.len(),
        keys.no_duplicates(),
    ensures
        forall|i: int|
            0 <= i < keys.len() ==> after_inserts(m, keys, vals)[#[trigger] keys[i]] == vals[i],
    decreases keys.len(),
{
    if keys.len() > 0 {
        let kp = keys.drop_last();
        let vp = vals.drop_last();
        assert forall|i: int, j: int| 0 <= i < j < kp.len() implies kp[i] != kp[j] by {
            assert(kp[i] == keys[i]);
            assert(kp[j] == keys[j]);
        }
        lemma_after_inserts_values(m, kp, vp);
        let prev = after_inserts(m, kp, vp);
        assert forall|i: int|
            0 <= i < keys.len() implies after_inserts(m, keys, vals)[#[trigger] keys[i]]
            == vals[i] by {
            if i < keys.len() - 1 {
                assert(keys[i] != keys[keys.len() - 1]);
                assert(kp[i] == keys[i]);
                assert(vp[i] == vals[i]);
                assert(prev[kp[i]] == vp[i]);
            }
        }
    }
}

} // verus!
