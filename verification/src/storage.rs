//! A thread-safe key-value store backed by `dashmap::DashMap`.
//!
//! The store maps `u64` keys to `String` values. Its abstract state is a
//! `Map<u64, Seq<char>>`; every operation's contract says exactly how it
//! reads or changes that state.

use vstd::prelude::*;
use dashmap::DashMap;

verus! {

#[verifier::external_type_specification]
#[verifier::external_body]
#[verifier::reject_recursive_types(K)]
#[verifier::reject_recursive_types(V)]
#[verifier::reject_recursive_types(S)]
pub struct ExDashMap<K, V, S>(DashMap<K, V, S>);

/// The entries a `DashMap<u64, String>` holds, as a mathematical map from
/// each key to the characters of its value.
pub uninterp spec fn dash_entries(m: DashMap<u64, String>) -> Map<u64, Seq<char>>;

/// The abstract state of a store with no entries.
pub open spec fn empty_entries() -> Map<u64, Seq<char>> {
    Map::empty()
}

/// Relies on `DashMap::new`: the new map holds no entries.
#[verifier::external_body]
fn dash_new() -> (r: DashMap<u64, String>)
    ensures
        dash_entries(r) == empty_entries(),
{
    DashMap::new()
}

/// Relies on `DashMap::insert`: the key is mapped to the value, replacing
/// any entry the key had before; no other entry changes.
#[verifier::external_body]
fn dash_insert(m: &mut DashMap<u64, String>, key: u64, value: String)
    ensures
        dash_entries(*final(m)) == dash_entries(*old(m)).insert(key, value@),
{
    m.insert(key, value);
}

/// Relies on `DashMap::get` and `String::clone`: an owned copy of the
/// stored value if the key has an entry, `None` otherwise.
#[verifier::external_body]
fn dash_get(m: &DashMap<u64, String>, key: &u64) -> (r: Option<String>)
    ensures
        match r {
            Some(v) => dash_entries(*m).contains_key(*key) && v@ == dash_entries(*m)[*key],
            None => !dash_entries(*m).contains_key(*key),
        },
{
    m.get(key).map(|entry| entry.value().clone())
}

/// Relies on `DashMap::remove`: the key's entry, if any, is gone; no other
/// entry changes.
#[verifier::external_body]
fn dash_remove(m: &mut DashMap<u64, String>, key: u64)
    ensures
        dash_entries(*final(m)) == dash_entries(*old(m)).remove(key),
{
    m.remove(&key);
}

/// Relies on `DashMap::iter`: with no writer running, the iterator yields
/// each entry of the map exactly once, in arbitrary order, and the closure
/// only copies the key out and clones the value. No writer can run here:
/// the mutating operations of `Storage` all take `&mut`, so they are
/// excluded for as long as this shared borrow lives.
#[verifier::external_body]
fn dash_pairs(m: &DashMap<u64, String>) -> (r: Vec<(u64, String)>)
    ensures
        entries_listed_once(r@, dash_entries(*m)),
{
    m.iter().map(|entry| (*entry.key(), entry.value().clone())).collect()
}

/// `s` lists the entries of `m`: every pair of `s` is an entry of `m`,
/// every key of `m` appears in `s`, and no key appears twice.
pub open spec fn entries_listed_once(s: Seq<(u64, String)>, m: Map<u64, Seq<char>>) -> bool {
    &&& forall|i: int|
        0 <= i < s.len() ==> m.contains_key(#[trigger] s[i].0) && s[i].1@ == m[s[i].0]
    &&& forall|k: u64|
        #[trigger] m.contains_key(k) ==> exists|i: int| 0 <= i < s.len() && s[i].0 == k
    &&& forall|i: int, j: int|
        #![trigger s[i].0, s[j].0]
        0 <= i < s.len() && 0 <= j < s.len() && i != j ==> s[i].0 != s[j].0
}

/// A key-value store backed by a sharded concurrent map. The backing
/// `DashMap` guards its shards with its own locks and takes every
/// operation through a shared reference; the interface below threads the
/// store through `&mut` instead, so that each operation's contract can
/// state exactly how one atomic step changes the abstract map `self@`.
pub struct Storage {
    map: DashMap<u64, String>,
}

impl View for Storage {
    type V = Map<u64, Seq<char>>;

    closed spec fn view(&self) -> Map<u64, Seq<char>> {
        dash_entries(self.map)
    }
}

impl Storage {
    /// Creates a new, empty store.
    pub fn new() -> (s: Self)
        ensures
            s@ == empty_entries(),
    {
        Storage { map: dash_new() }
    }

    /// Inserts a key-value pair, replacing any value the key had before.
    pub fn set(&mut self, key: u64, value: String)
        ensures
            final(self)@ == old(self)@.insert(key, value@),
    {
        dash_insert(&mut self.map, key, value);
    }

    /// Returns an owned copy of the key's value, or `None` if the key has
    /// no entry.
    pub fn get(&self, key: &u64) -> (r: Option<String>)
        ensures
            match r {
                Some(v) => self@.contains_key(*key) && v@ == self@[*key],
                None => !self@.contains_key(*key),
            },
    {
        dash_get(&self.map, key)
    }

    /// Returns every entry as an owned pair, one per entry, in arbitrary
    /// order. The count equals the number of entries, and the store's key
    /// set is finite.
    pub fn get_all(&self) -> (r: Vec<(u64, String)>)
        ensures
            entries_listed_once(r@, self@),
            self@.dom().finite(),
            r@.len() == self@.dom().len(),
    {
        let pairs = dash_pairs(&self.map);
        proof {
            lemma_listing_counts_entries(pairs@, self@);
        }
        pairs
    }

    /// Removes the key's entry; a no-op if the key has none.
    pub fn remove(&mut self, key: u64)
        ensures
            final(self)@ == old(self)@.remove(key),
    {
        dash_remove(&mut self.map, key);
    }
}

/// A listing of a map's entries with no repeated key has exactly one pair
/// per entry, so its length is the size of the map's key set; in
/// particular that key set is finite.
pub proof fn lemma_listing_counts_entries(s: Seq<(u64, String)>, m: Map<u64, Seq<char>>)
    requires
        entries_listed_once(s, m),
    ensures
        m.dom().finite(),
        s.len() == m.dom().len(),
{
    let keys = s.map_values(|p: (u64, String)| p.0);
    assert forall|i: int, j: int| 0 <= i < keys.len() && 0 <= j < keys.len() && i != j
        implies keys[i] != keys[j] by {
        assert(s[i].0 != s[j].0);
    }
    keys.unique_seq_to_set();
    assert(keys.to_set() =~= m.dom()) by {
        assert forall|k: u64| #[trigger] m.dom().contains(k) implies keys.to_set().contains(k) by {
            let i = choose|i: int| 0 <= i < s.len() && s[i].0 == k;
            assert(keys[i] == k);
        }
        assert forall|k: u64| #[trigger] keys.to_set().contains(k) implies m.dom().contains(k) by {
            let i = choose|i: int| 0 <= i < keys.len() && keys[i] == k;
            assert(s[i].0 == k);
        }
    }
}

} // verus!
