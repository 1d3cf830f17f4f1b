//! The compute side of the exercise loops that drive a store through bulk
//! insert, lookup and remove phases over the keys `0 .. count`. Timing
//! and logging stay with the caller; each loop here carries a contract
//! that pins down the store state it leaves behind.

use vstd::prelude::*;
use crate::storage::Storage;

verus! {

/// The character for one decimal digit.
pub open spec fn digit_char(d: nat) -> char {
    if d == 0 {
        '0'
    } else if d == 1 {
        '1'
    } else if d == 2 {
        '2'
    } else if d == 3 {
        '3'
    } else if d == 4 {
        '4'
    } else if d == 5 {
        '5'
    } else if d == 6 {
        '6'
    } else if d == 7 {
        '7'
    } else if d == 8 {
        '8'
    } else {
        '9'
    }
}

/// The decimal digits of `n`, most significant first, with no leading
/// zeros except for `n == 0` itself.
pub open spec fn decimal_digits(n: nat) -> Seq<char>
    decreases n,
{
    if n < 10 {
        seq![digit_char(n)]
    } else {
        decimal_digits(n / 10).push(digit_char(n % 10))
    }
}

/// The value stored for a key during the exercise loops: the word
/// "value" followed by three copies of the key's decimal digits.
pub open spec fn exercise_value(key: u64) -> Seq<char> {
    "value"@ + decimal_digits(key as nat) + decimal_digits(key as nat) + decimal_digits(
        key as nat,
    )
}

/// The map taking every key below `n` to its exercise value.
pub open spec fn exercise_entries(n: nat) -> Map<u64, Seq<char>> {
    Map::new(|k: u64| k < n, |k: u64| exercise_value(k))
}

/// The set of all keys below `n`.
pub open spec fn keys_below(n: nat) -> Set<u64> {
    Set::new(|k: u64| k < n)
}

/// A store filled with the keys below `n` holds exactly `n` entries, so
/// enumerating it after a bulk fill from empty yields exactly `n` pairs.
pub proof fn lemma_exercise_entries_count(n: nat)
    requires
        n <= u64::MAX,
    ensures
        exercise_entries(n).dom().finite(),
        exercise_entries(n).dom().len() == n,
    decreases n,
{
    if n == 0 {
        assert(exercise_entries(0).dom() =~= Set::<u64>::empty());
    } else {
        let m = (n - 1) as nat;
        lemma_exercise_entries_count(m);
        assert(exercise_entries(n).dom() =~= exercise_entries(m).dom().insert(m as u64));
        vstd::set::axiom_set_insert_len(exercise_entries(m).dom(), m as u64);
    }
}

/// Relies on `format!` with `u64`'s `Display`, which writes the number's
/// decimal digits with no leading zeros.
#[verifier::external_body]
fn render_exercise_value(key: u64) -> (r: String)
    ensures
        r@ == exercise_value(key),
{
    format!("value{}{}{}", key, key, key)
}

/// A requested iteration count of at most 1000 is taken as unreasonable
/// and replaced by a large default; any other request is kept as is.
pub fn effective_iterations(requested: i32) -> (n: i32)
    ensures
        requested <= 1000 ==> n == 100_000_000,
        requested > 1000 ==> n == requested,
{
    if requested <= 1000 {
        100_000_000
    } else {
        requested
    }
}

/// Sets every key in `0 .. count` to its exercise value. Keys at or
/// above `count` keep whatever entry they had.
pub fn fill_range(s: &mut Storage, count: u64)
    ensures
        final(s)@ == old(s)@.union_prefer_right(exercise_entries(count as nat)),
        forall|k: u64|
            final(s)@.contains_key(k) <==> (k < count || #[trigger] old(s)@.contains_key(k)),
        forall|k: u64| k < count ==> final(s)@[k] == exercise_value(k),
        forall|k: u64|
            k >= count && #[trigger] old(s)@.contains_key(k) ==> final(s)@[k] == old(s)@[k],
{
    let mut i: u64 = 0;
    while i < count
        invariant
            i <= count,
            s@ == old(s)@.union_prefer_right(exercise_entries(i as nat)),
        decreases count - i,
    {
        let v = render_exercise_value(i);
        s.set(i, v);
        proof {
            assert(s@ =~= old(s)@.union_prefer_right(exercise_entries((i + 1) as nat)));
        }
        i = i + 1;
    }
}

/// Looks up every key in `0 .. count`, reporting whether all were
/// present. The store is not changed.
pub fn lookup_range(s: &Storage, count: u64) -> (ok: bool)
    ensures
        ok == (forall|k: u64| k < count ==> #[trigger] s@.contains_key(k)),
{
    let mut i: u64 = 0;
    let mut ok: bool = true;
    while i < count
        invariant
            i <= count,
            ok == (forall|k: u64| k < i ==> #[trigger] s@.contains_key(k)),
        decreases count - i,
    {
        if s.get(&i).is_none() {
            ok = false;
        }
        i = i + 1;
    }
    ok
}

/// Removes every key in `0 .. count` that is present, looking each up
/// first and skipping the absent ones. Keys at or above `count` keep
/// whatever entry they had.
pub fn drain_range(s: &mut Storage, count: u64)
    ensures
        final(s)@ == old(s)@.remove_keys(keys_below(count as nat)),
        forall|k: u64|
            final(s)@.contains_key(k) <==> (k >= count && #[trigger] old(s)@.contains_key(k)),
        forall|k: u64|
            k >= count && #[trigger] old(s)@.contains_key(k) ==> final(s)@[k] == old(s)@[k],
{
    let mut i: u64 = 0;
    while i < count
        invariant
            i <= count,
            s@ == old(s)@.remove_keys(keys_below(i as nat)),
        decreases count - i,
    {
        if s.get(&i).is_some() {
            s.remove(i);
        }
        proof {
            assert(s@ =~= old(s)@.remove_keys(keys_below((i + 1) as nat)));
        }
        i = i + 1;
    }
}

} // verus!
