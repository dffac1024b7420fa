//! Association tables keyed by identifier or by numeric id.
//!
//! The compiler's registries are small append-only tables; a lookup returns
//! the most recently inserted entry for a key, so appending acts as
//! insert-or-overwrite.

use crate::text::str_eq;
use vstd::prelude::*;

verus! {

/// The value of the most recent entry for `k`, if any.
pub open spec fn assoc_find_str<V>(s: Seq<(String, V)>, k: Seq<char>) -> Option<V>
    decreases s.len(),
{
    if s.len() == 0 {
        None
    } else if s.last().0@ == k {
        Some(s.last().1)
    } else {
        assoc_find_str(s.drop_last(), k)
    }
}

/// The value of the most recent entry for `k`, if any.
pub open spec fn assoc_find_i64<V>(s: Seq<(i64, V)>, k: i64) -> Option<V>
    decreases s.len(),
{
    if s.len() == 0 {
        None
    } else if s.last().0 == k {
        Some(s.last().1)
    } else {
        assoc_find_i64(s.drop_last(), k)
    }
}

/// Looks `key` up in `entries`, newest entry first.
pub fn assoc_get_str<'a, V>(entries: &'a Vec<(String, V)>, key: &str) -> (r: Option<&'a V>)
    ensures
        match r {
            Some(x) => assoc_find_str(entries@, key@) == Some(*x),
            None => assoc_find_str(entries@, key@) is None,
        },
{
    let mut i: usize = entries.len();
    proof {
        assert(entries@.take(entries@.len() as int) =~= entries@);
    }
    while i > 0
        invariant
            i <= entries@.len(),
            assoc_find_str(entries@, key@) == assoc_find_str(entries@.take(i as int), key@),
        decreases i,
    {
        i = i - 1;
        proof {
            assert(entries@.take(i as int + 1).last() == entries@[i as int]);
            assert(entries@.take(i as int + 1).drop_last() =~= entries@.take(i as int));
        }
        if str_eq(entries[i].0.as_str(), key) {
            return Some(&entries[i].1);
        }
    }
    proof {
        assert(entries@.take(0) =~= Seq::<(String, V)>::empty());
    }
    None
}

/// Looks `key` up in `entries`, newest entry first.
pub fn assoc_get_i64<'a, V>(entries: &'a Vec<(i64, V)>, key: i64) -> (r: Option<&'a V>)
    ensures
        match r {
            Some(x) => assoc_find_i64(entries@, key) == Some(*x),
            None => assoc_find_i64(entries@, key) is None,
        },
{
    let mut i: usize = entries.len();
    proof {
        assert(entries@.take(entries@.len() as int) =~= entries@);
    }
    while i > 0
        invariant
            i <= entries@.len(),
            assoc_find_i64(entries@, key) == assoc_find_i64(entries@.take(i as int), key),
        decreases i,
    {
        i = i - 1;
        proof {
            assert(entries@.take(i as int + 1).last() == entries@[i as int]);
            assert(entries@.take(i as int + 1).drop_last() =~= entries@.take(i as int));
        }
        if entries[i].0 == key {
            return Some(&entries[i].1);
        }
    }
    proof {
        assert(entries@.take(0) =~= Seq::<(i64, V)>::empty());
    }
    None
}

/// Appending an entry makes it the one that lookups for its key return,
/// and leaves every other key's lookup unchanged.
pub proof fn lemma_assoc_push_str<V>(s: Seq<(String, V)>, entry: (String, V), k: Seq<char>)
    ensures
        entry.0@ == k ==> assoc_find_str(s.push(entry), k) == Some(entry.1),
        entry.0@ != k ==> assoc_find_str(s.push(entry), k) == assoc_find_str(s, k),
{
    assert(s.push(entry).last() == entry);
    assert(s.push(entry).drop_last() =~= s);
}

/// A successful lookup's value is carried by some entry with that key.
pub proof fn lemma_assoc_find_some_str<V>(s: Seq<(String, V)>, k: Seq<char>)
    requires
        assoc_find_str(s, k) is Some,
    ensures
        exists|i: int|
            0 <= i < s.len() && (#[trigger] s[i]).0@ == k && s[i].1 == assoc_find_str(s, k)->0,
    decreases s.len(),
{
    if s.len() > 0 {
        if s.last().0@ == k {
            assert(s[s.len() - 1].0@ == k && s[s.len() - 1].1 == assoc_find_str(s, k)->0);
        } else {
            lemma_assoc_find_some_str(s.drop_last(), k);
            let i = choose|i: int|
                0 <= i < s.drop_last().len() && (#[trigger] s.drop_last()[i]).0@ == k
                    && s.drop_last()[i].1 == assoc_find_str(s.drop_last(), k)->0;
            assert(s[i].0@ == k && s[i].1 == assoc_find_str(s, k)->0);
        }
    }
}

} // verus!
