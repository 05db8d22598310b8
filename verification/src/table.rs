//! String-keyed association lists: the common backing for inventories,
//! skill tables, price tables and the item registry.  Keys are compared by
//! their character sequences and are kept unique.

use vstd::prelude::*;

verus! {

use crate::text::str_eq;

/// The value stored under `key`, if any.
pub open spec fn spec_assoc_find<V>(s: Seq<(String, V)>, key: Seq<char>) -> Option<V>
    decreases s.len(),
{
    if s.len() == 0 {
        None
    } else if s[0].0@ == key {
        Some(s[0].1)
    } else {
        spec_assoc_find(s.skip(1), key)
    }
}

/// No two entries share a key.
pub open spec fn assoc_unique<V>(s: Seq<(String, V)>) -> bool {
    forall|i: int, j: int| 0 <= i < j < s.len() ==> (#[trigger] s[i]).0@ != (#[trigger] s[j]).0@
}

/// Find the index of `key`, scanning from the front.
pub fn assoc_find_index<V>(s: &Vec<(String, V)>, key: &str) -> (r: Option<usize>)
    ensures
        match r {
            Some(i) => i < s@.len() && s@[i as int].0@ == key@ && (forall|j: int|
                0 <= j < i ==> (#[trigger] s@[j]).0@ != key@),
            None => forall|j: int| 0 <= j < s@.len() ==> (#[trigger] s@[j]).0@ != key@,
        },
{
    let n = s.len();
    let mut i: usize = 0;
    while i < n
        invariant
            n == s@.len(),
            i <= n,
            forall|j: int| 0 <= j < i ==> (#[trigger] s@[j]).0@ != key@,
        decreases n - i,
    {
        if str_eq(s[i].0.as_str(), key) {
            return Some(i);
        }
        i = i + 1;
    }
    None
}

/// If `key` first occurs at index `i`, the find returns that entry's value.
pub proof fn lemma_assoc_find_at_index<V>(s: Seq<(String, V)>, key: Seq<char>, i: int)
    requires
        0 <= i < s.len(),
        s[i].0@ == key,
        forall|j: int| 0 <= j < i ==> (#[trigger] s[j]).0@ != key,
    ensures
        spec_assoc_find(s, key) == Some(s[i].1),
    decreases i,
{
    if i > 0 {
        lemma_assoc_find_at_index(s.skip(1), key, i - 1);
    }
}

/// If no entry carries `key`, the find returns nothing.
pub proof fn lemma_assoc_find_not_present<V>(s: Seq<(String, V)>, key: Seq<char>)
    requires
        forall|j: int| 0 <= j < s.len() ==> (#[trigger] s[j]).0@ != key,
    ensures
        spec_assoc_find(s, key) == None::<V>,
    decreases s.len(),
{
    if s.len() > 0 {
        lemma_assoc_find_not_present(s.skip(1), key);
    }
}

/// Replacing the entry at index `i` with one carrying an equal-view key
/// changes that key's binding and no other, and keeps keys unique.
pub proof fn lemma_assoc_update<V>(s: Seq<(String, V)>, i: int, key: String, v: V)
    requires
        assoc_unique(s),
        0 <= i < s.len(),
        key@ == s[i].0@,
    ensures
        assoc_unique(s.update(i, (key, v))),
        spec_assoc_find(s.update(i, (key, v)), s[i].0@) == Some(v),
        forall|k: Seq<char>|
            k != s[i].0@ ==> spec_assoc_find(s.update(i, (key, v)), k) == spec_assoc_find(s, k),
    decreases i,
{
    let s2 = s.update(i, (key, v));
    assert(forall|m: int| 0 <= m < s.len() && m != i ==> s2[m] == s[m]);
    assert(s2[i].0@ == s[i].0@);
    if i == 0 {
        assert(s2.skip(1) =~= s.skip(1));
        assert(spec_assoc_find(s2, s[0].0@) == Some(v));
        assert forall|k: Seq<char>| k != s[0].0@ implies spec_assoc_find(s2, k) == spec_assoc_find(
            s,
            k,
        ) by {
            assert(spec_assoc_find(s2, k) == spec_assoc_find(s2.skip(1), k));
            assert(spec_assoc_find(s, k) == spec_assoc_find(s.skip(1), k));
        }
    } else {
        assert(s2.skip(1) =~= s.skip(1).update(i - 1, (key, v)));
        lemma_assoc_update(s.skip(1), i - 1, key, v);
        assert(s2[0] == s[0]);
        assert(s[i].0@ != s[0].0@);
        assert(spec_assoc_find(s2, s[i].0@) == spec_assoc_find(s2.skip(1), s[i].0@));
        assert forall|k: Seq<char>| k != s[i].0@ implies spec_assoc_find(s2, k) == spec_assoc_find(
            s,
            k,
        ) by {
            if k == s[0].0@ {
            } else {
                assert(spec_assoc_find(s2, k) == spec_assoc_find(s2.skip(1), k));
                assert(spec_assoc_find(s, k) == spec_assoc_find(s.skip(1), k));
            }
        }
    }
}

/// Removing the entry at index `i` unbinds that key and no other, and
/// keeps keys unique.
pub proof fn lemma_assoc_remove<V>(s: Seq<(String, V)>, i: int)
    requires
        assoc_unique(s),
        0 <= i < s.len(),
    ensures
        assoc_unique(s.remove(i)),
        spec_assoc_find(s.remove(i), s[i].0@) == None::<V>,
        forall|k: Seq<char>|
            k != s[i].0@ ==> spec_assoc_find(s.remove(i), k) == spec_assoc_find(s, k),
    decreases i,
{
    let s2 = s.remove(i);
    assert(forall|m: int| 0 <= m < i ==> s2[m] == s[m]);
    assert(forall|m: int| i <= m < s2.len() ==> s2[m] == s[m + 1]);
    if i == 0 {
        assert(s2 =~= s.skip(1));
        assert forall|j: int| 0 <= j < s2.len() implies (#[trigger] s2[j]).0@ != s[0].0@ by {
            assert(s2[j] == s[j + 1]);
        }
        lemma_assoc_find_not_present(s2, s[0].0@);
        assert forall|k: Seq<char>| k != s[0].0@ implies spec_assoc_find(s2, k) == spec_assoc_find(
            s,
            k,
        ) by {
            assert(spec_assoc_find(s, k) == spec_assoc_find(s.skip(1), k));
        }
    } else {
        assert(s2.skip(1) =~= s.skip(1).remove(i - 1));
        lemma_assoc_remove(s.skip(1), i - 1);
        assert(s2[0] == s[0]);
        assert(s[i].0@ != s[0].0@);
        assert(spec_assoc_find(s2, s[i].0@) == spec_assoc_find(s2.skip(1), s[i].0@));
        assert forall|k: Seq<char>| k != s[i].0@ implies spec_assoc_find(s2, k) == spec_assoc_find(
            s,
            k,
        ) by {
            if k == s[0].0@ {
            } else {
                assert(spec_assoc_find(s2, k) == spec_assoc_find(s2.skip(1), k));
                assert(spec_assoc_find(s, k) == spec_assoc_find(s.skip(1), k));
            }
        }
    }
}

/// Appending a new key binds it and no other, and keeps keys unique.
pub proof fn lemma_assoc_push<V>(s: Seq<(String, V)>, key: String, v: V)
    requires
        assoc_unique(s),
        forall|j: int| 0 <= j < s.len() ==> (#[trigger] s[j]).0@ != key@,
    ensures
        assoc_unique(s.push((key, v))),
        spec_assoc_find(s.push((key, v)), key@) == Some(v),
        forall|k: Seq<char>|
            k != key@ ==> spec_assoc_find(s.push((key, v)), k) == spec_assoc_find(s, k),
    decreases s.len(),
{
    let s2 = s.push((key, v));
    if s.len() == 0 {
        assert(s2[0] == (key, v));
        assert(s2.skip(1) =~= Seq::<(String, V)>::empty());
        assert forall|k: Seq<char>| k != key@ implies spec_assoc_find(s2, k) == spec_assoc_find(
            s,
            k,
        ) by {
            assert(spec_assoc_find(s2, k) == spec_assoc_find(s2.skip(1), k));
        }
    } else {
        assert(s2[0] == s[0]);
        assert(s2.skip(1) =~= s.skip(1).push((key, v)));
        lemma_assoc_push(s.skip(1), key, v);
        assert(spec_assoc_find(s2, key@) == spec_assoc_find(s2.skip(1), key@));
        assert forall|k: Seq<char>| k != key@ implies spec_assoc_find(s2, k) == spec_assoc_find(
            s,
            k,
        ) by {
            if k == s[0].0@ {
            } else {
                assert(spec_assoc_find(s2, k) == spec_assoc_find(s2.skip(1), k));
                assert(spec_assoc_find(s, k) == spec_assoc_find(s.skip(1), k));
            }
        }
    }
}

} // verus!
