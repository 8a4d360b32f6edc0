//! Verified string-keyed association lists.
//!
//! Both maps of the resolution engine (the provider catalog and the custom
//! server map) are kept as vectors of `(String, value)` pairs with pairwise
//! distinct keys, and are abstracted in specifications as a
//! `Map<Seq<char>, value view>`.

use vstd::prelude::*;

use crate::strutil::str_eq;

verus! {

/// No two pairs of `l` carry the same key.
pub open spec fn keys_distinct<T>(l: Seq<(String, T)>) -> bool {
    forall|i: int, j: int| 0 <= i < j < l.len() ==> (#[trigger] l[i]).0@ != (#[trigger] l[j]).0@
}

/// The map described by an association list; a later pair with the same key
/// wins over an earlier one.
pub open spec fn assoc_map<T: View>(l: Seq<(String, T)>) -> Map<Seq<char>, T::V>
    decreases l.len(),
{
    if l.len() == 0 {
        Map::empty()
    } else {
        assoc_map(l.drop_last()).insert(l.last().0@, l.last().1@)
    }
}

/// Every key of a pair of the list is a key of its map.
pub proof fn lemma_assoc_contains_of_index<T: View>(l: Seq<(String, T)>, i: int)
    requires
        0 <= i < l.len(),
    ensures
        assoc_map(l).contains_key(l[i].0@),
    decreases l.len(),
{
    if i < l.len() - 1 {
        lemma_assoc_contains_of_index(l.drop_last(), i);
    }
}

/// With distinct keys, the map sends the key of each pair to that pair's
/// value.
pub proof fn lemma_assoc_index<T: View>(l: Seq<(String, T)>, i: int)
    requires
        keys_distinct(l),
        0 <= i < l.len(),
    ensures
        assoc_map(l).contains_key(l[i].0@),
        assoc_map(l)[l[i].0@] == l[i].1@,
    decreases l.len(),
{
    lemma_assoc_contains_of_index(l, i);
    if i < l.len() - 1 {
        lemma_assoc_index(l.drop_last(), i);
    }
}

/// A key carried by no pair of the list is not a key of its map.
pub proof fn lemma_assoc_not_contains<T: View>(l: Seq<(String, T)>, k: Seq<char>)
    requires
        forall|i: int| 0 <= i < l.len() ==> (#[trigger] l[i]).0@ != k,
    ensures
        !assoc_map(l).contains_key(k),
    decreases l.len(),
{
    if l.len() > 0 {
        lemma_assoc_not_contains(l.drop_last(), k);
    }
}

/// Every key of the map is the key of some pair of the list.
pub proof fn lemma_assoc_contains_key_index<T: View>(l: Seq<(String, T)>, k: Seq<char>)
    requires
        assoc_map(l).contains_key(k),
    ensures
        exists|i: int| 0 <= i < l.len() && (#[trigger] l[i]).0@ == k,
    decreases l.len(),
{
    if l.len() > 0 {
        if l.last().0@ == k {
            assert(l[l.len() - 1].0@ == k);
        } else {
            lemma_assoc_contains_key_index(l.drop_last(), k);
            let i = choose|i: int|
                0 <= i < l.drop_last().len() && (#[trigger] l.drop_last()[i]).0@ == k;
            assert(l[i].0@ == k);
        }
    }
}

/// Appending a pair inserts its key/value into the map.
pub proof fn lemma_assoc_push<T: View>(l: Seq<(String, T)>, p: (String, T))
    ensures
        assoc_map(l.push(p)) == assoc_map(l).insert(p.0@, p.1@),
{
    assert(l.push(p).drop_last() =~= l);
    assert(l.push(p).last() == p);
}

/// Overwriting the pair whose key is `p.0@` in place also just inserts into
/// the map, provided keys are distinct.
pub proof fn lemma_assoc_update<T: View>(l: Seq<(String, T)>, i: int, p: (String, T))
    requires
        keys_distinct(l),
        0 <= i < l.len(),
        l[i].0@ == p.0@,
    ensures
        assoc_map(l.update(i, p)) == assoc_map(l).insert(p.0@, p.1@),
    decreases l.len(),
{
    let u = l.update(i, p);
    if i == l.len() - 1 {
        assert(u.drop_last() =~= l.drop_last());
        assert(u.last() == p);
        assert(assoc_map(l.drop_last()).insert(l.last().0@, l.last().1@).insert(p.0@, p.1@)
            =~= assoc_map(l.drop_last()).insert(p.0@, p.1@));
    } else {
        assert(u.drop_last() =~= l.drop_last().update(i, p));
        assert(u.last() == l.last());
        lemma_assoc_update(l.drop_last(), i, p);
        assert(l.last().0@ != p.0@);
        assert(assoc_map(l.drop_last()).insert(p.0@, p.1@).insert(l.last().0@, l.last().1@)
            =~= assoc_map(l.drop_last()).insert(l.last().0@, l.last().1@).insert(p.0@, p.1@));
    }
}

/// `r` lists, as pairs and in some order, exactly the entries of the map
/// `m` other than the one under the key `excl`, each exactly once.
pub open spec fn listing_of<T: View>(
    r: Seq<(String, T)>,
    m: Map<Seq<char>, T::V>,
    excl: Seq<char>,
) -> bool {
    &&& forall|i: int|
        0 <= i < r.len() ==> (#[trigger] r[i]).0@ != excl && m.contains_key(r[i].0@) && r[i].1@
            == m[r[i].0@]
    &&& forall|k: Seq<char>|
        #[trigger] m.contains_key(k) && k != excl ==> exists|i: int|
            0 <= i < r.len() && (#[trigger] r[i]).0@ == k
    &&& keys_distinct(r)
}

/// Look a key up in an association list, returning a reference to the value
/// of the single pair that carries it.
pub fn kv_get<'a, T: View>(l: &'a Vec<(String, T)>, key: &str) -> (r: Option<&'a T>)
    requires
        keys_distinct(l@),
    ensures
        match r {
            Some(v) => assoc_map(l@).contains_key(key@) && v@ == assoc_map(l@)[key@],
            None => !assoc_map(l@).contains_key(key@),
        },
{
    let n = l.len();
    let mut i: usize = 0;
    while i < n
        invariant
            keys_distinct(l@),
            n == l@.len(),
            i <= n,
            forall|j: int| 0 <= j < i ==> (#[trigger] l@[j]).0@ != key@,
        decreases n - i,
    {
        if str_eq(l[i].0.as_str(), key) {
            proof {
                lemma_assoc_index(l@, i as int);
            }
            return Some(&l[i].1);
        }
        i = i + 1;
    }
    proof {
        lemma_assoc_not_contains(l@, key@);
    }
    None
}

/// Insert a key/value pair, overwriting in place if the key is present.
pub fn kv_insert<T: View>(l: &mut Vec<(String, T)>, key: String, value: T)
    requires
        keys_distinct(old(l)@),
    ensures
        keys_distinct(final(l)@),
        assoc_map(final(l)@) == assoc_map(old(l)@).insert(key@, value@),
{
    let n = l.len();
    let mut i: usize = 0;
    while i < n
        invariant
            keys_distinct(l@),
            l@ == old(l)@,
            n == l@.len(),
            i <= n,
            forall|j: int| 0 <= j < i ==> (#[trigger] l@[j]).0@ != key@,
        decreases n - i,
    {
        if str_eq(l[i].0.as_str(), key.as_str()) {
            proof {
                lemma_assoc_update(l@, i as int, (key, value));
            }
            l.set(i, (key, value));
            proof {
                assert forall|a: int, b: int| 0 <= a < b < l@.len() implies (#[trigger] l@[a]).0@
                    != (#[trigger] l@[b]).0@ by {
                    assert(old(l)@[a].0@ != old(l)@[b].0@);
                }
            }
            return;
        }
        i = i + 1;
    }
    proof {
        lemma_assoc_push(l@, (key, value));
    }
    l.push((key, value));
    proof {
        assert forall|a: int, b: int| 0 <= a < b < l@.len() implies (#[trigger] l@[a]).0@
            != (#[trigger] l@[b]).0@ by {
            if b < l@.len() - 1 {
                assert(old(l)@[a].0@ != old(l)@[b].0@);
            } else {
                assert(old(l)@[a].0@ != key@);
            }
        }
    }
}

} // verus!
