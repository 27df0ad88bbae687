//! Association lists keyed by login key.
//!
//! The coordinator's table of outbound channels and the input mailbox both map
//! login keys to values. They store the entries as a vector of pairs with
//! pairwise distinct keys; their contracts speak of the `Map` that such a list
//! denotes, with each stored value read through its view.

use vstd::prelude::*;

verus! {

/// The keys of `s`, read as character sequences, are pairwise distinct.
pub open spec fn assoc_wf<V>(s: Seq<(String, V)>) -> bool {
    forall|i: int, j: int| 0 <= i < j < s.len() ==> s[i].0@ != s[j].0@
}

/// The mapping denoted by the association list `s`, with each stored value
/// read through its view. A later entry overrides an earlier one with the
/// same key; under [`assoc_wf`] no two entries share a key.
pub open spec fn assoc_map<V: View>(s: Seq<(String, V)>) -> Map<Seq<char>, V::V>
    decreases s.len(),
{
    if s.len() == 0 {
        Map::empty()
    } else {
        assoc_map(s.drop_last()).insert(s.last().0@, s.last().1@)
    }
}

/// A key is in the denoted map exactly when some entry carries it.
pub proof fn lemma_assoc_map_contains<V: View>(s: Seq<(String, V)>, k: Seq<char>)
    ensures
        assoc_map(s).contains_key(k) <==> exists|i: int| 0 <= i < s.len() && s[i].0@ == k,
    decreases s.len(),
{
    if s.len() > 0 {
        lemma_assoc_map_contains(s.drop_last(), k);
        if assoc_map(s).contains_key(k) {
            if s.last().0@ == k {
                assert(s[s.len() - 1].0@ == k);
            } else {
                let i = choose|i: int| 0 <= i < s.drop_last().len() && s.drop_last()[i].0@ == k;
                assert(s[i].0@ == k);
            }
        }
        if exists|i: int| 0 <= i < s.len() && s[i].0@ == k {
            let i = choose|i: int| 0 <= i < s.len() && s[i].0@ == k;
            if i < s.len() - 1 {
                assert(s.drop_last()[i].0@ == k);
            }
        }
    }
}

/// Under distinct keys, the entry at `i` is what the denoted map holds at its key.
pub proof fn lemma_assoc_map_index<V: View>(s: Seq<(String, V)>, i: int)
    requires
        assoc_wf(s),
        0 <= i < s.len(),
    ensures
        assoc_map(s).contains_key(s[i].0@),
        assoc_map(s)[s[i].0@] == s[i].1@,
    decreases s.len(),
{
    if i < s.len() - 1 {
        assert(assoc_wf(s.drop_last()));
        lemma_assoc_map_index(s.drop_last(), i);
        assert(s.drop_last()[i] == s[i]);
        assert(s[i].0@ != s.last().0@);
    }
}

/// Replacing the entry at `i` by a pair with the same key updates the denoted
/// map at that key and keeps the keys distinct.
pub proof fn lemma_assoc_map_update<V: View>(s: Seq<(String, V)>, i: int, p: (String, V))
    requires
        assoc_wf(s),
        0 <= i < s.len(),
        p.0@ == s[i].0@,
    ensures
        assoc_wf(s.update(i, p)),
        assoc_map(s.update(i, p)) == assoc_map(s).insert(p.0@, p.1@),
    decreases s.len(),
{
    let s2 = s.update(i, p);
    assert forall|x: int, y: int| 0 <= x < y < s2.len() implies s2[x].0@ != s2[y].0@ by {
        assert(s[x].0@ != s[y].0@);
    }
    if i == s.len() - 1 {
        assert(s2.drop_last() =~= s.drop_last());
        assert(s2.last() == p);
        assert(assoc_map(s2) =~= assoc_map(s).insert(p.0@, p.1@));
    } else {
        assert(assoc_wf(s.drop_last()));
        lemma_assoc_map_update(s.drop_last(), i, p);
        assert(s2.drop_last() =~= s.drop_last().update(i, p));
        assert(s2.last() == s.last());
        assert(p.0@ != s.last().0@);
        assert(assoc_map(s2) =~= assoc_map(s).insert(p.0@, p.1@));
    }
}

/// Removing the entry at `i` removes its key from the denoted map and keeps
/// the keys distinct.
pub proof fn lemma_assoc_map_remove<V: View>(s: Seq<(String, V)>, i: int)
    requires
        assoc_wf(s),
        0 <= i < s.len(),
    ensures
        assoc_wf(s.remove(i)),
        assoc_map(s.remove(i)) == assoc_map(s).remove(s[i].0@),
    decreases s.len(),
{
    let s2 = s.remove(i);
    assert forall|x: int, y: int| 0 <= x < y < s2.len() implies s2[x].0@ != s2[y].0@ by {
        if x < i && y < i {
            assert(s2[x] == s[x] && s2[y] == s[y]);
        } else if x < i {
            assert(s2[x] == s[x] && s2[y] == s[y + 1]);
        } else {
            assert(s2[x] == s[x + 1] && s2[y] == s[y + 1]);
        }
    }
    if i == s.len() - 1 {
        assert(s2 =~= s.drop_last());
        lemma_assoc_map_contains(s.drop_last(), s[i].0@);
        assert forall|j: int| 0 <= j < s.drop_last().len() implies s.drop_last()[j].0@ != s[i].0@
            by {
            assert(s.drop_last()[j] == s[j]);
        }
        assert(!assoc_map(s.drop_last()).contains_key(s[i].0@));
        assert(assoc_map(s2) =~= assoc_map(s).remove(s[i].0@));
    } else {
        assert(assoc_wf(s.drop_last()));
        lemma_assoc_map_remove(s.drop_last(), i);
        assert(s2.drop_last() =~= s.drop_last().remove(i));
        assert(s2.last() == s.last());
        assert(s[i].0@ != s.last().0@);
        assert(assoc_map(s2) =~= assoc_map(s).remove(s[i].0@));
    }
}

/// Appending an entry with a fresh key inserts it into the denoted map and
/// keeps the keys distinct.
pub proof fn lemma_assoc_map_push<V: View>(s: Seq<(String, V)>, p: (String, V))
    requires
        assoc_wf(s),
        forall|i: int| 0 <= i < s.len() ==> s[i].0@ != p.0@,
    ensures
        assoc_wf(s.push(p)),
        assoc_map(s.push(p)) == assoc_map(s).insert(p.0@, p.1@),
{
    let s2 = s.push(p);
    assert forall|x: int, y: int| 0 <= x < y < s2.len() implies s2[x].0@ != s2[y].0@ by {
        if y < s.len() {
            assert(s2[x] == s[x] && s2[y] == s[y]);
        } else {
            assert(s2[x] == s[x] && s2[y] == p);
        }
    }
    assert(s2.drop_last() =~= s);
    assert(s2.last() == p);
}

/// The index of the entry that carries `key`, if one does.
pub(crate) fn assoc_find<V>(s: &Vec<(String, V)>, key: &String) -> (r: Option<usize>)
    ensures
        match r {
            Some(i) => i < s@.len() && s@[i as int].0@ == key@,
            None => forall|i: int| 0 <= i < s@.len() ==> s@[i].0@ != key@,
        },
{
    let mut i: usize = 0;
    while i < s.len()
        invariant
            i <= s@.len(),
            forall|j: int| 0 <= j < i ==> s@[j].0@ != key@,
        decreases s@.len() - i,
    {
        if s[i].0 == *key {
            return Some(i);
        }
        i += 1;
    }
    None
}

} // verus!
