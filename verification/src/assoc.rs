//! Association lists with view-distinct keys: the backing store of every
//! mapping in this crate (environment registry, protected mapping, handler
//! table).  The list of pairs is the executable representation; the
//! abstract value is the `Map` from key views to values, with later entries
//! shadowing earlier ones — though with unique keys nothing is ever
//! shadowed.

use vstd::prelude::*;

verus! {

/// The map an association list denotes.
pub open spec fn assoc_map<K: View, V>(s: Seq<(K, V)>) -> Map<<K as View>::V, V>
    decreases s.len(),
{
    if s.len() == 0 {
        Map::empty()
    } else {
        assoc_map(s.drop_last()).insert(s.last().0@, s.last().1)
    }
}

/// No two entries share a key view.
pub open spec fn unique_keys<K: View, V>(s: Seq<(K, V)>) -> bool {
    forall|i: int, j: int| 0 <= i < j < s.len() ==> (#[trigger] s[i]).0@ != (#[trigger] s[j]).0@
}

/// A key view is in the map exactly when some entry carries it.
pub proof fn lemma_assoc_map_contains<K: View, V>(s: Seq<(K, V)>, k: <K as View>::V)
    ensures
        assoc_map(s).contains_key(k) <==> exists|i: int|
            0 <= i < s.len() && (#[trigger] s[i]).0@ == k,
    decreases s.len(),
{
    if s.len() > 0 {
        lemma_assoc_map_contains(s.drop_last(), k);
        if s.last().0@ == k {
            assert((s[s.len() - 1]).0@ == k);
        } else if assoc_map(s).contains_key(k) {
            let i = choose|i: int| 0 <= i < s.drop_last().len() && (#[trigger] s.drop_last()[i]).0@
                == k;
            assert((s[i]).0@ == k);
        } else {
            assert forall|i: int| 0 <= i < s.len() implies (#[trigger] s[i]).0@ != k by {
                if i < s.len() - 1 {
                    assert(s.drop_last()[i] == s[i]);
                }
            }
        }
    }
}

/// With unique keys, the entry at `i` is what the map holds for its key.
pub proof fn lemma_assoc_map_index<K: View, V>(s: Seq<(K, V)>, i: int)
    requires
        unique_keys(s),
        0 <= i < s.len(),
    ensures
        assoc_map(s).contains_key((s[i]).0@),
        assoc_map(s)[(s[i]).0@] == (s[i]).1,
    decreases s.len(),
{
    if i == s.len() - 1 {
    } else {
        assert(s.drop_last()[i] == s[i]);
        lemma_assoc_map_index(s.drop_last(), i);
    }
}

/// Appending a pair denotes inserting its key view.
pub proof fn lemma_assoc_map_push<K: View, V>(s: Seq<(K, V)>, k: K, v: V)
    ensures
        assoc_map(s.push((k, v))) == assoc_map(s).insert(k@, v),
{
    assert(s.push((k, v)).drop_last() =~= s);
}

/// Replacing the entry at `i` by a pair with the same key view denotes
/// inserting the new value for that key, and keeps the keys unique.
pub proof fn lemma_assoc_map_update<K: View, V>(s: Seq<(K, V)>, i: int, p: (K, V))
    requires
        unique_keys(s),
        0 <= i < s.len(),
        p.0@ == (s[i]).0@,
    ensures
        unique_keys(s.update(i, p)),
        assoc_map(s.update(i, p)) == assoc_map(s).insert((s[i]).0@, p.1),
    decreases s.len(),
{
    let t = s.update(i, p);
    assert forall|a: int, b: int| 0 <= a < b < t.len() implies (#[trigger] t[a]).0@ != (
    #[trigger] t[b]).0@ by {
        assert((s[a]).0@ != (s[b]).0@);
    }
    if i == s.len() - 1 {
        assert(t.drop_last() =~= s.drop_last());
        assert(assoc_map(t) =~= assoc_map(s).insert((s[i]).0@, p.1));
    } else {
        assert(t.drop_last() =~= s.drop_last().update(i, p));
        assert(s.drop_last()[i] == s[i]);
        lemma_assoc_map_update(s.drop_last(), i, p);
        assert(t.last() == s.last());
        assert(assoc_map(t) == assoc_map(s.drop_last()).insert((s[i]).0@, p.1).insert(
            s.last().0@,
            s.last().1,
        ));
        assert((s[i]).0@ != s.last().0@);
        assert(assoc_map(t) =~= assoc_map(s).insert((s[i]).0@, p.1));
    }
}

/// Removing the entry at `i` denotes removing its key view, and keeps the
/// keys unique.
pub proof fn lemma_assoc_map_remove<K: View, V>(s: Seq<(K, V)>, i: int)
    requires
        unique_keys(s),
        0 <= i < s.len(),
    ensures
        unique_keys(s.remove(i)),
        assoc_map(s.remove(i)) == assoc_map(s).remove((s[i]).0@),
    decreases s.len(),
{
    let t = s.remove(i);
    assert forall|a: int, b: int| 0 <= a < b < t.len() implies (#[trigger] t[a]).0@ != (
    #[trigger] t[b]).0@ by {
        let sa = if a < i {
            a
        } else {
            a + 1
        };
        let sb = if b < i {
            b
        } else {
            b + 1
        };
        assert(t[a] == s[sa] && t[b] == s[sb]);
        assert((s[sa]).0@ != (s[sb]).0@);
    }
    if i == s.len() - 1 {
        assert(t =~= s.drop_last());
        lemma_assoc_map_contains(s.drop_last(), (s[i]).0@);
        assert forall|n: int| 0 <= n < s.drop_last().len() implies (#[trigger] s.drop_last()[n]).0@
            != (s[i]).0@ by {
            assert(s.drop_last()[n] == s[n]);
        }
        assert(assoc_map(t) =~= assoc_map(s).remove((s[i]).0@));
    } else {
        assert(t.drop_last() =~= s.drop_last().remove(i));
        assert(s.drop_last()[i] == s[i]);
        lemma_assoc_map_remove(s.drop_last(), i);
        assert(t.last() == s.last());
        assert((s[i]).0@ != s.last().0@);
        assert(assoc_map(t) == assoc_map(s.drop_last()).remove((s[i]).0@).insert(
            s.last().0@,
            s.last().1,
        ));
        assert(assoc_map(t) =~= assoc_map(s).remove((s[i]).0@));
    }
}

/// With unique keys the denoted map has exactly one key per entry.
pub proof fn lemma_assoc_map_dom_len<K: View, V>(s: Seq<(K, V)>)
    requires
        unique_keys(s),
    ensures
        assoc_map(s).dom().finite(),
        assoc_map(s).dom().len() == s.len(),
    decreases s.len(),
{
    if s.len() > 0 {
        lemma_assoc_map_dom_len(s.drop_last());
        lemma_assoc_map_contains(s.drop_last(), s.last().0@);
        assert forall|n: int| 0 <= n < s.drop_last().len() implies (#[trigger] s.drop_last()[n]).0@
            != s.last().0@ by {
            assert(s.drop_last()[n] == s[n]);
            assert((s[n]).0@ != (s[s.len() - 1]).0@);
        }
        assert(!assoc_map(s.drop_last()).contains_key(s.last().0@));
    }
}

} // verus!
