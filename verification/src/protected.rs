//! The protected mapping that backs each environment's locals: a dictionary
//! from string keys to values, plus an auxiliary set of *protected* keys.
//! Writes and deletes that arrive through the mapping protocol — that is,
//! from code running inside the sandbox — fail on a protected key and leave
//! the binding untouched; the privileged path used by the host writes
//! straight to the dictionary and bypasses the check.  Reads, length and key
//! listing always delegate to the dictionary, so the object is
//! observationally a plain dictionary.
//!
//! Protection applies to string keys; in this model every key is a string.
//! Protecting a key that does not exist yet is permitted and takes effect
//! once the key appears.

use crate::assoc::{
    assoc_map, lemma_assoc_map_contains, lemma_assoc_map_dom_len, lemma_assoc_map_index,
    lemma_assoc_map_push, lemma_assoc_map_remove, lemma_assoc_map_update, unique_keys,
};
use vstd::prelude::*;
use vstd::string::StringExecFns;

verus! {

/// The set of key views a list of strings denotes.
pub open spec fn str_set(s: Seq<String>) -> Set<Seq<char>>
    decreases s.len(),
{
    if s.len() == 0 {
        Set::empty()
    } else {
        str_set(s.drop_last()).insert(s.last()@)
    }
}

/// No two strings in the list share a view.
pub open spec fn unique_strs(s: Seq<String>) -> bool {
    forall|i: int, j: int| 0 <= i < j < s.len() ==> (#[trigger] s[i])@ != (#[trigger] s[j])@
}

/// A view is in the set exactly when some string carries it.
pub proof fn lemma_str_set_contains(s: Seq<String>, k: Seq<char>)
    ensures
        str_set(s).contains(k) <==> exists|i: int| 0 <= i < s.len() && (#[trigger] s[i])@ == k,
    decreases s.len(),
{
    if s.len() > 0 {
        lemma_str_set_contains(s.drop_last(), k);
        if s.last()@ == k {
            assert((s[s.len() - 1])@ == k);
        } else if str_set(s).contains(k) {
            let i = choose|i: int| 0 <= i < s.drop_last().len() && (#[trigger] s.drop_last()[i])@
                == k;
            assert((s[i])@ == k);
        } else {
            assert forall|i: int| 0 <= i < s.len() implies (#[trigger] s[i])@ != k by {
                if i < s.len() - 1 {
                    assert(s.drop_last()[i] == s[i]);
                }
            }
        }
    }
}

/// Appending a string denotes inserting its view.
pub proof fn lemma_str_set_push(s: Seq<String>, x: String)
    ensures
        str_set(s.push(x)) == str_set(s).insert(x@),
{
    assert(s.push(x).drop_last() =~= s);
}

/// Removing the string at `i` denotes removing its view, and keeps the
/// list duplicate-free.
pub proof fn lemma_str_set_remove(s: Seq<String>, i: int)
    requires
        unique_strs(s),
        0 <= i < s.len(),
    ensures
        unique_strs(s.remove(i)),
        str_set(s.remove(i)) == str_set(s).remove((s[i])@),
    decreases s.len(),
{
    let t = s.remove(i);
    assert forall|a: int, b: int| 0 <= a < b < t.len() implies (#[trigger] t[a])@ != (
    #[trigger] t[b])@ by {
        let sa = if a < i {
            a
        } else {
            a + 1
        };
        let sb = if b < i {
            b
        } else {
            b + 1
        };
        assert(t[a] == s[sa] && t[b] == s[sb]);
        assert((s[sa])@ != (s[sb])@);
    }
    if i == s.len() - 1 {
        assert(t =~= s.drop_last());
        lemma_str_set_contains(s.drop_last(), (s[i])@);
        assert forall|n: int| 0 <= n < s.drop_last().len() implies (#[trigger] s.drop_last()[n])@
            != (s[i])@ by {
            assert(s.drop_last()[n] == s[n]);
        }
        assert(str_set(t) =~= str_set(s).remove((s[i])@));
    } else {
        assert(t.drop_last() =~= s.drop_last().remove(i));
        assert(s.drop_last()[i] == s[i]);
        lemma_str_set_remove(s.drop_last(), i);
        assert(t.last() == s.last());
        assert((s[i])@ != s.last()@);
        assert(str_set(t) == str_set(s.drop_last()).remove((s[i])@).insert(s.last()@));
        assert(str_set(t) =~= str_set(s).remove((s[i])@));
    }
}

/// Why a write or delete through the mapping protocol was refused.
#[derive(Clone, Copy, PartialEq, Eq, Structural, Debug)]
pub enum MapError {
    /// The key is in the protected set.
    ProtectedKey,
    /// A delete named a key the dictionary does not hold.
    MissingKey,
}

/// A dictionary with a protected-key set.  The view is the dictionary as a
/// map from key views to values; `protected_keys` is the auxiliary set.
#[derive(Debug)]
pub struct ProtectedMap<V> {
    entries: Vec<(String, V)>,
    protected: Vec<String>,
}

impl<V> View for ProtectedMap<V> {
    type V = Map<Seq<char>, V>;

    closed spec fn view(&self) -> Map<Seq<char>, V> {
        assoc_map(self.entries@)
    }
}

impl<V> ProtectedMap<V> {
    /// The set of protected key views.
    pub closed spec fn protected_keys(&self) -> Set<Seq<char>> {
        str_set(self.protected@)
    }

    /// The internal lists carry no duplicate keys.
    pub closed spec fn wf(&self) -> bool {
        unique_keys(self.entries@) && unique_strs(self.protected@)
    }

    /// An empty dictionary with nothing protected.
    pub fn new() -> (r: ProtectedMap<V>)
        ensures
            r.wf(),
            r@ == Map::<Seq<char>, V>::empty(),
            r.protected_keys() == Set::<Seq<char>>::empty(),
    {
        ProtectedMap { entries: Vec::new(), protected: Vec::new() }
    }

    /// Index of the entry holding `key`, if the dictionary holds it.
    fn find_entry(&self, key: &String) -> (r: Option<usize>)
        requires
            self.wf(),
        ensures
            match r {
                Some(i) => i < self.entries@.len() && (self.entries@[i as int]).0@ == key@
                    && self@.contains_key(key@) && self@[key@] == (self.entries@[i as int]).1,
                None => !self@.contains_key(key@),
            },
    {
        let mut i: usize = 0;
        while i < self.entries.len()
            invariant
                self.wf(),
                i <= self.entries@.len(),
                forall|n: int| 0 <= n < i ==> (#[trigger] self.entries@[n]).0@ != key@,
            decreases self.entries@.len() - i,
        {
            if self.entries[i].0 == *key {
                proof {
                    lemma_assoc_map_index(self.entries@, i as int);
                }
                return Some(i);
            }
            i += 1;
        }
        proof {
            lemma_assoc_map_contains(self.entries@, key@);
        }
        None
    }

    /// Look the key up in the dictionary.
    pub fn get(&self, key: &String) -> (r: Option<&V>)
        requires
            self.wf(),
        ensures
            match r {
                Some(v) => self@.contains_key(key@) && *v == self@[key@],
                None => !self@.contains_key(key@),
            },
    {
        match self.find_entry(key) {
            Some(i) => Some(&self.entries[i].1),
            None => None,
        }
    }

    /// Number of keys in the dictionary.
    pub fn len(&self) -> (r: usize)
        requires
            self.wf(),
        ensures
            r == self@.dom().len(),
    {
        proof {
            lemma_assoc_map_dom_len(self.entries@);
        }
        self.entries.len()
    }

    /// The keys of the dictionary, one string per key, in storage order.
    pub fn keys(&self) -> (r: Vec<String>)
        requires
            self.wf(),
        ensures
            r@.len() == self@.dom().len(),
            forall|i: int| 0 <= i < r@.len() ==> self@.contains_key((#[trigger] r@[i])@),
            forall|k: Seq<char>|
                self@.contains_key(k) ==> exists|i: int| 0 <= i < r@.len() && (#[trigger] r@[i])@
                    == k,
    {
        proof {
            lemma_assoc_map_dom_len(self.entries@);
        }
        let mut r: Vec<String> = Vec::new();
        let mut i: usize = 0;
        while i < self.entries.len()
            invariant
                self.wf(),
                i <= self.entries@.len(),
                r@.len() == i,
                forall|n: int| 0 <= n < i ==> (#[trigger] r@[n])@ == (self.entries@[n]).0@,
            decreases self.entries@.len() - i,
        {
            r.push(self.entries[i].0.clone());
            i += 1;
        }
        proof {
            assert forall|n: int| 0 <= n < r@.len() implies self@.contains_key(
                (#[trigger] r@[n])@,
            ) by {
                lemma_assoc_map_index(self.entries@, n);
            }
            assert forall|k: Seq<char>| self@.contains_key(k) implies exists|n: int|
                0 <= n < r@.len() && (#[trigger] r@[n])@ == k by {
                lemma_assoc_map_contains(self.entries@, k);
                let n = choose|n: int|
                    0 <= n < self.entries@.len() && (#[trigger] self.entries@[n]).0@ == k;
                assert((r@[n])@ == k);
            }
        }
        r
    }

    /// The currently protected keys, one string per key.
    pub fn protected_list(&self) -> (r: Vec<String>)
        requires
            self.wf(),
        ensures
            forall|i: int|
                0 <= i < r@.len() ==> self.protected_keys().contains((#[trigger] r@[i])@),
            forall|k: Seq<char>|
                self.protected_keys().contains(k) ==> exists|i: int|
                    0 <= i < r@.len() && (#[trigger] r@[i])@ == k,
    {
        let mut r: Vec<String> = Vec::new();
        let mut i: usize = 0;
        while i < self.protected.len()
            invariant
                self.wf(),
                i <= self.protected@.len(),
                r@.len() == i,
                forall|n: int| 0 <= n < i ==> (#[trigger] r@[n])@ == (self.protected@[n])@,
            decreases self.protected@.len() - i,
        {
            r.push(self.protected[i].clone());
            i += 1;
        }
        proof {
            assert forall|n: int| 0 <= n < r@.len() implies self.protected_keys().contains(
                (#[trigger] r@[n])@,
            ) by {
                lemma_str_set_contains(self.protected@, (r@[n])@);
            }
            assert forall|k: Seq<char>| self.protected_keys().contains(k) implies exists|n: int|
                0 <= n < r@.len() && (#[trigger] r@[n])@ == k by {
                lemma_str_set_contains(self.protected@, k);
                let n = choose|n: int|
                    0 <= n < self.protected@.len() && (#[trigger] self.protected@[n])@ == k;
                assert((r@[n])@ == k);
            }
        }
        r
    }

    /// Whether the key is currently protected.
    pub fn is_protected(&self, key: &String) -> (r: bool)
        requires
            self.wf(),
        ensures
            r == self.protected_keys().contains(key@),
    {
        proof {
            lemma_str_set_contains(self.protected@, key@);
        }
        let mut i: usize = 0;
        while i < self.protected.len()
            invariant
                self.wf(),
                i <= self.protected@.len(),
                forall|n: int| 0 <= n < i ==> (#[trigger] self.protected@[n])@ != key@,
            decreases self.protected@.len() - i,
        {
            if self.protected[i] == *key {
                proof {
                    assert((self.protected@[i as int])@ == key@);
                    lemma_str_set_contains(self.protected@, key@);
                }
                return true;
            }
            i += 1;
        }
        false
    }

    /// Add the key to the protected set.  Protecting a key twice is a
    /// no-op, and the dictionary itself is untouched.
    pub fn protect(&mut self, key: String)
        requires
            old(self).wf(),
        ensures
            final(self).wf(),
            final(self)@ == old(self)@,
            final(self).protected_keys() == old(self).protected_keys().insert(key@),
    {
        if !self.is_protected(&key) {
            proof {
                lemma_str_set_push(self.protected@, key);
                lemma_str_set_contains(self.protected@, key@);
            }
            self.protected.push(key);
        } else {
            proof {
                assert(old(self).protected_keys().insert(key@) =~= old(self).protected_keys());
            }
        }
    }

    /// Remove the key from the protected set; removing an unprotected key
    /// is a no-op.  The dictionary itself is untouched.
    pub fn unprotect(&mut self, key: &String)
        requires
            old(self).wf(),
        ensures
            final(self).wf(),
            final(self)@ == old(self)@,
            final(self).protected_keys() == old(self).protected_keys().remove(key@),
    {
        let mut i: usize = 0;
        while i < self.protected.len()
            invariant
                self.wf(),
                i <= self.protected@.len(),
                *self == *old(self),
                forall|n: int| 0 <= n < i ==> (#[trigger] self.protected@[n])@ != key@,
            decreases self.protected@.len() - i,
        {
            if self.protected[i] == *key {
                proof {
                    lemma_str_set_remove(self.protected@, i as int);
                }
                self.protected.remove(i);
                return ;
            }
            i += 1;
        }
        proof {
            lemma_str_set_contains(self.protected@, key@);
            assert(old(self).protected_keys().remove(key@) =~= old(self).protected_keys());
        }
    }

    /// The privileged write used by the host: set the key in the
    /// dictionary, protected or not.  The protected set is untouched.
    pub fn set_privileged(&mut self, key: String, value: V)
        requires
            old(self).wf(),
        ensures
            final(self).wf(),
            final(self)@ == old(self)@.insert(key@, value),
            final(self).protected_keys() == old(self).protected_keys(),
    {
        match self.find_entry(&key) {
            Some(i) => {
                proof {
                    lemma_assoc_map_update(self.entries@, i as int, (key, value));
                }
                self.entries[i] = (key, value);
            },
            None => {
                proof {
                    lemma_assoc_map_push(self.entries@, key, value);
                    lemma_assoc_map_contains(self.entries@, key@);
                }
                self.entries.push((key, value));
            },
        }
    }

    /// A write arriving through the mapping protocol, as sandboxed code
    /// performs it: refused, with the dictionary and the protected set
    /// untouched, exactly when the key is protected; otherwise it sets the
    /// key like the privileged path.
    pub fn set_checked(&mut self, key: String, value: V) -> (r: Result<(), MapError>)
        requires
            old(self).wf(),
        ensures
            final(self).wf(),
            final(self).protected_keys() == old(self).protected_keys(),
            if old(self).protected_keys().contains(key@) {
                r == Result::<(), MapError>::Err(MapError::ProtectedKey) && final(self)@ == old(
                    self,
                )@
            } else {
                r == Result::<(), MapError>::Ok(()) && final(self)@ == old(self)@.insert(
                    key@,
                    value,
                )
            },
    {
        if self.is_protected(&key) {
            Err(MapError::ProtectedKey)
        } else {
            self.set_privileged(key, value);
            Ok(())
        }
    }

    /// A delete arriving through the mapping protocol: refused on a
    /// protected key, refused on a missing key, and otherwise it removes
    /// the binding.  The protected set is untouched in every case.
    pub fn del_checked(&mut self, key: &String) -> (r: Result<(), MapError>)
        requires
            old(self).wf(),
        ensures
            final(self).wf(),
            final(self).protected_keys() == old(self).protected_keys(),
            if old(self).protected_keys().contains(key@) {
                r == Result::<(), MapError>::Err(MapError::ProtectedKey) && final(self)@ == old(
                    self,
                )@
            } else if !old(self)@.contains_key(key@) {
                r == Result::<(), MapError>::Err(MapError::MissingKey) && final(self)@ == old(
                    self,
                )@
            } else {
                r == Result::<(), MapError>::Ok(()) && final(self)@ == old(self)@.remove(key@)
            },
    {
        if self.is_protected(key) {
            return Err(MapError::ProtectedKey);
        }
        match self.find_entry(key) {
            None => Err(MapError::MissingKey),
            Some(i) => {
                proof {
                    lemma_assoc_map_remove(self.entries@, i as int);
                }
                self.entries.remove(i);
                Ok(())
            },
        }
    }
}

impl ProtectedMap<String> {
    /// A fresh mapping holding the same dictionary and an empty protected
    /// set: the copy made when an environment is created from another one.
    /// Protection is deliberately not carried over; the caller chooses
    /// which names to re-protect.
    pub fn copy_dict(&self) -> (r: ProtectedMap<String>)
        requires
            self.wf(),
        ensures
            r.wf(),
            r@ == self@,
            r.protected_keys() == Set::<Seq<char>>::empty(),
    {
        let mut copied: Vec<(String, String)> = Vec::new();
        let mut i: usize = 0;
        while i < self.entries.len()
            invariant
                self.wf(),
                i <= self.entries@.len(),
                copied@.len() == i,
                forall|n: int| 0 <= n < i ==> #[trigger] copied@[n] == self.entries@[n],
            decreases self.entries@.len() - i,
        {
            let k = self.entries[i].0.clone();
            let v = self.entries[i].1.clone();
            copied.push((k, v));
            i += 1;
        }
        proof {
            assert(copied@ =~= self.entries@);
        }
        ProtectedMap { entries: copied, protected: Vec::new() }
    }
}

/// The message carried by the error a blocked write raises, naming the key.
pub fn modify_error_message(key: &String) -> (r: String)
    ensures
        r@ == "Cannot modify protected key: '"@ + key@ + "'"@,
{
    let mut m = String::from_str("Cannot modify protected key: '");
    m.append(key.as_str());
    m.append("'");
    m
}

/// The message carried by the error a blocked delete raises, naming the key.
pub fn delete_error_message(key: &String) -> (r: String)
    ensures
        r@ == "Cannot delete protected key: '"@ + key@ + "'"@,
{
    let mut m = String::from_str("Cannot delete protected key: '");
    m.append(key.as_str());
    m.append("'");
    m
}

} // verus!
