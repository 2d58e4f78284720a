//! A string-keyed map kept as a list of entries in insertion order, each key
//! at most once. The broker's registries (users, roles, topics, per-topic
//! queues) are small and keyed by names, so a list suffices.

use vstd::prelude::*;
use crate::text::str_equal;

verus! {

/// No key occurs twice.
pub open spec fn keys_unique<T>(s: Seq<(String, T)>) -> bool {
    forall|i: int, j: int| 0 <= i < j < s.len() ==> s[i].0@ != s[j].0@
}

/// The key occurs in the entries.
pub open spec fn has_key<T>(s: Seq<(String, T)>, k: Seq<char>) -> bool {
    exists|i: int| 0 <= i < s.len() && s[i].0@ == k
}

/// The position of a key (meaningful when the key occurs).
pub open spec fn key_index<T>(s: Seq<(String, T)>, k: Seq<char>) -> int {
    choose|i: int| 0 <= i < s.len() && s[i].0@ == k
}

/// The map the entries denote.
pub open spec fn entries_map<T>(s: Seq<(String, T)>) -> Map<Seq<char>, T> {
    Map::new(|k: Seq<char>| has_key(s, k), |k: Seq<char>| s[key_index(s, k)].1)
}

/// In entries with unique keys, a key found at `i` is the key at `key_index`.
pub proof fn lemma_key_index_unique<T>(s: Seq<(String, T)>, i: int)
    requires
        keys_unique(s),
        0 <= i < s.len(),
    ensures
        has_key(s, s[i].0@),
        key_index(s, s[i].0@) == i,
        entries_map(s).contains_key(s[i].0@),
        entries_map(s)[s[i].0@] == s[i].1,
{
    assert(has_key(s, s[i].0@));
    let j = key_index(s, s[i].0@);
    if j != i {
        if j < i {
            assert(s[j].0@ != s[i].0@);
        } else {
            assert(s[i].0@ != s[j].0@);
        }
    }
}

/// Appending an entry with a new key inserts it into the map.
pub proof fn lemma_push_new<T>(s: Seq<(String, T)>, k: String, v: T)
    requires
        keys_unique(s),
        !has_key(s, k@),
    ensures
        keys_unique(s.push((k, v))),
        entries_map(s.push((k, v))) =~= entries_map(s).insert(k@, v),
{
    let t = s.push((k, v));
    assert(keys_unique(t)) by {
        assert forall|i: int, j: int| 0 <= i < j < t.len() implies t[i].0@ != t[j].0@ by {
            if j == s.len() {
                assert(t[i] == s[i]);
            } else {
                assert(t[i] == s[i] && t[j] == s[j]);
            }
        }
    }
    assert forall|q: Seq<char>| #[trigger] entries_map(t).contains_key(q) <==> entries_map(s).insert(k@, v).contains_key(q) by {
        if has_key(t, q) {
            let i = choose|i: int| 0 <= i < t.len() && t[i].0@ == q;
            if i < s.len() {
                assert(s[i] == t[i]);
            }
        }
        if has_key(s, q) {
            let i = choose|i: int| 0 <= i < s.len() && s[i].0@ == q;
            assert(t[i] == s[i]);
        }
        if q == k@ {
            assert(t[s.len() as int].0@ == q);
        }
    }
    assert forall|q: Seq<char>| entries_map(t).contains_key(q) implies #[trigger] entries_map(t)[q] == entries_map(s).insert(k@, v)[q] by {
        let i = choose|i: int| 0 <= i < t.len() && t[i].0@ == q;
        lemma_key_index_unique(t, i);
        if i < s.len() {
            assert(s[i] == t[i]);
            lemma_key_index_unique(s, i);
        }
    }
}

/// Replacing the entry at `i` by one with the same key updates the map.
pub proof fn lemma_update_at<T>(s: Seq<(String, T)>, i: int, k: String, v: T)
    requires
        keys_unique(s),
        0 <= i < s.len(),
        s[i].0@ == k@,
    ensures
        keys_unique(s.update(i, (k, v))),
        entries_map(s.update(i, (k, v))) =~= entries_map(s).insert(k@, v),
{
    let t = s.update(i, (k, v));
    assert(keys_unique(t)) by {
        assert forall|a: int, b: int| 0 <= a < b < t.len() implies t[a].0@ != t[b].0@ by {
            assert(t[a].0@ == s[a].0@ && t[b].0@ == s[b].0@);
        }
    }
    assert forall|q: Seq<char>| #[trigger] entries_map(t).contains_key(q) <==> entries_map(s).insert(k@, v).contains_key(q) by {
        if has_key(t, q) {
            let a = choose|a: int| 0 <= a < t.len() && t[a].0@ == q;
            assert(s[a].0@ == q);
        }
        if has_key(s, q) {
            let a = choose|a: int| 0 <= a < s.len() && s[a].0@ == q;
            assert(t[a].0@ == q);
        }
        if q == k@ {
            assert(t[i].0@ == q);
        }
    }
    assert forall|q: Seq<char>| entries_map(t).contains_key(q) implies #[trigger] entries_map(t)[q] == entries_map(s).insert(k@, v)[q] by {
        let a = choose|a: int| 0 <= a < t.len() && t[a].0@ == q;
        lemma_key_index_unique(t, a);
        if a != i {
            assert(s[a] == t[a]);
            lemma_key_index_unique(s, a);
        }
    }
}

/// Removing the entry at `i` removes its key from the map.
pub proof fn lemma_remove_at<T>(s: Seq<(String, T)>, i: int)
    requires
        keys_unique(s),
        0 <= i < s.len(),
    ensures
        keys_unique(s.remove(i)),
        entries_map(s.remove(i)) =~= entries_map(s).remove(s[i].0@),
{
    let t = s.remove(i);
    let k = s[i].0@;
    assert forall|a: int| 0 <= a < t.len() implies #[trigger] t[a] == (if a < i { s[a] } else { s[a + 1] }) by {}
    assert(keys_unique(t)) by {
        assert forall|a: int, b: int| 0 <= a < b < t.len() implies t[a].0@ != t[b].0@ by {
            let a2 = if a < i { a } else { a + 1 };
            let b2 = if b < i { b } else { b + 1 };
            assert(t[a] == s[a2] && t[b] == s[b2]);
        }
    }
    assert forall|q: Seq<char>| #[trigger] entries_map(t).contains_key(q) <==> entries_map(s).remove(k).contains_key(q) by {
        if has_key(t, q) {
            let a = choose|a: int| 0 <= a < t.len() && t[a].0@ == q;
            let a2 = if a < i { a } else { a + 1 };
            assert(t[a] == s[a2]);
            assert(s[a2].0@ != s[i].0@);
        }
        if has_key(s, q) && q != k {
            let a = choose|a: int| 0 <= a < s.len() && s[a].0@ == q;
            assert(a != i);
            let a2 = if a < i { a } else { a - 1 };
            assert(t[a2] == s[a]);
        }
    }
    assert forall|q: Seq<char>| entries_map(t).contains_key(q) implies #[trigger] entries_map(t)[q] == entries_map(s).remove(k)[q] by {
        let a = choose|a: int| 0 <= a < t.len() && t[a].0@ == q;
        lemma_key_index_unique(t, a);
        let a2 = if a < i { a } else { a + 1 };
        assert(t[a] == s[a2]);
        lemma_key_index_unique(s, a2);
    }
}

/// Entries with unique keys denote a finite map with one key per entry.
pub proof fn lemma_entries_map_len<T>(s: Seq<(String, T)>)
    requires
        keys_unique(s),
    ensures
        entries_map(s).dom().finite(),
        entries_map(s).dom().len() == s.len(),
    decreases s.len(),
{
    if s.len() == 0 {
        assert(entries_map(s).dom() =~= Set::<Seq<char>>::empty());
    } else {
        let t = s.drop_last();
        let e = s.last();
        assert(keys_unique(t)) by {
            assert forall|i: int, j: int| 0 <= i < j < t.len() implies t[i].0@ != t[j].0@ by {
                assert(t[i] == s[i] && t[j] == s[j]);
            }
        }
        assert(!has_key(t, e.0@)) by {
            if has_key(t, e.0@) {
                let i = choose|i: int| 0 <= i < t.len() && t[i].0@ == e.0@;
                assert(s[i] == t[i]);
            }
        }
        lemma_entries_map_len(t);
        lemma_push_new(t, e.0, e.1);
        assert(t.push((e.0, e.1)) =~= s);
    }
}

/// A map from strings to values, kept in insertion order.
#[derive(Debug)]
pub struct StrMap<T> {
    entries: Vec<(String, T)>,
}

impl<T> StrMap<T> {
    #[verifier::type_invariant]
    spec fn inv(self) -> bool {
        keys_unique(self.entries@)
    }

    /// The map's contents.
    pub closed spec fn view(self) -> Map<Seq<char>, T> {
        entries_map(self.entries@)
    }

    /// The entries, in insertion order.
    pub closed spec fn entries(self) -> Seq<(String, T)> {
        self.entries@
    }

    /// The entries hold each key once and denote the map.
    pub fn note_entries(&self)
        ensures
            keys_unique(self.entries()),
            self.view() == entries_map(self.entries()),
    {
        proof {
            use_type_invariant(self);
        }
    }

    /// An empty map.
    pub fn new() -> (m: StrMap<T>)
        ensures
            m.view() == Map::<Seq<char>, T>::empty(),
            m.entries() == Seq::<(String, T)>::empty(),
    {
        let m = StrMap { entries: Vec::new() };
        proof {
            assert(m.view() =~= Map::<Seq<char>, T>::empty());
        }
        m
    }

    /// The number of keys.
    pub fn len(&self) -> (n: usize)
        ensures
            n == self.entries().len(),
    {
        self.entries.len()
    }

    /// The entry at position `i` in insertion order.
    pub fn entry_at(&self, i: usize) -> (e: &(String, T))
        requires
            i < self.entries().len(),
        ensures
            *e == self.entries()[i as int],
    {
        &self.entries[i]
    }

    /// The keys, in insertion order.
    pub fn keys(&self) -> (r: Vec<String>)
        ensures
            r@.len() == self.entries().len(),
            forall|i: int| 0 <= i < r@.len() ==> #[trigger] r@[i]@ == self.entries()[i].0@,
    {
        let mut r: Vec<String> = Vec::new();
        let mut i: usize = 0;
        while i < self.entries.len()
            invariant
                i <= self.entries@.len(),
                r@.len() == i,
                forall|j: int| 0 <= j < i ==> #[trigger] r@[j]@ == self.entries@[j].0@,
            decreases self.entries@.len() - i,
        {
            r.push(self.entries[i].0.clone());
            i = i + 1;
        }
        r
    }

    /// The position of `key`, if present.
    pub fn index_of(&self, key: &str) -> (r: Option<usize>)
        ensures
            r is None <==> !self.view().contains_key(key@),
            r matches Some(i) ==> i < self.entries().len() && self.entries()[i as int].0@ == key@,
    {
        proof {
            use_type_invariant(self);
        }
        let mut i: usize = 0;
        while i < self.entries.len()
            invariant
                i <= self.entries@.len(),
                forall|j: int| 0 <= j < i ==> self.entries@[j].0@ != key@,
            decreases self.entries@.len() - i,
        {
            if str_equal(self.entries[i].0.as_str(), key) {
                return Some(i);
            }
            i = i + 1;
        }
        None
    }

    /// Whether `key` is present.
    pub fn contains_key(&self, key: &str) -> (r: bool)
        ensures
            r == self.view().contains_key(key@),
    {
        self.index_of(key).is_some()
    }

    /// The value for `key`, if present.
    pub fn get(&self, key: &str) -> (r: Option<&T>)
        ensures
            r is None <==> !self.view().contains_key(key@),
            r matches Some(v) ==> *v == self.view()[key@],
    {
        proof {
            use_type_invariant(self);
        }
        match self.index_of(key) {
            Some(i) => {
                proof {
                    lemma_key_index_unique(self.entries@, i as int);
                }
                Some(&self.entries[i].1)
            },
            None => None,
        }
    }

    /// Sets `key` to `v`: a present key keeps its position, a new key goes last.
    pub fn insert(&mut self, key: String, v: T)
        ensures
            final(self).view() == old(self).view().insert(key@, v),
            old(self).view().contains_key(key@) ==> final(self).entries().len() == old(self).entries().len(),
            !old(self).view().contains_key(key@) ==> final(self).entries() == old(self).entries().push((key, v)),
    {
        proof {
            use_type_invariant(&*self);
        }
        match self.index_of(key.as_str()) {
            Some(i) => {
                proof {
                    lemma_update_at(self.entries@, i as int, key, v);
                }
                let mut e: Vec<(String, T)> = Vec::new();
                std::mem::swap(&mut e, &mut self.entries);
                e.set(i, (key, v));
                self.entries = e;
            },
            None => {
                proof {
                    lemma_push_new(self.entries@, key, v);
                }
                let mut e: Vec<(String, T)> = Vec::new();
                std::mem::swap(&mut e, &mut self.entries);
                e.push((key, v));
                self.entries = e;
            },
        }
    }

    /// Removes `key`, returning its value if it was present. The other
    /// entries keep their order.
    pub fn remove(&mut self, key: &str) -> (r: Option<T>)
        ensures
            final(self).view() == old(self).view().remove(key@),
            r is None <==> !old(self).view().contains_key(key@),
            r matches Some(v) ==> v == old(self).view()[key@],
            r is None ==> final(self).entries() == old(self).entries(),
    {
        proof {
            use_type_invariant(&*self);
        }
        match self.index_of(key) {
            Some(i) => {
                proof {
                    lemma_key_index_unique(self.entries@, i as int);
                    lemma_remove_at(self.entries@, i as int);
                }
                let mut e: Vec<(String, T)> = Vec::new();
                std::mem::swap(&mut e, &mut self.entries);
                let (_, v) = e.remove(i);
                self.entries = e;
                Some(v)
            },
            None => {
                proof {
                    assert(old(self).view().remove(key@) =~= old(self).view());
                }
                None
            },
        }
    }
}

} // verus!
