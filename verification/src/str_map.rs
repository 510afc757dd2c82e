//! A map keyed by strings that remembers the order in which keys were first inserted.
//!
//! The entries are held in a `Vec` whose keys are pairwise distinct, so the contents of the map
//! are a `Map<Seq<char>, V>` and iterating over it always visits the entries in the same order.
use vstd::prelude::*;

verus! {

/// The entry index holding `k` in `s`, if any.
pub open spec fn holds_key<V>(s: Seq<(String, V)>, k: Seq<char>) -> bool {
    exists|i: int| 0 <= i < s.len() && (#[trigger] s[i]).0@ == k
}

/// No two entries of `s` have the same key.
pub open spec fn keys_distinct<V>(s: Seq<(String, V)>) -> bool {
    forall|i: int, j: int|
        0 <= i < s.len() && 0 <= j < s.len() && i != j ==> (#[trigger] s[i]).0@ != (#[trigger] s[j]).0@
}

/// The map that the entries `s` stand for.
pub open spec fn entries_map<V>(s: Seq<(String, V)>) -> Map<Seq<char>, V> {
    Map::new(
        |k: Seq<char>| holds_key(s, k),
        |k: Seq<char>| s[choose|i: int| 0 <= i < s.len() && (#[trigger] s[i]).0@ == k].1,
    )
}

/// In a sequence of entries with distinct keys, the map gives each entry's key its value.
pub proof fn lemma_entries_map_index<V>(s: Seq<(String, V)>, i: int)
    requires
        keys_distinct(s),
        0 <= i < s.len(),
    ensures
        entries_map(s).contains_key(s[i].0@),
        entries_map(s)[s[i].0@] == s[i].1,
{
    let k = s[i].0@;
    assert(holds_key(s, k));
    let j = choose|j: int| 0 <= j < s.len() && (#[trigger] s[j]).0@ == k;
    assert(j == i);
}

/// A string-keyed map with a deterministic iteration order (insertion order).
#[derive(Debug, PartialEq)]
pub struct StrMap<V> {
    entries: Vec<(String, V)>,
}

impl<V: Clone> Clone for StrMap<V> {
    /// A copy with the same keys in the same order, each value cloned.
    fn clone(&self) -> (m: Self)
        ensures
            m.entry_seq().len() == self.entry_seq().len(),
            forall|i: int|
                0 <= i < m.entry_seq().len() ==> (#[trigger] m.entry_seq()[i]).0@
                    == self.entry_seq()[i].0@,
    {
        proof {
            use_type_invariant(self);
        }
        let mut entries: Vec<(String, V)> = Vec::new();
        let mut i: usize = 0;
        while i < self.entries.len()
            invariant
                keys_distinct(self.entries@),
                i <= self.entries@.len(),
                entries@.len() == i,
                forall|j: int| 0 <= j < i ==> (#[trigger] entries@[j]).0@ == self.entries@[j].0@,
            decreases self.entries@.len() - i,
        {
            let key = self.entries[i].0.clone();
            let value = self.entries[i].1.clone();
            entries.push((key, value));
            i = i + 1;
        }
        proof {
            assert forall|a: int, b: int|
                0 <= a < entries@.len() && 0 <= b < entries@.len() && a != b implies (
                #[trigger] entries@[a]).0@ != (#[trigger] entries@[b]).0@ by {
                assert(self.entries@[a].0@ != self.entries@[b].0@);
            }
        }
        StrMap { entries }
    }
}

impl<V> Default for StrMap<V> {
    fn default() -> (m: Self)
        ensures
            m.entry_seq() == Seq::<(String, V)>::empty(),
    {
        StrMap { entries: Vec::new() }
    }
}

impl<V> StrMap<V> {
    #[verifier::type_invariant]
    spec fn wf(self) -> bool {
        keys_distinct(self.entries@)
    }

    /// The entries, in the order in which their keys were first inserted.
    pub closed spec fn entry_seq(&self) -> Seq<(String, V)> {
        self.entries@
    }

    /// The contents of the map.
    pub open spec fn contents(&self) -> Map<Seq<char>, V> {
        entries_map(self.entry_seq())
    }

    /// An empty map.
    pub fn new() -> (m: Self)
        ensures
            m.entry_seq() == Seq::<(String, V)>::empty(),
            m.contents() == Map::<Seq<char>, V>::empty(),
    {
        let m = StrMap { entries: Vec::new() };
        assert(m.contents() =~= Map::<Seq<char>, V>::empty());
        m
    }

    /// Build a map from entries whose keys are distinct.
    pub fn from_entries(entries: Vec<(String, V)>) -> (m: Self)
        requires
            keys_distinct(entries@),
        ensures
            m.entry_seq() == entries@,
    {
        StrMap { entries }
    }

    /// The entries in insertion order.
    pub fn entries(&self) -> (e: &Vec<(String, V)>)
        ensures
            e@ == self.entry_seq(),
            keys_distinct(e@),
    {
        proof {
            use_type_invariant(self);
        }
        &self.entries
    }

    /// Give up the map, returning its entries in insertion order.
    pub fn into_entries(self) -> (e: Vec<(String, V)>)
        ensures
            e@ == self.entry_seq(),
            keys_distinct(e@),
    {
        proof {
            use_type_invariant(&self);
        }
        self.entries
    }

    /// The number of entries.
    pub fn len(&self) -> (n: usize)
        ensures
            n == self.entry_seq().len(),
            n == self.contents().len(),
    {
        proof {
            use_type_invariant(self);
            self.lemma_len();
        }
        self.entries.len()
    }

    proof fn lemma_len(&self)
        requires
            keys_distinct(self.entries@),
        ensures
            self.contents().len() == self.entries@.len(),
    {
        let s = self.entries@;
        let keys = s.map_values(|e: (String, V)| e.0@);
        assert forall|i: int, j: int| 0 <= i < keys.len() && 0 <= j < keys.len() && i != j
            implies keys[i] != keys[j] by {
            assert(s[i].0@ != s[j].0@);
        }
        assert(keys.no_duplicates());
        keys.unique_seq_to_set();
        assert forall|k: Seq<char>| #[trigger] self.contents().dom().contains(k) <==> keys.to_set().contains(k) by {
            if self.contents().dom().contains(k) {
                let i = choose|i: int| 0 <= i < s.len() && (#[trigger] s[i]).0@ == k;
                assert(keys[i] == k);
            }
            if keys.to_set().contains(k) {
                let i = choose|i: int| 0 <= i < keys.len() && keys[i] == k;
                assert(s[i].0@ == k);
            }
        }
        assert(self.contents().dom() =~= keys.to_set());
    }

    /// The position of the entry with key `k`.
    fn find(&self, k: &String) -> (r: Option<usize>)
        ensures
            match r {
                Some(i) => i < self.entries@.len() && self.entries@[i as int].0@ == k@,
                None => !holds_key(self.entries@, k@),
            },
    {
        let mut i: usize = 0;
        while i < self.entries.len()
            invariant
                i <= self.entries@.len(),
                forall|j: int| 0 <= j < i ==> (#[trigger] self.entries@[j]).0@ != k@,
            decreases self.entries@.len() - i,
        {
            if self.entries[i].0 == *k {
                return Some(i);
            }
            i = i + 1;
        }
        None
    }

    /// Whether the map has an entry with key `k`.
    pub fn contains_key(&self, k: &String) -> (b: bool)
        ensures
            b == self.contents().contains_key(k@),
    {
        self.find(k).is_some()
    }

    /// The value for key `k`.
    pub fn get(&self, k: &String) -> (r: Option<&V>)
        ensures
            match r {
                Some(v) => self.contents().contains_key(k@) && *v == self.contents()[k@],
                None => !self.contents().contains_key(k@),
            },
    {
        proof {
            use_type_invariant(self);
        }
        match self.find(k) {
            Some(i) => {
                proof {
                    lemma_entries_map_index(self.entries@, i as int);
                }
                Some(&self.entries[i].1)
            },
            None => None,
        }
    }

    /// Insert `v` under key `k`. An existing entry keeps its place and gets the new value; a new
    /// key goes last.
    pub fn insert(&mut self, k: String, v: V)
        ensures
            final(self).contents() == old(self).contents().insert(k@, v),
            old(self).contents().contains_key(k@) ==> final(self).entry_seq().len()
                == old(self).entry_seq().len(),
            !old(self).contents().contains_key(k@) ==> final(self).entry_seq() == old(
                self,
            ).entry_seq().push((k, v)),
    {
        proof {
            use_type_invariant(&*self);
        }
        let ghost old_s = self.entries@;
        let ghost key = k@;
        let ghost entry = (k, v);
        match self.find(&k) {
            Some(i) => {
                let mut entries = Vec::new();
                std::mem::swap(&mut entries, &mut self.entries);
                entries.set(i, (k, v));
                let ghost s = entries@;
                assert(s == old_s.update(i as int, entry));
                assert(keys_distinct(s));
                assert forall|q: Seq<char>| #[trigger] entries_map(s).contains_key(q)
                    == entries_map(old_s).insert(key, entry.1).contains_key(q) by {
                    if q != key && holds_key(old_s, q) {
                        let j = choose|j: int| 0 <= j < old_s.len() && (#[trigger] old_s[j]).0@ == q;
                        assert(s[j].0@ == q);
                    }
                    if q == key {
                        assert(s[i as int].0@ == q);
                    }
                    if holds_key(s, q) && q != key {
                        let j = choose|j: int| 0 <= j < s.len() && (#[trigger] s[j]).0@ == q;
                        assert(old_s[j].0@ == q);
                    }
                }
                assert forall|q: Seq<char>| #[trigger] entries_map(s).contains_key(q)
                    implies entries_map(s)[q] == entries_map(old_s).insert(key, entry.1)[q] by {
                    let j = choose|j: int| 0 <= j < s.len() && (#[trigger] s[j]).0@ == q;
                    lemma_entries_map_index(s, j);
                    if j != i {
                        lemma_entries_map_index(old_s, j);
                    }
                }
                assert(entries_map(s) =~= entries_map(old_s).insert(key, entry.1));
                self.entries = entries;
            },
            None => {
                let mut entries = Vec::new();
                std::mem::swap(&mut entries, &mut self.entries);
                entries.push((k, v));
                let ghost s = entries@;
                assert(s == old_s.push(entry));
                assert forall|q: Seq<char>| #[trigger] entries_map(s).contains_key(q)
                    == entries_map(old_s).insert(key, entry.1).contains_key(q) by {
                    if q != key && holds_key(old_s, q) {
                        let j = choose|j: int| 0 <= j < old_s.len() && (#[trigger] old_s[j]).0@ == q;
                        assert(s[j].0@ == q);
                    }
                    if q == key {
                        assert(s[s.len() - 1].0@ == q);
                    }
                    if holds_key(s, q) && q != key {
                        let j = choose|j: int| 0 <= j < s.len() && (#[trigger] s[j]).0@ == q;
                        assert(old_s[j].0@ == q);
                    }
                }
                assert forall|q: Seq<char>| #[trigger] entries_map(s).contains_key(q)
                    implies entries_map(s)[q] == entries_map(old_s).insert(key, entry.1)[q] by {
                    let j = choose|j: int| 0 <= j < s.len() && (#[trigger] s[j]).0@ == q;
                    lemma_entries_map_index(s, j);
                    if j != old_s.len() {
                        lemma_entries_map_index(old_s, j);
                    }
                }
                assert(entries_map(s) =~= entries_map(old_s).insert(key, entry.1));
                self.entries = entries;
            },
        }
    }

    /// Remove the entry with key `k`, returning its value. The other entries keep their order.
    pub fn remove(&mut self, k: &String) -> (r: Option<V>)
        ensures
            final(self).contents() == old(self).contents().remove(k@),
            match r {
                Some(v) => old(self).contents().contains_key(k@) && v == old(self).contents()[k@],
                None => !old(self).contents().contains_key(k@),
            },
    {
        proof {
            use_type_invariant(&*self);
        }
        let ghost old_s = self.entries@;
        match self.find(k) {
            Some(i) => {
                proof {
                    lemma_entries_map_index(old_s, i as int);
                }
                let mut entries = Vec::new();
                std::mem::swap(&mut entries, &mut self.entries);
                let (_, v) = entries.remove(i);
                let ghost s = entries@;
                assert(s == old_s.remove(i as int));
                assert forall|a: int, b: int|
                    0 <= a < s.len() && 0 <= b < s.len() && a != b implies (#[trigger] s[a]).0@
                    != (#[trigger] s[b]).0@ by {
                    let a2 = if a < i { a } else { a + 1 };
                    let b2 = if b < i { b } else { b + 1 };
                    assert(s[a] == old_s[a2]);
                    assert(s[b] == old_s[b2]);
                }
                assert forall|q: Seq<char>| #[trigger] entries_map(s).contains_key(q)
                    == entries_map(old_s).remove(k@).contains_key(q) by {
                    if holds_key(s, q) {
                        let j = choose|j: int| 0 <= j < s.len() && (#[trigger] s[j]).0@ == q;
                        let j2 = if j < i { j } else { j + 1 };
                        assert(old_s[j2].0@ == q);
                    }
                    if q != k@ && holds_key(old_s, q) {
                        let j = choose|j: int| 0 <= j < old_s.len() && (#[trigger] old_s[j]).0@ == q;
                        let j2 = if j < i { j } else { j - 1 };
                        assert(s[j2].0@ == q);
                    }
                }
                assert forall|q: Seq<char>| #[trigger] entries_map(s).contains_key(q)
                    implies entries_map(s)[q] == entries_map(old_s).remove(k@)[q] by {
                    let j = choose|j: int| 0 <= j < s.len() && (#[trigger] s[j]).0@ == q;
                    let j2 = if j < i { j } else { j + 1 };
                    lemma_entries_map_index(s, j);
                    lemma_entries_map_index(old_s, j2);
                }
                assert(entries_map(s) =~= entries_map(old_s).remove(k@));
                self.entries = entries;
                Some(v)
            },
            None => {
                assert(entries_map(old_s).remove(k@) =~= entries_map(old_s));
                None
            },
        }
    }
}

} // verus!
