//! A small string-keyed map kept as an ordered list of entries.
//!
//! Entries keep their insertion order (which the lease snapshot and the
//! counter files expose) and no key occurs twice.

use vstd::prelude::*;

verus! {

/// Whether no key occurs twice in `s`.
pub open spec fn keys_unique<V>(s: Seq<(String, V)>) -> bool {
    forall|i: int, j: int|
        0 <= i < s.len() && 0 <= j < s.len() && i != j ==> #[trigger] s[i].0@ != #[trigger] s[j].0@
}

/// Whether `k` is the key of some entry of `s`.
pub open spec fn has_key<V>(s: Seq<(String, V)>, k: Seq<char>) -> bool {
    exists|i: int| 0 <= i < s.len() && #[trigger] s[i].0@ == k
}

/// The position of key `k` in `s` (meaningful when `has_key(s, k)`).
pub open spec fn key_index<V>(s: Seq<(String, V)>, k: Seq<char>) -> int {
    choose|i: int| 0 <= i < s.len() && #[trigger] s[i].0@ == k
}

/// The map that the entries `s` stand for.
pub open spec fn map_of<V>(s: Seq<(String, V)>) -> Map<Seq<char>, V> {
    Map::new(|k: Seq<char>| has_key(s, k), |k: Seq<char>| s[key_index(s, k)].1)
}

/// In a list with unique keys, the entry at `i` is the one `map_of` reads.
pub proof fn lemma_map_of_index<V>(s: Seq<(String, V)>, i: int)
    requires
        keys_unique(s),
        0 <= i < s.len(),
    ensures
        map_of(s).contains_key(s[i].0@),
        map_of(s)[s[i].0@] == s[i].1,
        key_index(s, s[i].0@) == i,
{
    assert(has_key(s, s[i].0@));
    let j = key_index(s, s[i].0@);
    assert(s[j].0@ == s[i].0@);
}

/// Replacing the value of the entry at `i` updates that key only.
pub proof fn lemma_map_of_update<V>(s: Seq<(String, V)>, i: int, v: V)
    requires
        keys_unique(s),
        0 <= i < s.len(),
    ensures
        keys_unique(s.update(i, (s[i].0, v))),
        map_of(s.update(i, (s[i].0, v))) =~= map_of(s).insert(s[i].0@, v),
{
    let t = s.update(i, (s[i].0, v));
    assert forall|a: int, b: int|
        0 <= a < t.len() && 0 <= b < t.len() && a != b implies #[trigger] t[a].0@ != #[trigger] t[b].0@ by {
        assert(t[a].0@ == s[a].0@);
        assert(t[b].0@ == s[b].0@);
    }
    assert forall|k: Seq<char>| #[trigger] has_key(t, k) == has_key(s, k) by {
        if has_key(t, k) {
            let a = key_index(t, k);
            assert(s[a].0@ == k);
        }
        if has_key(s, k) {
            let a = key_index(s, k);
            assert(t[a].0@ == k);
        }
    }
    assert forall|k: Seq<char>| #[trigger] map_of(t).contains_key(k) implies map_of(t)[k] == map_of(s).insert(s[i].0@, v)[k] by {
        let a = key_index(t, k);
        lemma_map_of_index(t, a);
        if a != i {
            assert(s[a].0@ == k);
            lemma_map_of_index(s, a);
        }
    }
    lemma_map_of_index(s, i);
}

/// Appending an entry with a fresh key adds that key.
pub proof fn lemma_map_of_push<V>(s: Seq<(String, V)>, k: String, v: V)
    requires
        keys_unique(s),
        !has_key(s, k@),
    ensures
        keys_unique(s.push((k, v))),
        map_of(s.push((k, v))) =~= map_of(s).insert(k@, v),
{
    let t = s.push((k, v));
    assert forall|a: int, b: int|
        0 <= a < t.len() && 0 <= b < t.len() && a != b implies #[trigger] t[a].0@ != #[trigger] t[b].0@ by {
        if a == s.len() {
            assert(s[b].0@ == t[b].0@);
        } else if b == s.len() {
            assert(s[a].0@ == t[a].0@);
        }
    }
    assert forall|kk: Seq<char>| #[trigger] has_key(t, kk) == (has_key(s, kk) || kk == k@) by {
        if has_key(t, kk) {
            let a = key_index(t, kk);
            if a < s.len() {
                assert(s[a].0@ == kk);
            }
        }
        if has_key(s, kk) {
            let a = key_index(s, kk);
            assert(t[a].0@ == kk);
        }
        if kk == k@ {
            assert(t[s.len() as int].0@ == kk);
        }
    }
    assert forall|kk: Seq<char>| #[trigger] map_of(t).contains_key(kk) implies map_of(t)[kk] == map_of(s).insert(k@, v)[kk] by {
        let a = key_index(t, kk);
        lemma_map_of_index(t, a);
        if a < s.len() {
            assert(s[a].0@ == kk);
            lemma_map_of_index(s, a);
        }
    }
}

/// The first `i + 1` entries stand for the first `i` plus entry `i`.
pub proof fn lemma_map_of_take_push<V>(s: Seq<(String, V)>, i: int)
    requires
        keys_unique(s),
        0 <= i < s.len(),
    ensures
        map_of(s.take(i + 1)) =~= map_of(s.take(i)).insert(s[i].0@, s[i].1),
{
    let t = s.take(i);
    assert forall|a: int, b: int|
        0 <= a < t.len() && 0 <= b < t.len() && a != b implies #[trigger] t[a].0@ != #[trigger] t[b].0@ by {
        assert(t[a] == s[a]);
        assert(t[b] == s[b]);
    }
    if has_key(t, s[i].0@) {
        let a = key_index(t, s[i].0@);
        assert(s[a].0@ == s[i].0@);
    }
    assert(s.take(i + 1) =~= t.push((s[i].0, s[i].1)));
    lemma_map_of_push(t, s[i].0, s[i].1);
}

/// Removing the entry at `i` removes exactly its key.
pub proof fn lemma_map_of_remove<V>(s: Seq<(String, V)>, i: int)
    requires
        keys_unique(s),
        0 <= i < s.len(),
    ensures
        keys_unique(s.remove(i)),
        map_of(s.remove(i)) =~= map_of(s).remove(s[i].0@),
{
    let t = s.remove(i);
    assert forall|a: int| 0 <= a < t.len() implies #[trigger] t[a] == (if a < i { s[a] } else { s[a + 1] }) by {}
    assert forall|a: int, b: int|
        0 <= a < t.len() && 0 <= b < t.len() && a != b implies #[trigger] t[a].0@ != #[trigger] t[b].0@ by {
        let sa = if a < i { a } else { a + 1 };
        let sb = if b < i { b } else { b + 1 };
        assert(t[a] == s[sa]);
        assert(t[b] == s[sb]);
    }
    assert forall|kk: Seq<char>| #[trigger] has_key(t, kk) == (has_key(s, kk) && kk != s[i].0@) by {
        if has_key(t, kk) {
            let a = key_index(t, kk);
            let sa = if a < i { a } else { a + 1 };
            assert(t[a] == s[sa]);
            assert(s[sa].0@ == kk);
        }
        if has_key(s, kk) && kk != s[i].0@ {
            let a = key_index(s, kk);
            assert(a != i);
            let ta = if a < i { a } else { a - 1 };
            assert(t[ta] == s[a]);
            assert(t[ta].0@ == kk);
        }
    }
    assert forall|kk: Seq<char>| #[trigger] map_of(t).contains_key(kk) implies map_of(t)[kk] == map_of(s).remove(s[i].0@)[kk] by {
        let a = key_index(t, kk);
        lemma_map_of_index(t, a);
        let sa = if a < i { a } else { a + 1 };
        assert(t[a] == s[sa]);
        lemma_map_of_index(s, sa);
    }
}

/// Compares two strings by their characters.
pub fn str_equal(a: &str, b: &str) -> (r: bool)
    ensures
        r == (a@ == b@),
{
    let x = String::from_str(a);
    let y = String::from_str(b);
    x == y
}

/// A string-keyed map whose entries keep their insertion order.
pub struct StrMap<V> {
    entries: Vec<(String, V)>,
}

impl<V> View for StrMap<V> {
    type V = Map<Seq<char>, V>;

    closed spec fn view(&self) -> Map<Seq<char>, V> {
        map_of(self.entries@)
    }
}

impl<V> StrMap<V> {
    /// The entries, in insertion order.
    pub closed spec fn spec_entries(&self) -> Seq<(String, V)> {
        self.entries@
    }

    /// Well-formedness: no key occurs twice, and the view is read off the entries.
    pub open spec fn wf(&self) -> bool {
        &&& keys_unique(self.spec_entries())
        &&& self@ == map_of(self.spec_entries())
    }

    pub fn new() -> (m: Self)
        ensures
            m.wf(),
            m@ == Map::<Seq<char>, V>::empty(),
            m.spec_entries() == Seq::<(String, V)>::empty(),
    {
        let m = StrMap { entries: Vec::new() };
        assert(m@ =~= Map::<Seq<char>, V>::empty());
        m
    }

    pub fn len(&self) -> (n: usize)
        requires
            self.wf(),
        ensures
            n == self.spec_entries().len(),
    {
        self.entries.len()
    }

    pub fn is_empty(&self) -> (r: bool)
        requires
            self.wf(),
        ensures
            r == (self@ == Map::<Seq<char>, V>::empty()),
    {
        if self.entries.len() == 0 {
            assert(self@ =~= Map::<Seq<char>, V>::empty());
            true
        } else {
            proof { lemma_map_of_index(self.entries@, 0); }
            false
        }
    }

    /// The entries, in insertion order.
    pub fn entries(&self) -> (e: &Vec<(String, V)>)
        ensures
            e@ == self.spec_entries(),
    {
        &self.entries
    }

    /// The position of `key`, if present.
    pub fn find(&self, key: &str) -> (r: Option<usize>)
        requires
            self.wf(),
        ensures
            match r {
                Some(i) => i < self.spec_entries().len() && self.spec_entries()[i as int].0@ == key@
                    && self@.contains_key(key@),
                None => !self@.contains_key(key@) && !has_key(self.spec_entries(), key@),
            },
    {
        let k = String::from_str(key);
        let n = self.entries.len();
        let mut i: usize = 0;
        while i < n
            invariant
                n == self.entries@.len(),
                i <= n,
                k@ == key@,
                self.wf(),
                forall|j: int| 0 <= j < i ==> #[trigger] self.entries@[j].0@ != key@,
            decreases n - i,
        {
            if self.entries[i].0 == k {
                proof { lemma_map_of_index(self.entries@, i as int); }
                return Some(i);
            }
            i = i + 1;
        }
        None
    }

    pub fn contains_key(&self, key: &str) -> (r: bool)
        requires
            self.wf(),
        ensures
            r == self@.contains_key(key@),
    {
        self.find(key).is_some()
    }

    pub fn get(&self, key: &str) -> (r: Option<&V>)
        requires
            self.wf(),
        ensures
            match r {
                Some(v) => self@.contains_key(key@) && *v == self@[key@],
                None => !self@.contains_key(key@),
            },
    {
        match self.find(key) {
            Some(i) => {
                proof { lemma_map_of_index(self.entries@, i as int); }
                Some(&self.entries[i].1)
            },
            None => None,
        }
    }

    /// Sets the value of `key`; an existing key keeps its position, a new key goes last.
    pub fn insert(&mut self, key: String, value: V)
        requires
            old(self).wf(),
        ensures
            final(self).wf(),
            final(self)@ == old(self)@.insert(key@, value),
            old(self)@.contains_key(key@) ==> final(self).spec_entries().len() == old(self).spec_entries().len(),
            !old(self)@.contains_key(key@) ==> final(self).spec_entries() == old(self).spec_entries().push((key, value)),
    {
        match self.find(key.as_str()) {
            Some(i) => {
                proof { lemma_map_of_update(self.entries@, i as int, value); }
                let k = self.entries[i].0.clone();
                self.entries.set(i, (k, value));
                assert(self.entries@ =~= old(self).entries@.update(i as int, (old(self).entries@[i as int].0, value)));
            },
            None => {
                proof { lemma_map_of_push(self.entries@, key, value); }
                self.entries.push((key, value));
            },
        }
    }

    /// Removes `key`, keeping the order of the other entries.
    pub fn remove(&mut self, key: &str) -> (r: Option<V>)
        requires
            old(self).wf(),
        ensures
            final(self).wf(),
            final(self)@ == old(self)@.remove(key@),
            match r {
                Some(v) => old(self)@.contains_key(key@) && v == old(self)@[key@],
                None => !old(self)@.contains_key(key@),
            },
    {
        match self.find(key) {
            Some(i) => {
                proof {
                    lemma_map_of_index(self.entries@, i as int);
                    lemma_map_of_remove(self.entries@, i as int);
                }
                let (_, v) = self.entries.remove(i);
                Some(v)
            },
            None => {
                assert(old(self)@.remove(key@) =~= old(self)@);
                None
            },
        }
    }

    /// The entries, in insertion order, taking the map apart.
    pub fn into_entries(self) -> (v: Vec<(String, V)>)
        ensures
            v@ == self.spec_entries(),
    {
        self.entries
    }
}

} // verus!
