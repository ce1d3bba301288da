//! A small map, kept in the order in which the keys first came.

use vstd::prelude::*;
use vstd::string::*;

verus! {

/// What can be the key of a table: a value that contracts see through a
/// view, and that can be told from another with a different view.
pub trait Key: Sized {
    /// The key as contracts see it.
    type Shown;

    /// The key as contracts see it.
    spec fn shown(&self) -> Self::Shown;

    /// Whether two keys are the same to contracts.
    fn same(&self, other: &Self) -> (r: bool)
        ensures
            r == (self.shown() == other.shown()),
    ;
}

impl Key for String {
    type Shown = Seq<char>;

    open spec fn shown(&self) -> Seq<char> {
        self@
    }

    fn same(&self, other: &Self) -> (r: bool) {
        *self == *other
    }
}

/// One line of a table: a key and what the table holds under it.
#[derive(Debug)]
pub struct Keyed<K, V> {
    /// The key.
    pub key: K,
    /// The value held under the key.
    pub value: V,
}

/// The map that a list of lines stands for.
pub open spec fn keyed_map<K: Key, V>(s: Seq<Keyed<K, V>>) -> Map<K::Shown, V>
    decreases s.len(),
{
    if s.len() == 0 {
        Map::empty()
    } else {
        keyed_map(s.drop_last()).insert(s.last().key.shown(), s.last().value)
    }
}

/// Whether no two lines have the same key.
pub open spec fn distinct_keys<K: Key, V>(s: Seq<Keyed<K, V>>) -> bool {
    forall|i: int, j: int| 0 <= i < j < s.len() ==> (#[trigger] s[i]).key.shown() != (#[trigger] s[j]).key.shown()
}

/// A key that no line has is not in the map.
pub proof fn lemma_keyed_absent<K: Key, V>(s: Seq<Keyed<K, V>>, k: K::Shown)
    requires
        forall|j: int| 0 <= j < s.len() ==> (#[trigger] s[j]).key.shown() != k,
    ensures
        !keyed_map(s).contains_key(k),
    decreases s.len(),
{
    if s.len() > 0 {
        let t = s.drop_last();
        assert forall|j: int| 0 <= j < t.len() implies (#[trigger] t[j]).key.shown() != k by {
            assert(t[j] == s[j]);
        }
        lemma_keyed_absent(t, k);
        assert(s.last() == s[s.len() - 1]);
    }
}

/// The last line with a key decides what the map holds under it.
pub proof fn lemma_keyed_present<K: Key, V>(s: Seq<Keyed<K, V>>, i: int)
    requires
        0 <= i < s.len(),
        forall|j: int| i < j < s.len() ==> (#[trigger] s[j]).key.shown() != s[i].key.shown(),
    ensures
        keyed_map(s).contains_key(s[i].key.shown()),
        keyed_map(s)[s[i].key.shown()] == s[i].value,
    decreases s.len(),
{
    let t = s.drop_last();
    if i < s.len() - 1 {
        assert(t[i] == s[i]);
        assert forall|j: int| i < j < t.len() implies (#[trigger] t[j]).key.shown() != t[i].key.shown() by {
            assert(t[j] == s[j]);
        }
        lemma_keyed_present(t, i);
        assert(s.last() == s[s.len() - 1]);
    }
}

/// Replacing the line that decides a key replaces what the map holds under it.
pub proof fn lemma_keyed_replaced<K: Key, V>(s: Seq<Keyed<K, V>>, i: int, e: Keyed<K, V>)
    requires
        0 <= i < s.len(),
        e.key.shown() == s[i].key.shown(),
        forall|j: int| i < j < s.len() ==> (#[trigger] s[j]).key.shown() != s[i].key.shown(),
    ensures
        keyed_map(s.update(i, e)) == keyed_map(s).insert(e.key.shown(), e.value),
    decreases s.len(),
{
    let t = s.drop_last();
    let u = s.update(i, e);
    if i == s.len() - 1 {
        assert(u.drop_last() == t);
        assert(keyed_map(u) =~= keyed_map(s).insert(e.key.shown(), e.value));
    } else {
        assert(t[i] == s[i]);
        assert forall|j: int| i < j < t.len() implies (#[trigger] t[j]).key.shown() != t[i].key.shown() by {
            assert(t[j] == s[j]);
        }
        lemma_keyed_replaced(t, i, e);
        assert(u.drop_last() == t.update(i, e));
        assert(u.last() == s.last());
        assert(s.last() == s[s.len() - 1]);
        assert(keyed_map(u) =~= keyed_map(s).insert(e.key.shown(), e.value));
    }
}

/// A map from keys to values. No key is held twice.
#[derive(Debug)]
pub struct Table<K: Key, V> {
    entries: Vec<Keyed<K, V>>,
}

impl<K: Key, V> View for Table<K, V> {
    type V = Map<K::Shown, V>;

    closed spec fn view(&self) -> Map<K::Shown, V> {
        keyed_map(self.entries@)
    }
}

impl<K: Key, V> Table<K, V> {
    #[verifier::type_invariant]
    spec fn well_formed(&self) -> bool {
        distinct_keys(self.entries@)
    }

    /// The lines, in the order in which their keys first came.
    pub closed spec fn lines(&self) -> Seq<Keyed<K, V>> {
        self.entries@
    }

    /// The table without any line.
    pub fn new() -> (r: Self)
        ensures
            r@ == Map::<K::Shown, V>::empty(),
            r.lines().len() == 0,
    {
        Table { entries: Vec::new() }
    }

    /// How many keys the table holds.
    pub fn len(&self) -> (r: usize)
        ensures
            r == self.lines().len(),
            distinct_keys(self.lines()),
            self@ == keyed_map(self.lines()),
    {
        proof {
            use_type_invariant(self);
        }
        self.entries.len()
    }

    /// Whether the table holds nothing.
    pub fn is_empty(&self) -> (r: bool)
        ensures
            r == (self.lines().len() == 0),
            r == (self@ == Map::<K::Shown, V>::empty()),
    {
        proof {
            if self.entries@.len() > 0 {
                let last = self.entries@.last();
                assert(keyed_map(self.entries@).contains_key(last.key.shown()));
            }
        }
        self.entries.len() == 0
    }

    /// The line at a place, counted from zero in the order in which the
    /// keys first came; nothing beyond the last line.
    pub fn line(&self, i: usize) -> (r: Option<&Keyed<K, V>>)
        ensures
            i < self.lines().len() ==> r == Some(&self.lines()[i as int]),
            i >= self.lines().len() ==> r is None,
    {
        if i < self.entries.len() {
            Some(&self.entries[i])
        } else {
            None
        }
    }

    /// Where the line with a key stands, if there is one.
    fn find(&self, key: &K) -> (r: Option<usize>)
        ensures
            match r {
                Some(i) => i < self.entries@.len() && self.entries@[i as int].key.shown() == key.shown(),
                None => forall|j: int|
                    0 <= j < self.entries@.len() ==> (#[trigger] self.entries@[j]).key.shown() != key.shown(),
            },
    {
        let mut i: usize = 0;
        while i < self.entries.len()
            invariant
                0 <= i <= self.entries@.len(),
                forall|j: int| 0 <= j < i ==> (#[trigger] self.entries@[j]).key.shown() != key.shown(),
            decreases self.entries@.len() - i,
        {
            if self.entries[i].key.same(key) {
                return Some(i);
            }
            i = i + 1;
        }
        None
    }

    /// What the table holds under a key, if it holds the key.
    pub fn get(&self, key: &K) -> (r: Option<&V>)
        ensures
            match r {
                Some(v) => self@.contains_key(key.shown()) && self@[key.shown()] == *v,
                None => !self@.contains_key(key.shown()),
            },
    {
        proof {
            use_type_invariant(self);
        }
        match self.find(key) {
            Some(i) => {
                proof {
                    lemma_keyed_present(self.entries@, i as int);
                }
                Some(&self.entries[i].value)
            },
            None => {
                proof {
                    lemma_keyed_absent(self.entries@, key.shown());
                }
                None
            },
        }
    }

    /// Whether the table holds a key.
    pub fn contains_key(&self, key: &K) -> (r: bool)
        ensures
            r == self@.contains_key(key.shown()),
    {
        self.get(key).is_some()
    }

    /// Puts a value under a key: in place of the one held there, or as a
    /// new last line.
    pub fn insert(&mut self, key: K, value: V)
        ensures
            final(self)@ == old(self)@.insert(key.shown(), value),
            old(self)@.contains_key(key.shown()) ==> final(self).lines().len() == old(
                self,
            ).lines().len(),
            !old(self)@.contains_key(key.shown()) ==> final(self).lines() == old(self).lines().push(
                Keyed { key, value },
            ),
    {
        proof {
            use_type_invariant(&*self);
        }
        let found = self.find(&key);
        let ghost before = self.entries@;
        let entry = Keyed { key, value };
        let mut entries: Vec<Keyed<K, V>> = Vec::new();
        core::mem::swap(&mut self.entries, &mut entries);
        match found {
            Some(i) => {
                proof {
                    lemma_keyed_present(before, i as int);
                    lemma_keyed_replaced(before, i as int, entry);
                    let after = before.update(i as int, entry);
                    assert forall|a: int, b: int| 0 <= a < b < after.len() implies (
                    #[trigger] after[a]).key.shown() != (#[trigger] after[b]).key.shown() by {
                        assert(after[a].key.shown() == before[a].key.shown());
                        assert(after[b].key.shown() == before[b].key.shown());
                    }
                }
                entries.set(i, entry);
            },
            None => {
                proof {
                    lemma_keyed_absent(before, entry.key.shown());
                    let after = before.push(entry);
                    assert(after.drop_last() == before);
                    assert forall|a: int, b: int| 0 <= a < b < after.len() implies (
                    #[trigger] after[a]).key.shown() != (#[trigger] after[b]).key.shown() by {
                        assert(after[a] == before[a]);
                        if b < before.len() {
                            assert(after[b] == before[b]);
                        }
                    }
                }
                entries.push(entry);
            },
        }
        self.entries = entries;
    }

    /// Takes the line with a key out of the table, if there is one.
    pub fn remove(&mut self, key: &K) -> (r: Option<V>)
        ensures
            final(self)@ == old(self)@.remove(key.shown()),
            match r {
                Some(v) => old(self)@.contains_key(key.shown()) && old(self)@[key.shown()] == v,
                None => !old(self)@.contains_key(key.shown()),
            },
    {
        proof {
            use_type_invariant(&*self);
        }
        let found = self.find(key);
        let ghost before = self.entries@;
        match found {
            Some(i) => {
                let mut entries: Vec<Keyed<K, V>> = Vec::new();
                core::mem::swap(&mut self.entries, &mut entries);
                let line = entries.remove(i);
                proof {
                    lemma_keyed_present(before, i as int);
                    lemma_keyed_removed(before, i as int);
                    let after = before.remove(i as int);
                    assert forall|a: int, b: int| 0 <= a < b < after.len() implies (
                    #[trigger] after[a]).key.shown() != (#[trigger] after[b]).key.shown() by {
                        let a0 = if a < i { a } else { a + 1 };
                        let b0 = if b < i { b } else { b + 1 };
                        assert(after[a] == before[a0]);
                        assert(after[b] == before[b0]);
                    }
                }
                self.entries = entries;
                Some(line.value)
            },
            None => {
                proof {
                    lemma_keyed_absent(before, key.shown());
                    assert(self@.remove(key.shown()) =~= self@);
                }
                None
            },
        }
    }

    /// The lines as a list, in the order in which their keys first came.
    pub fn into_vec(self) -> (r: Vec<Keyed<K, V>>)
        ensures
            r@ == self.lines(),
            keyed_map(r@) == self@,
            distinct_keys(r@),
    {
        proof {
            use_type_invariant(&self);
        }
        self.entries
    }
}

/// Taking out the only line with a key takes the key out of the map.
pub proof fn lemma_keyed_removed<K: Key, V>(s: Seq<Keyed<K, V>>, i: int)
    requires
        0 <= i < s.len(),
        distinct_keys(s),
    ensures
        keyed_map(s.remove(i)) == keyed_map(s).remove(s[i].key.shown()),
    decreases s.len(),
{
    let t = s.drop_last();
    let r = s.remove(i);
    assert(s.last() == s[s.len() - 1]);
    if i == s.len() - 1 {
        assert(r =~= t);
        assert forall|j: int| 0 <= j < t.len() implies (#[trigger] t[j]).key.shown() != s[i].key.shown() by {
            assert(t[j] == s[j]);
        }
        lemma_keyed_absent(t, s[i].key.shown());
        assert(keyed_map(r) =~= keyed_map(s).remove(s[i].key.shown()));
    } else {
        assert(distinct_keys(t)) by {
            assert forall|a: int, b: int| 0 <= a < b < t.len() implies (#[trigger] t[a]).key.shown() != (
            #[trigger] t[b]).key.shown() by {
                assert(t[a] == s[a]);
                assert(t[b] == s[b]);
            }
        }
        assert(t[i] == s[i]);
        lemma_keyed_removed(t, i);
        assert(r.drop_last() =~= t.remove(i));
        assert(r.last() == s.last());
        assert(s.last().key.shown() != s[i].key.shown());
        assert(keyed_map(r) =~= keyed_map(s).remove(s[i].key.shown()));
    }
}

} // verus!
