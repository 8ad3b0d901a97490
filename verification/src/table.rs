//! A finite map kept as a list of entries with distinct keys.

use vstd::prelude::*;

verus! {

/// A type whose values can be told apart by their views.
pub trait Key: View + Sized {
    /// Whether two keys have the same view.
    fn same(&self, other: &Self) -> (r: bool)
        ensures
            r == (self@ == other@),
    ;
}

impl Key for String {
    fn same(&self, other: &Self) -> (r: bool) {
        *self == *other
    }
}

/// A finite map. No key occurs twice.
#[derive(Debug)]
pub struct Table<K: Key, V: View> {
    entries: Vec<(K, V)>,
}

/// Whether the entry at `i` has the key `k`.
spec fn entry_at<K: Key, V: View>(entries: Seq<(K, V)>, k: K::V, i: int) -> bool {
    0 <= i < entries.len() && entries[i].0@ == k
}

spec fn distinct_keys<K: Key, V: View>(entries: Seq<(K, V)>) -> bool {
    forall|i: int, j: int|
        0 <= i < j < entries.len() ==> (#[trigger] entries[i]).0@ != (#[trigger] entries[j]).0@
}

spec fn entries_map<K: Key, V: View>(entries: Seq<(K, V)>) -> Map<K::V, V::V> {
    Map::new(
        |k: K::V| exists|i: int| entry_at(entries, k, i),
        |k: K::V| entries[choose|i: int| entry_at(entries, k, i)].1@,
    )
}

/// What is known of the key and the value of each entry.
proof fn lemma_entry<K: Key, V: View>(entries: Seq<(K, V)>, i: int)
    requires
        distinct_keys(entries),
        0 <= i < entries.len(),
    ensures
        entries_map(entries).contains_key(entries[i].0@),
        entries_map(entries)[entries[i].0@] == entries[i].1@,
{
    let k = entries[i].0@;
    assert(entry_at(entries, k, i));
    let j = choose|j: int| entry_at(entries, k, j);
    assert(entry_at(entries, k, j));
    assert(entries[i].0@ == entries[j].0@);
}

impl<K: Key, V: View> View for Table<K, V> {
    type V = Map<K::V, V::V>;

    closed spec fn view(&self) -> Map<K::V, V::V> {
        entries_map(self.entries@)
    }
}

impl<K: Key, V: View> Table<K, V> {
    #[verifier::type_invariant]
    spec fn well_formed(self) -> bool {
        distinct_keys(self.entries@)
    }

    /// The keys in the order in which they are kept.
    pub closed spec fn keys(&self) -> Seq<K::V> {
        Seq::new(self.entries@.len(), |i: int| self.entries@[i].0@)
    }

    /// The list of keys holds exactly the keys of the map.
    pub proof fn lemma_keys(&self)
        ensures
            forall|k: K::V| self@.contains_key(k) <==> #[trigger] self.keys().contains(k),
    {
        assert forall|k: K::V| self@.contains_key(k) <==> #[trigger] self.keys().contains(k) by {
            if self@.contains_key(k) {
                let i = choose|i: int| entry_at(self.entries@, k, i);
                assert(entry_at(self.entries@, k, i));
                assert(self.keys()[i] == k);
            }
            if self.keys().contains(k) {
                let i = choose|i: int| 0 <= i < self.keys().len() && self.keys()[i] == k;
                assert(entry_at(self.entries@, k, i));
            }
        }
    }

    /// The map without entries.
    pub fn new() -> (r: Self)
        ensures
            r@ == Map::<K::V, V::V>::empty(),
    {
        let r: Self = Table { entries: Vec::new() };
        assert(r@ =~= Map::<K::V, V::V>::empty());
        r
    }

    /// The number of entries.
    pub fn len(&self) -> (r: usize)
        ensures
            r == self.keys().len(),
            self.keys().no_duplicates(),
            self@.dom().finite(),
            r == self@.dom().len(),
    {
        proof {
            use_type_invariant(&*self);
            self.lemma_keys();
            let keys = self.keys();
            assert forall|i: int, j: int|
                0 <= i < keys.len() && 0 <= j < keys.len() && i != j implies keys[i] != keys[j] by {
                if i < j {
                    assert(self.entries@[i].0@ != self.entries@[j].0@);
                } else {
                    assert(self.entries@[j].0@ != self.entries@[i].0@);
                }
            }
            keys.unique_seq_to_set();
            assert forall|k: K::V| #[trigger] self@.dom().contains(k) <==> keys.to_set().contains(
                k,
            ) by {
                assert(self@.contains_key(k) <==> keys.contains(k));
            }
            assert(self@.dom() =~= keys.to_set());
        }
        self.entries.len()
    }

    /// The key at position `i`.
    pub fn key_at(&self, i: usize) -> (r: &K)
        requires
            i < self.keys().len(),
        ensures
            r@ == self.keys()[i as int],
            self@.contains_key(r@),
    {
        proof {
            use_type_invariant(&*self);
            lemma_entry(self.entries@, i as int);
        }
        &self.entries[i].0
    }

    /// The value at position `i`.
    pub fn value_at(&self, i: usize) -> (r: &V)
        requires
            i < self.keys().len(),
        ensures
            r@ == self@[self.keys()[i as int]],
    {
        proof {
            use_type_invariant(&*self);
            lemma_entry(self.entries@, i as int);
        }
        &self.entries[i].1
    }

    /// The position of the key `k`.
    fn find(&self, k: &K) -> (r: Option<usize>)
        ensures
            match r {
                Some(i) => i < self.entries@.len() && self.entries@[i as int].0@ == k@,
                None => forall|i: int| !entry_at(self.entries@, k@, i),
            },
    {
        let mut i: usize = 0;
        while i < self.entries.len()
            invariant
                i <= self.entries@.len(),
                forall|j: int| 0 <= j < i ==> (#[trigger] self.entries@[j]).0@ != k@,
            decreases self.entries@.len() - i,
        {
            if self.entries[i].0.same(k) {
                return Some(i);
            }
            i = i + 1;
        }
        None
    }

    /// The value of the key `k`.
    pub fn get(&self, k: &K) -> (r: Option<&V>)
        ensures
            match r {
                Some(v) => self@.contains_key(k@) && v@ == self@[k@],
                None => !self@.contains_key(k@),
            },
    {
        match self.find(k) {
            Some(i) => {
                proof {
                    use_type_invariant(&*self);
                    lemma_entry(self.entries@, i as int);
                }
                Some(&self.entries[i].1)
            },
            None => None,
        }
    }

    /// Whether the key `k` has a value.
    pub fn contains_key(&self, k: &K) -> (r: bool)
        ensures
            r == self@.contains_key(k@),
    {
        self.get(k).is_some()
    }

    /// Takes out the key `k` with its value.
    pub fn remove(&mut self, k: &K) -> (r: Option<V>)
        ensures
            final(self)@ == old(self)@.remove(k@),
            match r {
                Some(v) => old(self)@.contains_key(k@) && v@ == old(self)@[k@],
                None => !old(self)@.contains_key(k@),
            },
    {
        proof {
            use_type_invariant(&*self);
        }
        match self.find(k) {
            Some(i) => {
                let mut entries: Vec<(K, V)> = Vec::new();
                std::mem::swap(&mut self.entries, &mut entries);
                let ghost before = entries@;
                let (_, v) = entries.remove(i);
                proof {
                    lemma_entry(before, i as int);
                    lemma_remove(before, i as int);
                }
                self.entries = entries;
                Some(v)
            },
            None => {
                assert(self@ =~= old(self)@.remove(k@));
                None
            },
        }
    }

    /// Gives the key `k` the value `v`, in place of the one that it has.
    pub fn insert(&mut self, k: K, v: V)
        ensures
            final(self)@ == old(self)@.insert(k@, v@),
    {
        self.remove(&k);
        proof {
            use_type_invariant(&*self);
        }
        let mut entries: Vec<(K, V)> = Vec::new();
        std::mem::swap(&mut self.entries, &mut entries);
        let ghost before = entries@;
        entries.push((k, v));
        proof {
            lemma_push(before, (k, v));
            assert(entries_map(before).insert(k@, v@) =~= old(self)@.insert(k@, v@));
        }
        self.entries = entries;
    }
}

/// Leaving out one of the entries.
proof fn lemma_remove<K: Key, V: View>(entries: Seq<(K, V)>, i: int)
    requires
        distinct_keys(entries),
        0 <= i < entries.len(),
    ensures
        distinct_keys(entries.remove(i)),
        entries_map(entries.remove(i)) == entries_map(entries).remove(entries[i].0@),
{
    let after = entries.remove(i);
    let k = entries[i].0@;
    assert(distinct_keys(after));
    let left = entries_map(after);
    let right = entries_map(entries).remove(k);
    assert forall|q: K::V| left.contains_key(q) <==> #[trigger] right.contains_key(q) by {
        if left.contains_key(q) {
            let j = choose|j: int| entry_at(after, q, j);
            assert(entry_at(after, q, j));
            let jj = if j < i { j } else { j + 1 };
            assert(entry_at(entries, q, jj));
        }
        if right.contains_key(q) {
            let j = choose|j: int| entry_at(entries, q, j);
            assert(entry_at(entries, q, j));
            let jj = if j < i { j } else { j - 1 };
            assert(entry_at(after, q, jj));
        }
    }
    assert forall|q: K::V| #[trigger] left.contains_key(q) implies left[q] == right[q] by {
        let j = choose|j: int| entry_at(after, q, j);
        assert(entry_at(after, q, j));
        lemma_entry(after, j);
        let jj = if j < i { j } else { j + 1 };
        lemma_entry(entries, jj);
    }
    assert(left =~= right);
}

/// Adding an entry with a new key.
proof fn lemma_push<K: Key, V: View>(entries: Seq<(K, V)>, e: (K, V))
    requires
        distinct_keys(entries),
        !entries_map(entries).contains_key(e.0@),
    ensures
        distinct_keys(entries.push(e)),
        entries_map(entries.push(e)) == entries_map(entries).insert(e.0@, e.1@),
{
    let after = entries.push(e);
    assert forall|j: int| 0 <= j < entries.len() implies (#[trigger] entries[j]).0@ != e.0@ by {
        lemma_entry(entries, j);
    }
    assert(distinct_keys(after));
    let left = entries_map(after);
    let right = entries_map(entries).insert(e.0@, e.1@);
    assert forall|q: K::V| left.contains_key(q) <==> #[trigger] right.contains_key(q) by {
        if left.contains_key(q) {
            let j = choose|j: int| entry_at(after, q, j);
            assert(entry_at(after, q, j));
            if j < entries.len() {
                assert(entry_at(entries, q, j));
            }
        }
        if right.contains_key(q) {
            if q == e.0@ {
                assert(entry_at(after, q, entries.len() as int));
            } else {
                let j = choose|j: int| entry_at(entries, q, j);
                assert(entry_at(entries, q, j));
                assert(entry_at(after, q, j));
            }
        }
    }
    assert forall|q: K::V| #[trigger] left.contains_key(q) implies left[q] == right[q] by {
        let j = choose|j: int| entry_at(after, q, j);
        assert(entry_at(after, q, j));
        lemma_entry(after, j);
        if j < entries.len() {
            lemma_entry(entries, j);
        }
    }
    assert(left =~= right);
}

} // verus!
