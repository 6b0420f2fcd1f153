//! One integer-keyed associative structure for every lookup table.
//!
//! A table keeps its entries in the order in which they were added and finds
//! an entry by its 64-bit key through a hash index. A key is added at most
//! once: the first entry for a key stays, later ones are turned away.

use std::collections::HashMap;
use vstd::prelude::*;

verus! {

broadcast use vstd::std_specs::hash::group_hash_axioms;

/// The position of the first occurrence of `key`.
pub open spec fn first_index<T>(keys: Seq<T>, key: T) -> Option<int>
    decreases keys.len(),
{
    if keys.len() == 0 {
        None
    } else {
        match first_index(keys.drop_last(), key) {
            Some(i) => Some(i),
            None => if keys.last() == key {
                Some(keys.len() - 1)
            } else {
                None
            },
        }
    }
}

/// The first occurrence is an occurrence and nothing before it is; there is
/// none exactly when the key does not occur.
pub proof fn lemma_first_index<T>(keys: Seq<T>, key: T)
    ensures
        match first_index(keys, key) {
            Some(i) => 0 <= i < keys.len() && keys[i] == key && forall|j: int|
                0 <= j < i ==> keys[j] != key,
            None => !keys.contains(key),
        },
    decreases keys.len(),
{
    if keys.len() > 0 {
        lemma_first_index(keys.drop_last(), key);
        if first_index(keys.drop_last(), key) is None {
            assert forall|j: int| 0 <= j < keys.len() - 1 implies keys[j] != key by {
                assert(keys.drop_last()[j] == keys[j]);
            }
        } else {
            let i = first_index(keys.drop_last(), key)->0;
            assert(keys.drop_last()[i] == keys[i]);
            assert forall|j: int| 0 <= j < i implies keys[j] != key by {
                assert(keys.drop_last()[j] == keys[j]);
            }
        }
    }
}

/// The entries of a table that held `base` once `more` have been added one by
/// one: an entry whose key is held already is turned away.
pub open spec fn extend_unique<T>(base: Seq<(u64, T)>, more: Seq<(u64, T)>) -> Seq<(u64, T)>
    decreases more.len(),
{
    if more.len() == 0 {
        base
    } else {
        let before = extend_unique(base, more.drop_last());
        if entry_keys(before).contains(more.last().0) {
            before
        } else {
            before.push(more.last())
        }
    }
}

/// The entries that stay when `entries` are added one by one to an empty
/// table: of the entries that share a key, the first.
pub open spec fn unique_entries<T>(entries: Seq<(u64, T)>) -> Seq<(u64, T)> {
    extend_unique(Seq::empty(), entries)
}

/// Adding two runs of entries one after the other is adding their concatenation.
pub proof fn lemma_extend_concat<T>(base: Seq<(u64, T)>, x: Seq<(u64, T)>, y: Seq<(u64, T)>)
    ensures
        extend_unique(extend_unique(base, x), y) == extend_unique(base, x + y),
    decreases y.len(),
{
    if y.len() == 0 {
        assert(x + y =~= x);
    } else {
        lemma_extend_concat(base, x, y.drop_last());
        assert((x + y).drop_last() =~= x + y.drop_last());
        assert((x + y).last() == y.last());
    }
}

/// Adding one entry: it stays exactly when its key is new.
pub proof fn lemma_extend_one<T>(base: Seq<(u64, T)>, entry: (u64, T))
    ensures
        extend_unique(base, seq![entry]) == if entry_keys(base).contains(entry.0) {
            base
        } else {
            base.push(entry)
        },
{
    assert(seq![entry].drop_last() =~= Seq::<(u64, T)>::empty());
    assert(extend_unique(base, Seq::<(u64, T)>::empty()) == base);
}

/// Adding nothing changes nothing.
pub proof fn lemma_extend_none<T>(base: Seq<(u64, T)>)
    ensures
        extend_unique(base, Seq::<(u64, T)>::empty()) == base,
{
}

/// The keys of a sequence of entries.
pub open spec fn entry_keys<T>(entries: Seq<(u64, T)>) -> Seq<u64> {
    Seq::new(entries.len(), |i: int| entries[i].0)
}

/// The value that `entries` hold for `key`: that of the first entry with the key.
pub open spec fn lookup_in<T>(entries: Seq<(u64, T)>, key: u64) -> Option<T> {
    match first_index(entry_keys(entries), key) {
        Some(i) => Some(entries[i].1),
        None => None,
    }
}

/// Turning later entries for a key away leaves every lookup as it was, and
/// leaves no key twice.
pub proof fn lemma_unique_entries<T>(entries: Seq<(u64, T)>, key: u64)
    ensures
        entry_keys(unique_entries(entries)).no_duplicates(),
        lookup_in(unique_entries(entries), key) == lookup_in(entries, key),
        entry_keys(unique_entries(entries)).contains(key) <==> entry_keys(entries).contains(key),
    decreases entries.len(),
{
    let all = entry_keys(entries);
    let kept = unique_entries(entries);
    assert(entries.len() > 0 ==> unique_entries(entries.drop_last()) == extend_unique(
        Seq::<(u64, T)>::empty(),
        entries.drop_last(),
    ));
    if entries.len() == 0 {
        assert(entry_keys(kept) =~= Seq::<u64>::empty());
    } else {
        let front = entries.drop_last();
        let before = unique_entries(front);
        lemma_unique_entries(front, key);
        lemma_unique_entries(front, entries.last().0);
        assert(entry_keys(front) =~= all.drop_last());
        lemma_first_index(all, key);
        lemma_first_index(all.drop_last(), key);
        lemma_first_index(entry_keys(before), key);
        lemma_first_index(entry_keys(kept), key);
        if !entry_keys(before).contains(entries.last().0) {
            assert(entry_keys(kept) =~= entry_keys(before).push(entries.last().0));
            assert(entry_keys(kept).drop_last() =~= entry_keys(before));
            assert(kept.drop_last() =~= before);
        }
        assert(all.contains(key) <==> (all.drop_last().contains(key) || all.last() == key)) by {
            if all.contains(key) {
                let i = choose|i: int| 0 <= i < all.len() && all[i] == key;
                if i < all.len() - 1 {
                    assert(all.drop_last()[i] == key);
                }
            }
            if all.drop_last().contains(key) {
                let i = choose|i: int| 0 <= i < all.len() - 1 && all.drop_last()[i] == key;
                assert(all[i] == key);
            }
        }
        let ks = entry_keys(kept);
        let kb = entry_keys(before);
        assert(ks.contains(key) <==> (kb.contains(key) || (!kb.contains(entries.last().0)
            && entries.last().0 == key))) by {
            if ks.contains(key) {
                let i = choose|i: int| 0 <= i < ks.len() && ks[i] == key;
                if i < kb.len() {
                    assert(kb[i] == key);
                }
            }
            if kb.contains(key) {
                let i = choose|i: int| 0 <= i < kb.len() && kb[i] == key;
                assert(ks[i] == key);
            }
            if !kb.contains(entries.last().0) && entries.last().0 == key {
                assert(ks[ks.len() - 1] == key);
            }
        }
    }
}

/// Looking a key up in two runs of entries, one after the other: the first
/// run answers where it holds the key, else the second does.
pub proof fn lemma_lookup_concat<T>(x: Seq<(u64, T)>, y: Seq<(u64, T)>, key: u64)
    ensures
        lookup_in(x + y, key) == if entry_keys(x).contains(key) {
            lookup_in(x, key)
        } else {
            lookup_in(y, key)
        },
        entry_keys(x + y).contains(key) <==> entry_keys(x).contains(key) || entry_keys(y).contains(
            key,
        ),
    decreases y.len(),
{
    let kx = entry_keys(x);
    let ky = entry_keys(y);
    let kxy = entry_keys(x + y);
    lemma_first_index(kx, key);
    lemma_first_index(ky, key);
    lemma_first_index(kxy, key);
    if y.len() == 0 {
        assert(x + y =~= x);
    } else {
        let y0 = y.drop_last();
        lemma_lookup_concat(x, y0, key);
        assert((x + y).drop_last() =~= x + y0);
        assert(kxy.drop_last() =~= entry_keys(x + y0));
        assert(ky.drop_last() =~= entry_keys(y0));
        assert(kxy.last() == ky.last());
        lemma_first_index(entry_keys(x + y0), key);
        lemma_first_index(entry_keys(y0), key);
        if first_index(entry_keys(x + y0), key) is Some {
            let f = first_index(entry_keys(x + y0), key)->0;
            assert((x + y0)[f] == (x + y)[f]);
            if !kx.contains(key) {
                let g = first_index(entry_keys(y0), key)->0;
                assert(y0[g] == y[g]);
            }
        } else {
            if ky.last() == key {
                assert((x + y)[kxy.len() - 1] == y[ky.len() - 1]);
            }
        }
        assert(kxy.contains(key) <==> kx.contains(key) || ky.contains(key)) by {
            if kxy.contains(key) {
                let i = choose|i: int| 0 <= i < kxy.len() && kxy[i] == key;
                if i < kx.len() {
                    assert(kx[i] == key);
                } else {
                    assert(ky[i - kx.len()] == key);
                }
            }
            if kx.contains(key) {
                let i = choose|i: int| 0 <= i < kx.len() && kx[i] == key;
                assert(kxy[i] == key);
            }
            if ky.contains(key) {
                let i = choose|i: int| 0 <= i < ky.len() && ky[i] == key;
                assert(kxy[i + kx.len()] == key);
            }
        }
    }
}

/// Among entries that share no key, each is found under its own key.
pub proof fn lemma_lookup_at<T>(entries: Seq<(u64, T)>, i: int)
    requires
        entry_keys(entries).no_duplicates(),
        0 <= i < entries.len(),
    ensures
        lookup_in(entries, entries[i].0) == Some(entries[i].1),
{
    let keys = entry_keys(entries);
    lemma_first_index(keys, entries[i].0);
    assert(keys[i] == entries[i].0);
}

/// A key that no entry carries is not found.
pub proof fn lemma_lookup_none<T>(entries: Seq<(u64, T)>, key: u64)
    requires
        !entry_keys(entries).contains(key),
    ensures
        lookup_in(entries, key) is None,
{
    lemma_first_index(entry_keys(entries), key);
}

/// An insertion-ordered table from 64-bit keys to values.
pub struct Table<V> {
    keys: Vec<u64>,
    values: Vec<V>,
    index: HashMap<u64, usize>,
}

impl<V: DeepView> Table<V> {
    /// The keys, in the order in which they were added.
    pub closed spec fn keys(&self) -> Seq<u64> {
        self.keys@
    }

    /// The values, each at the position of its key.
    pub closed spec fn values(&self) -> Seq<V> {
        self.values@
    }

    /// Whether the hash index finds each key at its position.
    pub closed spec fn indexed(&self) -> bool {
        &&& forall|i: int|
            0 <= i < self.keys@.len() ==> self.index@.contains_key(#[trigger] self.keys@[i])
                && self.index@[self.keys@[i]] == i
        &&& forall|k: u64| #[trigger]
            self.index@.contains_key(k) ==> self.index@[k] < self.keys@.len()
                && self.keys@[self.index@[k] as int] == k
    }

    /// Whether the table is consistent: one value per key, no key twice.
    pub open spec fn wf(&self) -> bool {
        &&& self.keys().len() == self.values().len()
        &&& self.keys().no_duplicates()
        &&& self.indexed()
    }

    /// The entries in the order in which they were added, each value by its view.
    pub open spec fn entries(&self) -> Seq<(u64, V::V)> {
        Seq::new(self.keys().len(), |i: int| (self.keys()[i], self.values()[i].deep_view()))
    }

    /// The keys of the entries are the keys of the table.
    pub proof fn lemma_entry_keys(&self)
        ensures
            entry_keys(self.entries()) == self.keys(),
    {
        assert(entry_keys(self.entries()) =~= self.keys());
    }

    /// The empty table.
    pub fn new() -> (t: Self)
        ensures
            t.wf(),
            t.entries() == Seq::<(u64, V::V)>::empty(),
    {
        let t = Table { keys: Vec::new(), values: Vec::new(), index: HashMap::new() };
        assert(t.entries() =~= Seq::<(u64, V::V)>::empty());
        t
    }

    /// The number of entries.
    pub fn len(&self) -> (n: usize)
        requires
            self.wf(),
        ensures
            n == self.entries().len(),
    {
        self.keys.len()
    }

    /// The key of the entry at position `i`.
    pub fn key_at(&self, i: usize) -> (k: u64)
        requires
            self.wf(),
            i < self.entries().len(),
        ensures
            k == self.entries()[i as int].0,
    {
        self.keys[i]
    }

    /// The value of the entry at position `i`.
    pub fn value_at(&self, i: usize) -> (v: &V)
        requires
            self.wf(),
            i < self.entries().len(),
        ensures
            v.deep_view() == self.entries()[i as int].1,
    {
        &self.values[i]
    }

    /// Whether the table holds an entry for `key`.
    pub fn contains(&self, key: u64) -> (r: bool)
        requires
            self.wf(),
        ensures
            r == entry_keys(self.entries()).contains(key),
    {
        let r = self.index.contains_key(&key);
        proof {
            self.lemma_entry_keys();
            if self.keys@.contains(key) {
                let i = choose|i: int| 0 <= i < self.keys@.len() && self.keys@[i] == key;
                assert(self.index@.contains_key(self.keys@[i]));
            }
        }
        r
    }

    /// The value held for `key`; `None` where the table holds no entry for it.
    pub fn get(&self, key: u64) -> (r: Option<&V>)
        requires
            self.wf(),
        ensures
            match r {
                Some(v) => lookup_in(self.entries(), key) == Some(v.deep_view()),
                None => lookup_in(self.entries(), key) is None,
            },
    {
        proof {
            self.lemma_entry_keys();
            lemma_first_index(self.keys@, key);
            if self.keys@.contains(key) {
                let i = choose|i: int| 0 <= i < self.keys@.len() && self.keys@[i] == key;
                assert(self.index@.contains_key(self.keys@[i]));
            }
        }
        match self.index.get(&key) {
            Some(at) => {
                assert(self.index@.contains_key(key));
                Some(&self.values[*at])
            },
            None => None,
        }
    }

    /// Adds an entry unless the table holds one for `key` already; tells
    /// whether the entry was added.
    pub fn insert_unique(&mut self, key: u64, value: V) -> (added: bool)
        requires
            old(self).wf(),
        ensures
            final(self).wf(),
            added == !entry_keys(old(self).entries()).contains(key),
            added ==> final(self).entries() == old(self).entries().push((key, value.deep_view())),
            !added ==> final(self).entries() == old(self).entries(),
    {
        if self.contains(key) {
            return false;
        }
        proof {
            self.lemma_entry_keys();
        }
        let at = self.keys.len();
        self.keys.push(key);
        self.values.push(value);
        self.index.insert(key, at);
        proof {
            assert forall|i: int| 0 <= i < self.keys@.len() implies self.index@.contains_key(
                #[trigger] self.keys@[i],
            ) && self.index@[self.keys@[i]] == i by {
                if i < at {
                    assert(old(self).keys@[i] == self.keys@[i]);
                    assert(old(self).index@.contains_key(old(self).keys@[i]));
                }
            }
            assert forall|k: u64| #[trigger] self.index@.contains_key(k) implies self.index@[k]
                < self.keys@.len() && self.keys@[self.index@[k] as int] == k by {
                if k != key {
                    assert(old(self).index@.contains_key(k));
                }
            }
            assert(self.entries() =~= old(self).entries().push((key, value.deep_view())));
        }
        true
    }
}

} // verus!
