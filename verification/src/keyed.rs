//! Ordered collections keyed by strings. Keys are kept strictly increasing in
//! byte-lexicographic order, which is the iteration order of a `BTreeSet` or
//! `BTreeMap` keyed by `String`.
use crate::text::{compare_bytes, lemma_lex_irreflexive, lemma_lex_transitive, lex_lt, utf8};
use vstd::prelude::*;

verus! {

pub open spec fn key_of(s: String) -> Seq<u8> {
    utf8(s@)
}

pub open spec fn strictly_sorted(keys: Seq<Seq<u8>>) -> bool {
    forall|i: int, j: int| 0 <= i < j < keys.len() ==> lex_lt(#[trigger] keys[i], #[trigger] keys[j])
}

proof fn lemma_sorted_insert(keys: Seq<Seq<u8>>, pos: int, key: Seq<u8>)
    requires
        strictly_sorted(keys),
        0 <= pos <= keys.len(),
        forall|j: int| 0 <= j < pos ==> lex_lt(#[trigger] keys[j], key),
        pos < keys.len() ==> lex_lt(key, keys[pos]),
    ensures
        strictly_sorted(keys.insert(pos, key)),
{
    let n = keys.insert(pos, key);
    assert forall|i: int, j: int| 0 <= i < j < n.len() implies lex_lt(#[trigger] n[i], #[trigger] n[j]) by {
        if i < pos && j == pos {
        } else if i < pos && j > pos {
            assert(n[j] == keys[j - 1]);
            if j - 1 > pos {
                lemma_lex_transitive(key, keys[pos], keys[j - 1]);
            }
            lemma_lex_transitive(keys[i], key, keys[j - 1]);
        } else if i == pos {
            assert(n[j] == keys[j - 1]);
            if j - 1 > pos {
                lemma_lex_transitive(key, keys[pos], keys[j - 1]);
            }
        } else if i > pos {
            assert(n[i] == keys[i - 1]);
            assert(n[j] == keys[j - 1]);
        }
    }
}

/// A set of byte strings has exactly one strictly ascending enumeration.
pub proof fn lemma_sorted_unique(a: Seq<Seq<u8>>, b: Seq<Seq<u8>>)
    requires
        strictly_sorted(a),
        strictly_sorted(b),
        a.to_set() == b.to_set(),
    ensures
        a == b,
    decreases a.len(),
{
    if a.len() == 0 {
        if b.len() > 0 {
            assert(b.to_set().contains(b[0]));
        }
        assert(a =~= b);
    } else {
        assert(a.to_set().contains(a[0]));
        assert(b.len() > 0);
        assert(b.to_set().contains(b[0]));
        let j = choose|j: int| 0 <= j < b.len() && b[j] == a[0];
        let i = choose|i: int| 0 <= i < a.len() && a[i] == b[0];
        if j > 0 {
            assert(lex_lt(b[0], b[j]));
            if i == 0 {
                lemma_lex_irreflexive(a[0]);
            } else {
                assert(lex_lt(a[0], a[i]));
                crate::text::lemma_lex_asymmetric(a[0], a[i]);
            }
        }
        assert(a[0] == b[0]);
        let a1 = a.drop_first();
        let b1 = b.drop_first();
        assert forall|x: Seq<u8>| a1.to_set().contains(x) <==> b1.to_set().contains(x) by {
            if a1.to_set().contains(x) {
                let p = choose|p: int| 0 <= p < a1.len() && a1[p] == x;
                assert(lex_lt(a[0], a[p + 1]));
                assert(a.to_set().contains(x));
                let q = choose|q: int| 0 <= q < b.len() && b[q] == x;
                if q == 0 {
                    lemma_lex_irreflexive(x);
                }
                assert(b1[q - 1] == x);
            }
            if b1.to_set().contains(x) {
                let p = choose|p: int| 0 <= p < b1.len() && b1[p] == x;
                assert(lex_lt(b[0], b[p + 1]));
                assert(b.to_set().contains(x));
                let q = choose|q: int| 0 <= q < a.len() && a[q] == x;
                if q == 0 {
                    lemma_lex_irreflexive(x);
                }
                assert(a1[q - 1] == x);
            }
        }
        assert(a1.to_set() =~= b1.to_set());
        lemma_sorted_unique(a1, b1);
        assert(a =~= b) by {
            assert forall|t: int| 0 <= t < a.len() implies a[t] == b[t] by {
                if t > 0 {
                    assert(a[t] == a1[t - 1]);
                    assert(b[t] == b1[t - 1]);
                }
            }
        }
    }
}

/// A set of strings in ascending byte order.
#[derive(Debug, Clone, PartialEq, Eq)]
pub struct SortedStrings {
    items: Vec<String>,
}

impl SortedStrings {
    pub closed spec fn items(&self) -> Seq<String> {
        self.items@
    }

    pub open spec fn keys(&self) -> Seq<Seq<u8>> {
        self.items().map_values(|s: String| key_of(s))
    }

    pub open spec fn key_set(&self) -> Set<Seq<u8>> {
        self.keys().to_set()
    }

    pub open spec fn wf(&self) -> bool {
        strictly_sorted(self.keys())
    }

    pub fn new() -> (r: Self)
        ensures
            r.wf(),
            r.items() == Seq::<String>::empty(),
    {
        SortedStrings { items: Vec::new() }
    }

    pub fn len(&self) -> (r: usize)
        ensures
            r == self.items().len(),
    {
        self.items.len()
    }

    /// Position of the first item not below `key`, and whether it equals `key`.
    fn locate(&self, key: &[u8]) -> (r: (usize, bool))
        requires
            self.wf(),
        ensures
            r.0 <= self.items().len(),
            forall|j: int| 0 <= j < r.0 ==> lex_lt(#[trigger] self.keys()[j], key@),
            r.1 == (r.0 < self.items().len() && self.keys()[r.0 as int] == key@),
            !r.1 && r.0 < self.items().len() ==> lex_lt(key@, self.keys()[r.0 as int]),
            r.1 == self.keys().contains(key@),
    {
        let mut i: usize = 0;
        while i < self.items.len()
            invariant
                self.wf(),
                i <= self.items@.len(),
                forall|j: int| 0 <= j < i ==> lex_lt(#[trigger] self.keys()[j], key@),
            decreases self.items@.len() - i,
        {
            let c = compare_bytes(self.items[i].as_str().as_bytes(), key);
            if c >= 0 {
                proof {
                    if c > 0 {
                        assert forall|j: int| 0 <= j < self.keys().len() implies self.keys()[j]
                            != key@ by {
                            if j < i {
                                lemma_lex_irreflexive(key@);
                            } else if j > i {
                                lemma_lex_transitive(key@, self.keys()[i as int], self.keys()[j]);
                                lemma_lex_irreflexive(key@);
                            }
                        }
                    }
                }
                return (i, c == 0);
            }
            i = i + 1;
        }
        proof {
            assert forall|j: int| 0 <= j < self.keys().len() implies self.keys()[j] != key@ by {
                lemma_lex_irreflexive(key@);
            }
        }
        (i, false)
    }

    pub fn contains(&self, key: &str) -> (r: bool)
        requires
            self.wf(),
        ensures
            r == self.key_set().contains(utf8(key@)),
    {
        let (_, found) = self.locate(key.as_bytes());
        found
    }

    /// Adds `value`; returns whether it was absent.
    pub fn insert(&mut self, value: String) -> (fresh: bool)
        requires
            old(self).wf(),
        ensures
            final(self).wf(),
            fresh == !old(self).key_set().contains(key_of(value)),
            final(self).key_set() == old(self).key_set().insert(key_of(value)),
            !fresh ==> final(self).items() == old(self).items(),
            final(self).items().len() == old(self).items().len() + (if fresh { 1int } else { 0 }),
    {
        let (pos, found) = self.locate(value.as_str().as_bytes());
        if found {
            proof {
                assert(self.key_set().insert(key_of(value)) =~= self.key_set());
            }
            return false;
        }
        let ghost old_items = self.items@;
        let ghost key = key_of(value);
        self.items.insert(pos, value);
        proof {
            let old_keys = old_items.map_values(|s: String| key_of(s));
            lemma_sorted_insert(old_keys, pos as int, key);
            assert(self.keys() =~= old_keys.insert(pos as int, key));
            assert forall|k: Seq<u8>| self.key_set().contains(k) implies old_keys.to_set().insert(key).contains(k) by {
                let j = choose|j: int| 0 <= j < self.keys().len() && #[trigger] self.keys()[j] == k;
                if j < pos {
                    assert(old_keys[j] == k);
                } else if j > pos {
                    assert(old_keys[j - 1] == k);
                }
            }
            assert forall|k: Seq<u8>| old_keys.to_set().insert(key).contains(k) implies self.key_set().contains(k) by {
                if k == key {
                    assert(self.keys()[pos as int] == key);
                } else {
                    let j = choose|j: int| 0 <= j < old_keys.len() && #[trigger] old_keys[j] == k;
                    if j < pos {
                        assert(self.keys()[j] == k);
                    } else {
                        assert(self.keys()[j + 1] == k);
                    }
                }
            }
            assert(self.key_set() =~= old_keys.to_set().insert(key));
        }
        true
    }

    /// Distinct keys: the number of items is the number of keys in the set.
    pub proof fn lemma_len_is_set_len(&self)
        requires
            self.wf(),
        ensures
            self.items().len() == self.key_set().len(),
    {
        let ks = self.keys();
        assert forall|i: int, j: int| 0 <= i < ks.len() && 0 <= j < ks.len() && i != j implies ks[i] != ks[j] by {
            if i < j {
                assert(lex_lt(ks[i], ks[j]));
                if ks[i] == ks[j] {
                    lemma_lex_irreflexive(ks[i]);
                }
            } else {
                assert(lex_lt(ks[j], ks[i]));
                if ks[i] == ks[j] {
                    lemma_lex_irreflexive(ks[i]);
                }
            }
        }
        assert(ks.no_duplicates());
        ks.unique_seq_to_set();
    }

    /// The set of the given strings.
    pub fn from_items(items: &Vec<String>) -> (r: Self)
        ensures
            r.wf(),
            r.key_set() == items@.map_values(|s: String| key_of(s)).to_set(),
    {
        let ghost all = items@.map_values(|s: String| key_of(s));
        let mut r = SortedStrings::new();
        let mut i: usize = 0;
        while i < items.len()
            invariant
                r.wf(),
                i <= items@.len(),
                all == items@.map_values(|s: String| key_of(s)),
                r.key_set() == all.subrange(0, i as int).to_set(),
            decreases items@.len() - i,
        {
            r.insert(items[i].clone());
            proof {
                assert(all.subrange(0, i + 1) =~= all.subrange(0, i as int).push(all[i as int]));
                all.subrange(0, i as int).lemma_push_to_set_commute(all[i as int]);
            }
            i = i + 1;
        }
        assert(all.subrange(0, items@.len() as int) =~= all);
        r
    }

    /// The items in ascending order.
    pub fn to_vec(&self) -> (r: Vec<String>)
        ensures
            r@ == self.items(),
    {
        let mut out: Vec<String> = Vec::new();
        let mut i: usize = 0;
        while i < self.items.len()
            invariant
                i <= self.items@.len(),
                out@ == self.items@.subrange(0, i as int),
            decreases self.items@.len() - i,
        {
            out.push(self.items[i].clone());
            proof {
                assert(self.items@.subrange(0, i + 1) =~= self.items@.subrange(0, i as int).push(
                    self.items@[i as int],
                ));
            }
            i = i + 1;
        }
        proof {
            assert(self.items@.subrange(0, self.items@.len() as int) =~= self.items@);
        }
        out
    }
}


/// A map from strings to values, entries in ascending byte order of keys.
#[derive(Debug, Clone, PartialEq, Eq)]
pub struct SortedMap<V> {
    entries: Vec<(String, V)>,
}

impl<V> SortedMap<V> {
    pub closed spec fn entries(&self) -> Seq<(String, V)> {
        self.entries@
    }

    pub open spec fn keys(&self) -> Seq<Seq<u8>> {
        self.entries().map_values(|e: (String, V)| key_of(e.0))
    }

    pub open spec fn values(&self) -> Seq<V> {
        self.entries().map_values(|e: (String, V)| e.1)
    }

    pub open spec fn wf(&self) -> bool {
        strictly_sorted(self.keys())
    }

    pub open spec fn contains_key(&self, k: Seq<u8>) -> bool {
        self.keys().contains(k)
    }

    /// The value stored under `k`, when `k` is present.
    pub open spec fn value_of(&self, k: Seq<u8>) -> V {
        self.values()[self.keys().index_of(k)]
    }

    /// The map from keys to values that the entries stand for.
    pub open spec fn as_map(&self) -> Map<Seq<u8>, V> {
        Map::new(|k: Seq<u8>| self.contains_key(k), |k: Seq<u8>| self.value_of(k))
    }

    /// Distinct keys: the number of entries is the number of keys in the set.
    pub proof fn lemma_len_is_set_len(&self)
        requires
            self.wf(),
        ensures
            self.entries().len() == self.keys().to_set().len(),
    {
        let ks = self.keys();
        assert forall|i: int, j: int| 0 <= i < ks.len() && 0 <= j < ks.len() && i != j implies ks[i] != ks[j] by {
            if ks[i] == ks[j] {
                lemma_lex_irreflexive(ks[i]);
                if i < j {
                    assert(lex_lt(ks[i], ks[j]));
                } else {
                    assert(lex_lt(ks[j], ks[i]));
                }
            }
        }
        assert(ks.no_duplicates());
        ks.unique_seq_to_set();
    }

    /// Entry `j` is what the map holds under its key.
    pub proof fn lemma_entry_in_map(&self, j: int)
        requires
            self.wf(),
            0 <= j < self.entries().len(),
        ensures
            self.as_map().contains_key(self.keys()[j]),
            self.as_map()[self.keys()[j]] == self.entries()[j].1,
    {
        assert(self.contains_key(self.keys()[j]));
        self.lemma_unique_index(j, self.keys()[j]);
    }

    pub fn new() -> (r: Self)
        ensures
            r.wf(),
            r.entries() == Seq::<(String, V)>::empty(),
            r.as_map() == Map::<Seq<u8>, V>::empty(),
    {
        let r = SortedMap { entries: Vec::new() };
        assert(r.as_map() =~= Map::<Seq<u8>, V>::empty());
        r
    }

    pub fn len(&self) -> (r: usize)
        ensures
            r == self.entries().len(),
    {
        self.entries.len()
    }

    pub fn key_at(&self, i: usize) -> (r: &String)
        requires
            i < self.entries().len(),
        ensures
            *r == self.entries()[i as int].0,
    {
        &self.entries[i].0
    }

    pub fn value_at(&self, i: usize) -> (r: &V)
        requires
            i < self.entries().len(),
        ensures
            *r == self.entries()[i as int].1,
    {
        &self.entries[i].1
    }

    proof fn lemma_unique_index(&self, i: int, k: Seq<u8>)
        requires
            self.wf(),
            0 <= i < self.keys().len(),
            self.keys()[i] == k,
        ensures
            self.keys().index_of(k) == i,
            self.value_of(k) == self.entries()[i].1,
    {
        assert(self.keys()[i] == k);
        let j = self.keys().index_of(k);
        if j != i {
            if j < i {
                assert(lex_lt(self.keys()[j], self.keys()[i]));
            } else {
                assert(lex_lt(self.keys()[i], self.keys()[j]));
            }
            lemma_lex_irreflexive(k);
        }
    }

    /// Position of the first entry whose key is not below `key`.
    fn locate(&self, key: &[u8]) -> (r: (usize, bool))
        requires
            self.wf(),
        ensures
            r.0 <= self.entries().len(),
            forall|j: int| 0 <= j < r.0 ==> lex_lt(#[trigger] self.keys()[j], key@),
            r.1 == (r.0 < self.entries().len() && self.keys()[r.0 as int] == key@),
            !r.1 && r.0 < self.entries().len() ==> lex_lt(key@, self.keys()[r.0 as int]),
            r.1 == self.keys().contains(key@),
    {
        let mut i: usize = 0;
        while i < self.entries.len()
            invariant
                self.wf(),
                i <= self.entries@.len(),
                forall|j: int| 0 <= j < i ==> lex_lt(#[trigger] self.keys()[j], key@),
            decreases self.entries@.len() - i,
        {
            let c = compare_bytes(self.entries[i].0.as_str().as_bytes(), key);
            if c >= 0 {
                proof {
                    if c > 0 {
                        assert forall|j: int| 0 <= j < self.keys().len() implies self.keys()[j]
                            != key@ by {
                            if j < i {
                                lemma_lex_irreflexive(key@);
                            } else if j > i {
                                lemma_lex_transitive(key@, self.keys()[i as int], self.keys()[j]);
                                lemma_lex_irreflexive(key@);
                            }
                        }
                    } else {
                        assert(self.keys()[i as int] == key@);
                    }
                }
                return (i, c == 0);
            }
            i = i + 1;
        }
        proof {
            assert forall|j: int| 0 <= j < self.keys().len() implies self.keys()[j] != key@ by {
                lemma_lex_irreflexive(key@);
            }
        }
        (i, false)
    }

    /// Index of the entry stored under `key`, if any.
    pub fn find(&self, key: &str) -> (r: Option<usize>)
        requires
            self.wf(),
        ensures
            r is None <==> !self.contains_key(utf8(key@)),
            r matches Some(i) ==> i < self.entries().len() && self.keys()[i as int] == utf8(key@)
                && self.value_of(utf8(key@)) == self.entries()[i as int].1,
    {
        let (pos, found) = self.locate(key.as_bytes());
        if found {
            proof {
                self.lemma_unique_index(pos as int, utf8(key@));
            }
            Some(pos)
        } else {
            None
        }
    }

    /// Replaces the value of entry `i`, keeping its key.
    pub fn set_value(&mut self, i: usize, value: V)
        requires
            old(self).wf(),
            i < old(self).entries().len(),
        ensures
            final(self).wf(),
            final(self).keys() == old(self).keys(),
            final(self).entries() == old(self).entries().update(i as int, (old(self).entries()[i as int].0, value)),
            final(self).as_map() == old(self).as_map().insert(old(self).keys()[i as int], value),
    {
        let ghost old_self = *self;
        let ghost old_keys = self.keys();
        let key = self.entries[i].0.clone();
        self.entries.set(i, (key, value));
        assert(self.keys() =~= old_keys);
        proof {
            let ki = old_keys[i as int];
            self.lemma_unique_index(i as int, ki);
            assert forall|k: Seq<u8>| #[trigger] self.contains_key(k) && k != ki implies self.value_of(k) == old_self.value_of(k) by {
                let j = choose|j: int| 0 <= j < old_keys.len() && #[trigger] old_keys[j] == k;
                old_self.lemma_unique_index(j, k);
                self.lemma_unique_index(j, k);
            }
            assert(self.as_map() =~= old_self.as_map().insert(ki, value));
        }
    }

    /// Inserts `key` with `value` when absent; returns whether it was absent.
    /// An existing entry is left as it is.
    pub fn insert_new(&mut self, key: String, value: V) -> (fresh: bool)
        requires
            old(self).wf(),
        ensures
            final(self).wf(),
            fresh == !old(self).contains_key(key_of(key)),
            !fresh ==> final(self).entries() == old(self).entries(),
            fresh ==> exists|p: int| 0 <= p <= old(self).entries().len() && final(self).entries() == old(self).entries().insert(p, (key, value)),
            fresh ==> final(self).keys().to_set() == old(self).keys().to_set().insert(key_of(key)),
    {
        let (pos, found) = self.locate(key.as_str().as_bytes());
        if found {
            return false;
        }
        let ghost old_entries = self.entries@;
        let ghost old_keys = self.keys();
        let ghost k = key_of(key);
        self.entries.insert(pos, (key, value));
        proof {
            lemma_sorted_insert(old_keys, pos as int, k);
            assert(self.keys() =~= old_keys.insert(pos as int, k));
            assert forall|x: Seq<u8>| self.keys().to_set().contains(x) implies old_keys.to_set().insert(k).contains(x) by {
                let j = choose|j: int| 0 <= j < self.keys().len() && #[trigger] self.keys()[j] == x;
                if j < pos {
                    assert(old_keys[j] == x);
                } else if j > pos {
                    assert(old_keys[j - 1] == x);
                }
            }
            assert forall|x: Seq<u8>| old_keys.to_set().insert(k).contains(x) implies self.keys().to_set().contains(x) by {
                if x == k {
                    assert(self.keys()[pos as int] == k);
                } else {
                    let j = choose|j: int| 0 <= j < old_keys.len() && #[trigger] old_keys[j] == x;
                    if j < pos {
                        assert(self.keys()[j] == x);
                    } else {
                        assert(self.keys()[j + 1] == x);
                    }
                }
            }
            assert(self.keys().to_set() =~= old_keys.to_set().insert(k));
        }
        true
    }

    /// Removes the entry stored under `key`; returns whether there was one.
    pub fn remove(&mut self, key: &str) -> (r: bool)
        requires
            old(self).wf(),
        ensures
            final(self).wf(),
            r == old(self).contains_key(utf8(key@)),
            final(self).as_map() == old(self).as_map().remove(utf8(key@)),
    {
        let ghost old_self = *self;
        match self.find(key) {
            None => {
                assert(self.as_map().remove(utf8(key@)) =~= self.as_map());
                false
            },
            Some(i) => {
                let ghost k0 = utf8(key@);
                self.entries.remove(i);
                proof {
                    let ok = old_self.keys();
                    assert(self.keys() =~= ok.remove(i as int));
                    assert forall|a: int, b: int| 0 <= a < b < self.keys().len() implies lex_lt(
                        #[trigger] self.keys()[a],
                        #[trigger] self.keys()[b],
                    ) by {
                        let oa = if a < i { a } else { a + 1 };
                        let ob = if b < i { b } else { b + 1 };
                        assert(self.keys()[a] == ok[oa] && self.keys()[b] == ok[ob]);
                    }
                    assert forall|k: Seq<u8>| #[trigger] self.contains_key(k) <==> (old_self.contains_key(k) && k != k0) by {
                        if self.contains_key(k) {
                            let j = choose|j: int| 0 <= j < self.keys().len() && self.keys()[j] == k;
                            let oj = if j < i { j } else { j + 1 };
                            assert(ok[oj] == k);
                            if k == k0 {
                                old_self.lemma_unique_index(oj, k);
                                old_self.lemma_unique_index(i as int, k);
                            }
                        }
                        if old_self.contains_key(k) && k != k0 {
                            let j = choose|j: int| 0 <= j < ok.len() && ok[j] == k;
                            assert(j != i);
                            if j < i {
                                assert(self.keys()[j] == k);
                            } else {
                                assert(self.keys()[j - 1] == k);
                            }
                        }
                    }
                    assert forall|k: Seq<u8>| #[trigger] self.contains_key(k) implies self.value_of(k) == old_self.value_of(k) by {
                        let j = choose|j: int| 0 <= j < self.keys().len() && self.keys()[j] == k;
                        let oj = if j < i { j } else { j + 1 };
                        self.lemma_unique_index(j, k);
                        old_self.lemma_unique_index(oj, k);
                    }
                    assert(self.as_map() =~= old_self.as_map().remove(k0));
                }
                true
            },
        }
    }

    /// The value stored under `key`, if any.
    pub fn get(&self, key: &str) -> (r: Option<&V>)
        requires
            self.wf(),
        ensures
            r is None <==> !self.contains_key(utf8(key@)),
            r matches Some(v) ==> *v == self.value_of(utf8(key@)),
    {
        match self.find(key) {
            Some(i) => Some(&self.entries[i].1),
            None => None,
        }
    }

    /// Stores `value` under `key`, replacing any previous value; returns
    /// whether the key was absent.
    pub fn insert(&mut self, key: String, value: V) -> (fresh: bool)
        requires
            old(self).wf(),
        ensures
            final(self).wf(),
            fresh == !old(self).contains_key(key_of(key)),
            final(self).keys().to_set() == old(self).keys().to_set().insert(key_of(key)),
            final(self).contains_key(key_of(key)),
            final(self).value_of(key_of(key)) == value,
            forall|k: Seq<u8>| k != key_of(key) && old(self).contains_key(k) ==> final(self).value_of(k) == old(self).value_of(k),
            final(self).as_map() == old(self).as_map().insert(key_of(key), value),
    {
        let ghost old_self = *self;
        match self.find(key.as_str()) {
            Some(i) => {
                self.set_value(i, value);
                proof {
                    assert(self.keys() == old_self.keys());
                    self.lemma_unique_index(i as int, key_of(key));
                    assert forall|k: Seq<u8>| k != key_of(key) && old_self.contains_key(k) implies self.value_of(k) == old_self.value_of(k) by {
                        let j = choose|j: int| 0 <= j < old_self.keys().len() && #[trigger] old_self.keys()[j] == k;
                        old_self.lemma_unique_index(j, k);
                        self.lemma_unique_index(j, k);
                    }
                }
                false
            },
            None => {
                let ghost k0 = key_of(key);
                let fresh = self.insert_new(key, value);
                proof {
                    let p = choose|p: int| 0 <= p <= old_self.entries().len() && self.entries() == old_self.entries().insert(p, (key, value));
                    assert(self.keys() =~= old_self.keys().insert(p, k0));
                    self.lemma_unique_index(p, k0);
                    assert(self.keys().to_set().contains(k0));
                    assert forall|k: Seq<u8>| k != k0 && old_self.contains_key(k) implies self.value_of(k) == old_self.value_of(k) by {
                        let j = choose|j: int| 0 <= j < old_self.keys().len() && #[trigger] old_self.keys()[j] == k;
                        old_self.lemma_unique_index(j, k);
                        if j < p {
                            assert(self.keys()[j] == k);
                            self.lemma_unique_index(j, k);
                        } else {
                            assert(self.keys()[j + 1] == k);
                            self.lemma_unique_index(j + 1, k);
                        }
                    }
                    assert forall|k: Seq<u8>| #[trigger] self.contains_key(k) <==> (old_self.contains_key(k) || k == k0) by {
                        assert(self.keys().to_set().contains(k) == self.contains_key(k));
                        assert(old_self.keys().to_set().contains(k) == old_self.contains_key(k));
                    }
                    assert(self.as_map() =~= old_self.as_map().insert(k0, value));
                }
                fresh
            },
        }
    }
}

} // verus!
