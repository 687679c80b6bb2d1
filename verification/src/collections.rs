//! `StringMap`: a map keyed by strings that keeps its entries in insertion order,
//! modelled as a `Map` from the keys' character sequences to the values.

use vstd::prelude::*;
use crate::text::{lemma_seq_lt_irreflexive, lemma_seq_lt_total, lemma_seq_lt_transitive, seq_lt, str_eq, str_lt};

verus! {

/// A map from strings to values; each key occurs once, and keys keep the
/// order in which they were first inserted.
#[derive(Debug, PartialEq, Eq)]
pub struct StringMap<V> {
    entries: Vec<(String, V)>,
}

/// Whether `k` is the key of some entry.
pub open spec fn entries_have<V>(e: Seq<(String, V)>, k: Seq<char>) -> bool {
    exists|i: int| 0 <= i < e.len() && e[i].0@ == k
}

/// The position of the entry with key `k`.
pub open spec fn entry_index<V>(e: Seq<(String, V)>, k: Seq<char>) -> int {
    choose|i: int| 0 <= i < e.len() && e[i].0@ == k
}

/// No key occurs twice.
pub open spec fn keys_distinct<V>(e: Seq<(String, V)>) -> bool {
    forall|i: int, j: int| 0 <= i < e.len() && 0 <= j < e.len() && i != j ==> e[i].0@ != e[j].0@
}

/// The map that a sequence of entries denotes.
pub open spec fn entries_map<V>(e: Seq<(String, V)>) -> Map<Seq<char>, V> {
    Map::new(|k: Seq<char>| entries_have(e, k), |k: Seq<char>| e[entry_index(e, k)].1)
}

impl<V> StringMap<V> {
    #[verifier::type_invariant]
    closed spec fn inv(self) -> bool {
        keys_distinct(self.entries@)
    }

    /// The map from key characters to values.
    pub closed spec fn view(&self) -> Map<Seq<char>, V> {
        entries_map(self.entries@)
    }

    /// The keys in insertion order.
    pub closed spec fn key_seq(&self) -> Seq<Seq<char>> {
        self.entries@.map_values(|e: (String, V)| e.0@)
    }

    /// An empty map.
    pub fn new() -> (m: Self)
        ensures
            m.view() == Map::<Seq<char>, V>::empty(),
            m.key_seq() == Seq::<Seq<char>>::empty(),
    {
        let m = StringMap { entries: Vec::new() };
        assert(m.view() =~= Map::<Seq<char>, V>::empty());
        assert(m.key_seq() =~= Seq::<Seq<char>>::empty());
        m
    }

    /// Position of the entry whose key is `key`, if any.
    fn position(&self, key: &str) -> (r: Option<usize>)
        ensures
            match r {
                Some(i) => i < self.entries@.len() && self.entries@[i as int].0@ == key@,
                None => !entries_have(self.entries@, key@),
            },
    {
        let mut i: usize = 0;
        while i < self.entries.len()
            invariant
                i <= self.entries@.len(),
                forall|j: int| 0 <= j < i ==> self.entries@[j].0@ != key@,
            decreases self.entries@.len() - i,
        {
            if str_eq(self.entries[i].0.as_str(), key) {
                return Some(i);
            }
            i += 1;
        }
        None
    }

    proof fn lemma_index_unique(&self, i: int)
        requires
            0 <= i < self.entries@.len(),
            keys_distinct(self.entries@),
        ensures
            entry_index(self.entries@, self.entries@[i].0@) == i,
            self.view()[self.entries@[i].0@] == self.entries@[i].1,
    {
        let k = self.entries@[i].0@;
        assert(entries_have(self.entries@, k));
        let j = entry_index(self.entries@, k);
        assert(0 <= j < self.entries@.len() && self.entries@[j].0@ == k);
    }

    /// Number of entries.
    pub fn len(&self) -> (n: usize)
        ensures
            n == self.view().len(),
            n == self.key_seq().len(),
    {
        proof {
            use_type_invariant(self);
            self.lemma_dom_len();
        }
        self.entries.len()
    }

    proof fn lemma_dom_len(&self)
        requires
            keys_distinct(self.entries@),
        ensures
            self.view().dom() == self.key_seq().to_set(),
            self.view().len() == self.entries@.len(),
            self.key_seq().len() == self.entries@.len(),
    {
        let ks = self.key_seq();
        assert(self.view().dom() =~= ks.to_set()) by {
            assert forall|k: Seq<char>| self.view().dom().contains(k) implies ks.to_set().contains(k) by {
                let i = entry_index(self.entries@, k);
                assert(ks[i] == k);
            }
            assert forall|k: Seq<char>| ks.to_set().contains(k) implies self.view().dom().contains(k) by {
                let i = choose|i: int| 0 <= i < ks.len() && ks[i] == k;
                assert(self.entries@[i].0@ == k);
            }
        }
        assert(ks.no_duplicates()) by {
            assert forall|i: int, j: int| 0 <= i < ks.len() && 0 <= j < ks.len() && i != j implies ks[i] != ks[j] by {
                assert(ks[i] == self.entries@[i].0@);
                assert(ks[j] == self.entries@[j].0@);
            }
        }
        ks.unique_seq_to_set();
    }

    /// Whether `key` has a value.
    pub fn contains_key(&self, key: &str) -> (b: bool)
        ensures
            b == self.view().contains_key(key@),
    {
        self.position(key).is_some()
    }

    /// The value of `key`, if it has one.
    pub fn get(&self, key: &str) -> (r: Option<&V>)
        ensures
            match r {
                Some(v) => self.view().contains_key(key@) && *v == self.view()[key@],
                None => !self.view().contains_key(key@),
            },
    {
        match self.position(key) {
            Some(i) => {
                proof {
                    use_type_invariant(self);
                    self.lemma_index_unique(i as int);
                }
                Some(&self.entries[i].1)
            },
            None => None,
        }
    }

    /// Sets the value of `key`; a new key goes after all others.
    pub fn insert(&mut self, key: String, value: V)
        ensures
            final(self).view() == old(self).view().insert(key@, value),
            old(self).view().contains_key(key@) ==> final(self).key_seq() == old(self).key_seq(),
            !old(self).view().contains_key(key@) ==> final(self).key_seq() == old(self).key_seq().push(key@),
    {
        proof {
            use_type_invariant(&*self);
        }
        let ghost old_e = self.entries@;
        let pos = self.position(key.as_str());
        let mut entries: Vec<(String, V)> = Vec::new();
        std::mem::swap(&mut entries, &mut self.entries);
        match pos {
            Some(i) => {
                let ghost k = key@;
                entries.set(i, (key, value));
                proof {
                    let e = entries@;
                    assert(keys_distinct(e));
                    assert forall|q: Seq<char>| #![auto] entries_have(e, q) == entries_have(old_e, q) by {
                        if entries_have(old_e, q) {
                            let j = choose|j: int| 0 <= j < old_e.len() && old_e[j].0@ == q;
                            assert(e[j].0@ == q);
                        }
                        if entries_have(e, q) {
                            let j = choose|j: int| 0 <= j < e.len() && e[j].0@ == q;
                            assert(old_e[j].0@ == q);
                        }
                    }
                    assert(entries_map(e) =~= entries_map(old_e).insert(k, value)) by {
                        assert forall|q: Seq<char>| entries_have(e, q) implies
                            e[entry_index(e, q)].1 == entries_map(old_e).insert(k, value)[q] by {
                            let j = entry_index(e, q);
                            if q == k {
                                assert(j == i);
                            } else {
                                let jo = entry_index(old_e, q);
                                assert(old_e[jo].0@ == q);
                                assert(e[jo].0@ == q);
                                assert(j == jo);
                            }
                        }
                    }
                    assert(entries@.map_values(|e: (String, V)| e.0@) =~= old_e.map_values(
                        |e: (String, V)| e.0@,
                    ));
                }
                self.entries = entries;
            },
            None => {
                let ghost k = key@;
                entries.push((key, value));
                proof {
                    let e = entries@;
                    assert(keys_distinct(e));
                    assert(entries_map(e) =~= entries_map(old_e).insert(k, value)) by {
                        assert forall|q: Seq<char>| #![auto] entries_have(e, q) == (entries_have(old_e, q) || q == k) by {
                            if entries_have(old_e, q) {
                                let j = choose|j: int| 0 <= j < old_e.len() && old_e[j].0@ == q;
                                assert(e[j].0@ == q);
                            }
                            if q == k {
                                assert(e[old_e.len() as int].0@ == q);
                            }
                        }
                        assert forall|q: Seq<char>| entries_have(e, q) implies
                            e[entry_index(e, q)].1 == entries_map(old_e).insert(k, value)[q] by {
                            let j = entry_index(e, q);
                            if q == k {
                                assert(j == old_e.len());
                            } else {
                                let jo = entry_index(old_e, q);
                                assert(old_e[jo].0@ == q);
                                assert(e[jo].0@ == q);
                                assert(j == jo);
                            }
                        }
                    }
                    assert(entries@.map_values(|e: (String, V)| e.0@) =~= old_e.map_values(
                        |e: (String, V)| e.0@,
                    ).push(k));
                }
                self.entries = entries;
            },
        }
    }

    /// The entries in insertion order: each key with its value.
    pub fn entries(&self) -> (r: &Vec<(String, V)>)
        ensures
            r@.map_values(|e: (String, V)| e.0@) == self.key_seq(),
            forall|i: int| 0 <= i < r@.len() ==> self.view().contains_key(#[trigger] r@[i].0@)
                && self.view()[r@[i].0@] == r@[i].1,
            forall|k: Seq<char>| #[trigger] self.view().contains_key(k) ==> exists|i: int| 0 <= i < r@.len() && r@[i].0@ == k,
            keys_distinct(r@),
    {
        proof {
            use_type_invariant(self);
            assert forall|i: int| 0 <= i < self.entries@.len() implies self.view().contains_key(
                #[trigger] self.entries@[i].0@) && self.view()[self.entries@[i].0@] == self.entries@[i].1 by {
                self.lemma_index_unique(i);
            }
        }
        &self.entries
    }

    /// The keys, in insertion order.
    pub fn keys(&self) -> (r: Vec<String>)
        ensures
            crate::text::views(r@) == self.key_seq(),
    {
        let mut r: Vec<String> = Vec::new();
        let mut i: usize = 0;
        while i < self.entries.len()
            invariant
                i <= self.entries@.len(),
                crate::text::views(r@) == self.key_seq().take(i as int),
            decreases self.entries@.len() - i,
        {
            let k = self.entries[i].0.clone();
            let ghost old_r = r@;
            r.push(k);
            assert(crate::text::views(r@) =~= crate::text::views(old_r).push(k@));
            assert(self.key_seq().take(i + 1) =~= self.key_seq().take(i as int).push(self.key_seq()[i as int]));
            i += 1;
        }
        assert(self.key_seq().take(i as int) =~= self.key_seq());
        r
    }
}

impl<V: Clone> Clone for StringMap<V> {
    /// A copy with the same keys in the same order; values are copied with `V::clone`.
    fn clone(&self) -> (r: Self)
        ensures
            r.key_seq() == self.key_seq(),
    {
        proof {
            use_type_invariant(self);
        }
        let mut entries: Vec<(String, V)> = Vec::new();
        let mut i: usize = 0;
        while i < self.entries.len()
            invariant
                i <= self.entries@.len(),
                keys_distinct(self.entries@),
                entries@.len() == i,
                forall|j: int| 0 <= j < i ==> #[trigger] entries@[j].0@ == self.entries@[j].0@,
            decreases self.entries@.len() - i,
        {
            let k = self.entries[i].0.clone();
            let v = self.entries[i].1.clone();
            entries.push((k, v));
            i += 1;
        }
        let r = StringMap { entries };
        assert(r.key_seq() =~= self.key_seq());
        r
    }
}

/// A read of a key gives back what the last insert of that key wrote, and
/// leaves other keys untouched.
pub proof fn law_insert_then_get<V>(m: Map<Seq<char>, V>, k: Seq<char>, v: V, other: Seq<char>)
    requires
        other != k,
    ensures
        m.insert(k, v)[k] == v,
        m.insert(k, v).contains_key(other) == m.contains_key(other),
        m.contains_key(other) ==> m.insert(k, v)[other] == m[other],
{
}

/// Keys in strictly increasing `str` order.
pub open spec fn keys_sorted<V>(e: Seq<(String, V)>) -> bool {
    forall|i: int, j: int| 0 <= i < j < e.len() ==> seq_lt(#[trigger] e[i].0@, #[trigger] e[j].0@)
}

proof fn lemma_sorted_distinct<V>(e: Seq<(String, V)>)
    requires
        keys_sorted(e),
    ensures
        keys_distinct(e),
{
    assert forall|i: int, j: int| 0 <= i < e.len() && 0 <= j < e.len() && i != j implies e[i].0@ != e[j].0@ by {
        if i < j {
            assert(seq_lt(e[i].0@, e[j].0@));
            lemma_seq_lt_irreflexive(e[i].0@);
        } else {
            assert(seq_lt(e[j].0@, e[i].0@));
            lemma_seq_lt_irreflexive(e[j].0@);
        }
    }
}

proof fn lemma_entries_map_at<V>(e: Seq<(String, V)>, i: int)
    requires
        keys_distinct(e),
        0 <= i < e.len(),
    ensures
        entries_map(e).contains_key(e[i].0@),
        entries_map(e)[e[i].0@] == e[i].1,
{
    let k = e[i].0@;
    assert(entries_have(e, k));
    let j = entry_index(e, k);
    assert(0 <= j < e.len() && e[j].0@ == k);
}

/// A map from strings to values whose entries are kept in increasing key
/// order, as a `BTreeMap<String, V>` iterates them.
#[derive(Debug)]
pub struct SortedMap<V> {
    entries: Vec<(String, V)>,
}

impl<V> SortedMap<V> {
    #[verifier::type_invariant]
    closed spec fn inv(self) -> bool {
        keys_sorted(self.entries@)
    }

    /// The map from key characters to values.
    pub closed spec fn view(&self) -> Map<Seq<char>, V> {
        entries_map(self.entries@)
    }

    /// The keys in increasing order.
    pub closed spec fn key_seq(&self) -> Seq<Seq<char>> {
        self.entries@.map_values(|e: (String, V)| e.0@)
    }

    /// An empty map.
    pub fn new() -> (m: Self)
        ensures
            m.view() == Map::<Seq<char>, V>::empty(),
            m.key_seq() == Seq::<Seq<char>>::empty(),
    {
        let m = SortedMap { entries: Vec::new() };
        assert(m.view() =~= Map::<Seq<char>, V>::empty());
        assert(m.key_seq() =~= Seq::<Seq<char>>::empty());
        m
    }

    /// The number of entries.
    pub fn len(&self) -> (n: usize)
        ensures
            n == self.key_seq().len(),
    {
        self.entries.len()
    }

    /// The value of `key`, if it has one.
    pub fn get(&self, key: &str) -> (r: Option<&V>)
        ensures
            match r {
                Some(v) => self.view().contains_key(key@) && *v == self.view()[key@],
                None => !self.view().contains_key(key@),
            },
    {
        proof {
            use_type_invariant(self);
            lemma_sorted_distinct(self.entries@);
        }
        let mut i: usize = 0;
        while i < self.entries.len()
            invariant
                i <= self.entries@.len(),
                keys_distinct(self.entries@),
                forall|j: int| 0 <= j < i ==> self.entries@[j].0@ != key@,
            decreases self.entries@.len() - i,
        {
            if str_eq(self.entries[i].0.as_str(), key) {
                proof {
                    lemma_entries_map_at(self.entries@, i as int);
                }
                return Some(&self.entries[i].1);
            }
            i += 1;
        }
        None
    }

    /// Whether `key` has a value.
    pub fn contains_key(&self, key: &str) -> (b: bool)
        ensures
            b == self.view().contains_key(key@),
    {
        self.get(key).is_some()
    }

    /// Sets the value of `key`, keeping the keys in increasing order.
    pub fn insert(&mut self, key: String, value: V)
        ensures
            final(self).view() == old(self).view().insert(key@, value),
    {
        proof {
            use_type_invariant(&*self);
            lemma_sorted_distinct(self.entries@);
        }
        let ghost old_e = self.entries@;
        let ghost k = key@;
        let mut p: usize = 0;
        while p < self.entries.len()
            invariant
                p <= old_e.len(),
                self.entries@ == old_e,
                k == key@,
                forall|j: int| 0 <= j < p ==> seq_lt(#[trigger] old_e[j].0@, k),
            ensures
                p <= old_e.len(),
                self.entries@ == old_e,
                forall|j: int| 0 <= j < p ==> seq_lt(#[trigger] old_e[j].0@, k),
                p < old_e.len() ==> !seq_lt(old_e[p as int].0@, k),
            decreases old_e.len() - p,
        {
            let before = str_lt(self.entries[p].0.as_str(), key.as_str());
            if !before {
                break;
            }
            p += 1;
        }
        let mut entries: Vec<(String, V)> = Vec::new();
        std::mem::swap(&mut entries, &mut self.entries);
        if p < entries.len() && str_eq(entries[p].0.as_str(), key.as_str()) {
            entries.set(p, (key, value));
            proof {
                let e = entries@;
                assert forall|i: int, j: int| 0 <= i < j < e.len() implies seq_lt(#[trigger] e[i].0@, #[trigger] e[j].0@) by {
                    assert(seq_lt(old_e[i].0@, old_e[j].0@));
                }
                lemma_sorted_distinct(e);
                assert(entries_map(e) =~= entries_map(old_e).insert(k, value)) by {
                    assert forall|q: Seq<char>| #![auto] entries_have(e, q) == entries_have(old_e, q) by {
                        if entries_have(old_e, q) {
                            let j = choose|j: int| 0 <= j < old_e.len() && old_e[j].0@ == q;
                            assert(e[j].0@ == q);
                        }
                        if entries_have(e, q) {
                            let j = choose|j: int| 0 <= j < e.len() && e[j].0@ == q;
                            assert(old_e[j].0@ == q);
                        }
                    }
                    assert forall|q: Seq<char>| entries_have(e, q) implies
                        e[entry_index(e, q)].1 == entries_map(old_e).insert(k, value)[q] by {
                        let j = choose|j: int| 0 <= j < e.len() && e[j].0@ == q;
                        lemma_entries_map_at(e, j);
                        if q != k {
                            lemma_entries_map_at(old_e, j);
                        }
                    }
                }
            }
            self.entries = entries;
        } else {
            let ghost pk = p;
            proof {
                if p < old_e.len() {
                    assert(!seq_lt(old_e[p as int].0@, k));
                    assert(old_e[p as int].0@ != k);
                    lemma_seq_lt_total(old_e[p as int].0@, k);
                    assert(seq_lt(k, old_e[p as int].0@));
                }
            }
            entries.insert(p, (key, value));
            proof {
                let e = entries@;
                assert(e == old_e.insert(pk as int, e[pk as int]));
                assert(e[pk as int].0@ == k);
                assert forall|i: int, j: int| 0 <= i < j < e.len() implies seq_lt(#[trigger] e[i].0@, #[trigger] e[j].0@) by {
                    if j < pk {
                        assert(seq_lt(old_e[i].0@, old_e[j].0@));
                    } else if j == pk {
                        assert(seq_lt(old_e[i].0@, k));
                    } else if i == pk {
                        if j - 1 > pk {
                            assert(seq_lt(old_e[pk as int].0@, old_e[j - 1].0@));
                            lemma_seq_lt_transitive(k, old_e[pk as int].0@, old_e[j - 1].0@);
                        }
                    } else if i < pk {
                        assert(seq_lt(old_e[i].0@, old_e[j - 1].0@));
                    } else {
                        assert(seq_lt(old_e[i - 1].0@, old_e[j - 1].0@));
                    }
                }
                lemma_sorted_distinct(e);
                assert(entries_map(e) =~= entries_map(old_e).insert(k, value)) by {
                    assert forall|q: Seq<char>| #![auto] entries_have(e, q) == (entries_have(old_e, q) || q == k) by {
                        if entries_have(old_e, q) {
                            let j = choose|j: int| 0 <= j < old_e.len() && old_e[j].0@ == q;
                            if j < pk {
                                assert(e[j].0@ == q);
                            } else {
                                assert(e[j + 1].0@ == q);
                            }
                        }
                        if q == k {
                            assert(e[pk as int].0@ == q);
                        }
                        if entries_have(e, q) && q != k {
                            let j = choose|j: int| 0 <= j < e.len() && e[j].0@ == q;
                            if j < pk {
                                assert(old_e[j].0@ == q);
                            } else {
                                assert(old_e[j - 1].0@ == q);
                            }
                        }
                    }
                    assert forall|q: Seq<char>| entries_have(e, q) implies
                        e[entry_index(e, q)].1 == entries_map(old_e).insert(k, value)[q] by {
                        let j = choose|j: int| 0 <= j < e.len() && e[j].0@ == q;
                        lemma_entries_map_at(e, j);
                        if q != k {
                            if j < pk {
                                lemma_entries_map_at(old_e, j);
                            } else {
                                lemma_entries_map_at(old_e, j - 1);
                            }
                        }
                    }
                }
            }
            self.entries = entries;
        }
    }

    /// The entries in increasing key order, taken out of the map.
    pub fn into_entries(self) -> (r: Vec<(String, V)>)
        ensures
            r@.map_values(|e: (String, V)| e.0@) == self.key_seq(),
            forall|i: int| 0 <= i < r@.len() ==> self.view().contains_key(#[trigger] r@[i].0@)
                && self.view()[r@[i].0@] == r@[i].1,
            forall|k: Seq<char>| #[trigger] self.view().contains_key(k) ==> exists|i: int| 0 <= i < r@.len() && r@[i].0@ == k,
            keys_distinct(r@),
            keys_sorted(r@),
    {
        proof {
            use_type_invariant(&self);
            lemma_sorted_distinct(self.entries@);
            assert forall|i: int| 0 <= i < self.entries@.len() implies self.view().contains_key(
                #[trigger] self.entries@[i].0@) && self.view()[self.entries@[i].0@] == self.entries@[i].1 by {
                lemma_entries_map_at(self.entries@, i);
            }
        }
        self.entries
    }

    /// The entries in increasing key order.
    pub fn entries(&self) -> (r: &Vec<(String, V)>)
        ensures
            r@.map_values(|e: (String, V)| e.0@) == self.key_seq(),
            forall|i: int| 0 <= i < r@.len() ==> self.view().contains_key(#[trigger] r@[i].0@)
                && self.view()[r@[i].0@] == r@[i].1,
            forall|k: Seq<char>| #[trigger] self.view().contains_key(k) ==> exists|i: int| 0 <= i < r@.len() && r@[i].0@ == k,
            keys_distinct(r@),
            keys_sorted(r@),
    {
        proof {
            use_type_invariant(self);
            lemma_sorted_distinct(self.entries@);
            assert forall|i: int| 0 <= i < self.entries@.len() implies self.view().contains_key(
                #[trigger] self.entries@[i].0@) && self.view()[self.entries@[i].0@] == self.entries@[i].1 by {
                lemma_entries_map_at(self.entries@, i);
            }
        }
        &self.entries
    }
}

} // verus!
