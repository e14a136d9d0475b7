//! A map keyed by strings that keeps its entries in ascending key order, so that
//! walking it gives the keys sorted as `String`s sort.
use vstd::prelude::*;

use crate::props::{
    distinct_keys, has_key_at, lemma_to_map_dom, lemma_to_map_remove, lemma_to_map_update,
    lemma_to_map_value, to_map,
};
use crate::text::{
    lemma_text_lt_irreflexive, lemma_text_lt_total, lemma_text_lt_transitive, str_eq, text_less,
    text_lt,
};

verus! {

/// The keys of an association list strictly ascend.
pub open spec fn keys_ascending<V>(s: Seq<(String, V)>) -> bool {
    forall|i: int, j: int| 0 <= i < j < s.len() ==> text_lt(#[trigger] s[i].0@, #[trigger] s[j].0@)
}

/// Ascending keys are distinct keys.
pub proof fn lemma_ascending_distinct<V>(s: Seq<(String, V)>)
    requires
        keys_ascending(s),
    ensures
        distinct_keys(s),
{
    assert forall|i: int, j: int| 0 <= i < s.len() && 0 <= j < s.len() && i != j implies s[i].0@
        != s[j].0@ by {
        if i < j {
            lemma_text_lt_irreflexive(s[i].0@);
        } else {
            lemma_text_lt_irreflexive(s[j].0@);
        }
    }
}

/// Inserting an entry with a fresh key anywhere adds that key to the map.
pub proof fn lemma_to_map_insert_at<V>(s: Seq<(String, V)>, p: int, e: (String, V))
    requires
        0 <= p <= s.len(),
        forall|i: int| 0 <= i < s.len() ==> #[trigger] s[i].0@ != e.0@,
    ensures
        to_map(s.insert(p, e)) == to_map(s).insert(e.0@, e.1),
    decreases s.len(),
{
    let t = s.insert(p, e);
    if p == s.len() {
        assert(t.drop_last() =~= s);
    } else {
        let u = s.drop_last();
        assert forall|i: int| 0 <= i < u.len() implies #[trigger] u[i].0@ != e.0@ by {
            assert(u[i] == s[i]);
        }
        lemma_to_map_insert_at(u, p, e);
        assert(t.drop_last() =~= u.insert(p, e));
        assert(t.last() == s.last());
        assert(s.last().0@ != e.0@);
        assert(to_map(t) =~= to_map(s).insert(e.0@, e.1));
    }
}

/// A map from strings to values, its entries kept in ascending key order.
#[derive(Debug)]
pub struct SortedMap<V> {
    entries: Vec<(String, V)>,
}

impl<V> SortedMap<V> {
    #[verifier::type_invariant]
    spec fn well_formed(self) -> bool {
        keys_ascending(self.entries@)
    }

    /// The entries, in ascending key order.
    pub closed spec fn entry_seq(self) -> Seq<(String, V)> {
        self.entries@
    }

    /// The map that the entries denote.
    pub closed spec fn map(self) -> Map<Seq<char>, V> {
        to_map(self.entries@)
    }

    /// An empty map.
    pub fn new() -> (m: Self)
        ensures
            m.entry_seq() == Seq::<(String, V)>::empty(),
            m.map() == Map::<Seq<char>, V>::empty(),
    {
        SortedMap { entries: Vec::new() }
    }

    /// The number of entries.
    pub fn len(&self) -> (n: usize)
        ensures
            n == self.entry_seq().len(),
    {
        self.entries.len()
    }

    /// Whether the map has no entry.
    pub fn is_empty(&self) -> (b: bool)
        ensures
            b == (self.entry_seq().len() == 0),
    {
        self.entries.len() == 0
    }

    /// The entries, in ascending key order.
    pub fn entries(&self) -> (r: &Vec<(String, V)>)
        ensures
            r@ == self.entry_seq(),
            keys_ascending(r@),
            distinct_keys(r@),
            self.map() == to_map(r@),
    {
        proof {
            use_type_invariant(self);
            lemma_ascending_distinct(self.entries@);
        }
        &self.entries
    }

    /// Gives up the map, handing out its entries in ascending key order.
    pub fn into_entries(self) -> (r: Vec<(String, V)>)
        ensures
            r@ == self.entry_seq(),
            keys_ascending(r@),
            distinct_keys(r@),
            self.map() == to_map(r@),
    {
        proof {
            use_type_invariant(&self);
            lemma_ascending_distinct(self.entries@);
        }
        self.entries
    }

    /// The first position whose key does not sort before `key`.
    fn lower_bound(&self, key: &str) -> (p: usize)
        ensures
            p <= self.entry_seq().len(),
            forall|i: int| 0 <= i < p ==> text_lt(#[trigger] self.entry_seq()[i].0@, key@),
            p < self.entry_seq().len() ==> !text_lt(self.entry_seq()[p as int].0@, key@),
    {
        let n = self.entries.len();
        let mut p: usize = 0;
        while p < n
            invariant
                n == self.entries@.len(),
                p <= n,
                forall|i: int| 0 <= i < p ==> text_lt(#[trigger] self.entries@[i].0@, key@),
            decreases n - p,
        {
            if !text_less(self.entries[p].0.as_str(), key) {
                return p;
            }
            p += 1;
        }
        p
    }

    /// The position of `key`, if it is present.
    pub fn position(&self, key: &str) -> (r: Option<usize>)
        ensures
            match r {
                Some(i) => has_key_at(self.entry_seq(), key@, i as int),
                None => !self.map().contains_key(key@),
            },
    {
        proof {
            use_type_invariant(self);
            lemma_to_map_dom(self.entries@, key@);
        }
        let p = self.lower_bound(key);
        if p < self.entries.len() && str_eq(self.entries[p].0.as_str(), key) {
            return Some(p);
        }
        proof {
            assert forall|i: int| 0 <= i < self.entries@.len() implies !has_key_at(
                self.entries@,
                key@,
                i,
            ) by {
                if i < p {
                    lemma_text_lt_irreflexive(key@);
                } else {
                    lemma_text_lt_total(self.entries@[p as int].0@, key@);
                    if i > p {
                        lemma_text_lt_transitive(key@, self.entries@[p as int].0@, self.entries@[i].0@);
                        lemma_text_lt_irreflexive(key@);
                    }
                }
            }
        }
        None
    }

    /// The value stored under `key`.
    pub fn get(&self, key: &str) -> (r: Option<&V>)
        ensures
            match r {
                Some(v) => self.map().contains_key(key@) && self.map()[key@] == *v,
                None => !self.map().contains_key(key@),
            },
    {
        proof {
            use_type_invariant(self);
            lemma_ascending_distinct(self.entries@);
        }
        match self.position(key) {
            Some(i) => {
                proof {
                    lemma_to_map_value(self.entries@, i as int);
                }
                Some(&self.entries[i].1)
            },
            None => None,
        }
    }

    /// Whether `key` is present.
    pub fn contains_key(&self, key: &str) -> (b: bool)
        ensures
            b == self.map().contains_key(key@),
    {
        proof {
            use_type_invariant(self);
            lemma_ascending_distinct(self.entries@);
        }
        match self.position(key) {
            Some(i) => {
                proof {
                    lemma_to_map_value(self.entries@, i as int);
                }
                true
            },
            None => false,
        }
    }

    /// Stores `value` under `key`, replacing what was there.
    pub fn insert(&mut self, key: String, value: V)
        ensures
            final(self).map() == old(self).map().insert(key@, value),
    {
        proof {
            use_type_invariant(&*self);
            lemma_ascending_distinct(self.entries@);
        }
        let p = self.lower_bound(key.as_str());
        let ghost s = self.entries@;
        if p < self.entries.len() && str_eq(self.entries[p].0.as_str(), key.as_str()) {
            proof {
                lemma_to_map_update(s, p as int, key, value);
            }
            let mut entries: Vec<(String, V)> = Vec::new();
            std::mem::swap(&mut entries, &mut self.entries);
            assert(entries@ == s);
            entries.set(p, (key, value));
            proof {
                let t = entries@;
                assert forall|i: int, j: int| 0 <= i < j < t.len() implies text_lt(
                    #[trigger] t[i].0@,
                    #[trigger] t[j].0@,
                ) by {
                    assert(s[i].0@ == t[i].0@);
                    assert(s[j].0@ == t[j].0@);
                }
            }
            self.entries = entries;
        } else {
            proof {
                if p < s.len() {
                    lemma_text_lt_total(s[p as int].0@, key@);
                }
                assert forall|i: int| 0 <= i < s.len() implies #[trigger] s[i].0@ != key@ by {
                    if i < p {
                        lemma_text_lt_irreflexive(key@);
                    } else if i > p {
                        lemma_text_lt_transitive(key@, s[p as int].0@, s[i].0@);
                        lemma_text_lt_irreflexive(key@);
                    }
                }
                lemma_to_map_insert_at(s, p as int, (key, value));
            }
            let mut entries: Vec<(String, V)> = Vec::new();
            std::mem::swap(&mut entries, &mut self.entries);
            assert(entries@ == s);
            let ghost kv = key@;
            entries.insert(p, (key, value));
            proof {
                let t = entries@;
                assert(t =~= s.insert(p as int, t[p as int]));
                assert forall|i: int, j: int| 0 <= i < j < t.len() implies text_lt(
                    #[trigger] t[i].0@,
                    #[trigger] t[j].0@,
                ) by {
                    if j < p {
                        assert(t[i] == s[i] && t[j] == s[j]);
                    } else if j == p {
                        assert(t[i] == s[i]);
                    } else if i == p {
                        assert(t[j] == s[j - 1]);
                        if j - 1 > p {
                            lemma_text_lt_transitive(kv, s[p as int].0@, s[j - 1].0@);
                        }
                    } else if i < p {
                        assert(t[i] == s[i] && t[j] == s[j - 1]);
                    } else {
                        assert(t[i] == s[i - 1] && t[j] == s[j - 1]);
                    }
                }
            }
            self.entries = entries;
        }
    }

    /// Removes `key`, giving back its value.
    pub fn remove(&mut self, key: &str) -> (r: Option<V>)
        ensures
            final(self).map() == old(self).map().remove(key@),
            match r {
                Some(v) => old(self).map().contains_key(key@) && old(self).map()[key@] == v,
                None => !old(self).map().contains_key(key@),
            },
    {
        proof {
            use_type_invariant(&*self);
            lemma_ascending_distinct(self.entries@);
        }
        match self.position(key) {
            Some(i) => {
                proof {
                    lemma_to_map_remove(self.entries@, i as int);
                    lemma_to_map_value(self.entries@, i as int);
                }
                let ghost s = self.entries@;
                let mut entries: Vec<(String, V)> = Vec::new();
                std::mem::swap(&mut entries, &mut self.entries);
                assert(entries@ == s);
                let (_k, v) = entries.remove(i);
                proof {
                    let t = entries@;
                    assert(t =~= s.remove(i as int));
                    assert forall|a: int, b: int| 0 <= a < b < t.len() implies text_lt(
                        #[trigger] t[a].0@,
                        #[trigger] t[b].0@,
                    ) by {
                        if b < i {
                            assert(t[a] == s[a] && t[b] == s[b]);
                        } else if a < i {
                            assert(t[a] == s[a] && t[b] == s[b + 1]);
                        } else {
                            assert(t[a] == s[a + 1] && t[b] == s[b + 1]);
                        }
                    }
                }
                self.entries = entries;
                Some(v)
            },
            None => {
                proof {
                    assert(self.map().remove(key@) =~= self.map());
                }
                None
            },
        }
    }
}

} // verus!
