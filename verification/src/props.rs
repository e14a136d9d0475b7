//! A map keyed by strings, kept as an association list so that lookups and
//! updates are verified against a mathematical map.
use vstd::prelude::*;

use crate::text::str_eq;

verus! {

/// The keys of an association list are pairwise distinct.
pub open spec fn distinct_keys<V>(s: Seq<(String, V)>) -> bool {
    forall|i: int, j: int| 0 <= i < s.len() && 0 <= j < s.len() && i != j ==> s[i].0@ != s[j].0@
}

/// The map that an association list denotes: later entries win.
pub open spec fn to_map<V>(s: Seq<(String, V)>) -> Map<Seq<char>, V>
    decreases s.len(),
{
    if s.len() == 0 {
        Map::empty()
    } else {
        to_map(s.drop_last()).insert(s.last().0@, s.last().1)
    }
}

/// The position of key `k` in `s`, if it is there.
pub open spec fn has_key_at<V>(s: Seq<(String, V)>, k: Seq<char>, i: int) -> bool {
    0 <= i < s.len() && s[i].0@ == k
}

/// A key is in the map exactly when some entry carries it.
pub proof fn lemma_to_map_dom<V>(s: Seq<(String, V)>, k: Seq<char>)
    ensures
        to_map(s).contains_key(k) <==> exists|i: int| has_key_at(s, k, i),
    decreases s.len(),
{
    if s.len() > 0 {
        let t = s.drop_last();
        lemma_to_map_dom(t, k);
        if to_map(s).contains_key(k) {
            if k == s.last().0@ {
                assert(has_key_at(s, k, s.len() - 1));
            } else {
                assert(to_map(t).contains_key(k));
                let i = choose|i: int| has_key_at(t, k, i);
                assert(t[i] == s[i]);
                assert(has_key_at(s, k, i));
            }
        }
        if exists|i: int| has_key_at(s, k, i) {
            let i = choose|i: int| has_key_at(s, k, i);
            if i < s.len() - 1 {
                assert(t[i] == s[i]);
                assert(has_key_at(t, k, i));
            }
        }
    }
}

/// With distinct keys, the map gives each entry's value for its key.
pub proof fn lemma_to_map_value<V>(s: Seq<(String, V)>, i: int)
    requires
        distinct_keys(s),
        0 <= i < s.len(),
    ensures
        to_map(s).contains_key(s[i].0@),
        to_map(s)[s[i].0@] == s[i].1,
    decreases s.len(),
{
    if i < s.len() - 1 {
        lemma_to_map_value(s.drop_last(), i);
    }
}

/// Replacing the value of an existing entry updates the map at that key.
pub proof fn lemma_to_map_update<V>(s: Seq<(String, V)>, i: int, k: String, v: V)
    requires
        distinct_keys(s),
        0 <= i < s.len(),
        k@ == s[i].0@,
    ensures
        to_map(s.update(i, (k, v))) == to_map(s).insert(s[i].0@, v),
        distinct_keys(s.update(i, (k, v))),
    decreases s.len(),
{
    let t = s.update(i, (k, v));
    if i == s.len() - 1 {
        assert(t.drop_last() =~= s.drop_last());
        lemma_to_map_dom(s.drop_last(), s[i].0@);
        assert(to_map(s.drop_last()).insert(s[i].0@, v) =~= to_map(s.drop_last()).insert(
            s[i].0@,
            s.last().1,
        ).insert(s[i].0@, v));
    } else {
        lemma_to_map_update(s.drop_last(), i, k, v);
        assert(t.drop_last() =~= s.drop_last().update(i, (k, v)));
        assert(s.last().0@ != s[i].0@);
        assert(to_map(t) =~= to_map(s).insert(s[i].0@, v));
    }
}

/// Removing the entry at `i` removes its key from the map.
pub proof fn lemma_to_map_remove<V>(s: Seq<(String, V)>, i: int)
    requires
        distinct_keys(s),
        0 <= i < s.len(),
    ensures
        to_map(s.remove(i)) == to_map(s).remove(s[i].0@),
    decreases s.len(),
{
    let k = s[i].0@;
    if i == s.len() - 1 {
        assert(s.remove(i) =~= s.drop_last());
        lemma_to_map_dom(s.drop_last(), k);
        assert(to_map(s.drop_last()) =~= to_map(s).remove(k));
    } else {
        lemma_to_map_remove(s.drop_last(), i);
        assert(s.remove(i).drop_last() =~= s.drop_last().remove(i));
        assert(s.remove(i).last() == s.last());
        assert(s.last().0@ != k);
        assert(to_map(s.remove(i)) =~= to_map(s).remove(k));
    }
}

/// A map from strings to values that keeps its entries in insertion order.
pub struct StrMap<V> {
    entries: Vec<(String, V)>,
}

impl<V> StrMap<V> {
    #[verifier::type_invariant]
    spec fn keys_distinct(self) -> bool {
        distinct_keys(self.entries@)
    }

    /// The entries, in insertion order.
    pub closed spec fn entry_seq(self) -> Seq<(String, V)> {
        self.entries@
    }

    /// The map from key text to value.
    pub closed spec fn map(self) -> Map<Seq<char>, V> {
        to_map(self.entries@)
    }

    /// An empty map.
    pub fn new() -> (m: Self)
        ensures
            m.map() == Map::<Seq<char>, V>::empty(),
            m.entry_seq() == Seq::<(String, V)>::empty(),
    {
        StrMap { entries: Vec::new() }
    }

    /// The number of keys.
    pub fn len(&self) -> (n: usize)
        ensures
            n == self.entry_seq().len(),
            n == self.map().len(),
    {
        proof {
            use_type_invariant(self);
            lemma_len(self.entries@);
        }
        self.entries.len()
    }

    /// Whether there are no keys.
    pub fn is_empty(&self) -> (b: bool)
        ensures
            b == (self.map() == Map::<Seq<char>, V>::empty()),
            b == (self.entry_seq().len() == 0),
    {
        proof {
            use_type_invariant(self);
            lemma_len(self.entries@);
            if self.entries@.len() > 0 {
                lemma_to_map_value(self.entries@, 0);
                assert(!self.map().is_empty());
                assert(self.map() != Map::<Seq<char>, V>::empty());
            } else {
                assert(self.map() =~= Map::<Seq<char>, V>::empty());
            }
        }
        self.entries.len() == 0
    }

    /// The position of `key`, if present.
    pub fn position(&self, key: &str) -> (r: Option<usize>)
        ensures
            match r {
                Some(i) => has_key_at(self.entry_seq(), key@, i as int),
                None => !self.map().contains_key(key@),
            },
    {
        proof {
            use_type_invariant(self);
        }
        let mut i: usize = 0;
        while i < self.entries.len()
            invariant
                i <= self.entries@.len(),
                forall|j: int| 0 <= j < i ==> self.entries@[j].0@ != key@,
            decreases self.entries@.len() - i,
        {
            if str_eq(self.entries[i].0.as_str(), key) {
                return Some(i);
            }
            i += 1;
        }
        proof {
            lemma_to_map_dom(self.entries@, key@);
        }
        None
    }

    /// The value stored under `key`.
    pub fn get(&self, key: &str) -> (r: Option<&V>)
        ensures
            match r {
                Some(v) => self.map().contains_key(key@) && self.map()[key@] == *v,
                None => !self.map().contains_key(key@),
            },
    {
        proof {
            use_type_invariant(self);
        }
        match self.position(key) {
            Some(i) => {
                proof {
                    lemma_to_map_value(self.entries@, i as int);
                }
                Some(&self.entries[i].1)
            },
            None => None,
        }
    }

    /// Whether `key` is present.
    pub fn contains_key(&self, key: &str) -> (b: bool)
        ensures
            b == self.map().contains_key(key@),
    {
        proof {
            use_type_invariant(self);
        }
        match self.position(key) {
            Some(i) => {
                proof {
                    lemma_to_map_value(self.entries@, i as int);
                }
                true
            },
            None => false,
        }
    }

    /// Stores `value` under `key`: an existing key keeps its place, a new key goes last.
    pub fn insert(&mut self, key: String, value: V)
        ensures
            final(self).map() == old(self).map().insert(key@, value),
            old(self).map().contains_key(key@) ==> final(self).entry_seq().len() == old(
                self,
            ).entry_seq().len(),
            !old(self).map().contains_key(key@) ==> final(self).entry_seq() == old(
                self,
            ).entry_seq().push((key, value)),
    {
        proof {
            use_type_invariant(&*self);
        }
        match self.position(key.as_str()) {
            Some(i) => {
                proof {
                    lemma_to_map_update(self.entries@, i as int, key, value);
                    lemma_to_map_value(self.entries@, i as int);
                }
                let mut entries: Vec<(String, V)> = Vec::new();
                std::mem::swap(&mut entries, &mut self.entries);
                entries.set(i, (key, value));
                self.entries = entries;
            },
            None => {
                proof {
                    lemma_to_map_dom(self.entries@, key@);
                    assert forall|j: int| 0 <= j < self.entries@.len() implies self.entries@[j].0@
                        != key@ by {
                        if self.entries@[j].0@ == key@ {
                            assert(has_key_at(self.entries@, key@, j));
                        }
                    }
                }
                let ghost s = self.entries@;
                let mut entries: Vec<(String, V)> = Vec::new();
                std::mem::swap(&mut entries, &mut self.entries);
                assert(entries@ == s);
                entries.push((key, value));
                assert(entries@ == s.push((key, value)));
                assert(entries@.drop_last() =~= s);
                assert(to_map(entries@) == to_map(s).insert(key@, value));
                self.entries = entries;
                assert(self.entries@ == s.push((key, value)));
            },
        }
    }

    /// Removes `key`, giving back its value; the other entries keep their order.
    pub fn remove(&mut self, key: &str) -> (r: Option<V>)
        ensures
            final(self).map() == old(self).map().remove(key@),
            match r {
                Some(v) => old(self).map().contains_key(key@) && old(self).map()[key@] == v,
                None => !old(self).map().contains_key(key@),
            },
    {
        proof {
            use_type_invariant(&*self);
        }
        match self.position(key) {
            Some(i) => {
                proof {
                    lemma_to_map_remove(self.entries@, i as int);
                    lemma_to_map_value(self.entries@, i as int);
                }
                let ghost s = self.entries@;
                let mut entries: Vec<(String, V)> = Vec::new();
                std::mem::swap(&mut entries, &mut self.entries);
                assert(entries@ == s);
                let (_k, v) = entries.remove(i);
                proof {
                    assert(entries@ =~= s.remove(i as int));
                }
                self.entries = entries;
                Some(v)
            },
            None => {
                proof {
                    assert(self.map().remove(key@) =~= self.map());
                }
                None
            },
        }
    }

    /// Gives up the map, handing out its entries in insertion order.
    pub fn into_entries(self) -> (r: Vec<(String, V)>)
        ensures
            r@ == self.entry_seq(),
            distinct_keys(r@),
            self.map() == to_map(r@),
    {
        proof {
            use_type_invariant(&self);
        }
        self.entries
    }

    /// The entries, in insertion order.
    pub fn entries(&self) -> (r: &Vec<(String, V)>)
        ensures
            r@ == self.entry_seq(),
            distinct_keys(r@),
            self.map() == to_map(r@),
    {
        proof {
            use_type_invariant(self);
        }
        &self.entries
    }
}

/// The text of every value of a map of strings.
pub open spec fn text_map(m: Map<Seq<char>, String>) -> Map<Seq<char>, Seq<char>> {
    m.map_values(|v: String| v@)
}

/// `m` with `k` set to `v` when `v` is present, unchanged otherwise.
pub open spec fn set_if_some(m: Map<Seq<char>, Seq<char>>, k: Seq<char>, v: Option<Seq<char>>) -> Map<
    Seq<char>,
    Seq<char>,
> {
    match v {
        Some(x) => m.insert(k, x),
        None => m,
    }
}

/// The text of an optional string.
pub open spec fn opt_text(o: Option<String>) -> Option<Seq<char>> {
    match o {
        Some(s) => Some(s@),
        None => None,
    }
}

/// The text of an optional string slice.
pub open spec fn opt_str_text(o: Option<&str>) -> Option<Seq<char>> {
    match o {
        Some(s) => Some(s@),
        None => None,
    }
}

impl StrMap<String> {
    /// A copy with the same entries in the same order.
    pub fn duplicate(&self) -> (r: Self)
        ensures
            r.entry_seq() == self.entry_seq(),
            r.map() == self.map(),
    {
        proof {
            use_type_invariant(self);
        }
        let mut entries: Vec<(String, String)> = Vec::new();
        let mut i: usize = 0;
        while i < self.entries.len()
            invariant
                i <= self.entries@.len(),
                entries@ == self.entries@.take(i as int),
            decreases self.entries@.len() - i,
        {
            let k = self.entries[i].0.clone();
            let v = self.entries[i].1.clone();
            entries.push((k, v));
            i += 1;
            assert(entries@ =~= self.entries@.take(i as int));
        }
        assert(self.entries@.take(i as int) =~= self.entries@);
        StrMap { entries }
    }

    /// Sets `key` to `value` when `value` is present.
    pub fn insert_if_some(&mut self, key: &str, value: Option<&str>)
        ensures
            text_map(final(self).map()) == set_if_some(
                text_map(old(self).map()),
                key@,
                opt_str_text(value),
            ),
    {
        if let Some(v) = value {
            self.insert(crate::text::owned(key), crate::text::owned(v));
            assert(text_map(self.map()) =~= text_map(old(self).map()).insert(key@, v@));
        }
    }
}

/// The map of an association list with distinct keys has one key per entry.
pub proof fn lemma_len<V>(s: Seq<(String, V)>)
    requires
        distinct_keys(s),
    ensures
        to_map(s).len() == s.len(),
        to_map(s).dom().finite(),
    decreases s.len(),
{
    if s.len() > 0 {
        lemma_len(s.drop_last());
        lemma_to_map_dom(s.drop_last(), s.last().0@);
        if to_map(s.drop_last()).contains_key(s.last().0@) {
            let j = choose|j: int| has_key_at(s.drop_last(), s.last().0@, j);
            assert(s[j].0@ == s[s.len() - 1].0@);
        }
    }
}

} // verus!
