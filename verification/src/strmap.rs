//! A small string-to-string map (credential values, process environment),
//! kept as a list of entries in which each key occurs once.

use vstd::prelude::*;
use crate::text::str_eq;

verus! {

/// The value stored under `key`: the first entry with that key.
pub open spec fn lookup(es: Seq<(String, String)>, key: Seq<char>) -> Option<Seq<char>>
    decreases es.len(),
{
    if es.len() == 0 {
        None
    } else if es[0].0@ == key {
        Some(es[0].1@)
    } else {
        lookup(es.drop_first(), key)
    }
}

/// A string-keyed map of strings.
#[derive(Debug, Default, PartialEq, Eq)]
pub struct StringMap {
    entries: Vec<(String, String)>,
}

/// Whether no key occurs in two entries.
pub open spec fn distinct_keys(es: Seq<(String, String)>) -> bool {
    forall|i: int, j: int| 0 <= i < j < es.len() ==> #[trigger] es[i].0@ != #[trigger] es[j].0@
}

impl StringMap {
    /// Each key occurs in one entry only.
    #[verifier::type_invariant]
    spec fn keys_once(self) -> bool {
        distinct_keys(self.entries@)
    }
}

impl View for StringMap {
    type V = Map<Seq<char>, Seq<char>>;

    closed spec fn view(&self) -> Map<Seq<char>, Seq<char>> {
        Map::new(|k: Seq<char>| lookup(self.entries@, k) is Some, |k: Seq<char>| lookup(self.entries@, k).unwrap())
    }
}

proof fn lemma_lookup_update(es: Seq<(String, String)>, j: int, key: Seq<char>, v: String, k: Seq<char>)
    requires
        0 <= j < es.len(),
        es[j].0@ == key,
        forall|i: int| 0 <= i < j ==> es[i].0@ != key,
    ensures
        lookup(es.update(j, (es[j].0, v)), k) == if k == key { Some(v@) } else { lookup(es, k) },
    decreases es.len(),
{
    if j > 0 {
        assert(es.update(j, (es[j].0, v)).drop_first() =~= es.drop_first().update(j - 1, (es[j].0, v)));
        lemma_lookup_update(es.drop_first(), j - 1, key, v, k);
    } else {
        assert(es.update(j, (es[j].0, v)).drop_first() =~= es.drop_first());
    }
}

proof fn lemma_lookup_push(es: Seq<(String, String)>, key: String, v: String, k: Seq<char>)
    requires
        lookup(es, key@) is None,
    ensures
        lookup(es.push((key, v)), k) == if k == key@ { Some(v@) } else { lookup(es, k) },
    decreases es.len(),
{
    if es.len() > 0 {
        assert(es.push((key, v)).drop_first() =~= es.drop_first().push((key, v)));
        lemma_lookup_push(es.drop_first(), key, v, k);
    } else {
        assert(es.push((key, v)).drop_first() =~= es);
    }
}

impl StringMap {
    /// An empty map.
    pub fn new() -> (m: Self)
        ensures
            m@ == Map::<Seq<char>, Seq<char>>::empty(),
    {
        let m = StringMap { entries: Vec::new() };
        assert(m@ =~= Map::<Seq<char>, Seq<char>>::empty());
        m
    }

    fn find(&self, key: &str) -> (r: Option<usize>)
        ensures
            r matches Some(j) ==> j < self.entries@.len() && self.entries@[j as int].0@ == key@
                && forall|i: int| 0 <= i < j ==> self.entries@[i].0@ != key@,
            r is None ==> lookup(self.entries@, key@) is None,
    {
        let mut i: usize = 0;
        assert(self.entries@.subrange(0, self.entries@.len() as int) =~= self.entries@);
        while i < self.entries.len()
            invariant
                i <= self.entries@.len(),
                forall|t: int| 0 <= t < i ==> self.entries@[t].0@ != key@,
                lookup(self.entries@, key@) == lookup(self.entries@.subrange(i as int, self.entries@.len() as int), key@),
            decreases self.entries@.len() - i,
        {
            if str_eq(self.entries[i].0.as_str(), key) {
                return Some(i);
            }
            assert(self.entries@.subrange(i + 1, self.entries@.len() as int)
                =~= self.entries@.subrange(i as int, self.entries@.len() as int).drop_first());
            i += 1;
        }
        None
    }

    /// The value stored under `key`.
    pub fn get(&self, key: &str) -> (r: Option<&String>)
        ensures
            r matches Some(v) ==> self@.contains_key(key@) && self@[key@] == v@,
            r is None ==> !self@.contains_key(key@),
    {
        proof {
            assert(self.entries@.subrange(0, self.entries@.len() as int) =~= self.entries@);
        }
        match self.find(key) {
            Some(j) => {
                proof {
                    assert(lookup(self.entries@, key@) == Some(self.entries@[j as int].1@)) by {
                        lemma_lookup_first(self.entries@, j as int, key@);
                    }
                }
                Some(&self.entries[j].1)
            },
            None => None,
        }
    }

    /// Whether `key` has a value.
    pub fn contains_key(&self, key: &str) -> (b: bool)
        ensures
            b == self@.contains_key(key@),
    {
        self.get(key).is_some()
    }

    /// Stores `value` under `key`, replacing any earlier value.
    pub fn insert(&mut self, key: String, value: String)
        ensures
            final(self)@ == old(self)@.insert(key@, value@),
    {
        proof {
            use_type_invariant(&*self);
            assert(self.entries@.subrange(0, self.entries@.len() as int) =~= self.entries@);
        }
        let found = self.find(key.as_str());
        let mut es: Vec<(String, String)> = Vec::new();
        std::mem::swap(&mut es, &mut self.entries);
        let ghost es0 = es@;
        match found {
            Some(j) => {
                let k = es[j].0.clone();
                es.set(j, (k, value));
                proof {
                    assert forall|q: Seq<char>| true implies lookup(es@, q)
                        == if q == key@ { Some(value@) } else { lookup(es0, q) } by {
                        assert(es@ == es0.update(j as int, (es0[j as int].0, value)));
                        lemma_lookup_update(es0, j as int, key@, value, q);
                    }
                    assert forall|a: int, b: int| 0 <= a < b < es@.len() implies #[trigger] es@[a].0@ != #[trigger] es@[b].0@ by {
                        assert(es@[a].0@ == es0[a].0@ && es@[b].0@ == es0[b].0@);
                    }
                }
            },
            None => {
                let ghost kv = key@;
                let ghost vv = value@;
                es.push((key, value));
                proof {
                    assert forall|q: Seq<char>| true implies lookup(es@, q)
                        == if q == kv { Some(vv) } else { lookup(es0, q) } by {
                        lemma_lookup_push(es0, es@.last().0, es@.last().1, q);
                    }
                    assert forall|a: int, b: int| 0 <= a < b < es@.len() implies #[trigger] es@[a].0@ != #[trigger] es@[b].0@ by {
                        if b == es0.len() {
                            assert(es@[a] == es0[a]);
                            lemma_lookup_some_if_present(es0, a);
                        } else {
                            assert(es@[a] == es0[a] && es@[b] == es0[b]);
                        }
                    }
                }
            },
        }
        self.entries = es;
        proof {
            assert(self@ =~= old(self)@.insert(key@, value@));
        }
    }

    /// A copy of the map.
    pub fn copy(&self) -> (r: Self)
        ensures
            r@ == self@,
    {
        proof {
            use_type_invariant(self);
        }
        let mut entries: Vec<(String, String)> = Vec::new();
        let mut i: usize = 0;
        while i < self.entries.len()
            invariant
                i <= self.entries@.len(),
                entries@ == self.entries@.subrange(0, i as int),
            decreases self.entries@.len() - i,
        {
            entries.push((self.entries[i].0.clone(), self.entries[i].1.clone()));
            i += 1;
            assert(entries@ =~= self.entries@.subrange(0, i as int));
        }
        assert(entries@ =~= self.entries@);
        StringMap { entries }
    }

    /// The entries, each key once, in insertion order: every key of the
    /// map occurs, with its value.
    pub fn pairs(&self) -> (r: &Vec<(String, String)>)
        ensures
            distinct_keys(r@),
            forall|i: int| 0 <= i < r@.len() ==> self@.contains_key(#[trigger] r@[i].0@) && self@[r@[i].0@] == r@[i].1@,
            forall|k: Seq<char>| #[trigger] self@.contains_key(k) ==> exists|i: int| 0 <= i < r@.len() && r@[i].0@ == k,
    {
        proof {
            use_type_invariant(self);
            let es = self.entries@;
            assert forall|i: int| 0 <= i < es.len() implies self@.contains_key(#[trigger] es[i].0@) && self@[es[i].0@] == es[i].1@ by {
                assert forall|t: int| 0 <= t < i implies es[t].0@ != es[i].0@ by {
                    assert(es[t].0@ != es[i].0@);
                }
                lemma_lookup_first(es, i, es[i].0@);
            }
            assert forall|k: Seq<char>| #[trigger] self@.contains_key(k) implies exists|i: int| 0 <= i < es.len() && es[i].0@ == k by {
                lemma_lookup_found(es, k);
            }
        }
        &self.entries
    }
}

impl Clone for StringMap {
    /// A copy of the map.
    fn clone(&self) -> (r: Self)
        ensures
            r@ == self@,
    {
        self.copy()
    }
}

/// A key with a value stands in some entry.
proof fn lemma_lookup_found(es: Seq<(String, String)>, k: Seq<char>)
    requires
        lookup(es, k) is Some,
    ensures
        exists|i: int| 0 <= i < es.len() && es[i].0@ == k,
    decreases es.len(),
{
    if es[0].0@ != k {
        lemma_lookup_found(es.drop_first(), k);
        let i = choose|i: int| 0 <= i < es.drop_first().len() && es.drop_first()[i].0@ == k;
        assert(es[i + 1].0@ == k);
    }
}

proof fn lemma_lookup_first(es: Seq<(String, String)>, j: int, key: Seq<char>)
    requires
        0 <= j < es.len(),
        es[j].0@ == key,
        forall|i: int| 0 <= i < j ==> es[i].0@ != key,
    ensures
        lookup(es, key) == Some(es[j].1@),
    decreases es.len(),
{
    if j > 0 {
        lemma_lookup_first(es.drop_first(), j - 1, key);
    }
}

proof fn lemma_lookup_some_if_present(es: Seq<(String, String)>, i: int)
    requires
        0 <= i < es.len(),
    ensures
        lookup(es, es[i].0@) is Some,
    decreases es.len(),
{
    if i > 0 && es[0].0@ != es[i].0@ {
        lemma_lookup_some_if_present(es.drop_first(), i - 1);
    }
}

} // verus!
