//! A map keyed by strings, kept as a list of pairs whose keys are distinct.
use vstd::prelude::*;
use crate::text::str_eq;
use crate::sandbox::copy_bytes;

verus! {

/// A map from strings to values.
pub struct KeyMap<V> {
    pairs: Vec<(String, V)>,
}

/// Some pair of `s` has key `k`.
pub open spec fn has_key<V>(s: Seq<(String, V)>, k: Seq<char>) -> bool {
    exists|i: int| 0 <= i < s.len() && (#[trigger] s[i]).0@ == k
}

/// The index of the pair with key `k`.
pub open spec fn key_index<V>(s: Seq<(String, V)>, k: Seq<char>) -> int {
    choose|i: int| 0 <= i < s.len() && (#[trigger] s[i]).0@ == k
}

/// No two pairs of `s` share a key.
pub open spec fn distinct_keys<V>(s: Seq<(String, V)>) -> bool {
    forall|i: int, j: int| 0 <= i < s.len() && 0 <= j < s.len() && i != j ==> (#[trigger] s[i]).0@ != (
    #[trigger] s[j]).0@
}

/// The map a list of pairs with distinct keys stands for.
pub open spec fn pairs_map<V>(s: Seq<(String, V)>) -> Map<Seq<char>, V> {
    Map::new(|k: Seq<char>| has_key(s, k), |k: Seq<char>| s[key_index(s, k)].1)
}

proof fn lemma_index_unique<V>(s: Seq<(String, V)>, k: Seq<char>, j: int)
    requires
        distinct_keys(s),
        0 <= j < s.len(),
        s[j].0@ == k,
    ensures
        key_index(s, k) == j,
{
    let i = key_index(s, k);
    assert(0 <= i < s.len() && s[i].0@ == k);
}

impl<V> KeyMap<V> {
    /// The map of keys to values.
    pub closed spec fn view(&self) -> Map<Seq<char>, V> {
        pairs_map(self.pairs@)
    }

    /// Keys are distinct.
    #[verifier::type_invariant]
    spec fn wf(&self) -> bool {
        distinct_keys(self.pairs@)
    }

    /// The empty map.
    pub fn new() -> (r: Self)
        ensures
            r.view() == Map::<Seq<char>, V>::empty(),
    {
        let r = KeyMap { pairs: Vec::new() };
        assert(r.view() =~= Map::<Seq<char>, V>::empty());
        r
    }

    fn find(&self, k: &str) -> (r: Option<usize>)
        ensures
            distinct_keys(self.pairs@),
            match r {
                Some(i) => i < self.pairs@.len() && self.pairs@[i as int].0@ == k@ && key_index(self.pairs@, k@)
                    == i,
                None => !has_key(self.pairs@, k@),
            },
    {
        proof { use_type_invariant(self); }
        let n = self.pairs.len();
        for i in 0..n
            invariant
                n == self.pairs@.len(),
                distinct_keys(self.pairs@),
                forall|j: int| 0 <= j < i ==> (#[trigger] self.pairs@[j]).0@ != k@,
        {
            if str_eq(self.pairs[i].0.as_str(), k) {
                proof { lemma_index_unique(self.pairs@, k@, i as int); }
                return Some(i);
            }
        }
        None
    }

    /// The value under a key.
    pub fn get(&self, k: &str) -> (r: Option<&V>)
        ensures
            match r {
                Some(v) => self.view().contains_key(k@) && *v == self.view()[k@],
                None => !self.view().contains_key(k@),
            },
    {
        match self.find(k) {
            Some(i) => Some(&self.pairs[i].1),
            None => None,
        }
    }

    /// Sets the value under a key, replacing any value there.
    pub fn insert(&mut self, k: String, v: V)
        ensures
            final(self).view() == old(self).view().insert(k@, v),
    {
        let found = self.find(k.as_str());
        let ghost s0 = self.pairs@;
        let mut pairs: Vec<(String, V)> = Vec::new();
        std::mem::swap(&mut pairs, &mut self.pairs);
        match found {
            Some(i) => {
                let ghost kv = k@;
                pairs.set(i, (k, v));
                let ghost s1 = pairs@;
                assert(distinct_keys(s1)) by {
                    assert forall|a: int, b: int| 0 <= a < s1.len() && 0 <= b < s1.len() && a != b implies (
                    #[trigger] s1[a]).0@ != (#[trigger] s1[b]).0@ by {
                        if a != i && b != i {
                            assert(s1[a] == s0[a] && s1[b] == s0[b]);
                        } else if a == i {
                            assert(s1[b] == s0[b]);
                            assert(s0[i as int].0@ == kv);
                        } else {
                            assert(s1[a] == s0[a]);
                            assert(s0[i as int].0@ == kv);
                        }
                    }
                }
                assert forall|key: Seq<char>| has_key(s1, key) == (has_key(s0, key) || key == kv) by {
                    if has_key(s0, key) {
                        let j = choose|j: int| 0 <= j < s0.len() && (#[trigger] s0[j]).0@ == key;
                        if j == i {
                            assert(s1[j].0@ == key);
                        } else {
                            assert(s1[j] == s0[j]);
                        }
                    }
                    if has_key(s1, key) {
                        let j = choose|j: int| 0 <= j < s1.len() && (#[trigger] s1[j]).0@ == key;
                        if j != i {
                            assert(s1[j] == s0[j]);
                        }
                    }
                    if key == kv {
                        assert(s1[i as int].0@ == key);
                    }
                }
                assert forall|key: Seq<char>| #[trigger] has_key(s1, key) implies s1[key_index(s1, key)].1 == (if key
                    == kv {
                    v
                } else {
                    s0[key_index(s0, key)].1
                }) by {
                    let j = key_index(s1, key);
                    lemma_index_unique(s1, key, j);
                    if key == kv {
                        lemma_index_unique(s1, key, i as int);
                    } else {
                        assert(j != i);
                        assert(s1[j] == s0[j]);
                        lemma_index_unique(s0, key, j);
                    }
                }
                assert(pairs_map(s1) =~= pairs_map(s0).insert(kv, v));
            },
            None => {
                let ghost kv = k@;
                pairs.push((k, v));
                let ghost s1 = pairs@;
                assert(distinct_keys(s1)) by {
                    assert forall|a: int, b: int| 0 <= a < s1.len() && 0 <= b < s1.len() && a != b implies (
                    #[trigger] s1[a]).0@ != (#[trigger] s1[b]).0@ by {
                        let n = s0.len() as int;
                        if a < n && b < n {
                            assert(s1[a] == s0[a] && s1[b] == s0[b]);
                        } else if a == n {
                            assert(s1[b] == s0[b]);
                        } else {
                            assert(s1[a] == s0[a]);
                        }
                    }
                }
                assert forall|key: Seq<char>| has_key(s1, key) == (has_key(s0, key) || key == kv) by {
                    if has_key(s0, key) {
                        let j = choose|j: int| 0 <= j < s0.len() && (#[trigger] s0[j]).0@ == key;
                        assert(s1[j] == s0[j]);
                    }
                    if has_key(s1, key) {
                        let j = choose|j: int| 0 <= j < s1.len() && (#[trigger] s1[j]).0@ == key;
                        if j < s0.len() {
                            assert(s1[j] == s0[j]);
                        }
                    }
                    if key == kv {
                        assert(s1[s0.len() as int].0@ == key);
                    }
                }
                assert forall|key: Seq<char>| #[trigger] has_key(s1, key) implies s1[key_index(s1, key)].1 == (if key
                    == kv {
                    v
                } else {
                    s0[key_index(s0, key)].1
                }) by {
                    let j = key_index(s1, key);
                    lemma_index_unique(s1, key, j);
                    if key == kv {
                        lemma_index_unique(s1, key, s0.len() as int);
                    } else {
                        assert(j < s0.len());
                        assert(s1[j] == s0[j]);
                        lemma_index_unique(s0, key, j);
                    }
                }
                assert(pairs_map(s1) =~= pairs_map(s0).insert(kv, v));
            },
        }
        self.pairs = pairs;
    }

    /// Removes the value under a key, if any.
    pub fn remove(&mut self, k: &str)
        ensures
            final(self).view() == old(self).view().remove(k@),
    {
        let found = self.find(k);
        let ghost s0 = self.pairs@;
        let mut pairs: Vec<(String, V)> = Vec::new();
        std::mem::swap(&mut pairs, &mut self.pairs);
        match found {
            Some(i) => {
                let _ = pairs.remove(i);
                let ghost s1 = pairs@;
                assert(s1 =~= s0.remove(i as int));
                assert(distinct_keys(s1)) by {
                    assert forall|a: int, b: int| 0 <= a < s1.len() && 0 <= b < s1.len() && a != b implies (
                    #[trigger] s1[a]).0@ != (#[trigger] s1[b]).0@ by {
                        let a0 = if a < i { a } else { a + 1 };
                        let b0 = if b < i { b } else { b + 1 };
                        assert(s1[a] == s0[a0] && s1[b] == s0[b0]);
                    }
                }
                assert forall|key: Seq<char>| has_key(s1, key) == (has_key(s0, key) && key != k@) by {
                    if has_key(s0, key) && key != k@ {
                        let j = choose|j: int| 0 <= j < s0.len() && (#[trigger] s0[j]).0@ == key;
                        assert(j != i);
                        let j1 = if j < i { j } else { j - 1 };
                        assert(s1[j1] == s0[j]);
                    }
                    if has_key(s1, key) {
                        let j = choose|j: int| 0 <= j < s1.len() && (#[trigger] s1[j]).0@ == key;
                        let j0 = if j < i { j } else { j + 1 };
                        assert(s1[j] == s0[j0]);
                        assert(j0 != i);
                    }
                }
                assert forall|key: Seq<char>| #[trigger] has_key(s1, key) implies s1[key_index(s1, key)].1 == s0[key_index(
                    s0,
                    key,
                )].1 by {
                    let j = key_index(s1, key);
                    lemma_index_unique(s1, key, j);
                    let j0 = if j < i { j } else { j + 1 };
                    assert(s1[j] == s0[j0]);
                    lemma_index_unique(s0, key, j0);
                }
                assert(pairs_map(s1) =~= pairs_map(s0).remove(k@));
            },
            None => {
                assert(pairs_map(s0) =~= pairs_map(s0).remove(k@));
            },
        }
        self.pairs = pairs;
    }
}


impl KeyMap<Vec<u8>> {
    /// A copy of a map of byte strings.
    pub fn copy(&self) -> (r: Self)
        ensures
            r.view().dom() == self.view().dom(),
            forall|k: Seq<char>| #[trigger] r.view().contains_key(k) ==> r.view()[k]@ == self.view()[k]@,
    {
        proof { use_type_invariant(self); }
        let ghost s0 = self.pairs@;
        let mut pairs: Vec<(String, Vec<u8>)> = Vec::new();
        let n = self.pairs.len();
        for i in 0..n
            invariant
                n == s0.len(),
                s0 == self.pairs@,
                pairs@.len() == i,
                forall|j: int| 0 <= j < i ==> (#[trigger] pairs@[j]).0@ == s0[j].0@ && pairs@[j].1@ == s0[j].1@,
        {
            let key = String::from_str(self.pairs[i].0.as_str());
            let bytes = copy_bytes(self.pairs[i].1.as_slice());
            pairs.push((key, bytes));
        }
        let ghost s1 = pairs@;
        assert(distinct_keys(s1)) by {
            assert forall|a: int, b: int| 0 <= a < s1.len() && 0 <= b < s1.len() && a != b implies (
            #[trigger] s1[a]).0@ != (#[trigger] s1[b]).0@ by {
                assert(s1[a].0@ == s0[a].0@ && s1[b].0@ == s0[b].0@);
            }
        }
        assert forall|key: Seq<char>| has_key(s1, key) == has_key(s0, key) by {
            if has_key(s0, key) {
                let j = choose|j: int| 0 <= j < s0.len() && (#[trigger] s0[j]).0@ == key;
                assert(s1[j].0@ == key);
            }
            if has_key(s1, key) {
                let j = choose|j: int| 0 <= j < s1.len() && (#[trigger] s1[j]).0@ == key;
                assert(s0[j].0@ == key);
            }
        }
        let r = KeyMap { pairs };
        assert(r.view().dom() =~= self.view().dom());
        assert forall|key: Seq<char>| #[trigger] r.view().contains_key(key) implies r.view()[key]@ == self.view()[key]@ by {
            let j = key_index(s1, key);
            lemma_index_unique(s1, key, j);
            assert(s0[j].0@ == key);
            lemma_index_unique(s0, key, j);
        }
        r
    }
}

} // verus!
