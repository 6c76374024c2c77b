//! A map keyed by strings that keeps its keys in increasing order, as a
//! `BTreeMap<String, V>` does: lookups, insertion, removal, and walking the
//! entries in key order.
use crate::text::{compare_text, lemma_seq_lt_irreflexive, lemma_seq_lt_transitive, seq_lt, TextOrder};
use vstd::prelude::*;

verus! {

/// Keys in strictly increasing order (so no key occurs twice).
pub open spec fn sorted_keys(ks: Seq<Seq<char>>) -> bool {
    forall|i: int, j: int| 0 <= i < j < ks.len() ==> seq_lt(#[trigger] ks[i], #[trigger] ks[j])
}

#[derive(Debug)]
pub struct StrMap<V> {
    entries: Vec<(String, V)>,
}

pub open spec fn keys_of<V>(e: Seq<(String, V)>) -> Seq<Seq<char>> {
    e.map_values(|p: (String, V)| p.0@)
}

/// The map that a sequence of entries with distinct keys stands for.
pub open spec fn map_of<V>(e: Seq<(String, V)>) -> Map<Seq<char>, V> {
    Map::new(
        |k: Seq<char>| keys_of(e).contains(k),
        |k: Seq<char>| e[choose|i: int| 0 <= i < e.len() && keys_of(e)[i] == k].1,
    )
}

/// In a sequence with distinct keys, each entry is what the map gives for its key.
proof fn lemma_map_of_at<V>(e: Seq<(String, V)>, i: int)
    requires
        sorted_keys(keys_of(e)),
        0 <= i < e.len(),
    ensures
        map_of(e).contains_key(e[i].0@),
        map_of(e)[e[i].0@] == e[i].1,
{
    let ks = keys_of(e);
    assert(ks[i] == e[i].0@);
    assert(ks.contains(e[i].0@));
    let j = choose|j: int| 0 <= j < e.len() && keys_of(e)[j] == e[i].0@;
    if j != i {
        if j < i {
            assert(seq_lt(ks[j], ks[i]));
        } else {
            assert(seq_lt(ks[i], ks[j]));
        }
        lemma_seq_lt_irreflexive(ks[i]);
    }
}

/// Two entry sequences with distinct keys that agree entry by entry on keys
/// and values give the same map.
proof fn lemma_map_of_ext<V>(f: Seq<(String, V)>, m: Map<Seq<char>, V>)
    requires
        sorted_keys(keys_of(f)),
        forall|k: Seq<char>| #[trigger] m.contains_key(k) <==> keys_of(f).contains(k),
        forall|i: int| 0 <= i < f.len() ==> m[#[trigger] f[i].0@] == f[i].1,
    ensures
        map_of(f) == m,
{
    assert forall|k: Seq<char>| #[trigger] map_of(f).contains_key(k) implies map_of(f)[k] == m[k] by {
        let i = choose|i: int| 0 <= i < keys_of(f).len() && keys_of(f)[i] == k;
        lemma_map_of_at(f, i);
    }
    assert(map_of(f) =~= m);
}

impl<V> View for StrMap<V> {
    type V = Map<Seq<char>, V>;

    closed spec fn view(&self) -> Map<Seq<char>, V> {
        map_of(self.entries@)
    }
}

impl<V> StrMap<V> {
    /// The keys, in increasing order.
    pub closed spec fn keys(&self) -> Seq<Seq<char>> {
        keys_of(self.entries@)
    }

    #[verifier::type_invariant]
    spec fn keys_increase(&self) -> bool {
        sorted_keys(self.keys())
    }

    pub fn new() -> (m: Self)
        ensures
            m@ == Map::<Seq<char>, V>::empty(),
            m.keys() == Seq::<Seq<char>>::empty(),
    {
        let m = StrMap { entries: Vec::new() };
        assert(m@ =~= Map::<Seq<char>, V>::empty());
        assert(m.keys() =~= Seq::<Seq<char>>::empty());
        m
    }

    /// The number of entries; also states how the ordered keys and the map agree.
    pub fn len(&self) -> (r: usize)
        ensures
            r == self.keys().len(),
            sorted_keys(self.keys()),
            forall|k: Seq<char>| #[trigger] self@.contains_key(k) <==> self.keys().contains(k),
    {
        proof {
            use_type_invariant(self);
        }
        self.entries.len()
    }

    /// The `i`-th key in increasing order.
    pub fn key_at(&self, i: usize) -> (r: &String)
        requires
            i < self.keys().len(),
        ensures
            r@ == self.keys()[i as int],
            self@.contains_key(r@),
    {
        proof {
            use_type_invariant(self);
            lemma_map_of_at(self.entries@, i as int);
        }
        &self.entries[i].0
    }

    /// The value stored under the `i`-th key.
    pub fn value_at(&self, i: usize) -> (r: &V)
        requires
            i < self.keys().len(),
        ensures
            *r == self@[self.keys()[i as int]],
    {
        proof {
            use_type_invariant(self);
            lemma_map_of_at(self.entries@, i as int);
        }
        &self.entries[i].1
    }

    /// Where `k` stands or would stand among the keys.
    fn position(&self, k: &str) -> (r: (usize, bool))
        ensures
            r.0 <= self.keys().len(),
            forall|j: int| 0 <= j < r.0 ==> seq_lt(#[trigger] self.keys()[j], k@),
            r.1 ==> r.0 < self.keys().len() && self.keys()[r.0 as int] == k@,
            !r.1 ==> r.0 == self.keys().len() || seq_lt(k@, self.keys()[r.0 as int]),
    {
        let n = self.entries.len();
        let mut i: usize = 0;
        while i < n
            invariant
                n == self.keys().len(),
                n == self.entries@.len(),
                i <= n,
                forall|j: int| 0 <= j < i ==> seq_lt(#[trigger] self.keys()[j], k@),
            decreases n - i,
        {
            assert(self.keys()[i as int] == self.entries@[i as int].0@);
            match compare_text(self.entries[i].0.as_str(), k) {
                TextOrder::Before => {},
                TextOrder::Same => {
                    return (i, true);
                },
                TextOrder::After => {
                    return (i, false);
                },
            }
            i = i + 1;
        }
        (n, false)
    }

    /// A key is absent when it falls strictly between its neighbours.
    proof fn lemma_absent(&self, k: Seq<char>, i: int)
        requires
            sorted_keys(self.keys()),
            0 <= i <= self.keys().len(),
            forall|j: int| 0 <= j < i ==> seq_lt(#[trigger] self.keys()[j], k),
            i == self.keys().len() || seq_lt(k, self.keys()[i]),
        ensures
            !self.keys().contains(k),
    {
        if self.keys().contains(k) {
            let j = choose|j: int| 0 <= j < self.keys().len() && self.keys()[j] == k;
            if j < i {
                lemma_seq_lt_irreflexive(k);
            } else if j == i {
                lemma_seq_lt_irreflexive(k);
            } else {
                assert(seq_lt(self.keys()[i], self.keys()[j]));
                lemma_seq_lt_transitive(k, self.keys()[i], k);
                lemma_seq_lt_irreflexive(k);
            }
        }
    }

    /// The value stored under `k`, if any.
    pub fn get(&self, k: &str) -> (r: Option<&V>)
        ensures
            r matches Some(v) ==> self@.contains_key(k@) && *v == self@[k@],
            r is None ==> !self@.contains_key(k@),
    {
        proof {
            use_type_invariant(self);
        }
        let (i, found) = self.position(k);
        if found {
            proof {
                lemma_map_of_at(self.entries@, i as int);
            }
            Some(&self.entries[i].1)
        } else {
            proof {
                self.lemma_absent(k@, i as int);
            }
            None
        }
    }

    pub fn contains_key(&self, k: &str) -> (r: bool)
        ensures
            r == self@.contains_key(k@),
    {
        match self.get(k) {
            Some(_) => true,
            None => false,
        }
    }

    /// Stores `v` under `k`; gives back the value it replaces.
    pub fn insert(&mut self, k: String, v: V) -> (r: Option<V>)
        ensures
            final(self)@ == old(self)@.insert(k@, v),
            r matches Some(o) ==> old(self)@.contains_key(k@) && o == old(self)@[k@],
            r is None ==> !old(self)@.contains_key(k@),
    {
        proof {
            use_type_invariant(&*self);
        }
        let (i, found) = self.position(k.as_str());
        if !found {
            proof {
                self.lemma_absent(k@, i as int);
            }
        }
        let ghost old_e = self.entries@;
        let ghost ks = keys_of(old_e);
        let mut entries: Vec<(String, V)> = Vec::new();
        std::mem::swap(&mut entries, &mut self.entries);
        assert(entries@ == old_e);
        if found {
            let (_, o) = entries.remove(i);
            entries.insert(i, (k, v));
            let ghost new_e = entries@;
            assert(new_e =~= old_e.update(i as int, new_e[i as int]));
            assert(keys_of(new_e) =~= ks) by {
                assert forall|j: int| 0 <= j < ks.len() implies keys_of(new_e)[j] == ks[j] by {
                    if j == i {
                    }
                }
            }
            proof {
                lemma_map_of_at(old_e, i as int);
                let m = map_of(old_e).insert(k@, v);
                assert forall|j: int| 0 <= j < new_e.len() implies m[#[trigger] new_e[j].0@]
                    == new_e[j].1 by {
                    if j != i {
                        lemma_map_of_at(old_e, j);
                        assert(seq_lt(ks[j], ks[i as int]) || seq_lt(ks[i as int], ks[j]));
                        lemma_seq_lt_irreflexive(ks[j]);
                    }
                }
                assert forall|key: Seq<char>| #[trigger] m.contains_key(key) <==> keys_of(
                    new_e,
                ).contains(key) by {
                    if key == k@ {
                        assert(keys_of(new_e)[i as int] == key);
                    }
                }
                lemma_map_of_ext(new_e, m);
            }
            self.entries = entries;
            Some(o)
        } else {
            entries.insert(i, (k, v));
            let ghost new_e = entries@;
            let ghost nks = keys_of(new_e);
            assert(nks =~= ks.insert(i as int, k@));
            assert(sorted_keys(nks)) by {
                assert forall|a: int, b: int| 0 <= a < b < nks.len() implies seq_lt(
                    #[trigger] nks[a],
                    #[trigger] nks[b],
                ) by {
                    if b < i {
                        assert(seq_lt(ks[a], ks[b]));
                    } else if b == i {
                        assert(seq_lt(ks[a], k@));
                    } else if a < i {
                        assert(seq_lt(ks[a], k@));
                        if b - 1 == i {
                            assert(seq_lt(k@, ks[i as int]));
                        } else {
                            assert(seq_lt(k@, ks[i as int]));
                            assert(seq_lt(ks[i as int], ks[b - 1]));
                            lemma_seq_lt_transitive(k@, ks[i as int], ks[b - 1]);
                        }
                        lemma_seq_lt_transitive(ks[a], k@, ks[b - 1]);
                    } else if a == i {
                        if b - 1 == i {
                        } else {
                            assert(seq_lt(ks[i as int], ks[b - 1]));
                            lemma_seq_lt_transitive(k@, ks[i as int], ks[b - 1]);
                        }
                    } else {
                        assert(seq_lt(ks[a - 1], ks[b - 1]));
                    }
                }
            }
            proof {
                let m = map_of(old_e).insert(k@, v);
                assert forall|j: int| 0 <= j < new_e.len() implies m[#[trigger] new_e[j].0@]
                    == new_e[j].1 by {
                    if j < i {
                        lemma_map_of_at(old_e, j);
                        assert(nks[j] == ks[j]);
                        assert(seq_lt(nks[j], nks[i as int]));
                        lemma_seq_lt_irreflexive(nks[j]);
                    } else if j > i {
                        lemma_map_of_at(old_e, j - 1);
                        assert(nks[j] == ks[j - 1]);
                        assert(seq_lt(nks[i as int], nks[j]));
                        lemma_seq_lt_irreflexive(nks[j]);
                    }
                }
                assert forall|key: Seq<char>| #[trigger] m.contains_key(key) <==> nks.contains(
                    key,
                ) by {
                    if key == k@ {
                        assert(nks[i as int] == key);
                    } else if ks.contains(key) {
                        let j = choose|j: int| 0 <= j < ks.len() && ks[j] == key;
                        if j < i {
                            assert(nks[j] == key);
                        } else {
                            assert(nks[j + 1] == key);
                        }
                    }
                    if nks.contains(key) && key != k@ {
                        let j = choose|j: int| 0 <= j < nks.len() && nks[j] == key;
                        if j < i {
                            assert(ks[j] == key);
                        } else {
                            assert(ks[j - 1] == key);
                        }
                    }
                }
                lemma_map_of_ext(new_e, m);
            }
            self.entries = entries;
            None
        }
    }

    /// Removes the entry under `k`; gives back its value.
    pub fn remove(&mut self, k: &str) -> (r: Option<V>)
        ensures
            final(self)@ == old(self)@.remove(k@),
            r matches Some(o) ==> old(self)@.contains_key(k@) && o == old(self)@[k@],
            r is None ==> !old(self)@.contains_key(k@),
    {
        proof {
            use_type_invariant(&*self);
        }
        let (i, found) = self.position(k);
        let ghost old_e = self.entries@;
        let ghost ks = keys_of(old_e);
        if !found {
            proof {
                self.lemma_absent(k@, i as int);
                assert(old(self)@.remove(k@) =~= old(self)@);
            }
            return None;
        }
        let mut entries: Vec<(String, V)> = Vec::new();
        std::mem::swap(&mut entries, &mut self.entries);
        let (_, o) = entries.remove(i);
        let ghost new_e = entries@;
        let ghost nks = keys_of(new_e);
        assert(nks =~= ks.remove(i as int));
        assert(sorted_keys(nks)) by {
            assert forall|a: int, b: int| 0 <= a < b < nks.len() implies seq_lt(
                #[trigger] nks[a],
                #[trigger] nks[b],
            ) by {
                if b < i {
                    assert(seq_lt(ks[a], ks[b]));
                } else if a < i {
                    assert(seq_lt(ks[a], ks[b + 1]));
                } else {
                    assert(seq_lt(ks[a + 1], ks[b + 1]));
                }
            }
        }
        proof {
            lemma_map_of_at(old_e, i as int);
            let m = map_of(old_e).remove(k@);
            assert forall|j: int| 0 <= j < new_e.len() implies m[#[trigger] new_e[j].0@]
                == new_e[j].1 by {
                if j < i {
                    lemma_map_of_at(old_e, j);
                    assert(seq_lt(ks[j], ks[i as int]));
                    lemma_seq_lt_irreflexive(ks[j]);
                } else {
                    lemma_map_of_at(old_e, j + 1);
                    assert(seq_lt(ks[i as int], ks[j + 1]));
                    lemma_seq_lt_irreflexive(ks[j + 1]);
                }
            }
            assert forall|key: Seq<char>| #[trigger] m.contains_key(key) <==> nks.contains(key) by {
                if nks.contains(key) {
                    let j = choose|j: int| 0 <= j < nks.len() && nks[j] == key;
                    if j < i {
                        assert(ks[j] == key);
                        assert(seq_lt(ks[j], ks[i as int]));
                        lemma_seq_lt_irreflexive(key);
                    } else {
                        assert(ks[j + 1] == key);
                        assert(seq_lt(ks[i as int], ks[j + 1]));
                        lemma_seq_lt_irreflexive(key);
                    }
                }
                if m.contains_key(key) {
                    let j = choose|j: int| 0 <= j < ks.len() && ks[j] == key;
                    if j < i {
                        assert(nks[j] == key);
                    } else {
                        assert(j != i);
                        assert(nks[j - 1] == key);
                    }
                }
            }
            lemma_map_of_ext(new_e, m);
        }
        self.entries = entries;
        Some(o)
    }
}

} // verus!
