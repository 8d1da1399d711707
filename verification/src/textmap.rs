//! A map keyed by text, kept as a list of keys in their order and the list
//! of their values.

use crate::sorted::{lemma_insert_keeps_order, lemma_sorted_distinct, locate, strictly_sorted};
use vstd::prelude::*;

verus! {

/// The map from each of `keys` to the value at its position in `values`.
pub open spec fn map_of<V>(keys: Seq<Seq<char>>, values: Seq<V>) -> Map<Seq<char>, V> {
    Map::new(|k: Seq<char>| keys.contains(k), |k: Seq<char>| values[keys.index_of(k)])
}

/// The texts that the values of `map` stand for.
pub open spec fn text_values(map: Map<Seq<char>, String>) -> Map<Seq<char>, Seq<char>> {
    map.map_values(|v: String| v@)
}

/// A map from texts to values. Its keys are held in ascending order, no key
/// twice, and each value at the position of its key.
#[derive(Clone, Debug)]
pub struct TextMap<V> {
    keys: Vec<String>,
    values: Vec<V>,
}

impl<V> View for TextMap<V> {
    type V = Map<Seq<char>, V>;

    closed spec fn view(&self) -> Map<Seq<char>, V> {
        map_of(self.keys.deep_view(), self.values@)
    }
}

impl<V> TextMap<V> {
    /// The keys stand in ascending order, no key twice, and there is one
    /// value for each.
    pub closed spec fn wf(&self) -> bool {
        &&& self.keys.len() == self.values.len()
        &&& strictly_sorted(self.keys.deep_view())
    }

    /// The map without entries.
    pub fn new() -> (r: Self)
        ensures
            r.wf(),
            r@ == Map::<Seq<char>, V>::empty(),
    {
        let r = TextMap { keys: Vec::new(), values: Vec::new() };
        assert(r@ =~= Map::<Seq<char>, V>::empty());
        r
    }

    /// The keys in ascending order, and the value of each at its position.
    pub fn entries(&self) -> (r: (&Vec<String>, &Vec<V>))
        requires
            self.wf(),
        ensures
            r.0.len() == r.1.len(),
            strictly_sorted(r.0.deep_view()),
            map_of(r.0.deep_view(), r.1@) == self@,
    {
        (&self.keys, &self.values)
    }

    /// The number of keys.
    pub fn len(&self) -> (r: usize)
        requires
            self.wf(),
        ensures
            r == self@.dom().len(),
            self@.dom().finite(),
    {
        proof {
            let keys = self.keys.deep_view();
            lemma_sorted_distinct(keys);
            keys.unique_seq_to_set();
            assert(self@.dom() =~= keys.to_set());
        }
        self.keys.len()
    }

    /// The value of `key`, if the map has one.
    pub fn get(&self, key: &str) -> (r: Option<&V>)
        requires
            self.wf(),
        ensures
            match r {
                Some(v) => self@.contains_key(key@) && *v == self@[key@],
                None => !self@.contains_key(key@),
            },
    {
        let (found, at) = locate(&self.keys, key);
        if found {
            proof {
                let keys = self.keys.deep_view();
                lemma_sorted_distinct(keys);
                assert(keys[at as int] == key@);
            }
            Some(&self.values[at])
        } else {
            None
        }
    }

    /// Whether the map has a value for `key`.
    pub fn contains_key(&self, key: &str) -> (r: bool)
        requires
            self.wf(),
        ensures
            r == self@.contains_key(key@),
    {
        let (found, at) = locate(&self.keys, key);
        proof {
            if found {
                assert(self.keys.deep_view()[at as int] == key@);
            }
        }
        found
    }

    /// Gives `key` the value `value`, in place of the one it had, if any.
    pub fn insert(&mut self, key: String, value: V)
        requires
            old(self).wf(),
        ensures
            final(self).wf(),
            final(self)@ == old(self)@.insert(key@, value),
    {
        let ghost kb = self.keys.deep_view();
        let ghost vb = self.values@;
        let (found, at) = locate(&self.keys, key.as_str());
        proof {
            lemma_sorted_distinct(kb);
        }
        if found {
            self.values.set(at, value);
            proof {
                assert(kb[at as int] == key@);
                assert forall|x: Seq<char>| #[trigger] kb.contains(x) implies map_of(
                    kb,
                    self.values@,
                )[x] == map_of(kb, vb).insert(key@, value)[x] by {
                    assert(kb[kb.index_of(x)] == x);
                }
                assert(self@ =~= map_of(kb, vb).insert(key@, value));
            }
        } else {
            let ghost k = key@;
            self.keys.insert(at, key);
            self.values.insert(at, value);
            proof {
                let ka = self.keys.deep_view();
                assert(ka =~= kb.insert(at as int, k));
                assert forall|i: int| 0 <= i < at implies crate::sorted::lex_less(
                    #[trigger] kb[i],
                    k,
                ) by {
                    assert(kb[i] == old(self).keys[i]@);
                }
                assert forall|i: int| at <= i < kb.len() implies crate::sorted::lex_less(
                    k,
                    #[trigger] kb[i],
                ) by {
                    assert(kb[i] == old(self).keys[i]@);
                }
                lemma_insert_keeps_order(kb, at as int, k);
                lemma_sorted_distinct(ka);
                assert forall|x: Seq<char>| #[trigger] ka.contains(x) implies map_of(
                    ka,
                    self.values@,
                )[x] == map_of(kb, vb).insert(k, value)[x] by {
                    let j = ka.index_of(x);
                    assert(ka[j] == x);
                    if j < at {
                        assert(kb[j] == x);
                    } else if j > at {
                        assert(kb[j - 1] == x);
                    }
                }
                assert(self@ =~= map_of(kb, vb).insert(k, value));
            }
        }
    }
}

} // verus!
