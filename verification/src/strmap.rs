//! A map from strings to values that is walked in increasing order of its keys.

use vstd::prelude::*;
use crate::text::text_eq;
use crate::order::{strictly_sorted, sorted_seq, has_order, assoc, lemma_sorted_seq_of, lemma_sorted_no_duplicates, lemma_position_found, lemma_insert_sorted, lemma_remove_sorted, lemma_assoc_at, lemma_assoc_dom, lemma_assoc_insert, lemma_assoc_remove, lemma_assoc_update};
use crate::strset::position;

verus! {

broadcast use vstd::string::group_string_axioms;

/// An ordered map keyed by strings. Its view maps the character sequence of each key to
/// its value, its deep view to the deep view of its value; the keys are walked in the
/// order of [`sorted_seq`].
#[derive(Debug, PartialEq, Eq)]
pub struct StrMap<V> {
    keys: Vec<String>,
    vals: Vec<V>,
}

impl<V> View for StrMap<V> {
    type V = Map<Seq<char>, V>;

    closed spec fn view(&self) -> Map<Seq<char>, V> {
        assoc(self.keys.deep_view(), self.vals@)
    }
}

/// The map with the same keys that holds the deep view of each value.
pub open spec fn deep_map<V: DeepView>(m: Map<Seq<char>, V>) -> Map<Seq<char>, V::V> {
    Map::new(|k: Seq<char>| m.dom().contains(k), |k: Seq<char>| m[k].deep_view())
}

/// [`deep_map`] of a map with one more entry.
pub proof fn lemma_deep_map_insert<V: DeepView>(m: Map<Seq<char>, V>, k: Seq<char>, v: V)
    ensures
        deep_map(m.insert(k, v)) == deep_map(m).insert(k, v.deep_view()),
{
    assert(deep_map(m.insert(k, v)) =~= deep_map(m).insert(k, v.deep_view()));
}

/// [`deep_map`] of a map with one entry less.
pub proof fn lemma_deep_map_remove<V: DeepView>(m: Map<Seq<char>, V>, k: Seq<char>)
    ensures
        deep_map(m.remove(k)) == deep_map(m).remove(k),
{
    assert(deep_map(m.remove(k)) =~= deep_map(m).remove(k));
}

/// [`deep_map`] of the empty map.
pub proof fn lemma_deep_map_empty<V: DeepView>()
    ensures
        deep_map(Map::<Seq<char>, V>::empty()) == Map::<Seq<char>, V::V>::empty(),
{
    assert(deep_map(Map::<Seq<char>, V>::empty()) =~= Map::<Seq<char>, V::V>::empty());
}

/// A map has finitely many keys, and so has its deep view.
pub proof fn lemma_finite_keys<V>(m: StrMap<V>)
    ensures
        m@.dom().finite(),
{
    lemma_assoc_dom(m.keys.deep_view(), m.vals@);
    vstd::seq_lib::seq_to_set_is_finite(m.keys.deep_view());
}

/// The deep view has the keys of the view.
pub proof fn lemma_deep_map_dom<V: DeepView>(m: Map<Seq<char>, V>)
    ensures
        deep_map(m).dom() == m.dom(),
{
    assert(deep_map(m).dom() =~= m.dom());
}

impl<V: DeepView> DeepView for StrMap<V> {
    type V = Map<Seq<char>, V::V>;

    open spec fn deep_view(&self) -> Map<Seq<char>, V::V> {
        deep_map(self@)
    }
}

impl<V> StrMap<V> {
    #[verifier::type_invariant]
    spec fn sorted(self) -> bool {
        &&& strictly_sorted(self.keys.deep_view())
        &&& self.keys@.len() == self.vals@.len()
    }

    /// The empty map.
    pub fn new() -> (m: Self)
        ensures
            m@ == Map::<Seq<char>, V>::empty(),
    {
        let m = StrMap { keys: Vec::new(), vals: Vec::new() };
        assert(m@ =~= Map::<Seq<char>, V>::empty());
        m
    }

    /// The number of entries.
    pub fn len(&self) -> (n: usize)
        ensures
            self@.dom().finite(),
            n == self@.dom().len(),
            n == sorted_seq(self@.dom()).len(),
            has_order(self@.dom()),
    {
        proof {
            use_type_invariant(self);
            lemma_sorted_seq_of(self.keys.deep_view());
            lemma_assoc_dom(self.keys.deep_view(), self.vals@);
        }
        self.keys.len()
    }

    /// Whether the map holds nothing.
    pub fn is_empty(&self) -> (b: bool)
        ensures
            b == (self@.dom().len() == 0),
            b == (self@.dom() == Set::<Seq<char>>::empty()),
            self@.dom().finite(),
    {
        let n = self.len();
        proof {
            if n == 0 {
                self@.dom().lemma_len0_is_empty();
            }
        }
        n == 0
    }

    /// The place of `key` among the keys, if it is one.
    pub fn index_of(&self, key: &str) -> (r: Option<usize>)
        ensures
            r is Some <==> self@.dom().contains(key@),
            r matches Some(i) ==> i < sorted_seq(self@.dom()).len() && sorted_seq(self@.dom())[i as int]
                == key@,
    {
        proof {
            use_type_invariant(self);
        }
        let i = position(&self.keys, key);
        proof {
            lemma_position_found(self.keys.deep_view(), i as int, key@);
            lemma_sorted_seq_of(self.keys.deep_view());
            lemma_assoc_dom(self.keys.deep_view(), self.vals@);
        }
        if i < self.keys.len() && text_eq(self.keys[i].as_str(), key) {
            Some(i)
        } else {
            None
        }
    }

    /// Whether `key` has an entry.
    pub fn contains_key(&self, key: &str) -> (b: bool)
        ensures
            b == self@.dom().contains(key@),
    {
        self.index_of(key).is_some()
    }

    /// The value under `key`, if there is one.
    pub fn get(&self, key: &str) -> (r: Option<&V>)
        ensures
            r is Some <==> self@.dom().contains(key@),
            r matches Some(v) ==> *v == self@[key@],
    {
        proof {
            use_type_invariant(self);
        }
        match self.index_of(key) {
            Some(i) => {
                proof {
                    let ks = self.keys.deep_view();
                    lemma_sorted_seq_of(ks);
                    lemma_sorted_no_duplicates(ks);
                    lemma_assoc_dom(ks, self.vals@);
                    lemma_assoc_at(ks, self.vals@, i as int);
                }
                Some(&self.vals[i])
            },
            None => None,
        }
    }

    /// The key at place `i` of the increasing order.
    pub fn key_at(&self, i: usize) -> (key: &String)
        requires
            i < sorted_seq(self@.dom()).len(),
        ensures
            key@ == sorted_seq(self@.dom())[i as int],
            self@.dom().contains(key@),
    {
        proof {
            use_type_invariant(self);
            let ks = self.keys.deep_view();
            lemma_sorted_seq_of(ks);
            lemma_assoc_dom(ks, self.vals@);
            assert(ks[i as int] == self.keys@[i as int]@);
            assert(ks.to_set().contains(ks[i as int]));
        }
        &self.keys[i]
    }

    /// The value at place `i` of the increasing order of the keys.
    pub fn value_at(&self, i: usize) -> (value: &V)
        requires
            i < sorted_seq(self@.dom()).len(),
        ensures
            *value == self@[sorted_seq(self@.dom())[i as int]],
    {
        proof {
            use_type_invariant(self);
            let ks = self.keys.deep_view();
            lemma_sorted_seq_of(ks);
            lemma_sorted_no_duplicates(ks);
            lemma_assoc_dom(ks, self.vals@);
            lemma_assoc_at(ks, self.vals@, i as int);
        }
        &self.vals[i]
    }

    /// The keys in increasing order.
    pub fn keys(&self) -> (v: Vec<String>)
        ensures
            v.deep_view() == sorted_seq(self@.dom()),
            has_order(self@.dom()),
    {
        proof {
            use_type_invariant(self);
            lemma_sorted_seq_of(self.keys.deep_view());
            lemma_assoc_dom(self.keys.deep_view(), self.vals@);
        }
        let mut v: Vec<String> = Vec::new();
        let mut i: usize = 0;
        while i < self.keys.len()
            invariant
                i <= self.keys@.len(),
                v@.len() == i,
                forall|j: int| 0 <= j < i ==> v@[j]@ == self.keys@[j]@,
            decreases self.keys@.len() - i,
        {
            v.push(self.keys[i].clone());
            i += 1;
        }
        assert(v.deep_view() =~= self.keys.deep_view());
        v
    }

    /// Puts `value` under `key`; hands back what was there.
    pub fn insert(&mut self, key: String, value: V) -> (prev: Option<V>)
        ensures
            final(self)@ == old(self)@.insert(key@, value),
            prev is Some <==> old(self)@.dom().contains(key@),
            prev matches Some(p) ==> p == old(self)@[key@],
    {
        proof {
            use_type_invariant(&*self);
        }
        let i = position(&self.keys, key.as_str());
        let ghost ks = self.keys.deep_view();
        let ghost vs = self.vals@;
        let ghost k = key@;
        let ghost w = value;
        proof {
            lemma_position_found(ks, i as int, k);
            lemma_sorted_no_duplicates(ks);
            lemma_assoc_dom(ks, vs);
        }
        let mut taken = StrMap { keys: Vec::new(), vals: Vec::new() };
        std::mem::swap(self, &mut taken);
        let StrMap { mut keys, mut vals } = taken;
        if i < keys.len() && text_eq(keys[i].as_str(), key.as_str()) {
            vals.push(value);
            let prev = vals.swap_remove(i);
            proof {
                assert(vals@ =~= vs.update(i as int, w));
                lemma_assoc_update(ks, vs, i as int, w);
                lemma_assoc_at(ks, vs, i as int);
            }
            *self = StrMap { keys, vals };
            Some(prev)
        } else {
            keys.insert(i, key);
            vals.insert(i, value);
            proof {
                assert(keys.deep_view() =~= ks.insert(i as int, k));
                assert(vals@ =~= vs.insert(i as int, w));
                lemma_insert_sorted(ks, i as int, k);
                lemma_assoc_insert(ks, vs, i as int, k, w);
            }
            *self = StrMap { keys, vals };
            None
        }
    }

    /// Takes the entry under `key` out; hands back its value.
    pub fn remove(&mut self, key: &str) -> (prev: Option<V>)
        ensures
            final(self)@ == old(self)@.remove(key@),
            prev is Some <==> old(self)@.dom().contains(key@),
            prev matches Some(p) ==> p == old(self)@[key@],
    {
        proof {
            use_type_invariant(&*self);
        }
        let i = position(&self.keys, key);
        let ghost ks = self.keys.deep_view();
        let ghost vs = self.vals@;
        proof {
            lemma_position_found(ks, i as int, key@);
            lemma_sorted_no_duplicates(ks);
            lemma_assoc_dom(ks, vs);
        }
        if i < self.keys.len() && text_eq(self.keys[i].as_str(), key) {
            let mut taken = StrMap { keys: Vec::new(), vals: Vec::new() };
            std::mem::swap(self, &mut taken);
            let StrMap { mut keys, mut vals } = taken;
            keys.remove(i);
            let prev = vals.remove(i);
            proof {
                assert(keys.deep_view() =~= ks.remove(i as int));
                assert(vals@ =~= vs.remove(i as int));
                lemma_remove_sorted(ks, i as int);
                lemma_assoc_remove(ks, vs, i as int);
                lemma_assoc_at(ks, vs, i as int);
            }
            *self = StrMap { keys, vals };
            Some(prev)
        } else {
            assert(self@.remove(key@) =~= self@);
            None
        }
    }
}

impl<V> Default for StrMap<V> {
    fn default() -> (m: Self)
        ensures
            m@ == Map::<Seq<char>, V>::empty(),
    {
        StrMap::new()
    }
}

impl<V: Clone> Clone for StrMap<V> {
    fn clone(&self) -> (m: Self)
        ensures
            m@.dom() == self@.dom(),
            forall|k: Seq<char>| #[trigger]
                self@.dom().contains(k) ==> vstd::pervasive::cloned(self@[k], m@[k]),
    {
        proof {
            use_type_invariant(self);
        }
        let ghost ks = self.keys.deep_view();
        let mut keys: Vec<String> = Vec::new();
        let mut i: usize = 0;
        while i < self.keys.len()
            invariant
                i <= self.keys@.len(),
                keys@.len() == i,
                forall|j: int| 0 <= j < i ==> keys@[j]@ == self.keys@[j]@,
            decreases self.keys@.len() - i,
        {
            keys.push(self.keys[i].clone());
            i += 1;
        }
        let vals = self.vals.clone();
        assert(keys.deep_view() =~= ks);
        let m = StrMap { keys, vals };
        proof {
            lemma_sorted_no_duplicates(ks);
            lemma_assoc_dom(ks, self.vals@);
            lemma_assoc_dom(ks, m.vals@);
            assert forall|k: Seq<char>| #[trigger] self@.dom().contains(k) implies vstd::pervasive::cloned(
                self@[k],
                m@[k],
            ) by {
                let j = ks.index_of(k);
                assert(ks.contains(k));
                lemma_assoc_at(ks, self.vals@, j);
                lemma_assoc_at(ks, m.vals@, j);
            }
        }
        m
    }
}

} // verus!
