//! A set of strings that is walked in increasing order.

use vstd::prelude::*;
use crate::text::{lex_lt, text_lt, text_eq, lemma_lex_transitive};
use crate::order::{strictly_sorted, sorted_seq, has_order, is_position, lemma_sorted_seq_of, lemma_position_found, lemma_insert_sorted, lemma_remove_sorted};

verus! {

broadcast use vstd::string::group_string_axioms;

/// Finds where `key` stands among sorted `items`.
pub fn position(items: &Vec<String>, key: &str) -> (i: usize)
    requires
        strictly_sorted(items.deep_view()),
    ensures
        is_position(items.deep_view(), i as int, key@),
{
    let ghost q = items.deep_view();
    let mut i: usize = 0;
    while i < items.len()
        invariant
            i <= items@.len(),
            q == items.deep_view(),
            strictly_sorted(q),
            forall|j: int| 0 <= j < i ==> lex_lt(#[trigger] q[j], key@),
        decreases items@.len() - i,
    {
        assert(q[i as int] == items@[i as int]@);
        if !text_lt(items[i].as_str(), key) {
            proof {
                assert forall|j: int| i <= j < q.len() implies !lex_lt(#[trigger] q[j], key@) by {
                    if i < j {
                        assert(lex_lt(q[i as int], q[j]));
                        if lex_lt(q[j], key@) {
                            lemma_lex_transitive(q[i as int], q[j], key@);
                        }
                    }
                }
            }
            return i;
        }
        i += 1;
    }
    i
}

/// An ordered set of strings. Its view is the set of their character sequences; they
/// are walked in the order of [`sorted_seq`].
#[derive(Debug, PartialEq, Eq)]
pub struct StrSet {
    items: Vec<String>,
}

impl View for StrSet {
    type V = Set<Seq<char>>;

    closed spec fn view(&self) -> Set<Seq<char>> {
        self.items.deep_view().to_set()
    }
}

impl DeepView for StrSet {
    type V = Set<Seq<char>>;

    open spec fn deep_view(&self) -> Set<Seq<char>> {
        self@
    }
}

/// A set holds finitely many strings.
pub proof fn lemma_finite_set(s: StrSet)
    ensures
        s@.finite(),
{
    vstd::seq_lib::seq_to_set_is_finite(s.items.deep_view());
}

impl StrSet {
    #[verifier::type_invariant]
    spec fn sorted(self) -> bool {
        strictly_sorted(self.items.deep_view())
    }

    /// The empty set.
    pub fn new() -> (s: Self)
        ensures
            s@ == Set::<Seq<char>>::empty(),
    {
        let s = StrSet { items: Vec::new() };
        assert(s.items.deep_view().to_set() =~= Set::<Seq<char>>::empty());
        s
    }

    /// The number of items.
    pub fn len(&self) -> (n: usize)
        ensures
            self@.finite(),
            n == self@.len(),
            n == sorted_seq(self@).len(),
            has_order(self@),
    {
        proof {
            use_type_invariant(self);
            lemma_sorted_seq_of(self.items.deep_view());
        }
        self.items.len()
    }

    /// Whether the set holds nothing.
    pub fn is_empty(&self) -> (b: bool)
        ensures
            b == (self@ == Set::<Seq<char>>::empty()),
            b == (self@.len() == 0),
            self@.finite(),
    {
        proof {
            use_type_invariant(self);
            let q = self.items.deep_view();
            lemma_sorted_seq_of(q);
            if q.len() > 0 {
                assert(q.to_set().contains(q[0]));
            } else {
                assert(q.to_set() =~= Set::<Seq<char>>::empty());
            }
        }
        self.items.len() == 0
    }

    /// Whether `key` is in the set.
    pub fn contains(&self, key: &str) -> (b: bool)
        ensures
            b == self@.contains(key@),
    {
        proof {
            use_type_invariant(self);
        }
        let i = position(&self.items, key);
        proof {
            lemma_position_found(self.items.deep_view(), i as int, key@);
        }
        i < self.items.len() && text_eq(self.items[i].as_str(), key)
    }

    /// Adds `key`; says whether it was new.
    pub fn insert(&mut self, key: String) -> (fresh: bool)
        ensures
            final(self)@ == old(self)@.insert(key@),
            fresh == !old(self)@.contains(key@),
    {
        proof {
            use_type_invariant(&*self);
        }
        let i = position(&self.items, key.as_str());
        let ghost q = self.items.deep_view();
        proof {
            lemma_position_found(q, i as int, key@);
        }
        if i < self.items.len() && text_eq(self.items[i].as_str(), key.as_str()) {
            assert(q.to_set().insert(key@) =~= q.to_set());
            return false;
        }
        let ghost k = key@;
        let mut items = Vec::new();
        std::mem::swap(&mut items, &mut self.items);
        items.insert(i, key);
        proof {
            assert(items.deep_view() =~= q.insert(i as int, k));
            lemma_insert_sorted(q, i as int, k);
        }
        self.items = items;
        true
    }

    /// Takes `key` out; says whether it was there.
    pub fn remove(&mut self, key: &str) -> (found: bool)
        ensures
            final(self)@ == old(self)@.remove(key@),
            found == old(self)@.contains(key@),
    {
        proof {
            use_type_invariant(&*self);
        }
        let i = position(&self.items, key);
        let ghost q = self.items.deep_view();
        proof {
            lemma_position_found(q, i as int, key@);
        }
        if i < self.items.len() && text_eq(self.items[i].as_str(), key) {
            let mut items = Vec::new();
            std::mem::swap(&mut items, &mut self.items);
            items.remove(i);
            proof {
                assert(items.deep_view() =~= q.remove(i as int));
                lemma_remove_sorted(q, i as int);
            }
            self.items = items;
            true
        } else {
            assert(q.to_set().remove(key@) =~= q.to_set());
            false
        }
    }

    /// The item at place `i` of the increasing order.
    pub fn get(&self, i: usize) -> (item: &String)
        requires
            i < sorted_seq(self@).len(),
        ensures
            item@ == sorted_seq(self@)[i as int],
            self@.contains(item@),
    {
        proof {
            use_type_invariant(self);
            let q = self.items.deep_view();
            lemma_sorted_seq_of(q);
            assert(q[i as int] == self.items@[i as int]@);
            assert(q.to_set().contains(q[i as int]));
        }
        &self.items[i]
    }

    /// Adds every item of `other`.
    pub fn extend(&mut self, other: &StrSet)
        ensures
            final(self)@ == old(self)@.union(other@),
    {
        let n = other.len();
        let ghost o = sorted_seq(other@);
        proof {
            use_type_invariant(other);
            lemma_sorted_seq_of(other.items.deep_view());
        }
        let mut i: usize = 0;
        assert(self@ =~= old(self)@.union(o.take(0).to_set()));
        while i < n
            invariant
                i <= n,
                n == o.len(),
                o == sorted_seq(other@),
                o.to_set() == other@,
                self@ == old(self)@.union(o.take(i as int).to_set()),
            decreases n - i,
        {
            let item = other.get(i).clone();
            let ghost before = self@;
            self.insert(item);
            proof {
                let a = o.take(i as int);
                let b = o.take(i as int + 1);
                assert(b =~= a.push(o[i as int]));
                assert forall|x: Seq<char>| b.to_set().contains(x) == a.to_set().insert(
                    o[i as int],
                ).contains(x) by {
                    if b.to_set().contains(x) {
                        let j = choose|j: int| 0 <= j < b.len() && b[j] == x;
                        if j < a.len() {
                            assert(a[j] == x);
                        }
                    }
                    if a.to_set().contains(x) {
                        let j = choose|j: int| 0 <= j < a.len() && a[j] == x;
                        assert(b[j] == x);
                    }
                    if x == o[i as int] {
                        assert(b[i as int] == x);
                    }
                }
                assert(b.to_set() =~= a.to_set().insert(o[i as int]));
                assert(self@ =~= old(self)@.union(b.to_set()));
            }
            i += 1;
        }
        assert(o.take(n as int) =~= o);
    }

    /// The items in increasing order.
    pub fn to_vec(&self) -> (v: Vec<String>)
        ensures
            v.deep_view() == sorted_seq(self@),
    {
        proof {
            use_type_invariant(self);
            lemma_sorted_seq_of(self.items.deep_view());
        }
        let mut v: Vec<String> = Vec::new();
        let mut i: usize = 0;
        while i < self.items.len()
            invariant
                i <= self.items@.len(),
                v@.len() == i,
                forall|j: int| 0 <= j < i ==> v@[j]@ == self.items@[j]@,
            decreases self.items@.len() - i,
        {
            v.push(self.items[i].clone());
            i += 1;
        }
        assert(v.deep_view() =~= self.items.deep_view());
        v
    }
}

impl Default for StrSet {
    fn default() -> (s: Self)
        ensures
            s@ == Set::<Seq<char>>::empty(),
    {
        StrSet::new()
    }
}

impl Clone for StrSet {
    fn clone(&self) -> (s: Self)
        ensures
            s@ == self@,
    {
        proof {
            use_type_invariant(self);
        }
        let items = self.to_vec();
        proof {
            lemma_sorted_seq_of(self.items.deep_view());
        }
        StrSet { items }
    }
}

} // verus!
