//! Sorted sequences of keys: the order in which sets and maps of strings are walked.

use vstd::prelude::*;
use crate::text::{lex_lt, lemma_lex_irreflexive, lemma_lex_total, lemma_lex_transitive, lemma_lex_asymmetric};

verus! {

/// Every element is strictly below each later one.
pub open spec fn strictly_sorted(q: Seq<Seq<char>>) -> bool {
    forall|i: int, j: int| 0 <= i < j < q.len() ==> lex_lt(#[trigger] q[i], #[trigger] q[j])
}

/// The elements of a finite set of keys in increasing order.
pub open spec fn sorted_seq(s: Set<Seq<char>>) -> Seq<Seq<char>> {
    choose|q: Seq<Seq<char>>| strictly_sorted(q) && q.to_set() == s
}

/// Whether the set can be laid out in order, which every finite set can: then
/// [`sorted_seq`] is that layout.
pub open spec fn has_order(s: Set<Seq<char>>) -> bool {
    strictly_sorted(sorted_seq(s)) && sorted_seq(s).to_set() == s
}

/// A strictly sorted sequence holds no element twice.
pub proof fn lemma_sorted_no_duplicates(q: Seq<Seq<char>>)
    requires
        strictly_sorted(q),
    ensures
        q.no_duplicates(),
{
    assert forall|i: int, j: int| 0 <= i < q.len() && 0 <= j < q.len() && i != j implies q[i]
        != q[j] by {
        if i < j {
            assert(lex_lt(q[i], q[j]));
            lemma_lex_irreflexive(q[i]);
        } else {
            assert(lex_lt(q[j], q[i]));
            lemma_lex_irreflexive(q[j]);
        }
    }
}

/// Two strictly sorted sequences with the same elements are the same sequence.
pub proof fn lemma_sorted_unique(p: Seq<Seq<char>>, q: Seq<Seq<char>>)
    requires
        strictly_sorted(p),
        strictly_sorted(q),
        p.to_set() == q.to_set(),
    ensures
        p == q,
    decreases p.len(),
{
    if p.len() == 0 {
        if q.len() > 0 {
            assert(q.to_set().contains(q[0]));
            assert(p.to_set().contains(q[0]));
        }
        assert(p =~= q);
    } else if q.len() == 0 {
        assert(p.to_set().contains(p[0]));
        assert(q.to_set().contains(p[0]));
    } else {
        // both heads are the least element
        assert(p.to_set().contains(p[0]));
        assert(q.to_set().contains(p[0]));
        let j = choose|j: int| 0 <= j < q.len() && q[j] == p[0];
        assert(q.to_set().contains(q[0]));
        assert(p.to_set().contains(q[0]));
        let i = choose|i: int| 0 <= i < p.len() && p[i] == q[0];
        if p[0] != q[0] {
            assert(lex_lt(p[0], p[i]));
            assert(lex_lt(q[0], q[j]));
            lemma_lex_asymmetric(p[0], q[0]);
        }
        let pt = p.drop_first();
        let qt = q.drop_first();
        assert forall|x: Seq<char>| pt.to_set().contains(x) == qt.to_set().contains(x) by {
            if pt.to_set().contains(x) {
                let a = choose|a: int| 0 <= a < pt.len() && pt[a] == x;
                assert(p[a + 1] == x);
                assert(lex_lt(p[0], p[a + 1]));
                lemma_lex_irreflexive(x);
                assert(p.to_set().contains(x));
                assert(q.to_set().contains(x));
                let b = choose|b: int| 0 <= b < q.len() && q[b] == x;
                assert(b != 0);
                assert(qt[b - 1] == x);
            }
            if qt.to_set().contains(x) {
                let b = choose|b: int| 0 <= b < qt.len() && qt[b] == x;
                assert(q[b + 1] == x);
                assert(lex_lt(q[0], q[b + 1]));
                lemma_lex_irreflexive(x);
                assert(q.to_set().contains(x));
                assert(p.to_set().contains(x));
                let a = choose|a: int| 0 <= a < p.len() && p[a] == x;
                assert(a != 0);
                assert(pt[a - 1] == x);
            }
        }
        assert(pt.to_set() =~= qt.to_set());
        assert forall|a: int, b: int| 0 <= a < b < pt.len() implies lex_lt(
            #[trigger] pt[a],
            #[trigger] pt[b],
        ) by {
            assert(lex_lt(p[a + 1], p[b + 1]));
        }
        assert forall|a: int, b: int| 0 <= a < b < qt.len() implies lex_lt(
            #[trigger] qt[a],
            #[trigger] qt[b],
        ) by {
            assert(lex_lt(q[a + 1], q[b + 1]));
        }
        lemma_sorted_unique(pt, qt);
        assert(p =~= seq![p[0]] + pt);
        assert(q =~= seq![q[0]] + qt);
    }
}

/// A strictly sorted sequence is the sorted sequence of its own elements.
pub proof fn lemma_sorted_seq_of(q: Seq<Seq<char>>)
    requires
        strictly_sorted(q),
    ensures
        sorted_seq(q.to_set()) == q,
        has_order(q.to_set()),
        q.to_set().finite(),
        q.to_set().len() == q.len(),
{
    let s = q.to_set();
    let w = sorted_seq(s);
    assert(strictly_sorted(w) && w.to_set() == s);
    lemma_sorted_unique(w, q);
    lemma_sorted_no_duplicates(q);
    q.unique_seq_to_set();
    vstd::seq_lib::seq_to_set_is_finite(q);
}


/// The sorted sequence of a finite set holds the set's elements, each once, in order.
pub proof fn lemma_sorted_seq_dom(s: Set<Seq<char>>)
    requires
        has_order(s),
    ensures
        strictly_sorted(sorted_seq(s)),
        sorted_seq(s).to_set() == s,
        sorted_seq(s).no_duplicates(),
        s.finite(),
        s.len() == sorted_seq(s).len(),
{
    let q = sorted_seq(s);
    lemma_sorted_seq_of(q);
    lemma_sorted_no_duplicates(q);
}

/// In a sorted sequence the elements before a place are those below the element there.
pub proof fn lemma_sorted_take_below(q: Seq<Seq<char>>, i: int)
    requires
        strictly_sorted(q),
        0 <= i < q.len(),
    ensures
        q.take(i).to_set() == Set::new(|k: Seq<char>| q.to_set().contains(k) && lex_lt(k, q[i])),
{
    let below = Set::new(|k: Seq<char>| q.to_set().contains(k) && lex_lt(k, q[i]));
    assert forall|k: Seq<char>| q.take(i).to_set().contains(k) == below.contains(k) by {
        if q.take(i).to_set().contains(k) {
            let m = choose|m: int| 0 <= m < q.take(i).len() && q.take(i)[m] == k;
            assert(q[m] == k);
            assert(q.to_set().contains(k));
            assert(lex_lt(q[m], q[i]));
        }
        if below.contains(k) {
            let m = choose|m: int| 0 <= m < q.len() && q[m] == k;
            if m == i {
                crate::text::lemma_lex_irreflexive(k);
            } else if m > i {
                assert(lex_lt(q[i], q[m]));
                crate::text::lemma_lex_asymmetric(q[i], q[m]);
            } else {
                assert(q.take(i)[m] == k);
            }
        }
    }
    assert(q.take(i).to_set() =~= below);
}

/// The elements of the first `i + 1` places are those of the first `i` and the one at `i`.
pub proof fn lemma_take_push_set<A>(q: Seq<A>, i: int)
    requires
        0 <= i < q.len(),
    ensures
        q.take(i + 1).to_set() == q.take(i).to_set().insert(q[i]),
        q.take(i + 1) == q.take(i).push(q[i]),
{
    let a = q.take(i);
    let b = q.take(i + 1);
    assert(b =~= a.push(q[i]));
    assert forall|x: A| b.to_set().contains(x) == a.to_set().insert(q[i]).contains(x) by {
        if b.to_set().contains(x) {
            let j = choose|j: int| 0 <= j < b.len() && b[j] == x;
            if j < a.len() {
                assert(a[j] == x);
            }
        }
        if a.to_set().contains(x) {
            let j = choose|j: int| 0 <= j < a.len() && a[j] == x;
            assert(b[j] == x);
        }
        if x == q[i] {
            assert(b[i] == x);
        }
    }
    assert(b.to_set() =~= a.to_set().insert(q[i]));
}

/// Where a key stands in a sorted sequence: at `i` all before are smaller and none from
/// `i` on is. The key is then an element exactly if it is the one at `i`.
pub open spec fn is_position(q: Seq<Seq<char>>, i: int, k: Seq<char>) -> bool {
    &&& 0 <= i <= q.len()
    &&& forall|j: int| 0 <= j < i ==> lex_lt(#[trigger] q[j], k)
    &&& forall|j: int| i <= j < q.len() ==> !lex_lt(#[trigger] q[j], k)
}

/// A key is in a sorted sequence exactly if it stands at its position.
pub proof fn lemma_position_found(q: Seq<Seq<char>>, i: int, k: Seq<char>)
    requires
        strictly_sorted(q),
        is_position(q, i, k),
    ensures
        q.to_set().contains(k) <==> (i < q.len() && q[i] == k),
        q.contains(k) <==> (i < q.len() && q[i] == k),
{
    lemma_lex_irreflexive(k);
    if q.contains(k) {
        let j = choose|j: int| 0 <= j < q.len() && q[j] == k;
        if j < i {
            assert(lex_lt(q[j], k));
        } else if j > i {
            assert(lex_lt(q[i], q[j]));
            assert(!lex_lt(q[i], k));
        }
    }
    if i < q.len() && q[i] == k {
        assert(q.contains(k));
    }
}

/// Putting a new key at its position keeps the sequence sorted and adds the key.
pub proof fn lemma_insert_sorted(q: Seq<Seq<char>>, i: int, k: Seq<char>)
    requires
        strictly_sorted(q),
        is_position(q, i, k),
        i < q.len() ==> q[i] != k,
    ensures
        strictly_sorted(q.insert(i, k)),
        q.insert(i, k).to_set() == q.to_set().insert(k),
        !q.to_set().contains(k),
{
    let r = q.insert(i, k);
    lemma_position_found(q, i, k);
    assert forall|a: int, b: int| 0 <= a < b < r.len() implies lex_lt(
        #[trigger] r[a],
        #[trigger] r[b],
    ) by {
        if b < i {
            assert(lex_lt(q[a], q[b]));
        } else if b == i {
            assert(lex_lt(q[a], k));
        } else if a == i {
            let y = q[b - 1];
            assert(!lex_lt(y, k));
            if y == k {
                assert(q.contains(k));
            }
            lemma_lex_total(k, y);
        } else if a < i {
            assert(lex_lt(q[a], q[b - 1]));
        } else {
            assert(lex_lt(q[a - 1], q[b - 1]));
        }
    }
    assert forall|x: Seq<char>| r.to_set().contains(x) == q.to_set().insert(k).contains(x) by {
        if r.to_set().contains(x) {
            let j = choose|j: int| 0 <= j < r.len() && r[j] == x;
            if j < i {
                assert(q[j] == x);
            } else if j > i {
                assert(q[j - 1] == x);
            }
        }
        if q.to_set().contains(x) {
            let j = choose|j: int| 0 <= j < q.len() && q[j] == x;
            if j < i {
                assert(r[j] == x);
            } else {
                assert(r[j + 1] == x);
            }
        }
        if x == k {
            assert(r[i] == x);
        }
    }
    assert(r.to_set() =~= q.to_set().insert(k));
}

/// Taking an element out keeps the sequence sorted and removes that element only.
pub proof fn lemma_remove_sorted(q: Seq<Seq<char>>, i: int)
    requires
        strictly_sorted(q),
        0 <= i < q.len(),
    ensures
        strictly_sorted(q.remove(i)),
        q.remove(i).to_set() == q.to_set().remove(q[i]),
{
    let r = q.remove(i);
    assert forall|a: int, b: int| 0 <= a < b < r.len() implies lex_lt(
        #[trigger] r[a],
        #[trigger] r[b],
    ) by {
        let a2 = if a < i { a } else { a + 1 };
        let b2 = if b < i { b } else { b + 1 };
        assert(lex_lt(q[a2], q[b2]));
    }
    lemma_sorted_no_duplicates(q);
    assert forall|x: Seq<char>| r.to_set().contains(x) == q.to_set().remove(q[i]).contains(x) by {
        if r.to_set().contains(x) {
            let j = choose|j: int| 0 <= j < r.len() && r[j] == x;
            let j2 = if j < i { j } else { j + 1 };
            assert(q[j2] == x);
        }
        if q.to_set().contains(x) && x != q[i] {
            let j = choose|j: int| 0 <= j < q.len() && q[j] == x;
            if j < i {
                assert(r[j] == x);
            } else {
                assert(r[j - 1] == x);
            }
        }
    }
    assert(r.to_set() =~= q.to_set().remove(q[i]));
}

/// Every sorted sequence has a place for every key.
pub proof fn lemma_position_exists(q: Seq<Seq<char>>, k: Seq<char>) -> (i: int)
    requires
        strictly_sorted(q),
    ensures
        is_position(q, i, k),
    decreases q.len(),
{
    if q.len() == 0 {
        0
    } else if !lex_lt(q.last(), k) {
        let p = q.drop_last();
        assert forall|a: int, b: int| 0 <= a < b < p.len() implies lex_lt(
            #[trigger] p[a],
            #[trigger] p[b],
        ) by {
            assert(lex_lt(q[a], q[b]));
        }
        let i = lemma_position_exists(p, k);
        assert forall|j: int| 0 <= j < i implies lex_lt(#[trigger] q[j], k) by {
            assert(q[j] == p[j]);
        }
        assert forall|j: int| i <= j < q.len() implies !lex_lt(#[trigger] q[j], k) by {
            if j < p.len() {
                assert(q[j] == p[j]);
            }
        }
        i
    } else {
        assert forall|j: int| 0 <= j < q.len() implies lex_lt(#[trigger] q[j], k) by {
            if j < q.len() - 1 {
                assert(lex_lt(q[j], q[q.len() - 1]));
                lemma_lex_transitive(q[j], q.last(), k);
            }
        }
        q.len() as int
    }
}

/// Every finite set of keys can be laid out in order.
pub proof fn lemma_finite_has_order(s: Set<Seq<char>>)
    requires
        s.finite(),
    ensures
        has_order(s),
        strictly_sorted(sorted_seq(s)),
        sorted_seq(s).to_set() == s,
        sorted_seq(s).no_duplicates(),
        sorted_seq(s).len() == s.len(),
    decreases s.len(),
{
    if s.len() == 0 {
        let q = Seq::<Seq<char>>::empty();
        assert(q.to_set() =~= s) by {
            s.lemma_len0_is_empty();
        }
        lemma_sorted_seq_of(q);
    } else {
        let x = s.choose();
        let rest = s.remove(x);
        lemma_finite_has_order(rest);
        let q = sorted_seq(rest);
        let i = lemma_position_exists(q, x);
        lemma_position_found(q, i, x);
        lemma_insert_sorted(q, i, x);
        let r = q.insert(i, x);
        assert(r.to_set() =~= s);
        lemma_sorted_seq_of(r);
    }
    lemma_sorted_seq_dom(s);
}

/// The map that pairs each key of a duplicate-free sequence with the value at the same place.
pub open spec fn assoc<W>(keys: Seq<Seq<char>>, vals: Seq<W>) -> Map<Seq<char>, W> {
    Map::new(|k: Seq<char>| keys.contains(k), |k: Seq<char>| vals[keys.index_of(k)])
}

/// What [`assoc`] holds at each place.
pub proof fn lemma_assoc_at<W>(keys: Seq<Seq<char>>, vals: Seq<W>, i: int)
    requires
        keys.no_duplicates(),
        0 <= i < keys.len(),
    ensures
        assoc(keys, vals).dom().contains(keys[i]),
        assoc(keys, vals)[keys[i]] == vals[i],
        keys.index_of(keys[i]) == i,
{
    assert(keys.contains(keys[i]));
    let j = keys.index_of(keys[i]);
    assert(0 <= j < keys.len() && keys[j] == keys[i]);
}

/// The keys of [`assoc`] are the elements of the key sequence.
pub proof fn lemma_assoc_dom<W>(keys: Seq<Seq<char>>, vals: Seq<W>)
    ensures
        assoc(keys, vals).dom() == keys.to_set(),
{
    assert(assoc(keys, vals).dom() =~= keys.to_set());
}

/// [`assoc`] after a new pair is put in at place `i`.
pub proof fn lemma_assoc_insert<W>(keys: Seq<Seq<char>>, vals: Seq<W>, i: int, k: Seq<char>, v: W)
    requires
        keys.no_duplicates(),
        !keys.contains(k),
        0 <= i <= keys.len(),
        keys.len() == vals.len(),
    ensures
        assoc(keys.insert(i, k), vals.insert(i, v)) == assoc(keys, vals).insert(k, v),
{
    let keys2 = keys.insert(i, k);
    let vals2 = vals.insert(i, v);
    let a = assoc(keys2, vals2);
    let b = assoc(keys, vals).insert(k, v);
    assert(keys2.no_duplicates()) by {
        assert forall|x: int, y: int| 0 <= x < keys2.len() && 0 <= y < keys2.len() && x
            != y implies keys2[x] != keys2[y] by {
            let x0 = if x < i { x } else { x - 1 };
            let y0 = if y < i { y } else { y - 1 };
            if x != i && y != i {
                assert(keys[x0] != keys[y0]);
            } else if x == i {
                assert(keys.contains(keys[y0]));
            } else {
                assert(keys.contains(keys[x0]));
            }
        }
    }
    assert forall|x: Seq<char>| a.dom().contains(x) == b.dom().contains(x) by {
        if keys2.contains(x) {
            let j = choose|j: int| 0 <= j < keys2.len() && keys2[j] == x;
            if j < i {
                assert(keys[j] == x);
            } else if j > i {
                assert(keys[j - 1] == x);
            }
        }
        if keys.contains(x) {
            let j = choose|j: int| 0 <= j < keys.len() && keys[j] == x;
            if j < i {
                assert(keys2[j] == x);
            } else {
                assert(keys2[j + 1] == x);
            }
        }
        if x == k {
            assert(keys2[i] == x);
        }
    }
    assert forall|x: Seq<char>| a.dom().contains(x) implies a[x] == b[x] by {
        let j = keys2.index_of(x);
        assert(0 <= j < keys2.len() && keys2[j] == x);
        if j < i {
            lemma_assoc_at(keys, vals, j);
        } else if j > i {
            lemma_assoc_at(keys, vals, j - 1);
        }
    }
    assert(a =~= b);
}

/// [`assoc`] after the pair at place `i` is taken out.
pub proof fn lemma_assoc_remove<W>(keys: Seq<Seq<char>>, vals: Seq<W>, i: int)
    requires
        keys.no_duplicates(),
        0 <= i < keys.len(),
        keys.len() == vals.len(),
    ensures
        assoc(keys.remove(i), vals.remove(i)) == assoc(keys, vals).remove(keys[i]),
{
    let keys2 = keys.remove(i);
    let vals2 = vals.remove(i);
    let a = assoc(keys2, vals2);
    let b = assoc(keys, vals).remove(keys[i]);
    assert forall|x: Seq<char>| a.dom().contains(x) == b.dom().contains(x) by {
        if keys2.contains(x) {
            let j = choose|j: int| 0 <= j < keys2.len() && keys2[j] == x;
            let j0 = if j < i { j } else { j + 1 };
            assert(keys[j0] == x);
        }
        if keys.contains(x) && x != keys[i] {
            let j = choose|j: int| 0 <= j < keys.len() && keys[j] == x;
            if j < i {
                assert(keys2[j] == x);
            } else {
                assert(keys2[j - 1] == x);
            }
        }
    }
    assert forall|x: Seq<char>| a.dom().contains(x) implies a[x] == b[x] by {
        let j = keys2.index_of(x);
        assert(0 <= j < keys2.len() && keys2[j] == x);
        let j0 = if j < i { j } else { j + 1 };
        lemma_assoc_at(keys, vals, j0);
    }
    assert(a =~= b);
}

/// [`assoc`] after the value at place `i` is replaced.
pub proof fn lemma_assoc_update<W>(keys: Seq<Seq<char>>, vals: Seq<W>, i: int, v: W)
    requires
        keys.no_duplicates(),
        0 <= i < keys.len(),
        keys.len() == vals.len(),
    ensures
        assoc(keys, vals.update(i, v)) == assoc(keys, vals).insert(keys[i], v),
{
    let a = assoc(keys, vals.update(i, v));
    let b = assoc(keys, vals).insert(keys[i], v);
    assert forall|x: Seq<char>| a.dom().contains(x) == b.dom().contains(x) by {
        assert(keys.contains(keys[i]));
    }
    assert forall|x: Seq<char>| a.dom().contains(x) implies a[x] == b[x] by {
        let j = keys.index_of(x);
        assert(0 <= j < keys.len() && keys[j] == x);
    }
    assert(a =~= b);
}

} // verus!
