//! Ordering and slicing of strings, stated over their views as sequences of characters.

use vstd::prelude::*;
use vstd::std_specs::iter::IteratorSpec;

verus! {

broadcast use vstd::string::group_string_axioms;

/// The strict lexicographic order on character sequences, by code point.
pub open spec fn lex_lt(a: Seq<char>, b: Seq<char>) -> bool
    decreases a.len(),
{
    if b.len() == 0 {
        false
    } else if a.len() == 0 {
        true
    } else if a[0] != b[0] {
        (a[0] as u32) < (b[0] as u32)
    } else {
        lex_lt(a.drop_first(), b.drop_first())
    }
}

/// Different characters have different code points.
proof fn lemma_code_points_differ(p: char, q: char)
    ensures
        p != q ==> p as u32 != q as u32,
{
}

/// No sequence is below itself.
pub proof fn lemma_lex_irreflexive(a: Seq<char>)
    ensures
        !lex_lt(a, a),
    decreases a.len(),
{
    if a.len() > 0 {
        lemma_lex_irreflexive(a.drop_first());
    }
}

/// Two different sequences are ordered one way or the other.
pub proof fn lemma_lex_total(a: Seq<char>, b: Seq<char>)
    ensures
        a == b || lex_lt(a, b) || lex_lt(b, a),
    decreases a.len(),
{
    if a.len() == 0 || b.len() == 0 {
        if a.len() == 0 && b.len() == 0 {
            assert(a =~= b);
        }
    } else if a[0] == b[0] {
        lemma_lex_total(a.drop_first(), b.drop_first());
        if a.drop_first() == b.drop_first() {
            assert(a =~= seq![a[0]] + a.drop_first());
            assert(b =~= seq![b[0]] + b.drop_first());
        }
    } else {
        lemma_code_points_differ(a[0], b[0]);
    }
}

/// The order is transitive.
pub proof fn lemma_lex_transitive(a: Seq<char>, b: Seq<char>, c: Seq<char>)
    requires
        lex_lt(a, b),
        lex_lt(b, c),
    ensures
        lex_lt(a, c),
    decreases a.len(),
{
    if a.len() > 0 && a[0] == b[0] && b[0] == c[0] {
        lemma_lex_transitive(a.drop_first(), b.drop_first(), c.drop_first());
    }
}

/// The order is asymmetric.
pub proof fn lemma_lex_asymmetric(a: Seq<char>, b: Seq<char>)
    requires
        lex_lt(a, b),
    ensures
        !lex_lt(b, a),
    decreases a.len(),
{
    if a.len() > 0 && b.len() > 0 && a[0] == b[0] {
        lemma_lex_asymmetric(a.drop_first(), b.drop_first());
    }
}

/// Whether `a` comes strictly before `b`.
pub fn text_lt(a: &str, b: &str) -> (r: bool)
    ensures
        r == lex_lt(a@, b@),
{
    let mut ia = a.chars();
    let mut ib = b.chars();
    loop
        invariant
            lex_lt(a@, b@) == lex_lt(ia.remaining(), ib.remaining()),
            ia.decrease() is Some,
        decreases ia.decrease()->0,
    {
        let y = ib.next();
        let x = ia.next();
        match (x, y) {
            (_, None) => {
                return false;
            },
            (None, Some(_)) => {
                return true;
            },
            (Some(p), Some(q)) => {
                if p != q {
                    return (p as u32) < (q as u32);
                }
            },
        }
    }
}

/// Whether `a` and `b` hold the same characters.
pub fn text_eq(a: &str, b: &str) -> (r: bool)
    ensures
        r == (a@ == b@),
{
    let mut ia = a.chars();
    let mut ib = b.chars();
    loop
        invariant
            (a@ == b@) == (ia.remaining() == ib.remaining()),
            ia.decrease() is Some,
        decreases ia.decrease()->0,
    {
        let ghost ra = ia.remaining();
        let ghost rb = ib.remaining();
        let y = ib.next();
        let x = ia.next();
        match (x, y) {
            (None, None) => {
                assert(ra =~= rb);
                return true;
            },
            (Some(p), Some(q)) => {
                if p != q {
                    return false;
                }
                assert(ra =~= seq![p] + ra.drop_first());
                assert(rb =~= seq![q] + rb.drop_first());
            },
            _ => {
                return false;
            },
        }
    }
}

} // verus!


verus! {

/// The place of the first `c` in `a`, or the length of `a` where there is none.
pub open spec fn first_index(a: Seq<char>, c: char) -> int
    decreases a.len(),
{
    if a.len() == 0 {
        0
    } else if a[0] == c {
        0
    } else {
        1 + first_index(a.drop_first(), c)
    }
}

/// [`first_index`] is a place in `a` or its length, holds `c` where it is a place, and
/// nothing before it is `c`.
pub proof fn lemma_first_index(a: Seq<char>, c: char)
    ensures
        0 <= first_index(a, c) <= a.len(),
        first_index(a, c) < a.len() ==> a[first_index(a, c)] == c,
        forall|j: int| 0 <= j < first_index(a, c) ==> a[j] != c,
    decreases a.len(),
{
    if a.len() > 0 && a[0] != c {
        let t = a.drop_first();
        lemma_first_index(t, c);
        assert forall|j: int| 0 <= j < first_index(a, c) implies a[j] != c by {
            if j > 0 {
                assert(t[j - 1] == a[j]);
            }
        }
    }
}

/// Whether `a` begins with the marker of a dependency-only action.
pub open spec fn has_dep_prefix(a: Seq<char>) -> bool {
    a.len() >= 4 && a[0] == 'd' && a[1] == 'e' && a[2] == 'p' && a[3] == ':'
}

/// Whether `a` ends with the marker of a conditional action.
pub open spec fn has_question_suffix(a: Seq<char>) -> bool {
    a.len() >= 1 && a[a.len() - 1] == '?'
}

/// Whether `a` begins with the marker of a hidden feature.
pub open spec fn has_hidden_marker(a: Seq<char>) -> bool {
    a.len() >= 1 && a[0] == '_'
}

/// The number of characters of `s`.
pub fn char_len(s: &str) -> (n: usize)
    ensures
        n == s@.len(),
{
    s.unicode_len()
}

/// The characters of `s` from place `from` up to place `to`.
pub fn slice(s: &str, from: usize, to: usize) -> (r: &str)
    requires
        from <= to <= s@.len(),
    ensures
        r@ == s@.subrange(from as int, to as int),
{
    s.substring_char(from, to)
}

/// Finds the first `c` in `s`.
pub fn find_char(s: &str, c: char) -> (i: usize)
    ensures
        i == first_index(s@, c),
{
    let n = s.unicode_len();
    let mut it = s.chars();
    let mut i: usize = 0;
    loop
        invariant
            first_index(s@, c) == i + first_index(it.remaining(), c),
            i + it.remaining().len() == n,
            it.decrease() is Some,
        decreases it.decrease()->0,
    {
        match it.next() {
            None => {
                return i;
            },
            Some(x) => {
                if x == c {
                    return i;
                }
                i += 1;
            },
        }
    }
}

/// Whether `s` begins with `dep:`.
pub fn starts_with_dep(s: &str) -> (b: bool)
    ensures
        b == has_dep_prefix(s@),
{
    let mut it = s.chars();
    let ghost a = s@;
    let c0 = it.next();
    let c1 = it.next();
    let c2 = it.next();
    let c3 = it.next();
    proof {
        if a.len() >= 1 {
            assert(a.drop_first()[0] == a[1] || a.len() < 2);
        }
        if a.len() >= 2 {
            assert(a.drop_first().drop_first()[0] == a[2] || a.len() < 3);
        }
        if a.len() >= 3 {
            assert(a.drop_first().drop_first().drop_first()[0] == a[3] || a.len() < 4);
        }
    }
    match (c0, c1, c2, c3) {
        (Some(p), Some(q), Some(r), Some(t)) => p == 'd' && q == 'e' && r == 'p' && t == ':',
        _ => false,
    }
}

/// Whether `s` ends with `?`.
pub fn ends_with_question(s: &str) -> (b: bool)
    ensures
        b == has_question_suffix(s@),
{
    let n = s.unicode_len();
    n >= 1 && s.get_char(n - 1) == '?'
}

/// Whether `s` begins with `_`.
pub fn is_hidden_name(s: &str) -> (b: bool)
    ensures
        b == has_hidden_marker(s@),
{
    let mut it = s.chars();
    match it.next() {
        Some(c) => c == '_',
        None => false,
    }
}


/// Whether `a` ends with `suffix`.
pub open spec fn has_suffix(a: Seq<char>, suffix: Seq<char>) -> bool {
    a.len() >= suffix.len() && a.subrange(a.len() - suffix.len(), a.len() as int) == suffix
}

/// Whether `s` ends with `suffix`.
pub fn ends_with(s: &str, suffix: &str) -> (b: bool)
    ensures
        b == has_suffix(s@, suffix@),
{
    let n = char_len(s);
    let m = char_len(suffix);
    if n < m {
        false
    } else {
        text_eq(slice(s, n - m, n), suffix)
    }
}

/// `a` without `suffix` at its end, as often as it stands there.
pub open spec fn trimmed(a: Seq<char>, suffix: Seq<char>) -> Seq<char>
    decreases a.len(),
{
    if suffix.len() > 0 && has_suffix(a, suffix) {
        trimmed(a.subrange(0, a.len() - suffix.len()), suffix)
    } else {
        a
    }
}

/// Takes `suffix` off the end of `s`, as often as it stands there.
pub fn trim_end<'a>(s: &'a str, suffix: &str) -> (r: &'a str)
    ensures
        r@ == trimmed(s@, suffix@),
{
    let m = char_len(suffix);
    if m == 0 {
        return s;
    }
    let mut cur = s;
    loop
        invariant
            m == suffix@.len(),
            m > 0,
            trimmed(cur@, suffix@) == trimmed(s@, suffix@),
        decreases cur@.len(),
    {
        if ends_with(cur, suffix) {
            let n = char_len(cur);
            cur = slice(cur, 0, n - m);
        } else {
            return cur;
        }
    }
}

/// `a` with every `from` replaced by `to`.
pub open spec fn replaced(a: Seq<char>, from: char, to: Seq<char>) -> Seq<char>
    decreases a.len(),
{
    if a.len() == 0 {
        a
    } else {
        replaced(a.drop_last(), from, to) + if a.last() == from {
            to
        } else {
            seq![a.last()]
        }
    }
}

/// A copy of `s` with every `from` replaced by `to`.
pub fn replace_char(s: &str, from: char, to: &str) -> (r: String)
    ensures
        r@ == replaced(s@, from, to@),
{
    let n = char_len(s);
    let mut r = String::new();
    let mut i: usize = 0;
    assert(s@.take(0) =~= Seq::<char>::empty());
    while i < n
        invariant
            i <= n,
            n == s@.len(),
            r@ == replaced(s@.take(i as int), from, to@),
        decreases n - i,
    {
        let c = s.get_char(i);
        proof {
            assert(s@.take(i as int + 1).drop_last() =~= s@.take(i as int));
            assert(s@.take(i as int + 1).last() == s@[i as int]);
        }
        if c == from {
            r.append(to);
        } else {
            let one = slice(s, i, i + 1);
            assert(one@ =~= seq![s@[i as int]]);
            r.append(one);
        }
        i += 1;
    }
    assert(s@.take(n as int) =~= s@);
    r
}

/// Three texts in a row.
pub fn concat3(a: &str, b: &str, c: &str) -> (r: String)
    ensures
        r@ == a@ + b@ + c@,
{
    let mut r = String::from_str(a);
    r.append(b);
    r.append(c);
    r
}

} // verus!
