//! What a walk through the graph finds: the features that can be reached, each once.

use vstd::prelude::*;
use crate::features::{FeatureView, GraphView};
use crate::features::closure::{discover, discovery_order, known, node, lemma_fewer_unseen};
use crate::order::{sorted_seq, lemma_finite_has_order};

verus! {

/// Whether the graph and the feature that a walk starts from hold finitely many
/// features, each of which switches on finitely many, as all that are built do.
pub open spec fn finite_graph(g: GraphView, start: FeatureView) -> bool {
    &&& g.dom().finite()
    &&& forall|k: Seq<char>| known(g, start).contains(k) ==> (#[trigger] node(
        g,
        start,
        k,
    )).enables_features.finite()
}

/// Whether from `s` the feature `t` is reached in at most `n` steps, each from a
/// feature to one that it switches on, without passing a name of `avoid` or one that
/// stands for no feature.
pub open spec fn reached(
    g: GraphView,
    start: FeatureView,
    s: Seq<char>,
    t: Seq<char>,
    avoid: Set<Seq<char>>,
    n: nat,
) -> bool
    decreases n,
{
    known(g, start).contains(s) && !avoid.contains(s) && (s == t || (n > 0 && exists|c: Seq<char>|
        #[trigger] node(g, start, s).enables_features.contains(c) && reached(
            g,
            start,
            c,
            t,
            avoid,
            (n - 1) as nat,
        )))
}

/// What is reached in `n` steps is reached in `n + 1`.
pub proof fn lemma_reached_longer(
    g: GraphView,
    start: FeatureView,
    s: Seq<char>,
    t: Seq<char>,
    avoid: Set<Seq<char>>,
    n: nat,
)
    requires
        reached(g, start, s, t, avoid, n),
    ensures
        reached(g, start, s, t, avoid, n + 1),
    decreases n,
{
    if s != t {
        let c = choose|c: Seq<char>|
            #[trigger] node(g, start, s).enables_features.contains(c) && reached(
                g,
                start,
                c,
                t,
                avoid,
                (n - 1) as nat,
            );
        lemma_reached_longer(g, start, c, t, avoid, (n - 1) as nat);
        assert(reached(g, start, c, t, avoid, n));
    }
}

/// What is reached while avoiding more is reached while avoiding less.
pub proof fn lemma_reached_avoiding_less(
    g: GraphView,
    start: FeatureView,
    s: Seq<char>,
    t: Seq<char>,
    avoid: Set<Seq<char>>,
    k: Seq<char>,
    n: nat,
)
    requires
        reached(g, start, s, t, avoid.insert(k), n),
    ensures
        reached(g, start, s, t, avoid, n),
    decreases n,
{
    if s != t {
        let c = choose|c: Seq<char>|
            #[trigger] node(g, start, s).enables_features.contains(c) && reached(
                g,
                start,
                c,
                t,
                avoid.insert(k),
                (n - 1) as nat,
            );
        lemma_reached_avoiding_less(g, start, c, t, avoid, k, (n - 1) as nat);
    }
}

/// A way from `s` to `t` either avoids `k`, or ends at `k`, or goes on from a feature
/// that `k` switches on without passing `k` again.
pub proof fn lemma_reached_split(
    g: GraphView,
    start: FeatureView,
    s: Seq<char>,
    t: Seq<char>,
    avoid: Set<Seq<char>>,
    k: Seq<char>,
    n: nat,
)
    requires
        reached(g, start, s, t, avoid, n),
    ensures
        reached(g, start, s, t, avoid.insert(k), n) || t == k || exists|c: Seq<char>|
            #[trigger] node(g, start, k).enables_features.contains(c) && reached(
                g,
                start,
                c,
                t,
                avoid.insert(k),
                n,
            ),
    decreases n,
{
    if s == t {
    } else {
        let c = choose|c: Seq<char>|
            #[trigger] node(g, start, s).enables_features.contains(c) && reached(
                g,
                start,
                c,
                t,
                avoid,
                (n - 1) as nat,
            );
        lemma_reached_split(g, start, c, t, avoid, k, (n - 1) as nat);
        if t == k {
        } else if reached(g, start, c, t, avoid.insert(k), (n - 1) as nat) {
            if s == k {
                lemma_reached_longer(g, start, c, t, avoid.insert(k), (n - 1) as nat);
                assert(node(g, start, k).enables_features.contains(c));
            } else {
                assert(reached(g, start, s, t, avoid.insert(k), n));
            }
        } else {
            let c2 = choose|c2: Seq<char>|
                #[trigger] node(g, start, k).enables_features.contains(c2) && reached(
                    g,
                    start,
                    c2,
                    t,
                    avoid.insert(k),
                    (n - 1) as nat,
                );
            lemma_reached_longer(g, start, c2, t, avoid.insert(k), (n - 1) as nat);
        }
    }
}

/// The names that a found feature puts on the stack are the features it switches on.
pub proof fn lemma_successors(g: GraphView, start: FeatureView, k: Seq<char>, c: Seq<char>)
    requires
        finite_graph(g, start),
        known(g, start).contains(k),
    ensures
        sorted_seq(node(g, start, k).enables_features).reverse().contains(c) == node(
            g,
            start,
            k,
        ).enables_features.contains(c),
{
    let ef = node(g, start, k).enables_features;
    lemma_finite_has_order(ef);
    let q = sorted_seq(ef);
    let r = q.reverse();
    if r.contains(c) {
        let i = choose|i: int| 0 <= i < r.len() && r[i] == c;
        assert(q[q.len() - 1 - i] == c);
        assert(q.to_set().contains(c));
    }
    if ef.contains(c) {
        assert(q.to_set().contains(c));
        let i = choose|i: int| 0 <= i < q.len() && q[i] == c;
        assert(r[q.len() - 1 - i] == c);
    }
}

/// Every feature that a walk finds is reached from a name on the stack, was not found
/// before, and is found once.
pub proof fn lemma_discover_sound(
    g: GraphView,
    start: FeatureView,
    stack: Seq<Seq<char>>,
    seen: Set<Seq<char>>,
)
    requires
        finite_graph(g, start),
    ensures
        discover(g, start, stack, seen).no_duplicates(),
        forall|t: Seq<char>| #[trigger]
            discover(g, start, stack, seen).contains(t) ==> !seen.contains(t) && exists|
                s: Seq<char>,
                n: nat,
            |
                stack.contains(s) && #[trigger] reached(g, start, s, t, seen, n),
    decreases known(g, start).difference(seen).len(), stack.len(),
{
    let d = discover(g, start, stack, seen);
    if stack.len() == 0 {
    } else {
        let k = stack.last();
        let rest = stack.drop_last();
        if seen.contains(k) || !known(g, start).contains(k) {
            lemma_discover_sound(g, start, rest, seen);
            assert forall|t: Seq<char>| #[trigger] d.contains(t) implies !seen.contains(t)
                && exists|s: Seq<char>, n: nat|
                stack.contains(s) && #[trigger] reached(g, start, s, t, seen, n) by {
                let (s, n) = choose|s: Seq<char>, n: nat|
                    rest.contains(s) && #[trigger] reached(g, start, s, t, seen, n);
                let i = choose|i: int| 0 <= i < rest.len() && rest[i] == s;
                assert(stack[i] == s);
            }
        } else {
            let succ = sorted_seq(node(g, start, k).enables_features).reverse();
            let stack2 = rest + succ;
            let seen2 = seen.insert(k);
            lemma_fewer_unseen(g, start, seen, k);
            lemma_discover_sound(g, start, stack2, seen2);
            let d2 = discover(g, start, stack2, seen2);
            assert(d =~= seq![k] + d2);
            assert(stack[stack.len() - 1] == k);
            assert(!d2.contains(k));
            assert(d.no_duplicates()) by {
                assert forall|i: int, j: int| 0 <= i < d.len() && 0 <= j < d.len() && i != j implies d[i]
                    != d[j] by {
                    if i > 0 && j > 0 {
                        assert(d2[i - 1] != d2[j - 1]);
                    } else if i == 0 {
                        assert(d2.contains(d2[j - 1]));
                    } else {
                        assert(d2.contains(d2[i - 1]));
                    }
                }
            }
            assert forall|t: Seq<char>| #[trigger] d.contains(t) implies !seen.contains(t)
                && exists|s: Seq<char>, n: nat|
                stack.contains(s) && #[trigger] reached(g, start, s, t, seen, n) by {
                let a = choose|a: int| 0 <= a < d.len() && d[a] == t;
                if a == 0 {
                    assert(stack.contains(k));
                    assert(reached(g, start, k, t, seen, 0));
                } else {
                    assert(d2[a - 1] == t);
                    assert(d2.contains(t));
                    let (s, n) = choose|s: Seq<char>, n: nat|
                        stack2.contains(s) && #[trigger] reached(g, start, s, t, seen2, n);
                    lemma_reached_avoiding_less(g, start, s, t, seen, k, n);
                    let i = choose|i: int| 0 <= i < stack2.len() && stack2[i] == s;
                    if i < rest.len() {
                        assert(stack[i] == s);
                    } else {
                        assert(succ[i - rest.len()] == s);
                        assert(succ.contains(s));
                        lemma_successors(g, start, k, s);
                        assert(reached(g, start, k, t, seen, n + 1));
                    }
                }
            }
        }
    }
}

/// A walk finds every feature that is reached from a name on the stack without
/// passing one that was found before.
pub proof fn lemma_discover_complete(
    g: GraphView,
    start: FeatureView,
    stack: Seq<Seq<char>>,
    seen: Set<Seq<char>>,
    s: Seq<char>,
    t: Seq<char>,
    n: nat,
)
    requires
        finite_graph(g, start),
        stack.contains(s),
        reached(g, start, s, t, seen, n),
    ensures
        discover(g, start, stack, seen).contains(t),
    decreases known(g, start).difference(seen).len(), stack.len(),
{
    let d = discover(g, start, stack, seen);
    let k = stack.last();
    let rest = stack.drop_last();
    let i = choose|i: int| 0 <= i < stack.len() && stack[i] == s;
    if seen.contains(k) || !known(g, start).contains(k) {
        assert(s != k);
        assert(rest[i] == s);
        lemma_discover_complete(g, start, rest, seen, s, t, n);
    } else {
        let succ = sorted_seq(node(g, start, k).enables_features).reverse();
        let stack2 = rest + succ;
        let seen2 = seen.insert(k);
        lemma_fewer_unseen(g, start, seen, k);
        let d2 = discover(g, start, stack2, seen2);
        assert(d =~= seq![k] + d2);
        lemma_reached_split(g, start, s, t, seen, k, n);
        if t == k {
            assert(d[0] == t);
        } else if reached(g, start, s, t, seen2, n) {
            assert(s != k);
            assert(rest[i] == s);
            assert(stack2[i] == s);
            lemma_discover_complete(g, start, stack2, seen2, s, t, n);
            let a = choose|a: int| 0 <= a < d2.len() && d2[a] == t;
            assert(d[a + 1] == t);
        } else {
            let c = choose|c: Seq<char>|
                #[trigger] node(g, start, k).enables_features.contains(c) && reached(
                    g,
                    start,
                    c,
                    t,
                    seen2,
                    n,
                );
            lemma_successors(g, start, k, c);
            let j = choose|j: int| 0 <= j < succ.len() && succ[j] == c;
            assert(stack2[rest.len() + j] == c);
            lemma_discover_complete(g, start, stack2, seen2, c, t, n);
            let a = choose|a: int| 0 <= a < d2.len() && d2[a] == t;
            assert(d[a + 1] == t);
        }
    }
}

/// A walk from a feature finds exactly the features that are reached from it, each
/// once, whether or not features switch each other on in a circle.
pub proof fn lemma_walk_finds_the_reachable(g: GraphView, start: FeatureView, t: Seq<char>)
    requires
        finite_graph(g, start),
    ensures
        discovery_order(g, start).no_duplicates(),
        discovery_order(g, start).contains(t) <==> exists|n: nat| #[trigger]
            reached(g, start, start.key, t, Set::empty(), n),
{
    let stack = seq![start.key];
    let none = Set::<Seq<char>>::empty();
    lemma_discover_sound(g, start, stack, none);
    if discovery_order(g, start).contains(t) {
        let (s, n) = choose|s: Seq<char>, n: nat|
            stack.contains(s) && #[trigger] reached(g, start, s, t, none, n);
        let i = choose|i: int| 0 <= i < stack.len() && stack[i] == s;
        assert(s == start.key);
    }
    if exists|n: nat| #[trigger] reached(g, start, start.key, t, none, n) {
        let n = choose|n: nat| #[trigger] reached(g, start, start.key, t, none, n);
        assert(stack[0] == start.key);
        lemma_discover_complete(g, start, stack, none, start.key, t, n);
    }
}

} // verus!
