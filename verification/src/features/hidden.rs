//! Taking hidden features out of the graph. What a hidden feature switches on is handed
//! to the features that switch it on, so that they switch it on themselves.

use vstd::prelude::*;
use crate::features::{merge_actions, DepAction, DepActionView, Feature, FeatureView, GraphView, Resolver};
use crate::features::link::{base, is_plain};
use crate::strmap::{StrMap, deep_map, lemma_deep_map_insert, lemma_deep_map_remove, lemma_deep_map_empty};
use crate::strset::StrSet;
use crate::order::{sorted_seq, strictly_sorted, lemma_sorted_seq_dom, lemma_sorted_seq_of, lemma_take_push_set};
use crate::text::{has_hidden_marker, is_hidden_name, text_eq, lex_lt};

verus! {

broadcast use vstd::string::group_string_axioms;

/// The most binaries that a hidden feature hands on to a feature it switches on.
pub const MAX_BINS: usize = 10;

/// Whether a feature of this name is taken out: its name begins with `_` and is not
/// among those to keep.
pub open spec fn is_hidden(key: Seq<char>, kept: Set<Seq<char>>) -> bool {
    has_hidden_marker(key) && !kept.contains(key)
}

/// The keys of the features that are taken out.
pub open spec fn hidden_keys(g: GraphView, kept: Set<Seq<char>>) -> Set<Seq<char>> {
    Set::new(|k: Seq<char>| g.dom().contains(k) && is_hidden(k, kept))
}

/// The actions of a feature after those of a hidden feature are taken in: where both
/// have an action on a dependency, the two are merged.
pub open spec fn merged_deps(
    p: Map<Seq<char>, DepActionView>,
    h: Map<Seq<char>, DepActionView>,
) -> Map<Seq<char>, DepActionView> {
    Map::new(
        |k: Seq<char>| p.dom().contains(k) || h.dom().contains(k),
        |k: Seq<char>|
            if p.dom().contains(k) && h.dom().contains(k) {
                merge_actions(p[k], h[k])
            } else if h.dom().contains(k) {
                h[k]
            } else {
                p[k]
            },
    )
}

/// The binaries of a feature after those of `from` are handed on, each unless it is
/// there already.
pub open spec fn bins_passed(own: Seq<Seq<char>>, from: Seq<Seq<char>>) -> Seq<Seq<char>>
    decreases from.len(),
{
    if from.len() == 0 {
        own
    } else {
        let prev = bins_passed(own, from.drop_last());
        if prev.contains(from.last()) {
            prev
        } else {
            prev.push(from.last())
        }
    }
}

/// The binaries that a hidden feature hands on: the first [`MAX_BINS`] of its own.
pub open spec fn bins_handed_on(h: FeatureView) -> Seq<Seq<char>> {
    if h.required_by_bins.len() <= MAX_BINS {
        h.required_by_bins
    } else {
        h.required_by_bins.take(MAX_BINS as int)
    }
}

/// What a feature has to do with a hidden feature that is taken out.
#[derive(Debug, Clone, Copy, PartialEq, Eq, Structural)]
pub enum Role {
    /// It switches the hidden feature on.
    Parent,
    /// The hidden feature switches it on.
    Successor,
    /// It has the name of a dependency that the hidden feature switches on by a plain
    /// action.
    Dependency,
}

/// A feature after a hidden feature `h` is taken out.
///
/// One that switches `h` on takes over the features and the actions of `h`, and no
/// longer names `h` in any of its sets. One that `h` switches on, as a feature or by a
/// plain action, is from now on switched on by what switched `h` on, and not by `h`;
/// as a feature it also takes the binaries that `h` hands on.
pub open spec fn changed(f: FeatureView, h: FeatureView, role: Role) -> FeatureView {
    match role {
        Role::Parent => FeatureView {
            enabled_by: f.enabled_by.remove(h.key),
            enables_features: f.enables_features.union(h.enables_features).remove(h.key),
            enables_deps: merged_deps(f.enables_deps, h.enables_deps).remove(h.key),
            ..f
        },
        Role::Successor => FeatureView {
            enabled_by: f.enabled_by.union(h.enabled_by).remove(h.key),
            required_by_bins: bins_passed(f.required_by_bins, bins_handed_on(h)),
            ..f
        },
        Role::Dependency => FeatureView {
            enabled_by: f.enabled_by.union(h.enabled_by).remove(h.key),
            ..f
        },
    }
}

/// The graph after every feature under a key of `keys` is [`changed`].
pub open spec fn updated(g: GraphView, keys: Set<Seq<char>>, h: FeatureView, role: Role) -> GraphView {
    Map::new(
        |k: Seq<char>| g.dom().contains(k),
        |k: Seq<char>|
            if keys.contains(k) {
                changed(g[k], h, role)
            } else {
                g[k]
            },
    )
}

/// The dependencies that a feature switches on by a plain action.
pub open spec fn plain_deps(h: FeatureView) -> Set<Seq<char>> {
    Set::new(|k: Seq<char>| h.enables_deps.dom().contains(k) && is_plain(h.enables_deps[k]))
}

/// The graph after the feature under `key` is taken out: first the features that
/// switch it on are changed, then the features it switches on, then the features
/// named like the dependencies it switches on by a plain action. Each step reads what
/// the one before has left.
pub open spec fn without_hidden(g: GraphView, key: Seq<char>) -> GraphView {
    if g.dom().contains(key) {
        let h = g[key];
        let g1 = updated(g.remove(key), h.enabled_by, h, Role::Parent);
        let g2 = updated(g1, h.enables_features, h, Role::Successor);
        updated(g2, plain_deps(h), h, Role::Dependency)
    } else {
        g
    }
}

/// The graph after the features under `keys` are taken out one after the other.
pub open spec fn without_all(g: GraphView, keys: Seq<Seq<char>>) -> GraphView
    decreases keys.len(),
{
    if keys.len() == 0 {
        g
    } else {
        without_hidden(without_all(g, keys.drop_last()), keys.last())
    }
}

/// What is recorded of the features taken out: under the name of each the features it
/// switched on when it was taken out.
pub open spec fn recorded(g: GraphView, keys: Seq<Seq<char>>) -> Map<Seq<char>, Set<Seq<char>>>
    decreases keys.len(),
{
    if keys.len() == 0 {
        Map::empty()
    } else {
        let before = without_all(g, keys.drop_last());
        let rec = recorded(g, keys.drop_last());
        if before.dom().contains(keys.last()) {
            let h = before[keys.last()];
            rec.insert(h.key, base(rec, h.key).union(h.enables_features))
        } else {
            rec
        }
    }
}

/// Takes the actions of a hidden feature into those of another feature.
fn merge_deps_into(p: &mut StrMap<DepAction>, h: &StrMap<DepAction>)
    ensures
        final(p).deep_view() == merged_deps(old(p).deep_view(), h.deep_view()),
{
    let n = h.len();
    let ghost hs = sorted_seq(h@.dom());
    let ghost p0 = p.deep_view();
    let ghost hv = h.deep_view();
    proof {
        lemma_sorted_seq_dom(h@.dom());
        assert(hv.dom() =~= h@.dom());
    }
    let mut i: usize = 0;
    assert(p.deep_view() =~= merged_deps(p0, hv.restrict(hs.take(0).to_set())));
    while i < n
        invariant
            i <= n,
            n == hs.len(),
            hs == sorted_seq(h@.dom()),
            hs.to_set() == h@.dom(),
            hs.no_duplicates(),
            hv == h.deep_view(),
            hv.dom() == h@.dom(),
            p.deep_view() == merged_deps(p0, hv.restrict(hs.take(i as int).to_set())),
        decreases n - i,
    {
        let key = h.key_at(i);
        let a = h.value_at(i);
        let ghost before = p@;
        proof {
            lemma_take_push_set(hs, i as int);
            assert(hv[hs[i as int]] == a@);
            if hs.take(i as int).to_set().contains(hs[i as int]) {
                let j = choose|j: int| 0 <= j < i && hs.take(i as int)[j] == hs[i as int];
                assert(hs[j] == hs[i as int]);
            }
        }
        let ghost cur = p.deep_view();
        let ghost next = merged_deps(p0, hv.restrict(hs.take(i as int + 1).to_set()));
        proof {
            assert(cur.dom() =~= before.dom());
            assert(!hv.restrict(hs.take(i as int).to_set()).dom().contains(key@));
            assert(hv.restrict(hs.take(i as int + 1).to_set()).dom().contains(key@));
            assert(hv.restrict(hs.take(i as int + 1).to_set())[key@] == a@);
        }
        match p.remove(key.as_str()) {
            Some(mut old) => {
                let ghost mid = p@;
                let ghost old_view = old@;
                old.merge(a);
                p.insert(key.clone(), old);
                proof {
                    lemma_deep_map_remove(before, key@);
                    lemma_deep_map_insert(mid, key@, old);
                    assert(old_view == cur[key@]);
                    assert(p0.dom().contains(key@));
                    assert(cur[key@] == p0[key@]);
                    assert(next[key@] == merge_actions(p0[key@], a@));
                    assert(p.deep_view() =~= cur.insert(key@, next[key@]));
                }
            },
            None => {
                let c = a.clone();
                p.insert(key.clone(), c);
                proof {
                    lemma_deep_map_insert(before, key@, c);
                    assert(!p0.dom().contains(key@));
                    assert(next[key@] == a@);
                    assert(p.deep_view() =~= cur.insert(key@, next[key@]));
                }
            },
        }
        assert(cur.insert(key@, next[key@]) =~= next);
        i += 1;
    }
    proof {
        assert(hs.take(n as int) =~= hs);
        assert(hv.restrict(hs.to_set()) =~= hv);
    }
}

/// Whether `s` is among `v`.
fn holds(v: &Vec<String>, s: &str) -> (b: bool)
    ensures
        b == v.deep_view().contains(s@),
{
    let ghost q = v.deep_view();
    let mut i: usize = 0;
    while i < v.len()
        invariant
            i <= v@.len(),
            q == v.deep_view(),
            forall|j: int| 0 <= j < i ==> q[j] != s@,
        decreases v@.len() - i,
    {
        assert(q[i as int] == v@[i as int]@);
        if text_eq(v[i].as_str(), s) {
            return true;
        }
        i += 1;
    }
    false
}

/// Changes one feature as its role asks.
fn change(f: &mut Feature, h: &Feature, role: Role)
    ensures
        final(f)@ == changed(old(f)@, h@, role),
{
    match role {
        Role::Parent => {
            f.enabled_by.remove(h.key.as_str());
            f.enables_features.extend(&h.enables_features);
            f.enables_features.remove(h.key.as_str());
            merge_deps_into(&mut f.enables_deps, &h.enables_deps);
            let ghost before = f.enables_deps@;
            f.enables_deps.remove(h.key.as_str());
            proof {
                lemma_deep_map_remove(before, h.key@);
            }
        },
        Role::Successor => {
            f.enabled_by.extend(&h.enabled_by);
            f.enabled_by.remove(h.key.as_str());
            let n = if h.required_by_bins.len() <= MAX_BINS {
                h.required_by_bins.len()
            } else {
                MAX_BINS
            };
            let ghost own = f.required_by_bins.deep_view();
            let ghost from = bins_handed_on(h@);
            proof {
                let all = h.required_by_bins.deep_view();
                if h.required_by_bins@.len() <= MAX_BINS {
                    assert(all.take(n as int) =~= all);
                }
                assert(from == all.take(n as int));
                assert(from.take(0) =~= Seq::<Seq<char>>::empty());
            }
            let mut i: usize = 0;
            while i < n
                invariant
                    i <= n,
                    n == from.len(),
                    n <= h.required_by_bins@.len(),
                    from == h.required_by_bins.deep_view().take(n as int),
                    f.required_by_bins.deep_view() == bins_passed(own, from.take(i as int)),
                    f.key == old(f).key,
                    f.enables_deps == old(f).enables_deps,
                    f.enables_features == old(f).enables_features,
                    f.explicit == old(f).explicit,
                    f.enabled_by@ == old(f).enabled_by@.union(h.enabled_by@).remove(h.key@),
                decreases n - i,
            {
                let bin = &h.required_by_bins[i];
                proof {
                    assert(from[i as int] == bin@);
                    assert(from.take(i as int + 1).drop_last() =~= from.take(i as int));
                    assert(from.take(i as int + 1).last() == from[i as int]);
                }
                if !holds(&f.required_by_bins, bin.as_str()) {
                    let ghost prev = f.required_by_bins.deep_view();
                    f.required_by_bins.push(bin.clone());
                    assert(f.required_by_bins.deep_view() =~= prev.push(bin@));
                }
                i += 1;
            }
            proof {
                assert(from.take(n as int) =~= from);
            }
        },
        Role::Dependency => {
            f.enabled_by.extend(&h.enabled_by);
            f.enabled_by.remove(h.key.as_str());
        },
    }
}

/// Changes every feature under a key of `keys` as the role asks.
fn update_each(features: &mut StrMap<Feature>, keys: &StrSet, h: &Feature, role: Role)
    ensures
        final(features).deep_view() == updated(old(features).deep_view(), keys@, h@, role),
{
    let n = keys.len();
    let ghost ks = sorted_seq(keys@);
    let ghost g = features.deep_view();
    proof {
        lemma_sorted_seq_dom(keys@);
    }
    let mut i: usize = 0;
    assert(features.deep_view() =~= updated(g, ks.take(0).to_set(), h@, role));
    while i < n
        invariant
            i <= n,
            n == ks.len(),
            ks == sorted_seq(keys@),
            ks.to_set() == keys@,
            ks.no_duplicates(),
            features.deep_view() == updated(g, ks.take(i as int).to_set(), h@, role),
        decreases n - i,
    {
        let key = keys.get(i);
        proof {
            lemma_take_push_set(ks, i as int);
            if ks.take(i as int).to_set().contains(ks[i as int]) {
                let j = choose|j: int| 0 <= j < i && ks.take(i as int)[j] == ks[i as int];
                assert(ks[j] == ks[i as int]);
            }
            assert(features@.dom() =~= features.deep_view().dom());
        }
        let ghost before = features@;
        match features.remove(key.as_str()) {
            Some(mut f) => {
                let ghost mid = features@;
                let ghost f_old = f@;
                change(&mut f, h, role);
                features.insert(key.clone(), f);
                proof {
                    lemma_deep_map_remove(before, key@);
                    lemma_deep_map_insert(mid, key@, f);
                    assert(deep_map(before)[key@] == g[key@]);
                    assert(f_old == g[key@]);
                    assert(features.deep_view() =~= deep_map(before).insert(
                        key@,
                        changed(g[key@], h@, role),
                    ));
                }
            },
            None => {
                assert(features.deep_view() =~= deep_map(before));
            },
        }
        assert(features.deep_view() =~= updated(g, ks.take(i as int + 1).to_set(), h@, role));
        i += 1;
    }
    proof {
        assert(ks.take(n as int) =~= ks);
    }
}

/// The names of the dependencies that a feature switches on by a plain action.
fn plain_dep_names(h: &Feature) -> (r: StrSet)
    ensures
        r@ == plain_deps(h@),
{
    let n = h.enables_deps.len();
    let ghost ds = sorted_seq(h.enables_deps@.dom());
    let ghost acts = h@.enables_deps;
    proof {
        lemma_sorted_seq_dom(h.enables_deps@.dom());
        assert(acts.dom() =~= h.enables_deps@.dom());
    }
    let mut r = StrSet::new();
    let mut i: usize = 0;
    assert(r@ =~= Set::new(
        |k: Seq<char>| ds.take(0).to_set().contains(k) && is_plain(acts[k]),
    ));
    while i < n
        invariant
            i <= n,
            n == ds.len(),
            ds == sorted_seq(h.enables_deps@.dom()),
            ds.to_set() == h.enables_deps@.dom(),
            acts == h@.enables_deps,
            acts.dom() == h.enables_deps@.dom(),
            r@ == Set::new(|k: Seq<char>| ds.take(i as int).to_set().contains(k) && is_plain(acts[k])),
        decreases n - i,
    {
        let key = h.enables_deps.key_at(i);
        let a = h.enables_deps.value_at(i);
        proof {
            lemma_take_push_set(ds, i as int);
            assert(acts[ds[i as int]] == a@);
        }
        if !a.is_conditional && !a.is_dep_only {
            r.insert(key.clone());
        }
        assert(r@ =~= Set::new(
            |k: Seq<char>| ds.take(i as int + 1).to_set().contains(k) && is_plain(acts[k]),
        ));
        i += 1;
    }
    proof {
        assert(ds.take(n as int) =~= ds);
        assert(r@ =~= plain_deps(h@));
    }
    r
}

impl Resolver {
    /// Whether a feature of this name is taken out of the graph.
    pub fn hides(&self, key: &str) -> (b: bool)
        ensures
            b == is_hidden(key@, self.kept()),
    {
        is_hidden_name(key) && match &self.always_keep {
            Some(keep) => !keep.contains(key),
            None => true,
        }
    }

    /// Takes one feature out of the graph and records what it switched on. See
    /// [`without_hidden`].
    pub fn remove_hidden_feature(features: &mut StrMap<Feature>, record: &mut StrMap<StrSet>, key: &str)
        ensures
            final(features).deep_view() == without_hidden(old(features).deep_view(), key@),
            final(record).deep_view() == if old(features).deep_view().dom().contains(key@) {
                let h = old(features).deep_view()[key@];
                old(record).deep_view().insert(
                    h.key,
                    base(old(record).deep_view(), h.key).union(h.enables_features),
                )
            } else {
                old(record).deep_view()
            },
    {
        let ghost g = features.deep_view();
        let ghost before = features@;
        proof {
            assert(g.dom() =~= features@.dom());
        }
        let janky = match features.remove(key) {
            Some(j) => j,
            None => {
                assert(features.deep_view() =~= g);
                return ;
            },
        };
        proof {
            lemma_deep_map_remove(before, key@);
        }
        update_each(features, &janky.enabled_by, &janky, Role::Parent);
        update_each(features, &janky.enables_features, &janky, Role::Successor);
        let plain = plain_dep_names(&janky);
        update_each(features, &plain, &janky, Role::Dependency);
        let ghost r0 = record@;
        let found = record.remove(janky.key.as_str());
        let ghost r1 = record@;
        let mut set = match found {
            Some(s) => s,
            None => StrSet::new(),
        };
        set.extend(&janky.enables_features);
        record.insert(janky.key.clone(), set);
        proof {
            lemma_deep_map_remove(r0, janky.key@);
            lemma_deep_map_insert(r1, janky.key@, set);
            assert(record.deep_view() =~= deep_map(r0).insert(
                janky.key@,
                base(deep_map(r0), janky.key@).union(janky.enables_features@),
            ));
        }
    }

    /// Takes the hidden features out of the graph, in the order of their keys, each
    /// from the graph as the ones before have left it. Hands back, under the name of
    /// each, the features it switched on when it was taken out.
    pub fn remove_hidden_features(&self, features: &mut StrMap<Feature>) -> (removed: StrMap<StrSet>)
        ensures
            final(features).deep_view() == without_all(
                old(features).deep_view(),
                sorted_seq(hidden_keys(old(features).deep_view(), self.kept())),
            ),
            removed.deep_view() == recorded(
                old(features).deep_view(),
                sorted_seq(hidden_keys(old(features).deep_view(), self.kept())),
            ),
    {
        let ghost g = features.deep_view();
        let ghost kept = self.kept();
        let n = features.len();
        let ghost keys = sorted_seq(features@.dom());
        proof {
            lemma_sorted_seq_dom(features@.dom());
            assert(g.dom() =~= features@.dom());
        }
        let mut to_remove: Vec<String> = Vec::new();
        let mut i: usize = 0;
        assert(to_remove.deep_view().to_set() =~= Set::new(
            |k: Seq<char>| keys.take(0).to_set().contains(k) && is_hidden(k, kept),
        ));
        while i < n
            invariant
                i <= n,
                n == keys.len(),
                keys == sorted_seq(features@.dom()),
                strictly_sorted(keys),
                kept == self.kept(),
                strictly_sorted(to_remove.deep_view()),
                forall|a: int|
                    0 <= a < to_remove@.len() ==> exists|b: int|
                        0 <= b < i && keys[b] == #[trigger] to_remove.deep_view()[a],
                to_remove.deep_view().to_set() == Set::new(
                    |k: Seq<char>| keys.take(i as int).to_set().contains(k) && is_hidden(k, kept),
                ),
            decreases n - i,
        {
            let key = features.key_at(i);
            let ghost q = to_remove.deep_view();
            proof {
                lemma_take_push_set(keys, i as int);
            }
            if self.hides(key.as_str()) {
                to_remove.push(key.clone());
                proof {
                    let r = to_remove.deep_view();
                    assert(r =~= q.push(keys[i as int]));
                    assert forall|a: int, b: int| 0 <= a < b < r.len() implies lex_lt(
                        #[trigger] r[a],
                        #[trigger] r[b],
                    ) by {
                        if b < q.len() {
                            assert(lex_lt(q[a], q[b]));
                        } else {
                            let c = choose|c: int| 0 <= c < i && keys[c] == q[a];
                            assert(lex_lt(keys[c], keys[i as int]));
                        }
                    }
                    assert forall|a: int| 0 <= a < r.len() implies exists|b: int|
                        0 <= b < i + 1 && keys[b] == #[trigger] r[a] by {
                        if a < q.len() {
                            let c = choose|c: int| 0 <= c < i && keys[c] == q[a];
                            assert(keys[c] == r[a]);
                        } else {
                            assert(keys[i as int] == r[a]);
                        }
                    }
                    assert forall|x: Seq<char>| r.to_set().contains(x) == (q.to_set().contains(x)
                        || x == keys[i as int]) by {
                        if r.to_set().contains(x) {
                            let j = choose|j: int| 0 <= j < r.len() && r[j] == x;
                            if j < q.len() {
                                assert(q[j] == x);
                            }
                        }
                        if q.to_set().contains(x) {
                            let j = choose|j: int| 0 <= j < q.len() && q[j] == x;
                            assert(r[j] == x);
                        }
                        if x == keys[i as int] {
                            assert(r[q.len() as int] == x);
                        }
                    }
                }
            }
            assert(to_remove.deep_view().to_set() =~= Set::new(
                |k: Seq<char>| keys.take(i as int + 1).to_set().contains(k) && is_hidden(k, kept),
            ));
            i += 1;
        }
        let ghost order = to_remove.deep_view();
        proof {
            assert(keys.take(n as int) =~= keys);
            assert(order.to_set() =~= hidden_keys(g, kept));
            lemma_sorted_seq_of(order);
            lemma_deep_map_empty::<StrSet>();
            assert(order.take(0) =~= Seq::<Seq<char>>::empty());
        }
        let mut removed: StrMap<StrSet> = StrMap::new();
        let mut j: usize = 0;
        while j < to_remove.len()
            invariant
                j <= to_remove@.len(),
                order == to_remove.deep_view(),
                features.deep_view() == without_all(g, order.take(j as int)),
                removed.deep_view() == recorded(g, order.take(j as int)),
            decreases to_remove@.len() - j,
        {
            let key = &to_remove[j];
            proof {
                assert(order[j as int] == key@);
                assert(order.take(j as int + 1).drop_last() =~= order.take(j as int));
                assert(order.take(j as int + 1).last() == order[j as int]);
            }
            Self::remove_hidden_feature(features, &mut removed, key.as_str());
            j += 1;
        }
        proof {
            assert(order.take(to_remove@.len() as int) =~= order);
        }
        removed
    }
}

} // verus!
