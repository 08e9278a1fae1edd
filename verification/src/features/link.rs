//! Which features switch a feature on: the edges of the graph, turned round.

use vstd::prelude::*;
use crate::features::{DepActionView, Feature, FeatureView, GraphView, Resolver};
use crate::strmap::{StrMap, deep_map, lemma_deep_map_insert, lemma_deep_map_remove, lemma_deep_map_empty};
use crate::strset::StrSet;
use crate::order::{sorted_seq, lemma_sorted_seq_dom, lemma_take_push_set};
use crate::text::text_eq;

verus! {

broadcast use vstd::string::group_string_axioms;

/// Whether an action switches its dependency on as an edge to a feature would: it is
/// neither conditional nor dependency-only.
pub open spec fn is_plain(a: DepActionView) -> bool {
    !a.is_conditional && !a.is_dep_only
}

/// Whether the feature `f` switches on what goes by the name `x`, as a feature or by a
/// plain action on a dependency.
pub open spec fn plainly_enables(f: FeatureView, x: Seq<char>) -> bool {
    f.enables_features.contains(x) || (f.enables_deps.dom().contains(x) && is_plain(
        f.enables_deps[x],
    ))
}

/// The keys of the features, other than `x` itself, that switch `x` on.
pub open spec fn enablers(g: GraphView, x: Seq<char>) -> Set<Seq<char>> {
    Set::new(|f: Seq<char>| g.dom().contains(f) && f != x && plainly_enables(g[f], x))
}

/// Whether any other feature switches `x` on.
pub open spec fn has_enabler(g: GraphView, x: Seq<char>) -> bool {
    exists|f: Seq<char>| #[trigger] enablers(g, x).contains(f)
}

/// The graph with `enabled_by` set, in every feature, to the keys of the other
/// features that switch it on. What `enabled_by` held before does not count.
pub open spec fn linked(g: GraphView) -> GraphView {
    Map::new(
        |k: Seq<char>| g.dom().contains(k),
        |k: Seq<char>| FeatureView { enabled_by: enablers(g, k), ..g[k] },
    )
}

/// The set under `x`, or the empty set where there is none.
pub open spec fn base(m: Map<Seq<char>, Set<Seq<char>>>, x: Seq<char>) -> Set<Seq<char>> {
    if m.dom().contains(x) {
        m[x]
    } else {
        Set::empty()
    }
}

/// The map after `key` is added to the set under every name of `hit`.
pub open spec fn spread(
    m: Map<Seq<char>, Set<Seq<char>>>,
    key: Seq<char>,
    hit: Set<Seq<char>>,
) -> Map<Seq<char>, Set<Seq<char>>> {
    Map::new(
        |x: Seq<char>| m.dom().contains(x) || hit.contains(x),
        |x: Seq<char>|
            if hit.contains(x) {
                base(m, x).insert(key)
            } else {
                m[x]
            },
    )
}

/// Under each name that a feature of `done` switches on: the keys of those features.
pub open spec fn enablers_among(g: GraphView, done: Set<Seq<char>>) -> Map<
    Seq<char>,
    Set<Seq<char>>,
> {
    Map::new(
        |x: Seq<char>|
            exists|f: Seq<char>|
                done.contains(f) && g.dom().contains(f) && f != x && #[trigger] plainly_enables(
                    g[f],
                    x,
                ),
        |x: Seq<char>|
            Set::new(
                |f: Seq<char>| done.contains(f) && g.dom().contains(f) && f != x && plainly_enables(g[f], x),
            ),
    )
}

/// Adds `key` to the set under `x`.
fn add_enabler(all: &mut StrMap<StrSet>, x: &str, key: &str)
    ensures
        final(all).deep_view() == old(all).deep_view().insert(
            x@,
            base(old(all).deep_view(), x@).insert(key@),
        ),
{
    let ghost before = all@;
    let found = all.remove(x);
    let ghost mid = all@;
    let mut set = match found {
        Some(s) => s,
        None => StrSet::new(),
    };
    set.insert(key.to_owned());
    all.insert(x.to_owned(), set);
    proof {
        lemma_deep_map_remove(before, x@);
        lemma_deep_map_insert(mid, x@, set);
        assert(all.deep_view() =~= deep_map(before).insert(
            x@,
            base(deep_map(before), x@).insert(key@),
        ));
    }
}

/// Adds the key of a feature under every name that the feature switches on.
fn note_enables(all: &mut StrMap<StrSet>, key: &str, f: &Feature)
    ensures
        final(all).deep_view() == spread(
            old(all).deep_view(),
            key@,
            Set::new(|x: Seq<char>| x != key@ && plainly_enables(f@, x)),
        ),
{
    let ghost m = all.deep_view();
    let ghost fk = key@;
    let n = f.enables_features.len();
    let ghost es = sorted_seq(f.enables_features@);
    proof {
        lemma_sorted_seq_dom(f.enables_features@);
    }
    let mut i: usize = 0;
    assert(all.deep_view() =~= spread(
        m,
        fk,
        Set::new(|x: Seq<char>| x != fk && es.take(0).to_set().contains(x)),
    ));
    while i < n
        invariant
            i <= n,
            n == es.len(),
            es == sorted_seq(f.enables_features@),
            es.to_set() == f.enables_features@,
            fk == key@,
            all.deep_view() == spread(
                m,
                fk,
                Set::new(|x: Seq<char>| x != fk && es.take(i as int).to_set().contains(x)),
            ),
        decreases n - i,
    {
        let x = f.enables_features.get(i);
        proof {
            lemma_take_push_set(es, i as int);
        }
        if !text_eq(x.as_str(), key) {
            add_enabler(all, x.as_str(), key);
        }
        assert(all.deep_view() =~~= spread(
            m,
            fk,
            Set::new(|y: Seq<char>| y != fk && es.take(i as int + 1).to_set().contains(y)),
        ));
        i += 1;
    }
    let n2 = f.enables_deps.len();
    let ghost ds = sorted_seq(f.enables_deps@.dom());
    let ghost acts = f@.enables_deps;
    proof {
        assert(es.take(n as int) =~= es);
        lemma_sorted_seq_dom(f.enables_deps@.dom());
        assert(acts.dom() =~= f.enables_deps@.dom());
    }
    let mut j: usize = 0;
    assert(all.deep_view() =~= spread(
        m,
        fk,
        Set::new(
            |x: Seq<char>|
                x != fk && (f@.enables_features.contains(x) || (ds.take(0).to_set().contains(x)
                    && is_plain(acts[x]))),
        ),
    ));
    while j < n2
        invariant
            j <= n2,
            n2 == ds.len(),
            ds == sorted_seq(f.enables_deps@.dom()),
            ds.to_set() == f.enables_deps@.dom(),
            acts == f@.enables_deps,
            acts.dom() == f.enables_deps@.dom(),
            fk == key@,
            all.deep_view() == spread(
                m,
                fk,
                Set::new(
                    |x: Seq<char>|
                        x != fk && (f@.enables_features.contains(x) || (ds.take(j as int).to_set().contains(
                            x,
                        ) && is_plain(acts[x]))),
                ),
            ),
        decreases n2 - j,
    {
        let x = f.enables_deps.key_at(j);
        let a = f.enables_deps.value_at(j);
        proof {
            lemma_take_push_set(ds, j as int);
            assert(acts[ds[j as int]] == a@);
        }
        if !a.is_conditional && !a.is_dep_only && !text_eq(x.as_str(), key) {
            add_enabler(all, x.as_str(), key);
        }
        assert(all.deep_view() =~~= spread(
            m,
            fk,
            Set::new(
                |y: Seq<char>|
                    y != fk && (f@.enables_features.contains(y) || (ds.take(j as int + 1).to_set().contains(
                        y,
                    ) && is_plain(acts[y]))),
            ),
        ));
        j += 1;
    }
    proof {
        assert(ds.take(n2 as int) =~= ds);
        assert(all.deep_view() =~= spread(
            m,
            fk,
            Set::new(|x: Seq<char>| x != fk && plainly_enables(f@, x)),
        ));
    }
}

impl Resolver {
    /// Sets `enabled_by` in every feature to the features that switch it on. See
    /// [`linked`].
    pub fn set_enabled_by(features: &mut StrMap<Feature>)
        ensures
            final(features).deep_view() == linked(old(features).deep_view()),
    {
        let n = features.len();
        let ghost g = features.deep_view();
        let ghost keys = sorted_seq(features@.dom());
        proof {
            lemma_sorted_seq_dom(features@.dom());
            assert(g.dom() =~= features@.dom());
            lemma_deep_map_empty::<StrSet>();
        }
        let mut all: StrMap<StrSet> = StrMap::new();
        let mut i: usize = 0;
        assert(all.deep_view() =~= enablers_among(g, keys.take(0).to_set()));
        while i < n
            invariant
                i <= n,
                n == keys.len(),
                keys == sorted_seq(features@.dom()),
                keys.to_set() == features@.dom(),
                keys.no_duplicates(),
                g == features.deep_view(),
                g.dom() == features@.dom(),
                all.deep_view() == enablers_among(g, keys.take(i as int).to_set()),
            decreases n - i,
        {
            let key = features.key_at(i);
            let f = features.value_at(i);
            let ghost before = all.deep_view();
            note_enables(&mut all, key.as_str(), f);
            proof {
                let k = keys[i as int];
                let s1 = keys.take(i as int).to_set();
                let s2 = keys.take(i as int + 1).to_set();
                lemma_take_push_set(keys, i as int);
                assert(g[k] == f@);
                if s1.contains(k) {
                    let j = choose|j: int| 0 <= j < i && keys.take(i as int)[j] == k;
                    assert(keys[j] == k);
                }
                let got = all.deep_view();
                let want = enablers_among(g, s2);
                assert forall|x: Seq<char>| got.dom().contains(x) == want.dom().contains(x) by {
                    if want.dom().contains(x) {
                        let w = choose|w: Seq<char>|
                            s2.contains(w) && g.dom().contains(w) && w != x
                                && #[trigger] plainly_enables(g[w], x);
                        if w != k {
                            assert(s1.contains(w));
                        }
                    }
                    if before.dom().contains(x) {
                        let w = choose|w: Seq<char>|
                            s1.contains(w) && g.dom().contains(w) && w != x
                                && #[trigger] plainly_enables(g[w], x);
                        assert(s2.contains(w));
                    }
                    if x != k && plainly_enables(f@, x) {
                        assert(s2.contains(k) && plainly_enables(g[k], x));
                    }
                }
                assert forall|x: Seq<char>| got.dom().contains(x) implies got[x] =~= want[x] by {
                    if before.dom().contains(x) {
                        assert(before[x] == Set::new(
                            |f: Seq<char>|
                                s1.contains(f) && g.dom().contains(f) && f != x && plainly_enables(
                                    g[f],
                                    x,
                                ),
                        ));
                    }
                }
                assert(got =~= want);
            }
            i += 1;
        }
        let ghost en = all.deep_view();
        proof {
            assert(keys.take(n as int) =~= keys);
            assert(en.dom() =~= all@.dom());
            assert forall|x: Seq<char>| en.dom().contains(x) == has_enabler(g, x) by {
                if en.dom().contains(x) {
                    let w = choose|w: Seq<char>|
                        keys.to_set().contains(w) && g.dom().contains(w) && w != x
                            && #[trigger] plainly_enables(g[w], x);
                    assert(enablers(g, x).contains(w));
                }
                if has_enabler(g, x) {
                    let w = choose|w: Seq<char>| #[trigger] enablers(g, x).contains(w);
                    assert(keys.to_set().contains(w) && plainly_enables(g[w], x));
                }
            }
            assert forall|x: Seq<char>| en.dom().contains(x) implies en[x] == enablers(g, x) by {
                assert(en[x] =~= enablers(g, x));
            }
        }
        let fkeys = features.keys();
        let mut j: usize = 0;
        assert(features.deep_view() =~= Map::new(
            |k: Seq<char>| g.dom().contains(k),
            |k: Seq<char>|
                if keys.take(0).to_set().contains(k) {
                    linked(g)[k]
                } else {
                    g[k]
                },
        ));
        while j < fkeys.len()
            invariant
                j <= fkeys@.len(),
                fkeys.deep_view() == keys,
                keys.to_set() == g.dom(),
                keys.no_duplicates(),
                en == all.deep_view(),
                en.dom() == all@.dom(),
                forall|x: Seq<char>| en.dom().contains(x) == has_enabler(g, x),
                forall|x: Seq<char>| en.dom().contains(x) ==> en[x] == enablers(g, x),
                features.deep_view() == Map::new(
                    |k: Seq<char>| g.dom().contains(k),
                    |k: Seq<char>|
                        if keys.take(j as int).to_set().contains(k) {
                            linked(g)[k]
                        } else {
                            g[k]
                        },
                ),
            decreases fkeys@.len() - j,
        {
            let key = &fkeys[j];
            proof {
                assert(keys[j as int] == fkeys@[j as int]@);
                assert(keys.to_set().contains(keys[j as int]));
                lemma_take_push_set(keys, j as int);
                if keys.take(j as int).to_set().contains(keys[j as int]) {
                    let a = choose|a: int| 0 <= a < j && keys.take(j as int)[a] == keys[j as int];
                    assert(keys[a] == keys[j as int]);
                }
                assert(features@.dom() =~= features.deep_view().dom());
            }
            let ghost before = features@;
            let found = features.remove(key.as_str());
            let mut f = found.unwrap();
            let ghost mid = features@;
            let ghost f_old = f@;
            f.enabled_by = match all.get(key.as_str()) {
                Some(set) => set.clone(),
                None => StrSet::new(),
            };
            features.insert(key.clone(), f);
            proof {
                lemma_deep_map_remove(before, key@);
                lemma_deep_map_insert(mid, key@, f);
                assert(deep_map(before)[key@] == g[key@]);
                assert(f_old == g[key@]);
                if en.dom().contains(key@) {
                    assert(en[key@] == all@[key@]@);
                } else {
                    assert(enablers(g, key@) =~= Set::<Seq<char>>::empty()) by {
                        if exists|w: Seq<char>| enablers(g, key@).contains(w) {
                            let w = choose|w: Seq<char>| enablers(g, key@).contains(w);
                            assert(has_enabler(g, key@));
                        }
                    }
                }
                assert(f@ == linked(g)[key@]);
                assert(features.deep_view() =~= deep_map(before).insert(key@, linked(g)[key@]));
            }
            assert(features.deep_view() =~= Map::new(
                |k: Seq<char>| g.dom().contains(k),
                |k: Seq<char>|
                    if keys.take(j as int + 1).to_set().contains(k) {
                        linked(g)[k]
                    } else {
                        g[k]
                    },
            ));
            j += 1;
        }
        proof {
            assert(keys.take(fkeys@.len() as int) =~= keys);
            assert(features.deep_view() =~= linked(g));
        }
    }
}

} // verus!
