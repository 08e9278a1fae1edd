//! Everything that a feature switches on, directly or through other features.

use vstd::prelude::*;
use crate::features::{DepAction, DepActionView, Feature, FeatureView, GraphView};
use crate::strmap::{StrMap, lemma_deep_map_insert, lemma_deep_map_empty};
use crate::order::{sorted_seq, lemma_sorted_seq_dom, lemma_take_push_set};
use crate::text::text_eq;

verus! {

broadcast use vstd::string::group_string_axioms;

/// The names that stand for a feature in a walk from `start`: its own and the keys of
/// the graph.
pub open spec fn known(g: GraphView, start: FeatureView) -> Set<Seq<char>> {
    g.dom().insert(start.key)
}

/// The feature that a name stands for in a walk from `start`.
pub open spec fn node(g: GraphView, start: FeatureView, k: Seq<char>) -> FeatureView {
    if k == start.key {
        start
    } else {
        g[k]
    }
}

/// The features that are found, in the order in which they are found, by a walk that
/// has the names of `stack` still to look at, the last of them first, and has found
/// the features of `seen` before. A name that stands for no feature or for one that
/// was found before is passed over. Of a feature that is found, the features it
/// switches on are looked at next, in the order of their names, before the rest.
pub open spec fn discover(
    g: GraphView,
    start: FeatureView,
    stack: Seq<Seq<char>>,
    seen: Set<Seq<char>>,
) -> Seq<Seq<char>>
    decreases known(g, start).difference(seen).len(), stack.len(),
    when g.dom().finite()
    via discover_decreases
{
    if stack.len() == 0 {
        Seq::empty()
    } else {
        let k = stack.last();
        let rest = stack.drop_last();
        if seen.contains(k) || !known(g, start).contains(k) {
            discover(g, start, rest, seen)
        } else {
            seq![k] + discover(
                g,
                start,
                rest + sorted_seq(node(g, start, k).enables_features).reverse(),
                seen.insert(k),
            )
        }
    }
}

#[via_fn]
proof fn discover_decreases(
    g: GraphView,
    start: FeatureView,
    stack: Seq<Seq<char>>,
    seen: Set<Seq<char>>,
) {
    if stack.len() != 0 {
        let k = stack.last();
        if !(seen.contains(k) || !known(g, start).contains(k)) {
            lemma_fewer_unseen(g, start, seen, k);
        }
    }
}

/// Finding a feature leaves fewer to be found.
pub proof fn lemma_fewer_unseen(g: GraphView, start: FeatureView, seen: Set<Seq<char>>, k: Seq<char>)
    requires
        g.dom().finite(),
        known(g, start).contains(k),
        !seen.contains(k),
    ensures
        known(g, start).difference(seen.insert(k)).len() < known(g, start).difference(seen).len(),
{
    let u = known(g, start);
    assert(u.finite());
    let a = u.difference(seen);
    assert(a.finite());
    assert(a.contains(k));
    assert(u.difference(seen.insert(k)) =~= a.remove(k));
}

/// The features switched on from `start`, in the order in which a walk finds them:
/// `start` first, then what its first feature switches on, and so on.
pub open spec fn discovery_order(g: GraphView, start: FeatureView) -> Seq<Seq<char>> {
    discover(g, start, seq![start.key], Set::empty())
}

/// Under the key of each dependency, the features that act on it and their actions.
pub type DependenciesEnabledByFeatures<'a> = StrMap<Vec<(&'a str, &'a DepAction)>>;

/// One entry of the list kept for a dependency: the feature that acts on it, and how.
pub type Entry = (Seq<char>, DepActionView);

/// The list under `d`, or the empty list where there is none.
pub open spec fn list_of(dm: Map<Seq<char>, Seq<Entry>>, d: Seq<char>) -> Seq<Entry> {
    if dm.dom().contains(d) {
        dm[d]
    } else {
        Seq::empty()
    }
}

/// Whether the feature acts on the dependency `d` without condition.
pub open spec fn acts_on(f: FeatureView, d: Seq<char>) -> bool {
    f.enables_deps.dom().contains(d) && !f.enables_deps[d].is_conditional
}

/// The lists of the dependencies after the feature found under `k` is noted at each
/// dependency that it acts on without condition.
pub open spec fn with_actions(
    dm: Map<Seq<char>, Seq<Entry>>,
    k: Seq<char>,
    f: FeatureView,
) -> Map<Seq<char>, Seq<Entry>> {
    Map::new(
        |d: Seq<char>| dm.dom().contains(d) || acts_on(f, d),
        |d: Seq<char>|
            if acts_on(f, d) {
                list_of(dm, d).push((k, f.enables_deps[d]))
            } else {
                dm[d]
            },
    )
}

/// The lists of the dependencies after the features of `order` are noted in turn.
pub open spec fn with_all_actions(
    dm: Map<Seq<char>, Seq<Entry>>,
    g: GraphView,
    start: FeatureView,
    order: Seq<Seq<char>>,
) -> Map<Seq<char>, Seq<Entry>>
    decreases order.len(),
{
    if order.len() == 0 {
        dm
    } else {
        with_actions(
            with_all_actions(dm, g, start, order.drop_last()),
            order.last(),
            node(g, start, order.last()),
        )
    }
}

/// The features found so far, with those of `order` added under their names.
pub open spec fn with_found(
    fm: Map<Seq<char>, FeatureView>,
    g: GraphView,
    start: FeatureView,
    order: Seq<Seq<char>>,
) -> Map<Seq<char>, FeatureView> {
    Map::new(
        |k: Seq<char>| fm.dom().contains(k) || order.contains(k),
        |k: Seq<char>|
            if order.contains(k) {
                node(g, start, k)
            } else {
                fm[k]
            },
    )
}

/// The model of the lists kept for the dependencies.
pub open spec fn lists_view(m: Map<Seq<char>, Vec<(&str, &DepAction)>>) -> Map<Seq<char>, Seq<Entry>> {
    Map::new(
        |d: Seq<char>| m.dom().contains(d),
        |d: Seq<char>| Seq::new(m[d]@.len(), |i: int| (m[d]@[i].0@, m[d]@[i].1@)),
    )
}

/// Notes a feature at each dependency that it acts on without condition.
fn note_actions<'a>(deps_set: &mut StrMap<Vec<(&'a str, &'a DepAction)>>, key: &'a str, f: &'a Feature)
    ensures
        lists_view(final(deps_set)@) == with_actions(lists_view(old(deps_set)@), key@, f@),
{
    let n = f.enables_deps.len();
    let ghost ds = sorted_seq(f.enables_deps@.dom());
    let ghost acts = f@.enables_deps;
    let ghost dm = lists_view(deps_set@);
    proof {
        lemma_sorted_seq_dom(f.enables_deps@.dom());
        assert(acts.dom() =~= f.enables_deps@.dom());
    }
    let mut i: usize = 0;
    assert(lists_view(deps_set@) =~= Map::new(
        |d: Seq<char>| dm.dom().contains(d) || (ds.take(0).to_set().contains(d) && acts_on(f@, d)),
        |d: Seq<char>|
            if ds.take(0).to_set().contains(d) && acts_on(f@, d) {
                list_of(dm, d).push((key@, acts[d]))
            } else {
                dm[d]
            },
    ));
    while i < n
        invariant
            i <= n,
            n == ds.len(),
            ds == sorted_seq(f.enables_deps@.dom()),
            ds.to_set() == f.enables_deps@.dom(),
            ds.no_duplicates(),
            acts == f@.enables_deps,
            acts.dom() == f.enables_deps@.dom(),
            lists_view(deps_set@) == Map::new(
                |d: Seq<char>|
                    dm.dom().contains(d) || (ds.take(i as int).to_set().contains(d) && acts_on(f@, d)),
                |d: Seq<char>|
                    if ds.take(i as int).to_set().contains(d) && acts_on(f@, d) {
                        list_of(dm, d).push((key@, acts[d]))
                    } else {
                        dm[d]
                    },
            ),
        decreases n - i,
    {
        let d = f.enables_deps.key_at(i);
        let a = f.enables_deps.value_at(i);
        proof {
            lemma_take_push_set(ds, i as int);
            assert(acts[ds[i as int]] == a@);
            if ds.take(i as int).to_set().contains(ds[i as int]) {
                let j = choose|j: int| 0 <= j < i && ds.take(i as int)[j] == ds[i as int];
                assert(ds[j] == ds[i as int]);
            }
        }
        if !a.is_conditional {
            let ghost before = deps_set@;
            let found = deps_set.remove(d.as_str());
            let mut list = match found {
                Some(l) => l,
                None => Vec::new(),
            };
            let ghost old_list = Seq::new(list@.len(), |j: int| (list@[j].0@, list@[j].1@));
            proof {
                assert(lists_view(before).dom().contains(d@) == before.dom().contains(d@));
                assert(!ds.take(i as int).to_set().contains(d@));
                if before.dom().contains(d@) {
                    assert(dm.dom().contains(d@));
                    assert(lists_view(before)[d@] == dm[d@]);
                    assert(old_list =~= lists_view(before)[d@]);
                } else {
                    assert(!dm.dom().contains(d@));
                }
                assert(old_list =~= list_of(dm, d@));
            }
            list.push((key, a));
            let ghost new_list = Seq::new(list@.len(), |j: int| (list@[j].0@, list@[j].1@));
            assert(new_list =~= old_list.push((key@, a@)));
            deps_set.insert(d.clone(), list);
            assert(lists_view(deps_set@) =~= lists_view(before).insert(d@, new_list));
        }
        assert(lists_view(deps_set@) =~= Map::new(
            |d: Seq<char>|
                dm.dom().contains(d) || (ds.take(i as int + 1).to_set().contains(d) && acts_on(f@, d)),
            |d: Seq<char>|
                if ds.take(i as int + 1).to_set().contains(d) && acts_on(f@, d) {
                    list_of(dm, d).push((key@, acts[d]))
                } else {
                    dm[d]
                },
        ));
        i += 1;
    }
    proof {
        assert(ds.take(n as int) =~= ds);
        assert(lists_view(deps_set@) =~= with_actions(dm, key@, f@));
    }
}

impl Feature {
    /// Whether the feature is meant for people to switch on: it is declared, or no
    /// feature switches it on, and its name does not begin with `_`.
    pub fn is_user_facing(&self) -> (b: bool)
        ensures
            b == ((self.explicit || self.enabled_by@ == Set::<Seq<char>>::empty())
                && !crate::text::has_hidden_marker(self.key@)),
    {
        (self.explicit || !self.is_referenced()) && !crate::text::is_hidden_name(self.key.as_str())
    }

    /// The features that switch this one on, `default` left out, in the order of their
    /// names.
    pub fn non_default_enabled_by(&self) -> (v: Vec<String>)
        ensures
            v.deep_view() == sorted_seq(self.enabled_by@).filter(|k: Seq<char>| k != "default"@),
    {
        let n = self.enabled_by.len();
        let ghost all = sorted_seq(self.enabled_by@);
        let ghost pred = |k: Seq<char>| k != "default"@;
        let mut v: Vec<String> = Vec::new();
        let mut i: usize = 0;
        proof {
            assert(all.take(0) =~= Seq::<Seq<char>>::empty());
            assert(all.take(0).filter(pred) =~= Seq::<Seq<char>>::empty()) by {
                reveal(Seq::filter);
            }
        }
        while i < n
            invariant
                i <= n,
                n == all.len(),
                all == sorted_seq(self.enabled_by@),
                pred == (|k: Seq<char>| k != "default"@),
                v.deep_view() == all.take(i as int).filter(pred),
            decreases n - i,
        {
            let e = self.enabled_by.get(i);
            let ghost before = v.deep_view();
            proof {
                assert(all.take(i as int + 1).drop_last() =~= all.take(i as int));
                assert(all.take(i as int + 1).last() == all[i as int]);
                reveal(Seq::filter);
            }
            if !text_eq(e.as_str(), "default") {
                v.push(e.clone());
                assert(v.deep_view() =~= before.push(e@));
            }
            i += 1;
        }
        proof {
            assert(all.take(n as int) =~= all);
        }
        v
    }

    /// Whether any feature switches this one on.
    pub fn is_referenced(&self) -> (b: bool)
        ensures
            b == (self.enabled_by@ != Set::<Seq<char>>::empty()),
    {
        !self.enabled_by.is_empty()
    }

    /// Finds what is switched on from this feature and adds it to what was found
    /// before: to `features_set` the features, each under its name, this one first;
    /// to `deps_set`, under each dependency that a found feature acts on without
    /// condition, that feature and its action, in the order in which the features
    /// are found. What `features_set` holds already is not looked into again.
    pub fn add_to_set<'a>(
        &'a self,
        features: &'a StrMap<Feature>,
        features_set: &mut StrMap<&'a Feature>,
        deps_set: &mut DependenciesEnabledByFeatures<'a>,
    )
        ensures
            final(features_set).deep_view() == with_found(
                old(features_set).deep_view(),
                features.deep_view(),
                self@,
                discover(
                    features.deep_view(),
                    self@,
                    seq![self.key@],
                    old(features_set).deep_view().dom(),
                ),
            ),
            lists_view(final(deps_set)@) == with_all_actions(
                lists_view(old(deps_set)@),
                features.deep_view(),
                self@,
                discover(
                    features.deep_view(),
                    self@,
                    seq![self.key@],
                    old(features_set).deep_view().dom(),
                ),
            ),
    {
        let ghost g = features.deep_view();
        let ghost start = self@;
        let ghost fm0 = features_set.deep_view();
        let ghost dm0 = lists_view(deps_set@);
        let ghost total = discover(g, start, seq![start.key], fm0.dom());
        let ghost mut done: Seq<Seq<char>> = Seq::empty();
        let total_keys = features.len();
        proof {
            assert(g.dom() =~= features@.dom());
            assert(features_set.deep_view() =~= with_found(fm0, g, start, done));
        }
        let mut stack: Vec<&'a str> = Vec::new();
        stack.push(self.key.as_str());
        let ghost mut stack_view = seq![start.key];
        proof {
            assert(stack_view =~= Seq::new(stack@.len(), |i: int| stack@[i]@));
            assert(done.to_set() =~= Set::<Seq<char>>::empty());
            assert(fm0.dom().union(done.to_set()) =~= fm0.dom());
            assert(total =~= done + discover(g, start, stack_view, fm0.dom().union(done.to_set())));
        }
        while stack.len() > 0
            invariant
                g == features.deep_view(),
                g.dom() == features@.dom(),
                g.dom().finite(),
                start == self@,
                stack_view == Seq::new(stack@.len(), |i: int| stack@[i]@),
                total == done + discover(g, start, stack_view, fm0.dom().union(done.to_set())),
                features_set.deep_view() == with_found(fm0, g, start, done),
                lists_view(deps_set@) == with_all_actions(dm0, g, start, done),
            decreases
                    known(g, start).difference(fm0.dom().union(done.to_set())).len(),
                    stack@.len(),
        {
            let ghost seen = fm0.dom().union(done.to_set());
            let ghost sv = stack_view;
            let k = stack.pop().unwrap();
            proof {
                stack_view = Seq::new(stack@.len(), |i: int| stack@[i]@);
                assert(sv.last() == k@);
                assert(sv.drop_last() =~= stack_view);
                assert(features_set@.dom() =~= features_set.deep_view().dom());
                assert(seen.contains(k@) == features_set@.dom().contains(k@));
            }
            if features_set.contains_key(k) {
                continue ;
            }
            let found: Option<(&'a str, &'a Feature)> = if text_eq(k, self.key.as_str()) {
                Some((self.key.as_str(), self))
            } else {
                match features.index_of(k) {
                    Some(i) => Some((features.key_at(i).as_str(), features.value_at(i))),
                    None => None,
                }
            };
            match found {
                None => {
                    continue ;
                },
                Some((key, f)) => {
                    proof {
                        assert(key@ == k@);
                        assert(f@ == node(g, start, k@));
                        lemma_fewer_unseen(g, start, seen, k@);
                    }
                    let ghost fs_before = features_set@;
                    features_set.insert(key.to_owned(), f);
                    note_actions(deps_set, key, f);
                    let n = f.enables_features.len();
                    let ghost succ = sorted_seq(f.enables_features@);
                    let ghost base_stack = stack_view;
                    let mut j: usize = n;
                    proof {
                        assert(base_stack + succ.reverse().take(0) =~= base_stack);
                    }
                    while j > 0
                        invariant
                            j <= n,
                            n == succ.len(),
                            succ == sorted_seq(f.enables_features@),
                            stack_view == Seq::new(stack@.len(), |i: int| stack@[i]@),
                            stack_view == base_stack + succ.reverse().take(n - j),
                        decreases j,
                    {
                        j -= 1;
                        let s = f.enables_features.get(j);
                        let ghost prev = stack_view;
                        stack.push(s.as_str());
                        proof {
                            stack_view = Seq::new(stack@.len(), |i: int| stack@[i]@);
                            assert(stack_view =~= prev.push(s@));
                            assert(succ.reverse()[n - j - 1] == succ[j as int]);
                            assert(succ.reverse().take(n - j) =~= succ.reverse().take(n - j - 1).push(
                                succ[j as int],
                            ));
                            assert(stack_view =~= base_stack + succ.reverse().take(n - j));
                        }
                    }
                    proof {
                        assert(succ.reverse().take(n as int) =~= succ.reverse());
                        let done2 = done.push(k@);
                        lemma_deep_map_insert(fs_before, k@, f);
                        {
                            assert forall|x: Seq<char>| done2.contains(x) == (done.contains(x) || x
                                == k@) by {
                                if done2.contains(x) {
                                    let a = choose|a: int| 0 <= a < done2.len() && done2[a] == x;
                                    if a < done.len() {
                                        assert(done[a] == x);
                                    }
                                }
                                if done.contains(x) {
                                    let a = choose|a: int| 0 <= a < done.len() && done[a] == x;
                                    assert(done2[a] == x);
                                }
                                if x == k@ {
                                    assert(done2[done.len() as int] == x);
                                }
                            }
                        }
                        assert(features_set.deep_view() =~= with_found(fm0, g, start, done2));
                        assert(done2.drop_last() =~= done);
                        assert(done2.to_set() =~= done.to_set().insert(k@));
                        assert(fm0.dom().union(done2.to_set()) =~= seen.insert(k@));
                        assert(done + (seq![k@] + discover(g, start, stack_view, seen.insert(k@)))
                            =~= done2 + discover(g, start, stack_view, seen.insert(k@)));
                        done = done2;
                    }
                },
            }
        }
        proof {
            assert(total =~= done);
        }
    }

    /// Finds the features and the dependencies that this feature switches on, directly
    /// or through other features. Hands back the features, each under its name, this
    /// one among them, and under each dependency that one of them acts on without
    /// condition those features and their actions, in the order in which a walk from
    /// this feature finds them. The walk ends although features may switch each other on
    /// in a circle.
    pub fn enables_recursive<'a>(&'a self, features: &'a StrMap<Feature>) -> (r: (
        StrMap<&'a Feature>,
        DependenciesEnabledByFeatures<'a>,
    ))
        ensures
            r.0.deep_view() == with_found(
                Map::empty(),
                features.deep_view(),
                self@,
                discovery_order(features.deep_view(), self@),
            ),
            lists_view(r.1@) == with_all_actions(
                Map::empty(),
                features.deep_view(),
                self@,
                discovery_order(features.deep_view(), self@),
            ),
            forall|t: Seq<char>|
                r.0.deep_view().dom().contains(t) <==> exists|n: nat| #[trigger]
                    crate::features::walk::reached(
                        features.deep_view(),
                        self@,
                        self.key@,
                        t,
                        Set::empty(),
                        n,
                    ),
    {
        proof {
            let g = features.deep_view();
            crate::strmap::lemma_finite_keys(*features);
            crate::strmap::lemma_deep_map_dom(features@);
            assert forall|k: Seq<char>| known(g, self@).contains(k) implies (#[trigger] node(
                g,
                self@,
                k,
            )).enables_features.finite() by {
                if k == self.key@ {
                    crate::strset::lemma_finite_set(self.enables_features);
                } else {
                    crate::strset::lemma_finite_set(features@[k].enables_features);
                }
            }
            assert forall|t: Seq<char>|
                discovery_order(g, self@).contains(t) <==> exists|n: nat| #[trigger]
                    crate::features::walk::reached(g, self@, self.key@, t, Set::empty(), n) by {
                crate::features::walk::lemma_walk_finds_the_reachable(g, self@, t);
            }
        }
        let mut features_set: StrMap<&'a Feature> = StrMap::new();
        let mut deps_set: StrMap<Vec<(&'a str, &'a DepAction)>> = StrMap::new();
        proof {
            lemma_deep_map_empty::<&'a Feature>();
            assert(lists_view(deps_set@) =~= Map::empty());
            assert(features_set.deep_view().dom() =~= Set::<Seq<char>>::empty());
        }
        self.add_to_set(features, &mut features_set, &mut deps_set);
        (features_set, deps_set)
    }
}

} // verus!
