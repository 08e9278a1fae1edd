//! Reading the actions of a feature: `name`, `dep:name`, `name?`, `name/feature` and
//! their combinations.

use vstd::prelude::*;
use crate::text::{first_index, lemma_first_index, has_dep_prefix, has_question_suffix, char_len, slice, find_char, starts_with_dep, ends_with_question};
use crate::features::{DepAction, DepActionView, Feature, FeatureView, GraphView, Resolver, merge_actions, MAX_ITEMS};
use crate::strmap::{StrMap, lemma_deep_map_insert, lemma_deep_map_remove, lemma_deep_map_empty};
use crate::strset::StrSet;
use crate::order::{sorted_seq, lemma_sorted_seq_dom, lemma_take_push_set};

verus! {

broadcast use vstd::string::group_string_axioms;

/// One action of a feature, taken apart.
#[derive(Debug, Clone, Copy, PartialEq, Eq)]
pub struct Action<'a> {
    /// The feature or dependency that is named, without its markers.
    pub target: &'a str,
    /// Whether the name was written with `dep:`.
    pub is_dep_only: bool,
    /// Whether the name was written with `?`.
    pub is_conditional: bool,
    /// What follows the first `/`, where there is one.
    pub dep_feature: Option<&'a str>,
}

/// The model of an [`Action`].
pub struct ActionView {
    pub target: Seq<char>,
    pub is_dep_only: bool,
    pub is_conditional: bool,
    pub dep_feature: Option<Seq<char>>,
}

impl<'a> View for Action<'a> {
    type V = ActionView;

    open spec fn view(&self) -> ActionView {
        ActionView {
            target: self.target@,
            is_dep_only: self.is_dep_only,
            is_conditional: self.is_conditional,
            dep_feature: match self.dep_feature {
                Some(f) => Some(f@),
                None => None,
            },
        }
    }
}

impl ActionView {
    /// Whether the action is about a dependency: its name carries `dep:` or `?`, or a
    /// feature of the dependency follows it. One that is not names a feature.
    pub open spec fn names_dep(self) -> bool {
        self.is_dep_only || self.is_conditional || self.dep_feature is Some
    }

    /// The action on the dependency that this one asks for by itself.
    pub open spec fn dep_action(self) -> DepActionView {
        DepActionView {
            is_conditional: self.is_conditional,
            is_dep_only: self.is_dep_only,
            dep_features: match self.dep_feature {
                Some(f) => set![f],
                None => Set::empty(),
            },
        }
    }
}

/// What an action string says. The string is cut at its first `/`; the part before it
/// loses a leading `dep:` and a trailing `?`, and what is left is the target.
pub open spec fn parse_action(a: Seq<char>) -> ActionView {
    let i = first_index(a, '/');
    let head = a.subrange(0, i);
    let is_dep_only = has_dep_prefix(head);
    let bare = if is_dep_only {
        head.subrange(4, head.len() as int)
    } else {
        head
    };
    let is_conditional = has_question_suffix(bare);
    ActionView {
        target: if is_conditional {
            bare.subrange(0, bare.len() - 1)
        } else {
            bare
        },
        is_dep_only,
        is_conditional,
        dep_feature: if i < a.len() {
            Some(a.subrange(i + 1, a.len() as int))
        } else {
            None
        },
    }
}

/// Takes an action string apart.
pub fn read_action<'a>(action: &'a str) -> (r: Action<'a>)
    ensures
        r@ == parse_action(action@),
{
    proof {
        lemma_first_index(action@, '/');
    }
    let n = char_len(action);
    let i = find_char(action, '/');
    let head = slice(action, 0, i);
    let dep_feature = if i < n {
        Some(slice(action, i + 1, n))
    } else {
        None
    };
    let is_dep_only = starts_with_dep(head);
    let bare = if is_dep_only {
        slice(head, 4, i)
    } else {
        head
    };
    let is_conditional = ends_with_question(bare);
    let m = char_len(bare);
    let target = if is_conditional {
        slice(bare, 0, m - 1)
    } else {
        bare
    };
    Action { target, is_dep_only, is_conditional, dep_feature }
}

/// The `i`-th of the actions that are read.
pub open spec fn action_at(actions: Seq<Seq<char>>, i: int) -> ActionView {
    parse_action(actions[i])
}

/// Whether the `i`-th action is read and is about the dependency `t`.
pub open spec fn dep_occurs(actions: Seq<Seq<char>>, i: int, t: Seq<char>) -> bool {
    &&& 0 <= i < actions.len()
    &&& i < MAX_ITEMS
    &&& action_at(actions, i).names_dep()
    &&& action_at(actions, i).target == t
}

/// Whether the `i`-th action is read and names the feature `t`.
pub open spec fn feature_occurs(actions: Seq<Seq<char>>, i: int, t: Seq<char>) -> bool {
    &&& 0 <= i < actions.len()
    &&& i < MAX_ITEMS
    &&& !action_at(actions, i).names_dep()
    &&& action_at(actions, i).target == t
}

/// All that a feature's actions say of the dependency `t`: conditional if every one of
/// them is, dependency-only if any of them is, with the features that any of them asks for.
pub open spec fn merged_action(actions: Seq<Seq<char>>, t: Seq<char>) -> DepActionView {
    DepActionView {
        is_conditional: forall|i: int| dep_occurs(actions, i, t) ==> action_at(actions, i).is_conditional,
        is_dep_only: exists|i: int| dep_occurs(actions, i, t) && action_at(actions, i).is_dep_only,
        dep_features: Set::new(
            |f: Seq<char>|
                exists|i: int| dep_occurs(actions, i, t) && action_at(actions, i).dep_feature == Some(f),
        ),
    }
}

/// The feature that a key and its actions declare. Of the actions the first
/// [`MAX_ITEMS`] are read.
pub open spec fn parsed_feature(key: Seq<char>, actions: Seq<Seq<char>>) -> FeatureView {
    FeatureView {
        key,
        enables_deps: Map::new(
            |t: Seq<char>| exists|i: int| dep_occurs(actions, i, t),
            |t: Seq<char>| merged_action(actions, t),
        ),
        enables_features: Set::new(|t: Seq<char>| exists|i: int| feature_occurs(actions, i, t)),
        enabled_by: Set::empty(),
        required_by_bins: Seq::empty(),
        explicit: true,
    }
}

/// A feature after one more action is read.
pub open spec fn absorb(f: FeatureView, a: ActionView) -> FeatureView {
    if a.names_dep() {
        FeatureView {
            enables_deps: f.enables_deps.insert(
                a.target,
                if f.enables_deps.dom().contains(a.target) {
                    merge_actions(f.enables_deps[a.target], a.dep_action())
                } else {
                    a.dep_action()
                },
            ),
            ..f
        }
    } else {
        FeatureView { enables_features: f.enables_features.insert(a.target), ..f }
    }
}

/// Reading one more action, while fewer than [`MAX_ITEMS`] are read, is [`absorb`].
pub proof fn lemma_parsed_feature_push(key: Seq<char>, actions: Seq<Seq<char>>, x: Seq<char>)
    requires
        actions.len() < MAX_ITEMS,
    ensures
        parsed_feature(key, actions.push(x)) == absorb(parsed_feature(key, actions), parse_action(x)),
{
    let s2 = actions.push(x);
    let n = actions.len() as int;
    let a = parse_action(x);
    let p = parsed_feature(key, actions);
    let q = parsed_feature(key, s2);
    let r = absorb(p, a);
    assert(action_at(s2, n) == a);
    assert forall|i: int, t: Seq<char>| 0 <= i < n implies dep_occurs(s2, i, t) == dep_occurs(
        actions,
        i,
        t,
    ) && feature_occurs(s2, i, t) == feature_occurs(actions, i, t) by {
        assert(s2[i] == actions[i]);
    }
    assert forall|t: Seq<char>| q.enables_features.contains(t) == r.enables_features.contains(
        t,
    ) by {
        if q.enables_features.contains(t) {
            let i = choose|i: int| feature_occurs(s2, i, t);
            if i < n {
                assert(feature_occurs(actions, i, t));
            }
        }
        if p.enables_features.contains(t) {
            let i = choose|i: int| feature_occurs(actions, i, t);
            assert(feature_occurs(s2, i, t));
        }
        if !a.names_dep() && t == a.target {
            assert(feature_occurs(s2, n, t));
        }
    }
    assert(q.enables_features =~= r.enables_features);
    assert forall|t: Seq<char>| q.enables_deps.dom().contains(t) == r.enables_deps.dom().contains(
        t,
    ) by {
        if q.enables_deps.dom().contains(t) {
            let i = choose|i: int| dep_occurs(s2, i, t);
            if i < n {
                assert(dep_occurs(actions, i, t));
            }
        }
        if p.enables_deps.dom().contains(t) {
            let i = choose|i: int| dep_occurs(actions, i, t);
            assert(dep_occurs(s2, i, t));
        }
        if a.names_dep() && t == a.target {
            assert(dep_occurs(s2, n, t));
        }
    }
    assert forall|t: Seq<char>| q.enables_deps.dom().contains(t) implies q.enables_deps[t]
        == r.enables_deps[t] by {
        let qa = merged_action(s2, t);
        let pa = merged_action(actions, t);
        let hit = a.names_dep() && t == a.target;
        if hit {
            assert(dep_occurs(s2, n, t));
        }
        // conditional: every occurrence
        if qa.is_conditional {
            assert forall|i: int| dep_occurs(actions, i, t) implies action_at(
                actions,
                i,
            ).is_conditional by {
                assert(dep_occurs(s2, i, t));
                assert(action_at(s2, i) == action_at(actions, i));
            }
        }
        if pa.is_conditional && (hit ==> a.is_conditional) {
            assert forall|i: int| dep_occurs(s2, i, t) implies action_at(s2, i).is_conditional by {
                if i < n {
                    assert(dep_occurs(actions, i, t));
                    assert(action_at(s2, i) == action_at(actions, i));
                }
            }
        }
        assert(qa.is_conditional == (pa.is_conditional && (hit ==> a.is_conditional)));
        // dependency-only: some occurrence
        if qa.is_dep_only {
            let i = choose|i: int| dep_occurs(s2, i, t) && action_at(s2, i).is_dep_only;
            if i < n {
                assert(dep_occurs(actions, i, t) && action_at(actions, i).is_dep_only);
            }
        }
        if pa.is_dep_only {
            let i = choose|i: int| dep_occurs(actions, i, t) && action_at(actions, i).is_dep_only;
            assert(dep_occurs(s2, i, t) && action_at(s2, i).is_dep_only);
        }
        assert(qa.is_dep_only == (pa.is_dep_only || (hit && a.is_dep_only)));
        // features: of any occurrence
        let extra = if hit {
            a.dep_action().dep_features
        } else {
            Set::empty()
        };
        assert forall|f: Seq<char>| qa.dep_features.contains(f) == pa.dep_features.union(
            extra,
        ).contains(f) by {
            if qa.dep_features.contains(f) {
                let i = choose|i: int|
                    dep_occurs(s2, i, t) && action_at(s2, i).dep_feature == Some(f);
                if i < n {
                    assert(dep_occurs(actions, i, t) && action_at(actions, i).dep_feature == Some(
                        f,
                    ));
                }
            }
            if pa.dep_features.contains(f) {
                let i = choose|i: int|
                    dep_occurs(actions, i, t) && action_at(actions, i).dep_feature == Some(f);
                assert(dep_occurs(s2, i, t) && action_at(s2, i).dep_feature == Some(f));
            }
            if extra.contains(f) {
                assert(dep_occurs(s2, n, t) && action_at(s2, n).dep_feature == Some(f));
            }
        }
        assert(qa.dep_features =~= pa.dep_features.union(extra));
        if hit {
            if p.enables_deps.dom().contains(t) {
                assert(r.enables_deps[t] == merge_actions(pa, a.dep_action()));
            } else {
                assert forall|i: int| !dep_occurs(actions, i, t) by {}
                assert(pa.dep_features =~= Set::empty());
                assert(qa.dep_features =~= a.dep_action().dep_features);
                assert(r.enables_deps[t] == a.dep_action());
            }
        } else {
            assert(qa.dep_features =~= pa.dep_features);
            assert(r.enables_deps[t] == pa);
        }
    }
    assert(q.enables_deps =~= r.enables_deps);
}

/// Reading beyond [`MAX_ITEMS`] actions changes nothing.
pub proof fn lemma_parsed_feature_capped(key: Seq<char>, actions: Seq<Seq<char>>)
    requires
        actions.len() >= MAX_ITEMS,
    ensures
        parsed_feature(key, actions) == parsed_feature(key, actions.take(MAX_ITEMS as int)),
{
    let s2 = actions.take(MAX_ITEMS as int);
    let p = parsed_feature(key, actions);
    let q = parsed_feature(key, s2);
    assert forall|i: int, t: Seq<char>|
        dep_occurs(s2, i, t) == dep_occurs(actions, i, t) && feature_occurs(s2, i, t)
            == feature_occurs(actions, i, t) by {
        if 0 <= i < MAX_ITEMS {
            assert(s2[i] == actions[i]);
        }
    }
    assert(p.enables_features =~= q.enables_features);
    assert forall|t: Seq<char>| p.enables_deps.dom().contains(t) implies p.enables_deps[t]
        == q.enables_deps[t] by {
        let pa = merged_action(actions, t);
        let qa = merged_action(s2, t);
        assert forall|i: int| 0 <= i < MAX_ITEMS implies action_at(s2, i) == action_at(actions, i) by {
            assert(s2[i] == actions[i]);
        }
        assert(pa.is_conditional == qa.is_conditional);
        assert(pa.is_dep_only == qa.is_dep_only);
        assert(pa.dep_features =~= qa.dep_features);
    }
    assert(p.enables_deps =~= q.enables_deps);
}

/// The keys that are read from a collection: the first [`MAX_ITEMS`] in order.
pub open spec fn first_keys(dom: Set<Seq<char>>) -> Seq<Seq<char>> {
    let keys = sorted_seq(dom);
    if keys.len() <= MAX_ITEMS {
        keys
    } else {
        keys.take(MAX_ITEMS as int)
    }
}

/// The name of the feature that is on where none is asked for.
pub open spec fn default_key() -> Seq<char> {
    "default"@
}

/// The features that a manifest declares, each under its key. Of the declarations the
/// first [`MAX_ITEMS`] in the order of their keys are read. Unless the manifest is
/// said to declare `default`, an empty feature of that name is put in.
pub open spec fn parsed_features(
    features: Map<Seq<char>, Seq<Seq<char>>>,
    has_explicit_default: bool,
) -> GraphView {
    Map::new(
        |k: Seq<char>|
            first_keys(features.dom()).contains(k) || (!has_explicit_default && k == default_key()),
        |k: Seq<char>|
            if !has_explicit_default && k == default_key() {
                parsed_feature(k, Seq::empty())
            } else {
                parsed_feature(k, features[k])
            },
    )
}

impl Resolver {
    /// Reads one feature's actions. Hands back the feature's key and the feature.
    pub fn parse_feature(feature_key: &str, actions: &[String]) -> (r: (String, Feature))
        ensures
            r.0@ == feature_key@,
            r.1@ == parsed_feature(feature_key@, actions.deep_view()),
    {
        let mut enables_deps: StrMap<DepAction> = StrMap::new();
        let mut enables_features = StrSet::new();
        let ghost key = feature_key@;
        let ghost all = actions.deep_view();
        let n = if actions.len() <= MAX_ITEMS {
            actions.len()
        } else {
            MAX_ITEMS
        };
        let mut i: usize = 0;
        let ghost mut f = parsed_feature(key, all.take(0));
        proof {
            lemma_deep_map_empty::<DepAction>();
            assert forall|j: int, t: Seq<char>| !dep_occurs(all.take(0), j, t) && !feature_occurs(
                all.take(0),
                j,
                t,
            ) by {}
            assert(f.enables_deps =~= Map::empty());
            assert(f.enables_features =~= Set::empty());
        }
        while i < n
            invariant
                i <= n <= all.len(),
                n <= MAX_ITEMS,
                all == actions.deep_view(),
                f == parsed_feature(key, all.take(i as int)),
                enables_deps.deep_view() == f.enables_deps,
                enables_features@ == f.enables_features,
            decreases n - i,
        {
            let a = read_action(actions[i].as_str());
            proof {
                assert(all[i as int] == actions@[i as int]@);
                lemma_parsed_feature_push(key, all.take(i as int), all[i as int]);
                assert(all.take(i as int).push(all[i as int]) =~= all.take(i as int + 1));
            }
            if a.is_dep_only || a.is_conditional || a.dep_feature.is_some() {
                let mut dep_features = StrSet::new();
                match a.dep_feature {
                    Some(df) => {
                        dep_features.insert(df.to_owned());
                        assert(dep_features@ =~= set![df@]);
                    },
                    None => {},
                }
                let act = DepAction {
                    is_conditional: a.is_conditional,
                    is_dep_only: a.is_dep_only,
                    dep_features,
                };
                assert(act@ == a@.dep_action());
                let ghost before = enables_deps@;
                match enables_deps.remove(a.target) {
                    Some(mut old) => {
                        let ghost mid = enables_deps@;
                        old.merge(&act);
                        enables_deps.insert(a.target.to_owned(), old);
                        proof {
                            lemma_deep_map_remove(before, a.target@);
                            lemma_deep_map_insert(mid, a.target@, old);
                            assert(enables_deps.deep_view() =~= absorb(f, a@).enables_deps);
                        }
                    },
                    None => {
                        enables_deps.insert(a.target.to_owned(), act);
                        proof {
                            lemma_deep_map_insert(before, a.target@, act);
                        }
                    },
                }
            } else {
                enables_features.insert(a.target.to_owned());
            }
            proof {
                f = absorb(f, a@);
            }
            i += 1;
        }
        proof {
            if actions.len() <= MAX_ITEMS {
                assert(all.take(n as int) =~= all);
            } else {
                lemma_parsed_feature_capped(key, all);
            }
        }
        let feature = Feature {
            key: feature_key.to_owned(),
            enables_features,
            required_by_bins: Vec::new(),
            enables_deps,
            explicit: true,
            enabled_by: StrSet::new(),
        };
        assert(feature.required_by_bins.deep_view() =~= Seq::empty());
        (feature_key.to_owned(), feature)
    }

    /// Reads the declared features. The graph always holds `default` unless
    /// `has_explicit_default` says that the manifest declares it.
    pub fn parse_features(features: &StrMap<Vec<String>>, has_explicit_default: bool) -> (r: StrMap<
        Feature,
    >)
        ensures
            r.deep_view() == parsed_features(features.deep_view(), has_explicit_default),
    {
        let total = features.len();
        let n = if total <= MAX_ITEMS {
            total
        } else {
            MAX_ITEMS
        };
        let ghost keys = sorted_seq(features@.dom());
        let ghost src = features.deep_view();
        proof {
            lemma_sorted_seq_dom(features@.dom());
            assert(src.dom() =~= features@.dom());
            lemma_deep_map_empty::<Feature>();
        }
        let mut r: StrMap<Feature> = StrMap::new();
        let mut i: usize = 0;
        while i < n
            invariant
                i <= n <= keys.len(),
                keys == sorted_seq(features@.dom()),
                keys.to_set() == features@.dom(),
                src == features.deep_view(),
                r.deep_view().dom() == keys.take(i as int).to_set(),
                forall|k: Seq<char>| #[trigger]
                    r.deep_view().dom().contains(k) ==> r.deep_view()[k] == parsed_feature(k, src[k]),
            decreases n - i,
        {
            let key = features.key_at(i);
            let actions = features.value_at(i);
            let (k, f) = Self::parse_feature(key.as_str(), actions.as_slice());
            let ghost before = r@;
            r.insert(k, f);
            proof {
                lemma_deep_map_insert(before, k@, f);
                lemma_take_push_set(keys, i as int);
                assert(src[keys[i as int]] == actions.deep_view());
            }
            i += 1;
        }
        if !has_explicit_default {
            let empty: Vec<String> = Vec::new();
            let (k, f) = Self::parse_feature("default", empty.as_slice());
            let ghost before = r@;
            r.insert(k, f);
            proof {
                lemma_deep_map_insert(before, k@, f);
                assert(empty.deep_view() =~= Seq::<Seq<char>>::empty());
            }
        }
        proof {
            let want = parsed_features(src, has_explicit_default);
            let got = r.deep_view();
            let fk = first_keys(src.dom());
            assert(fk == keys.take(n as int)) by {
                if keys.len() <= MAX_ITEMS {
                    assert(keys.take(n as int) =~= keys);
                }
            }
            assert forall|k: Seq<char>| got.dom().contains(k) == want.dom().contains(k) by {
                assert(fk.to_set().contains(k) == fk.contains(k));
            }
            assert(got =~= want);
        }
        r
    }
}

} // verus!
