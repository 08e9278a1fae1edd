//! The dependencies that features speak of, and the features that optional
//! dependencies stand for.

use vstd::prelude::*;
use crate::dependency::{Dependency, DependencyDetail};
use crate::manifest::Target;
use crate::product::Product;
use crate::text::text_eq;
use crate::features::{targets_view, DepAction, DepActionView, Feature, FeatureView, FeatureDependency, FeatureDependencyView, GraphView, Kind, Resolver, TargetKey, TargetKeyView, target_key_lt, MAX_ITEMS};
use crate::features::actions::first_keys;
use crate::strmap::{StrMap, deep_map, lemma_deep_map_insert, lemma_deep_map_remove, lemma_deep_map_empty};
use crate::strset::StrSet;
use crate::order::{sorted_seq, lemma_sorted_seq_dom, lemma_take_push_set};
use crate::features::uses::{deps_in_order, lemma_added_dependencies_in_order, lemma_added_dependency_in_order};

verus! {

broadcast use vstd::string::group_string_axioms;

/// For each name that is a feature's key or that a feature's action is about: whether
/// some action on it is written with `dep:`.
pub open spec fn named_by_dep_syntax(g: GraphView) -> Map<Seq<char>, bool> {
    Map::new(
        |d: Seq<char>|
            g.dom().contains(d) || exists|f: Seq<char>|
                g.dom().contains(f) && #[trigger] g[f].enables_deps.dom().contains(d),
        |d: Seq<char>|
            exists|f: Seq<char>|
                g.dom().contains(f) && #[trigger] g[f].enables_deps.dom().contains(d)
                    && g[f].enables_deps[d].is_dep_only,
    )
}

/// What is known of the names after one more feature's actions are looked at.
pub open spec fn noted(named: Map<Seq<char>, bool>, f: FeatureView) -> Map<Seq<char>, bool> {
    Map::new(
        |d: Seq<char>| named.dom().contains(d) || f.enables_deps.dom().contains(d),
        |d: Seq<char>|
            (named.dom().contains(d) && named[d]) || (f.enables_deps.dom().contains(d)
                && f.enables_deps[d].is_dep_only),
    )
}

/// Looks at the actions of one feature.
fn note_feature(named: &mut StrMap<bool>, f: &Feature)
    ensures
        final(named)@ == noted(old(named)@, f@),
{
    let n = f.enables_deps.len();
    let ghost keys = sorted_seq(f.enables_deps@.dom());
    let ghost acts = f@.enables_deps;
    let ghost start = named@;
    proof {
        lemma_sorted_seq_dom(f.enables_deps@.dom());
        assert(acts.dom() =~= f.enables_deps@.dom());
    }
    let mut i: usize = 0;
    assert(named@ =~= Map::new(
        |d: Seq<char>| start.dom().contains(d) || keys.take(0).to_set().contains(d),
        |d: Seq<char>|
            (start.dom().contains(d) && start[d]) || (keys.take(0).to_set().contains(d)
                && acts[d].is_dep_only),
    ));
    while i < n
        invariant
            i <= n,
            n == keys.len(),
            keys == sorted_seq(f.enables_deps@.dom()),
            keys.to_set() == f.enables_deps@.dom(),
            acts == f@.enables_deps,
            acts.dom() == f.enables_deps@.dom(),
            named@ == Map::new(
                |d: Seq<char>| start.dom().contains(d) || keys.take(i as int).to_set().contains(d),
                |d: Seq<char>|
                    (start.dom().contains(d) && start[d]) || (keys.take(i as int).to_set().contains(d)
                        && acts[d].is_dep_only),
            ),
        decreases n - i,
    {
        let key = f.enables_deps.key_at(i);
        let a = f.enables_deps.value_at(i);
        let was = match named.get(key.as_str()) {
            Some(b) => *b,
            None => false,
        };
        let ghost before = named@;
        named.insert(key.clone(), was || a.is_dep_only);
        proof {
            lemma_take_push_set(keys, i as int);
            assert(acts[keys[i as int]] == a@);
            assert(named@ =~= Map::new(
                |d: Seq<char>|
                    start.dom().contains(d) || keys.take(i as int + 1).to_set().contains(d),
                |d: Seq<char>|
                    (start.dom().contains(d) && start[d]) || (keys.take(i as int + 1).to_set().contains(
                        d,
                    ) && acts[d].is_dep_only),
            ));
        }
        i += 1;
    }
    proof {
        assert(keys.take(n as int) =~= keys);
        assert(named@ =~= noted(start, f@));
    }
}

/// What is known of the names after the features under `keys` are looked at.
pub open spec fn named_so_far(g: GraphView, keys: Set<Seq<char>>) -> Map<Seq<char>, bool> {
    Map::new(
        |d: Seq<char>|
            g.dom().contains(d) || exists|f: Seq<char>|
                keys.contains(f) && #[trigger] g[f].enables_deps.dom().contains(d),
        |d: Seq<char>|
            exists|f: Seq<char>|
                keys.contains(f) && #[trigger] g[f].enables_deps.dom().contains(d)
                    && g[f].enables_deps[d].is_dep_only,
    )
}

/// The declarations of a dependency after one more is met: it takes its place in the
/// order of the uses, unless there is one for the same use already, which stays.
pub open spec fn insert_target(
    s: Seq<(TargetKeyView, Dependency)>,
    k: TargetKeyView,
    d: Dependency,
) -> Seq<(TargetKeyView, Dependency)>
    decreases s.len(),
{
    if s.len() == 0 {
        seq![(k, d)]
    } else if s[0].0 == k {
        s
    } else if target_key_lt(k, s[0].0) {
        seq![(k, d)] + s
    } else {
        seq![s[0]] + insert_target(s.drop_first(), k, d)
    }
}

/// [`insert_target`] by the place where the walk through the declarations stops.
pub proof fn lemma_insert_target_at(
    s: Seq<(TargetKeyView, Dependency)>,
    k: TargetKeyView,
    d: Dependency,
    i: int,
)
    requires
        0 <= i <= s.len(),
        forall|j: int| 0 <= j < i ==> (#[trigger] s[j]).0 != k && !target_key_lt(k, s[j].0),
    ensures
        (i < s.len() && s[i].0 == k) ==> insert_target(s, k, d) == s,
        (i == s.len() || (s[i].0 != k && target_key_lt(k, s[i].0))) ==> insert_target(s, k, d)
            == s.insert(i, (k, d)),
    decreases i,
{
    if i == 0 {
        if s.len() == 0 {
            assert(s.insert(0, (k, d)) =~= seq![(k, d)]);
        } else {
            assert(s.insert(0, (k, d)) =~= seq![(k, d)] + s);
        }
    } else {
        let t = s.drop_first();
        assert forall|j: int| 0 <= j < i - 1 implies (#[trigger] t[j]).0 != k && !target_key_lt(
            k,
            t[j].0,
        ) by {
            assert(t[j] == s[j + 1]);
        }
        lemma_insert_target_at(t, k, d, i - 1);
        assert(s[0].0 != k && !target_key_lt(k, s[0].0));
        if i < s.len() && s[i].0 == k {
            assert(t[i - 1] == s[i]);
            assert(seq![s[0]] + t =~= s);
        }
        if i == s.len() || (s[i].0 != k && target_key_lt(k, s[i].0)) {
            if i < s.len() {
                assert(t[i - 1] == s[i]);
            }
            assert(seq![s[0]] + t.insert(i - 1, (k, d)) =~= s.insert(i, (k, d)));
        }
    }
}

/// Puts a declaration among those of a dependency.
fn insert_target_entry<'a>(
    targets: &mut Vec<(TargetKey, &'a Dependency)>,
    key: TargetKey,
    dep: &'a Dependency,
)
    ensures
        targets_view(final(targets)@) == insert_target(targets_view(old(targets)@), key@, *dep),
{
    let ghost s = targets_view(targets@);
    let mut i: usize = 0;
    while i < targets.len()
        invariant
            i <= targets@.len(),
            s == targets_view(targets@),
            targets@ == old(targets)@,
            forall|j: int| 0 <= j < i ==> (#[trigger] s[j]).0 != key@ && !target_key_lt(key@, s[j].0),
        ensures
            i == targets@.len() || (i < targets@.len() && s[i as int].0 != key@ && target_key_lt(
                key@,
                s[i as int].0,
            )),
        decreases targets@.len() - i,
    {
        assert(s[i as int].0 == targets@[i as int].0@);
        if targets[i].0.same(&key) {
            proof {
                lemma_insert_target_at(s, key@, *dep, i as int);
            }
            return ;
        }
        if key.before(&targets[i].0) {
            break ;
        }
        i += 1;
    }
    proof {
        lemma_insert_target_at(s, key@, *dep, i as int);
    }
    let ghost k = key@;
    targets.insert(i, (key, dep));
    assert(targets_view(targets@) =~= s.insert(i as int, (k, *dep)));
}

/// The feature that an optional dependency stands for: it switches the dependency on
/// and nothing else.
pub open spec fn implicit_feature(key: Seq<char>) -> FeatureView {
    FeatureView {
        key,
        enables_features: Set::empty(),
        enables_deps: Map::empty().insert(
            key,
            DepActionView { is_dep_only: false, is_conditional: false, dep_features: Set::empty() },
        ),
        explicit: false,
        enabled_by: Set::empty(),
        required_by_bins: Seq::empty(),
    }
}

/// The model of the dependencies gathered for a graph.
pub type DepsView = Map<Seq<char>, FeatureDependencyView>;

/// What is known of the name of a dependency: nothing, where no feature speaks of it.
pub open spec fn lookup(named: Map<Seq<char>, bool>, key: Seq<char>) -> Option<bool> {
    if named.dom().contains(key) {
        Some(named[key])
    } else {
        None
    }
}

/// The graph and the dependencies after one declaration of a dependency is met.
///
/// A dependency that is not optional, that no feature speaks of and that is not yet
/// among the dependencies is passed over. Any other is put among them, under the name
/// of its package, with this declaration for its use unless there is one already. If
/// it is optional and no feature writes it with `dep:`, a feature of its name is made
/// for it unless there is one.
pub open spec fn added_dependency(
    state: (GraphView, DepsView),
    named: Option<bool>,
    kind: Kind,
    target: Option<Seq<char>>,
    key: Seq<char>,
    dep: Dependency,
) -> (GraphView, DepsView) {
    let (features, deps) = state;
    if !dep.spec_optional() && named is None && !deps.dom().contains(key) {
        state
    } else {
        let entry = if deps.dom().contains(key) {
            deps[key]
        } else {
            FeatureDependencyView {
                crate_name: match dep.spec_package() {
                    Some(p) => p,
                    None => key,
                },
                targets: Seq::empty(),
            }
        };
        let entry = FeatureDependencyView {
            targets: insert_target(entry.targets, TargetKeyView { kind, target }, dep),
            ..entry
        };
        let features = if dep.spec_optional() && named != Some(true) && !features.dom().contains(
            key,
        ) {
            features.insert(key, implicit_feature(key))
        } else {
            features
        };
        (features, deps.insert(key, entry))
    }
}

/// The graph and the dependencies after the declarations under `keys` are met in turn.
pub open spec fn added_in_turn(
    state: (GraphView, DepsView),
    crate_deps: Map<Seq<char>, Dependency>,
    keys: Seq<Seq<char>>,
    named: Map<Seq<char>, bool>,
    kind: Kind,
    target: Option<Seq<char>>,
) -> (GraphView, DepsView)
    decreases keys.len(),
{
    if keys.len() == 0 {
        state
    } else {
        added_dependency(
            added_in_turn(state, crate_deps, keys.drop_last(), named, kind, target),
            lookup(named, keys.last()),
            kind,
            target,
            keys.last(),
            crate_deps[keys.last()],
        )
    }
}

/// The graph and the dependencies after a section of dependencies is read. Of its
/// declarations the first [`MAX_ITEMS`] in the order of their keys are read.
pub open spec fn added_section(
    state: (GraphView, DepsView),
    crate_deps: Map<Seq<char>, Dependency>,
    named: Map<Seq<char>, bool>,
    kind: Kind,
    target: Option<Seq<char>>,
) -> (GraphView, DepsView) {
    added_in_turn(state, crate_deps, first_keys(crate_deps.dom()), named, kind, target)
}

impl Resolver {
    /// Takes one declaration of a dependency into the graph and the dependencies, as
    /// [`added_dependency`] says.
    pub fn add_dependency<'d>(
        features: &mut StrMap<Feature>,
        deps_for_features: &mut StrMap<FeatureDependency<'d>>,
        named_using_dep_syntax: Option<bool>,
        dep_kind: Kind,
        only_for_target: Option<&str>,
        key: &str,
        dep: &'d Dependency,
    )
        ensures
            (final(features).deep_view(), final(deps_for_features).deep_view()) == added_dependency(
                (old(features).deep_view(), old(deps_for_features).deep_view()),
                named_using_dep_syntax,
                dep_kind,
                match only_for_target {
                    Some(t) => Some(t@),
                    None => None,
                },
                key@,
                *dep,
            ),
            deps_in_order(old(deps_for_features).deep_view()) ==> deps_in_order(
                final(deps_for_features).deep_view(),
            ),
    {
        proof {
            if deps_in_order(deps_for_features.deep_view()) {
                lemma_added_dependency_in_order(
                    (features.deep_view(), deps_for_features.deep_view()),
                    named_using_dep_syntax,
                    dep_kind,
                    match only_for_target {
                        Some(t) => Some(t@),
                        None => None,
                    },
                    key@,
                    *dep,
                );
            }
        }
        let is_optional = dep.optional();
        let ghost deps0 = deps_for_features@;
        let ghost features0 = features@;
        let found = deps_for_features.remove(key);
        proof {
            lemma_deep_map_remove(deps0, key@);
        }
        if !is_optional && named_using_dep_syntax.is_none() && found.is_none() {
            assert(deps_for_features.deep_view() =~= deep_map(deps0));
            return ;
        }
        let mut entry = match found {
            Some(e) => e,
            None => {
                let e = FeatureDependency {
                    crate_name: match dep.package() {
                        Some(p) => p.to_owned(),
                        None => key.to_owned(),
                    },
                    targets: Vec::new(),
                };
                assert(targets_view(e.targets@) =~= Seq::empty());
                e
            },
        };
        let tk = TargetKey {
            kind: dep_kind,
            target: match only_for_target {
                Some(t) => Some(t.to_owned()),
                None => None,
            },
        };
        insert_target_entry(&mut entry.targets, tk, dep);
        let ghost mid = deps_for_features@;
        deps_for_features.insert(key.to_owned(), entry);
        proof {
            lemma_deep_map_insert(mid, key@, entry);
            assert(deps_for_features.deep_view() =~= deep_map(deps0).insert(key@, entry@));
        }
        if is_optional && named_using_dep_syntax != Some(true) {
            if !features.contains_key(key) {
                let mut enables_deps: StrMap<DepAction> = StrMap::new();
                let act = DepAction {
                    is_dep_only: false,
                    is_conditional: false,
                    dep_features: StrSet::new(),
                };
                enables_deps.insert(key.to_owned(), act);
                let f = Feature {
                    key: key.to_owned(),
                    enables_features: StrSet::new(),
                    enables_deps,
                    explicit: false,
                    enabled_by: StrSet::new(),
                    required_by_bins: Vec::new(),
                };
                proof {
                    lemma_deep_map_empty::<DepAction>();
                    lemma_deep_map_insert(Map::<Seq<char>, DepAction>::empty(), key@, act);
                    assert(f.required_by_bins.deep_view() =~= Seq::empty());
                    assert(f@ == implicit_feature(key@));
                    lemma_deep_map_insert(features0, key@, f);
                }
                features.insert(key.to_owned(), f);
            }
        }
    }
}

/// The graph and the dependencies after the dependencies of the targets under `keys`
/// are read: of each target its own and its build script's, or, where `dev` is set,
/// those of its tests.
pub open spec fn added_targets(
    state: (GraphView, DepsView),
    targets: Map<Seq<char>, Target>,
    keys: Seq<Seq<char>>,
    named: Map<Seq<char>, bool>,
    dev: bool,
) -> (GraphView, DepsView)
    decreases keys.len(),
{
    if keys.len() == 0 {
        state
    } else {
        let prev = added_targets(state, targets, keys.drop_last(), named, dev);
        let k = keys.last();
        let t = targets[k];
        if dev {
            added_section(prev, t.dev_dependencies@, named, Kind::Dev, Some(k))
        } else {
            added_section(
                added_section(prev, t.dependencies@, named, Kind::Normal, Some(k)),
                t.build_dependencies@,
                named,
                Kind::Build,
                Some(k),
            )
        }
    }
}

/// The graph and the dependencies after all sections of dependencies are read, in
/// this order: the package's own, its build script's, for each target its own and its
/// build script's, those of the tests, for each target those of its tests. Which
/// names are written with `dep:` is found before any of them is read.
pub open spec fn added_dependencies(
    features: GraphView,
    dependencies: Map<Seq<char>, Dependency>,
    build_dependencies: Map<Seq<char>, Dependency>,
    dev_dependencies: Map<Seq<char>, Dependency>,
    target: Map<Seq<char>, Target>,
) -> (GraphView, DepsView) {
    let named = named_by_dep_syntax(features);
    let s0 = (features, Map::<Seq<char>, FeatureDependencyView>::empty());
    let s1 = added_section(s0, dependencies, named, Kind::Normal, None);
    let s2 = added_section(s1, build_dependencies, named, Kind::Build, None);
    let s3 = added_targets(s2, target, sorted_seq(target.dom()), named, false);
    let s4 = added_section(s3, dev_dependencies, named, Kind::Dev, None);
    added_targets(s4, target, sorted_seq(target.dom()), named, true)
}

/// The graph after a binary is noted at a feature it asks for. A feature that the
/// graph lacks is passed over.
pub open spec fn required_once(g: GraphView, feature: Seq<char>, bin_name: Seq<char>) -> GraphView {
    if g.dom().contains(feature) {
        g.insert(
            feature,
            FeatureView {
                required_by_bins: g[feature].required_by_bins.push(bin_name),
                ..g[feature]
            },
        )
    } else {
        g
    }
}

/// The graph after a binary is noted at each feature of `required` in turn.
pub open spec fn required_by_bin(
    g: GraphView,
    required: Seq<Seq<char>>,
    bin_name: Seq<char>,
) -> GraphView
    decreases required.len(),
{
    if required.len() == 0 {
        g
    } else {
        required_once(required_by_bin(g, required.drop_last(), bin_name), required.last(), bin_name)
    }
}

/// The name a binary goes by: its own, or the package's where it has none.
pub open spec fn bin_name(bin: Product, package_name: Seq<char>) -> Seq<char> {
    match bin.name {
        Some(n) => n@,
        None => package_name,
    }
}

/// The graph after each binary is noted at the features it asks for, in turn.
pub open spec fn required_by_bins(
    g: GraphView,
    bins: Seq<Product>,
    package_name: Seq<char>,
) -> GraphView
    decreases bins.len(),
{
    if bins.len() == 0 {
        g
    } else {
        required_by_bin(
            required_by_bins(g, bins.drop_last(), package_name),
            bins.last().required_features.deep_view(),
            bin_name(bins.last(), package_name),
        )
    }
}

/// Whether asking a dependency for the feature `f` adds nothing to its declaration,
/// which has its default features on or names the feature itself.
pub open spec fn is_redundant(detail: DependencyDetail, f: Seq<char>) -> bool {
    (detail.default_features && f == "default"@) || detail.features.deep_view().contains(f)
}

/// The features of `set` that a declaration does not make redundant.
pub open spec fn needed(set: Set<Seq<char>>, detail: DependencyDetail) -> Set<Seq<char>> {
    Set::new(|f: Seq<char>| set.contains(f) && !is_redundant(detail, f))
}

/// An action on the dependency `key` without the features that its first declaration
/// makes redundant. Only a declaration that is a table of settings does so.
pub open spec fn pruned_action(a: DepActionView, deps: DepsView, key: Seq<char>) -> DepActionView {
    if deps.dom().contains(key) && deps[key].targets.len() > 0
        && deps[key].targets[0].1.spec_detail() is Some {
        let detail = deps[key].targets[0].1.spec_detail()->0;
        DepActionView { dep_features: needed(a.dep_features, *detail), ..a }
    } else {
        a
    }
}

/// The actions of a feature, each without its redundant features.
pub open spec fn pruned_actions(
    acts: Map<Seq<char>, DepActionView>,
    deps: DepsView,
) -> Map<Seq<char>, DepActionView> {
    Map::new(|k: Seq<char>| acts.dom().contains(k), |k: Seq<char>| pruned_action(acts[k], deps, k))
}

/// The graph with every action of every feature without its redundant features.
pub open spec fn pruned(g: GraphView, deps: DepsView) -> GraphView {
    Map::new(
        |k: Seq<char>| g.dom().contains(k),
        |k: Seq<char>| FeatureView { enables_deps: pruned_actions(g[k].enables_deps, deps), ..g[k] },
    )
}

/// Whether a declaration makes it redundant to ask for the feature `f`.
fn check_redundant(detail: &DependencyDetail, f: &str) -> (b: bool)
    ensures
        b == is_redundant(*detail, f@),
{
    if detail.default_features && text_eq(f, "default") {
        return true;
    }
    let ghost q = detail.features.deep_view();
    let mut i: usize = 0;
    while i < detail.features.len()
        invariant
            i <= detail.features@.len(),
            q == detail.features.deep_view(),
            forall|j: int| 0 <= j < i ==> q[j] != f@,
        decreases detail.features@.len() - i,
    {
        assert(q[i as int] == detail.features@[i as int]@);
        if text_eq(detail.features[i].as_str(), f) {
            assert(q.contains(f@));
            return true;
        }
        i += 1;
    }
    false
}

/// The features of `set` that a declaration does not make redundant.
fn keep_needed(set: &StrSet, detail: &DependencyDetail) -> (r: StrSet)
    ensures
        r@ == needed(set@, *detail),
{
    let n = set.len();
    let ghost items = sorted_seq(set@);
    proof {
        lemma_sorted_seq_dom(set@);
    }
    let mut r = StrSet::new();
    let mut i: usize = 0;
    assert(r@ =~= needed(items.take(0).to_set(), *detail));
    while i < n
        invariant
            i <= n,
            n == items.len(),
            items == sorted_seq(set@),
            items.to_set() == set@,
            r@ == needed(items.take(i as int).to_set(), *detail),
        decreases n - i,
    {
        let item = set.get(i);
        proof {
            lemma_take_push_set(items, i as int);
        }
        if !check_redundant(detail, item.as_str()) {
            r.insert(item.clone());
        }
        assert(r@ =~= needed(items.take(i as int + 1).to_set(), *detail));
        i += 1;
    }
    assert(items.take(n as int) =~= items);
    r
}

/// The actions of one feature, each without its redundant features.
fn prune_actions<'d>(acts: &mut StrMap<DepAction>, dependencies: &StrMap<FeatureDependency<'d>>)
    ensures
        final(acts).deep_view() == pruned_actions(old(acts).deep_view(), dependencies.deep_view()),
{
    let keys = acts.keys();
    let ghost ks = sorted_seq(acts@.dom());
    let ghost a0 = acts.deep_view();
    let ghost deps = dependencies.deep_view();
    proof {
        lemma_sorted_seq_dom(acts@.dom());
        assert(a0.dom() =~= acts@.dom());
    }
    let mut i: usize = 0;
    assert(acts.deep_view() =~= Map::new(
        |k: Seq<char>| a0.dom().contains(k),
        |k: Seq<char>|
            if ks.take(0).to_set().contains(k) {
                pruned_action(a0[k], deps, k)
            } else {
                a0[k]
            },
    ));
    while i < keys.len()
        invariant
            i <= keys@.len(),
            keys.deep_view() == ks,
            ks.to_set() == a0.dom(),
            ks.no_duplicates(),
            deps == dependencies.deep_view(),
            acts.deep_view() == Map::new(
                |k: Seq<char>| a0.dom().contains(k),
                |k: Seq<char>|
                    if ks.take(i as int).to_set().contains(k) {
                        pruned_action(a0[k], deps, k)
                    } else {
                        a0[k]
                    },
            ),
        decreases keys@.len() - i,
    {
        let key = &keys[i];
        proof {
            assert(ks[i as int] == keys@[i as int]@);
            assert(ks.to_set().contains(ks[i as int]));
            lemma_take_push_set(ks, i as int);
            if ks.take(i as int).to_set().contains(ks[i as int]) {
                let j = choose|j: int| 0 <= j < i && ks.take(i as int)[j] == ks[i as int];
                assert(ks[j] == ks[i as int]);
            }
        }
        let ghost before = acts@;
        let ghost want = pruned_action(a0[key@], deps, key@);
        proof {
            assert(acts.deep_view().dom().contains(key@));
            assert(acts@.dom().contains(key@));
            assert(acts.deep_view()[key@] == a0[key@]);
            assert(deps.dom() =~= dependencies@.dom());
        }
        match dependencies.get(key.as_str()) {
            Some(d) => {
                proof {
                    assert(deps[key@] == d@);
                    assert(d@.targets.len() == d.targets@.len());
                }
                if d.targets.len() > 0 {
                    match d.dep().detail() {
                        Some(detail) => {
                            let a = acts.remove(key.as_str());
                            let mut a = a.unwrap();
                            let ghost mid = acts@;
                            let ghost a_old = a@;
                            let kept = keep_needed(&a.dep_features, detail);
                            a.dep_features = kept;
                            acts.insert(key.clone(), a);
                            proof {
                                lemma_deep_map_remove(before, key@);
                                lemma_deep_map_insert(mid, key@, a);
                                assert(a_old == a0[key@]);
                                assert(a@ == want);
                                assert(acts.deep_view() =~= deep_map(before).insert(key@, want));
                            }
                        },
                        None => {
                            assert(want == a0[key@]);
                        },
                    }
                } else {
                    assert(want == a0[key@]);
                }
            },
            None => {
                assert(want == a0[key@]);
            },
        }
        assert(acts.deep_view() =~= deep_map(before).insert(key@, want));
        assert(acts.deep_view() =~= Map::new(
            |k: Seq<char>| a0.dom().contains(k),
            |k: Seq<char>|
                if ks.take(i as int + 1).to_set().contains(k) {
                    pruned_action(a0[k], deps, k)
                } else {
                    a0[k]
                },
        ));
        i += 1;
    }
    proof {
        assert(ks.take(keys@.len() as int) =~= ks);
        assert(acts.deep_view() =~= pruned_actions(a0, deps));
    }
}

impl Resolver {
    /// Reads one section of dependencies, as [`added_section`] says.
    pub fn add_implied_optional_deps<'d>(
        features: &mut StrMap<Feature>,
        deps_for_features: &mut StrMap<FeatureDependency<'d>>,
        crate_deps: &'d StrMap<Dependency>,
        named_using_dep_syntax: &StrMap<bool>,
        dep_kind: Kind,
        only_for_target: Option<&str>,
    )
        ensures
            (final(features).deep_view(), final(deps_for_features).deep_view()) == added_section(
                (old(features).deep_view(), old(deps_for_features).deep_view()),
                crate_deps@,
                named_using_dep_syntax@,
                dep_kind,
                match only_for_target {
                    Some(t) => Some(t@),
                    None => None,
                },
            ),
    {
        let total = crate_deps.len();
        let n = if total <= MAX_ITEMS {
            total
        } else {
            MAX_ITEMS
        };
        let ghost keys = first_keys(crate_deps@.dom());
        let ghost all = sorted_seq(crate_deps@.dom());
        let ghost s0 = (features.deep_view(), deps_for_features.deep_view());
        let ghost named = named_using_dep_syntax@;
        let ghost target = match only_for_target {
            Some(t) => Some(t@),
            None => None,
        };
        proof {
            if all.len() <= MAX_ITEMS {
                assert(all.take(n as int) =~= all);
            }
            assert(keys == all.take(n as int));
            assert(keys.take(0) =~= Seq::<Seq<char>>::empty());
        }
        let mut i: usize = 0;
        while i < n
            invariant
                i <= n,
                n == keys.len(),
                n <= all.len(),
                all == sorted_seq(crate_deps@.dom()),
                keys == all.take(n as int),
                named == named_using_dep_syntax@,
                target == match only_for_target {
                    Some(t) => Some(t@),
                    None => None,
                },
                (features.deep_view(), deps_for_features.deep_view()) == added_in_turn(
                    s0,
                    crate_deps@,
                    keys.take(i as int),
                    named,
                    dep_kind,
                    target,
                ),
            decreases n - i,
        {
            let key = crate_deps.key_at(i);
            let dep = crate_deps.value_at(i);
            let known = match named_using_dep_syntax.get(key.as_str()) {
                Some(b) => Some(*b),
                None => None,
            };
            proof {
                assert(keys[i as int] == all[i as int]);
                assert(keys.take(i as int + 1).drop_last() =~= keys.take(i as int));
                assert(keys.take(i as int + 1).last() == keys[i as int]);
            }
            Self::add_dependency(
                features,
                deps_for_features,
                known,
                dep_kind,
                only_for_target,
                key.as_str(),
                dep,
            );
            i += 1;
        }
        proof {
            assert(keys.take(n as int) =~= keys);
        }
    }

    /// Reads the dependencies of every target: of each its own and its build script's,
    /// or, where `dev` is set, those of its tests.
    fn add_target_deps<'d>(
        features: &mut StrMap<Feature>,
        deps_for_features: &mut StrMap<FeatureDependency<'d>>,
        target: &'d StrMap<Target>,
        named_using_dep_syntax: &StrMap<bool>,
        dev: bool,
    )
        ensures
            (final(features).deep_view(), final(deps_for_features).deep_view()) == added_targets(
                (old(features).deep_view(), old(deps_for_features).deep_view()),
                target@,
                sorted_seq(target@.dom()),
                named_using_dep_syntax@,
                dev,
            ),
    {
        let n = target.len();
        let ghost keys = sorted_seq(target@.dom());
        let ghost s0 = (features.deep_view(), deps_for_features.deep_view());
        let ghost named = named_using_dep_syntax@;
        proof {
            assert(keys.take(0) =~= Seq::<Seq<char>>::empty());
        }
        let mut i: usize = 0;
        while i < n
            invariant
                i <= n,
                n == keys.len(),
                keys == sorted_seq(target@.dom()),
                named == named_using_dep_syntax@,
                (features.deep_view(), deps_for_features.deep_view()) == added_targets(
                    s0,
                    target@,
                    keys.take(i as int),
                    named,
                    dev,
                ),
            decreases n - i,
        {
            let cfg = target.key_at(i);
            let t = target.value_at(i);
            proof {
                assert(keys.take(i as int + 1).drop_last() =~= keys.take(i as int));
                assert(keys.take(i as int + 1).last() == keys[i as int]);
            }
            if dev {
                Self::add_implied_optional_deps(
                    features,
                    deps_for_features,
                    &t.dev_dependencies,
                    named_using_dep_syntax,
                    Kind::Dev,
                    Some(cfg.as_str()),
                );
            } else {
                Self::add_implied_optional_deps(
                    features,
                    deps_for_features,
                    &t.dependencies,
                    named_using_dep_syntax,
                    Kind::Normal,
                    Some(cfg.as_str()),
                );
                Self::add_implied_optional_deps(
                    features,
                    deps_for_features,
                    &t.build_dependencies,
                    named_using_dep_syntax,
                    Kind::Build,
                    Some(cfg.as_str()),
                );
            }
            i += 1;
        }
        proof {
            assert(keys.take(n as int) =~= keys);
        }
    }

    /// Gathers the dependencies that features speak of or that are optional, and gives
    /// the graph a feature for each optional dependency that is to have one. See
    /// [`added_dependencies`].
    pub fn add_dependencies<'d>(
        features: &mut StrMap<Feature>,
        dependencies: &'d StrMap<Dependency>,
        build_dependencies: &'d StrMap<Dependency>,
        dev_dependencies: &'d StrMap<Dependency>,
        target: &'d StrMap<Target>,
    ) -> (all_deps: StrMap<FeatureDependency<'d>>)
        ensures
            (final(features).deep_view(), all_deps.deep_view()) == added_dependencies(
                old(features).deep_view(),
                dependencies@,
                build_dependencies@,
                dev_dependencies@,
                target@,
            ),
            deps_in_order(all_deps.deep_view()),
    {
        let named = Self::named_using_dep_syntax(features);
        let mut all_deps: StrMap<FeatureDependency<'d>> = StrMap::new();
        proof {
            lemma_added_dependencies_in_order(
                features.deep_view(),
                dependencies@,
                build_dependencies@,
                dev_dependencies@,
                target@,
            );
            lemma_deep_map_empty::<FeatureDependency<'d>>();
        }
        Self::add_implied_optional_deps(features, &mut all_deps, dependencies, &named, Kind::Normal, None);
        Self::add_implied_optional_deps(
            features,
            &mut all_deps,
            build_dependencies,
            &named,
            Kind::Build,
            None,
        );
        Self::add_target_deps(features, &mut all_deps, target, &named, false);
        Self::add_implied_optional_deps(features, &mut all_deps, dev_dependencies, &named, Kind::Dev, None);
        Self::add_target_deps(features, &mut all_deps, target, &named, true);
        all_deps
    }

    /// Notes each binary at the features it asks for. A binary without a name goes by
    /// the package's.
    pub fn set_required_by_bins(features: &mut StrMap<Feature>, bin: &[Product], package_name: &str)
        ensures
            final(features).deep_view() == required_by_bins(
                old(features).deep_view(),
                bin@,
                package_name@,
            ),
    {
        let ghost g0 = features.deep_view();
        let mut i: usize = 0;
        proof {
            assert(bin@.take(0) =~= Seq::<Product>::empty());
        }
        while i < bin.len()
            invariant
                i <= bin@.len(),
                features.deep_view() == required_by_bins(g0, bin@.take(i as int), package_name@),
            decreases bin@.len() - i,
        {
            let b = &bin[i];
            let ghost g1 = features.deep_view();
            let ghost req = b.required_features.deep_view();
            let ghost name = bin_name(*b, package_name@);
            let mut j: usize = 0;
            proof {
                assert(req.take(0) =~= Seq::<Seq<char>>::empty());
            }
            while j < b.required_features.len()
                invariant
                    j <= b.required_features@.len(),
                    req == b.required_features.deep_view(),
                    name == bin_name(*b, package_name@),
                    features.deep_view() == required_by_bin(g1, req.take(j as int), name),
                decreases b.required_features@.len() - j,
            {
                let f = &b.required_features[j];
                let bin_name = match &b.name {
                    Some(n) => n.as_str(),
                    None => package_name,
                };
                let ghost before = features@;
                proof {
                    assert(req[j as int] == f@);
                    assert(req.take(j as int + 1).drop_last() =~= req.take(j as int));
                    assert(req.take(j as int + 1).last() == req[j as int]);
                }
                match features.remove(f.as_str()) {
                    Some(mut feature) => {
                        let ghost mid = features@;
                        let ghost old_bins = feature.required_by_bins.deep_view();
                        feature.required_by_bins.push(bin_name.to_owned());
                        proof {
                            assert(feature.required_by_bins.deep_view() =~= old_bins.push(name));
                        }
                        features.insert(f.clone(), feature);
                        proof {
                            lemma_deep_map_remove(before, f@);
                            lemma_deep_map_insert(mid, f@, feature);
                            assert(features.deep_view() =~= required_once(
                                deep_map(before),
                                f@,
                                name,
                            ));
                        }
                    },
                    None => {
                        assert(features.deep_view() =~= deep_map(before));
                    },
                }
                j += 1;
            }
            proof {
                assert(req.take(b.required_features@.len() as int) =~= req);
                assert(bin@.take(i as int + 1).drop_last() =~= bin@.take(i as int));
                assert(bin@.take(i as int + 1).last() == bin@[i as int]);
            }
            i += 1;
        }
        proof {
            assert(bin@.take(bin@.len() as int) =~= bin@);
        }
    }

    /// Takes out of every action the features that the dependency's first declaration
    /// makes redundant. See [`pruned`].
    pub fn remove_redundant_dep_action_features<'d>(
        features: &mut StrMap<Feature>,
        dependencies: &StrMap<FeatureDependency<'d>>,
    )
        ensures
            final(features).deep_view() == pruned(old(features).deep_view(), dependencies.deep_view()),
    {
        let keys = features.keys();
        let ghost ks = sorted_seq(features@.dom());
        let ghost g0 = features.deep_view();
        let ghost deps = dependencies.deep_view();
        proof {
            lemma_sorted_seq_dom(features@.dom());
            assert(g0.dom() =~= features@.dom());
        }
        let mut i: usize = 0;
        assert(features.deep_view() =~= Map::new(
            |k: Seq<char>| g0.dom().contains(k),
            |k: Seq<char>|
                if ks.take(0).to_set().contains(k) {
                    pruned(g0, deps)[k]
                } else {
                    g0[k]
                },
        ));
        while i < keys.len()
            invariant
                i <= keys@.len(),
                keys.deep_view() == ks,
                ks.to_set() == g0.dom(),
                ks.no_duplicates(),
                deps == dependencies.deep_view(),
                features.deep_view() == Map::new(
                    |k: Seq<char>| g0.dom().contains(k),
                    |k: Seq<char>|
                        if ks.take(i as int).to_set().contains(k) {
                            pruned(g0, deps)[k]
                        } else {
                            g0[k]
                        },
                ),
            decreases keys@.len() - i,
        {
            let key = &keys[i];
            proof {
                assert(ks[i as int] == keys@[i as int]@);
                assert(ks.to_set().contains(ks[i as int]));
                lemma_take_push_set(ks, i as int);
                if ks.take(i as int).to_set().contains(ks[i as int]) {
                    let j = choose|j: int| 0 <= j < i && ks.take(i as int)[j] == ks[i as int];
                    assert(ks[j] == ks[i as int]);
                }
            }
            let ghost before = features@;
            assert(features.deep_view().dom().contains(key@));
            assert(features@.dom().contains(key@));
            assert(features.deep_view()[key@] == g0[key@]);
            let f = features.remove(key.as_str());
            let mut f = f.unwrap();
            let ghost mid = features@;
            let ghost f_old = f@;
            prune_actions(&mut f.enables_deps, dependencies);
            features.insert(key.clone(), f);
            proof {
                lemma_deep_map_remove(before, key@);
                lemma_deep_map_insert(mid, key@, f);
                assert(f_old == g0[key@]);
                assert(f@ == pruned(g0, deps)[key@]);
                assert(features.deep_view() =~= deep_map(before).insert(key@, pruned(g0, deps)[key@]));
                assert(features.deep_view() =~= Map::new(
                    |k: Seq<char>| g0.dom().contains(k),
                    |k: Seq<char>|
                        if ks.take(i as int + 1).to_set().contains(k) {
                            pruned(g0, deps)[k]
                        } else {
                            g0[k]
                        },
                ));
            }
            i += 1;
        }
        proof {
            assert(ks.take(keys@.len() as int) =~= ks);
            assert(features.deep_view() =~= pruned(g0, deps));
        }
    }
}

impl Resolver {
    /// Finds the names that features use as those of dependencies, and whether any of
    /// them is written with `dep:`. The features' own keys are among the names.
    pub fn named_using_dep_syntax(features: &StrMap<Feature>) -> (named: StrMap<bool>)
        ensures
            named@ == named_by_dep_syntax(features.deep_view()),
    {
        let n = features.len();
        let ghost g = features.deep_view();
        let ghost keys = sorted_seq(features@.dom());
        proof {
            lemma_sorted_seq_dom(features@.dom());
            assert(g.dom() =~= features@.dom());
        }
        let mut named: StrMap<bool> = StrMap::new();
        let mut i: usize = 0;
        while i < n
            invariant
                i <= n,
                n == keys.len(),
                keys == sorted_seq(features@.dom()),
                named@.dom() == keys.take(i as int).to_set(),
                forall|k: Seq<char>| #[trigger] named@.dom().contains(k) ==> !named@[k],
            decreases n - i,
        {
            let key = features.key_at(i);
            named.insert(key.clone(), false);
            proof {
                lemma_take_push_set(keys, i as int);
            }
            i += 1;
        }
        proof {
            assert(keys.take(n as int) =~= keys);
            assert(named@ =~= named_so_far(g, keys.take(0).to_set()));
        }
        i = 0;
        while i < n
            invariant
                i <= n,
                n == keys.len(),
                keys == sorted_seq(features@.dom()),
                keys.to_set() == features@.dom(),
                g == features.deep_view(),
                g.dom() == features@.dom(),
                named@ == named_so_far(g, keys.take(i as int).to_set()),
            decreases n - i,
        {
            let f = features.value_at(i);
            let ghost before = named@;
            note_feature(&mut named, f);
            proof {
                lemma_take_push_set(keys, i as int);
                let k = keys[i as int];
                assert(g[k] == f@);
                let s1 = keys.take(i as int).to_set();
                let s2 = keys.take(i as int + 1).to_set();
                let want = named_so_far(g, s2);
                assert forall|d: Seq<char>| named@.dom().contains(d) == want.dom().contains(d) by {
                    if want.dom().contains(d) && !g.dom().contains(d) {
                        let w = choose|w: Seq<char>|
                            s2.contains(w) && #[trigger] g[w].enables_deps.dom().contains(d);
                        if w != k {
                            assert(s1.contains(w));
                        }
                    }
                    if before.dom().contains(d) && !g.dom().contains(d) {
                        let w = choose|w: Seq<char>|
                            s1.contains(w) && #[trigger] g[w].enables_deps.dom().contains(d);
                        assert(s2.contains(w));
                    }
                    if f@.enables_deps.dom().contains(d) {
                        assert(s2.contains(k) && g[k].enables_deps.dom().contains(d));
                    }
                }
                assert forall|d: Seq<char>| named@.dom().contains(d) implies named@[d] == want[d] by {
                    if want[d] {
                        let w = choose|w: Seq<char>|
                            s2.contains(w) && #[trigger] g[w].enables_deps.dom().contains(d)
                                && g[w].enables_deps[d].is_dep_only;
                        if w != k {
                            assert(s1.contains(w));
                            assert(before[d]);
                        }
                    }
                    if before.dom().contains(d) && before[d] {
                        let w = choose|w: Seq<char>|
                            s1.contains(w) && #[trigger] g[w].enables_deps.dom().contains(d)
                                && g[w].enables_deps[d].is_dep_only;
                        assert(s2.contains(w));
                    }
                    if f@.enables_deps.dom().contains(d) && f@.enables_deps[d].is_dep_only {
                        assert(s2.contains(k) && g[k].enables_deps.dom().contains(d));
                    }
                }
                assert(named@ =~= want);
            }
            i += 1;
        }
        proof {
            assert(keys.take(n as int) =~= keys);
            assert(named@ =~= named_by_dep_syntax(g));
        }
        named
    }
}

} // verus!
