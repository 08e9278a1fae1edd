//! What holds of every graph that the resolver builds.

use vstd::prelude::*;
use crate::dependency::Dependency;
use crate::manifest::{Manifest, Target};
use crate::product::Product;
use crate::features::{MAX_ITEMS, merge_actions, DepActionView, FeaturesView, GraphView, Kind, ParseDependency};
use crate::features::actions::{action_at, default_key, dep_occurs, feature_occurs, first_keys, merged_action, parsed_feature, parsed_features};
use crate::features::deps::{added_dependencies, added_dependency, added_in_turn, added_section, added_targets, named_by_dep_syntax, pruned, required_by_bin, required_by_bins, required_once, DepsView};
use crate::features::link::{enablers, linked, plainly_enables};
use crate::features::hidden::{hidden_keys, updated, without_all, without_hidden, plain_deps, Role};
use crate::features::resolve::{custom_added_all, declares_default, finished, gathered, gathered_custom, resolved, resolved_custom};
use crate::strmap::{lemma_finite_keys, lemma_deep_map_dom};
use crate::order::{sorted_seq, has_order, lemma_finite_has_order};
use crate::text::has_hidden_marker;

verus! {

/// Merging two actions does not depend on which comes first.
pub proof fn lemma_merge_commutes(a: DepActionView, b: DepActionView)
    ensures
        merge_actions(a, b) == merge_actions(b, a),
{
    assert(a.dep_features.union(b.dep_features) =~= b.dep_features.union(a.dep_features));
}

/// Merging three actions does not depend on which two are merged first.
pub proof fn lemma_merge_associates(a: DepActionView, b: DepActionView, c: DepActionView)
    ensures
        merge_actions(merge_actions(a, b), c) == merge_actions(a, merge_actions(b, c)),
{
    assert(a.dep_features.union(b.dep_features).union(c.dep_features) =~= a.dep_features.union(
        b.dep_features.union(c.dep_features),
    ));
}

/// Merging an action with itself changes nothing.
pub proof fn lemma_merge_idempotent(a: DepActionView)
    ensures
        merge_actions(a, a) == a,
{
    assert(a.dep_features.union(a.dep_features) =~= a.dep_features);
}

/// A conditional action merged with an unconditional one is unconditional, a
/// dependency-only action merged with any other is dependency-only, and the merged
/// action asks for the features of both.
pub proof fn lemma_merge_rule(a: DepActionView, b: DepActionView)
    ensures
        (!a.is_conditional || !b.is_conditional) ==> !merge_actions(a, b).is_conditional,
        (a.is_dep_only || b.is_dep_only) ==> merge_actions(a, b).is_dep_only,
        forall|f: Seq<char>|
            merge_actions(a, b).dep_features.contains(f) <==> a.dep_features.contains(f)
                || b.dep_features.contains(f),
{
}

/// What a feature's actions come to does not depend on their order, nor on how often
/// one is written: two runs of actions that hold the same actions, and none beyond
/// those that are read, declare the same feature.
pub proof fn lemma_parsed_feature_order_free(key: Seq<char>, a: Seq<Seq<char>>, b: Seq<Seq<char>>)
    requires
        a.len() <= MAX_ITEMS,
        b.len() <= MAX_ITEMS,
        a.to_set() == b.to_set(),
    ensures
        parsed_feature(key, a) == parsed_feature(key, b),
{
    lemma_parsed_feature_within(key, a, b);
    lemma_parsed_feature_within(key, b, a);
    let p = parsed_feature(key, a);
    let q = parsed_feature(key, b);
    assert(p.enables_features =~= q.enables_features);
    assert forall|t: Seq<char>| p.enables_deps.dom().contains(t) implies p.enables_deps[t]
        == q.enables_deps[t] by {
        let x = merged_action(a, t);
        let y = merged_action(b, t);
        assert(x.dep_features =~= y.dep_features);
    }
    assert(p.enables_deps =~= q.enables_deps);
}

/// Whatever one run of actions says, another says too that holds all its actions.
proof fn lemma_parsed_feature_within(key: Seq<char>, a: Seq<Seq<char>>, b: Seq<Seq<char>>)
    requires
        a.len() <= MAX_ITEMS,
        b.len() <= MAX_ITEMS,
        a.to_set() == b.to_set(),
    ensures
        forall|i: int, t: Seq<char>| #[trigger]
            dep_occurs(a, i, t) ==> exists|j: int| #[trigger]
                dep_occurs(b, j, t) && action_at(b, j) == action_at(a, i),
        forall|i: int, t: Seq<char>| #[trigger]
            feature_occurs(a, i, t) ==> exists|j: int| #[trigger] feature_occurs(b, j, t),
{
    assert forall|i: int, t: Seq<char>| #[trigger] dep_occurs(a, i, t) implies exists|j: int| #[trigger]
        dep_occurs(b, j, t) && action_at(b, j) == action_at(a, i) by {
        assert(a.to_set().contains(a[i]));
        let j = choose|j: int| 0 <= j < b.len() && b[j] == a[i];
        assert(dep_occurs(b, j, t) && action_at(b, j) == action_at(a, i));
    }
    assert forall|i: int, t: Seq<char>| #[trigger] feature_occurs(a, i, t) implies exists|j: int| #[trigger]
        feature_occurs(b, j, t) by {
        assert(a.to_set().contains(a[i]));
        let j = choose|j: int| 0 <= j < b.len() && b[j] == a[i];
        assert(feature_occurs(b, j, t));
    }
}

/// Taking the redundant features out of the actions changes no edge of the graph:
/// which features and dependencies a feature switches on, under which conditions,
/// and which features switch it on are the same with and without it.
pub proof fn lemma_pruning_keeps_edges(g: GraphView, deps: DepsView, k: Seq<char>)
    requires
        g.dom().contains(k),
    ensures
        linked(pruned(g, deps)).dom() == linked(g).dom(),
        linked(pruned(g, deps))[k].enabled_by == linked(g)[k].enabled_by,
        linked(pruned(g, deps))[k].enables_features == linked(g)[k].enables_features,
        linked(pruned(g, deps))[k].enables_deps.dom() == linked(g)[k].enables_deps.dom(),
        forall|d: Seq<char>| #[trigger]
            linked(g)[k].enables_deps.dom().contains(d) ==> {
                &&& linked(pruned(g, deps))[k].enables_deps[d].is_conditional
                    == linked(g)[k].enables_deps[d].is_conditional
                &&& linked(pruned(g, deps))[k].enables_deps[d].is_dep_only
                    == linked(g)[k].enables_deps[d].is_dep_only
                &&& linked(pruned(g, deps))[k].enables_deps[d].dep_features.subset_of(
                    linked(g)[k].enables_deps[d].dep_features,
                )
            },
{
    let p = pruned(g, deps);
    assert(p.dom() =~= g.dom());
    assert(linked(p).dom() =~= linked(g).dom());
    assert forall|x: Seq<char>, f: Seq<char>| g.dom().contains(f) implies plainly_enables(p[f], x)
        == plainly_enables(g[f], x) by {}
    assert(enablers(p, k) =~= enablers(g, k));
    assert(linked(p)[k].enables_deps.dom() =~= linked(g)[k].enables_deps.dom());
}

/// Finding again which features switch each feature on changes nothing.
pub proof fn lemma_linking_twice(g: GraphView)
    ensures
        linked(linked(g)) == linked(g),
{
    let l = linked(g);
    assert(l.dom() =~= g.dom());
    assert forall|x: Seq<char>| enablers(l, x) =~= enablers(g, x) by {
        assert forall|f: Seq<char>| g.dom().contains(f) implies plainly_enables(l[f], x)
            == plainly_enables(g[f], x) by {}
    }
    assert forall|k: Seq<char>| l.dom().contains(k) implies linked(l)[k] == l[k] by {
        assert(enablers(l, k) =~= enablers(g, k));
    }
    assert(linked(l) =~= l);
}

/// A graph has finitely many features, and each lies under its own name.
pub open spec fn well_keyed(g: GraphView) -> bool {
    &&& g.dom().finite()
    &&& forall|k: Seq<char>| g.dom().contains(k) ==> (#[trigger] g[k]).key == k
}

/// The graph of declared features is well keyed.
pub proof fn lemma_parsed_features_well_keyed(
    features: Map<Seq<char>, Seq<Seq<char>>>,
    has_explicit_default: bool,
)
    requires
        features.dom().finite(),
    ensures
        well_keyed(parsed_features(features, has_explicit_default)),
        !has_explicit_default || first_keys(features.dom()).contains(default_key())
            ==> parsed_features(features, has_explicit_default).dom().contains(default_key()),
{
    let g = parsed_features(features, has_explicit_default);
    let fk = first_keys(features.dom());
    vstd::seq_lib::seq_to_set_is_finite(fk);
    if has_explicit_default {
        assert(g.dom() =~= fk.to_set());
    } else {
        assert(g.dom() =~= fk.to_set().insert(default_key()));
    }
}

/// Meeting a declaration of a dependency keeps the graph well keyed and takes no
/// feature out of it.
pub proof fn lemma_added_dependency_well_keyed(
    state: (GraphView, DepsView),
    named: Option<bool>,
    kind: Kind,
    target: Option<Seq<char>>,
    key: Seq<char>,
    dep: Dependency,
)
    requires
        well_keyed(state.0),
    ensures
        well_keyed(added_dependency(state, named, kind, target, key, dep).0),
        state.0.dom().subset_of(added_dependency(state, named, kind, target, key, dep).0.dom()),
{
}

/// Meeting declarations in turn keeps the graph well keyed and takes no feature out.
pub proof fn lemma_added_in_turn_well_keyed(
    state: (GraphView, DepsView),
    crate_deps: Map<Seq<char>, Dependency>,
    keys: Seq<Seq<char>>,
    named: Map<Seq<char>, bool>,
    kind: Kind,
    target: Option<Seq<char>>,
)
    requires
        well_keyed(state.0),
    ensures
        well_keyed(added_in_turn(state, crate_deps, keys, named, kind, target).0),
        state.0.dom().subset_of(added_in_turn(state, crate_deps, keys, named, kind, target).0.dom()),
    decreases keys.len(),
{
    if keys.len() > 0 {
        lemma_added_in_turn_well_keyed(state, crate_deps, keys.drop_last(), named, kind, target);
        lemma_added_dependency_well_keyed(
            added_in_turn(state, crate_deps, keys.drop_last(), named, kind, target),
            crate::features::deps::lookup(named, keys.last()),
            kind,
            target,
            keys.last(),
            crate_deps[keys.last()],
        );
    }
}

/// Reading the dependencies of targets keeps the graph well keyed and takes no
/// feature out.
pub proof fn lemma_added_targets_well_keyed(
    state: (GraphView, DepsView),
    targets: Map<Seq<char>, Target>,
    keys: Seq<Seq<char>>,
    named: Map<Seq<char>, bool>,
    dev: bool,
)
    requires
        well_keyed(state.0),
    ensures
        well_keyed(added_targets(state, targets, keys, named, dev).0),
        state.0.dom().subset_of(added_targets(state, targets, keys, named, dev).0.dom()),
    decreases keys.len(),
{
    if keys.len() > 0 {
        lemma_added_targets_well_keyed(state, targets, keys.drop_last(), named, dev);
        let prev = added_targets(state, targets, keys.drop_last(), named, dev);
        let k = keys.last();
        let t = targets[k];
        if dev {
            lemma_added_in_turn_well_keyed(
                prev,
                t.dev_dependencies@,
                first_keys(t.dev_dependencies@.dom()),
                named,
                Kind::Dev,
                Some(k),
            );
        } else {
            lemma_added_in_turn_well_keyed(
                prev,
                t.dependencies@,
                first_keys(t.dependencies@.dom()),
                named,
                Kind::Normal,
                Some(k),
            );
            lemma_added_in_turn_well_keyed(
                added_section(prev, t.dependencies@, named, Kind::Normal, Some(k)),
                t.build_dependencies@,
                first_keys(t.build_dependencies@.dom()),
                named,
                Kind::Build,
                Some(k),
            );
        }
    }
}

/// Reading all sections of dependencies keeps the graph well keyed and takes no
/// feature out.
pub proof fn lemma_added_dependencies_well_keyed(
    features: GraphView,
    dependencies: Map<Seq<char>, Dependency>,
    build_dependencies: Map<Seq<char>, Dependency>,
    dev_dependencies: Map<Seq<char>, Dependency>,
    target: Map<Seq<char>, Target>,
)
    requires
        well_keyed(features),
    ensures
        well_keyed(
            added_dependencies(features, dependencies, build_dependencies, dev_dependencies, target).0,
        ),
        features.dom().subset_of(
            added_dependencies(
                features,
                dependencies,
                build_dependencies,
                dev_dependencies,
                target,
            ).0.dom(),
        ),
{
    let named = named_by_dep_syntax(features);
    let s0 = (features, Map::<Seq<char>, crate::features::FeatureDependencyView>::empty());
    lemma_added_in_turn_well_keyed(
        s0,
        dependencies,
        first_keys(dependencies.dom()),
        named,
        Kind::Normal,
        None,
    );
    let s1 = added_section(s0, dependencies, named, Kind::Normal, None);
    lemma_added_in_turn_well_keyed(
        s1,
        build_dependencies,
        first_keys(build_dependencies.dom()),
        named,
        Kind::Build,
        None,
    );
    let s2 = added_section(s1, build_dependencies, named, Kind::Build, None);
    lemma_added_targets_well_keyed(s2, target, sorted_seq(target.dom()), named, false);
    let s3 = added_targets(s2, target, sorted_seq(target.dom()), named, false);
    lemma_added_in_turn_well_keyed(
        s3,
        dev_dependencies,
        first_keys(dev_dependencies.dom()),
        named,
        Kind::Dev,
        None,
    );
    let s4 = added_section(s3, dev_dependencies, named, Kind::Dev, None);
    lemma_added_targets_well_keyed(s4, target, sorted_seq(target.dom()), named, true);
}

/// Noting a binary at features keeps the graph well keyed, with the same features.
pub proof fn lemma_required_by_bin_well_keyed(
    g: GraphView,
    required: Seq<Seq<char>>,
    bin_name: Seq<char>,
)
    requires
        well_keyed(g),
    ensures
        well_keyed(required_by_bin(g, required, bin_name)),
        required_by_bin(g, required, bin_name).dom() == g.dom(),
        forall|k: Seq<char>|
            g.dom().contains(k) ==> (#[trigger] required_by_bin(g, required, bin_name)[k]).enables_deps
                == g[k].enables_deps,
    decreases required.len(),
{
    if required.len() > 0 {
        lemma_required_by_bin_well_keyed(g, required.drop_last(), bin_name);
        let prev = required_by_bin(g, required.drop_last(), bin_name);
        assert(required_once(prev, required.last(), bin_name).dom() =~= prev.dom());
    }
}

/// Noting the binaries keeps the graph well keyed, with the same features.
pub proof fn lemma_required_by_bins_well_keyed(
    g: GraphView,
    bins: Seq<Product>,
    package_name: Seq<char>,
)
    requires
        well_keyed(g),
    ensures
        well_keyed(required_by_bins(g, bins, package_name)),
        required_by_bins(g, bins, package_name).dom() == g.dom(),
        forall|k: Seq<char>|
            g.dom().contains(k) ==> (#[trigger] required_by_bins(g, bins, package_name)[k]).enables_deps
                == g[k].enables_deps,
    decreases bins.len(),
{
    if bins.len() > 0 {
        lemma_required_by_bins_well_keyed(g, bins.drop_last(), package_name);
        lemma_required_by_bin_well_keyed(
            required_by_bins(g, bins.drop_last(), package_name),
            bins.last().required_features.deep_view(),
            crate::features::deps::bin_name(bins.last(), package_name),
        );
    }
}

/// Pruning and linking keep the graph well keyed, with the same features.
pub proof fn lemma_linked_pruned_well_keyed(g: GraphView, deps: DepsView)
    requires
        well_keyed(g),
    ensures
        well_keyed(pruned(g, deps)),
        pruned(g, deps).dom() == g.dom(),
        well_keyed(linked(g)),
        linked(g).dom() == g.dom(),
{
    assert(pruned(g, deps).dom() =~= g.dom());
    assert(linked(g).dom() =~= g.dom());
}

/// Taking a feature out keeps the graph well keyed and takes out that feature only.
pub proof fn lemma_without_hidden_well_keyed(g: GraphView, key: Seq<char>)
    requires
        well_keyed(g),
    ensures
        well_keyed(without_hidden(g, key)),
        without_hidden(g, key).dom() == g.dom().remove(key),
{
    if g.dom().contains(key) {
        let h = g[key];
        let g1 = updated(g.remove(key), h.enabled_by, h, Role::Parent);
        let g2 = updated(g1, h.enables_features, h, Role::Successor);
        let g3 = updated(g2, plain_deps(h), h, Role::Dependency);
        assert(g1.dom() =~= g.dom().remove(key));
        assert(g2.dom() =~= g1.dom());
        assert(g3.dom() =~= g2.dom());
    } else {
        assert(g.dom().remove(key) =~= g.dom());
    }
}

/// Taking features out keeps the graph well keyed and takes out those features only.
pub proof fn lemma_without_all_well_keyed(g: GraphView, keys: Seq<Seq<char>>)
    requires
        well_keyed(g),
    ensures
        well_keyed(without_all(g, keys)),
        without_all(g, keys).dom() == g.dom().difference(keys.to_set()),
    decreases keys.len(),
{
    if keys.len() == 0 {
        assert(g.dom().difference(keys.to_set()) =~= g.dom());
    } else {
        let prev = without_all(g, keys.drop_last());
        lemma_without_all_well_keyed(g, keys.drop_last());
        lemma_without_hidden_well_keyed(prev, keys.last());
        assert forall|x: Seq<char>| keys.to_set().contains(x) == (keys.drop_last().to_set().contains(
            x,
        ) || x == keys.last()) by {
            if keys.to_set().contains(x) {
                let i = choose|i: int| 0 <= i < keys.len() && keys[i] == x;
                if i < keys.len() - 1 {
                    assert(keys.drop_last()[i] == x);
                }
            }
            if keys.drop_last().to_set().contains(x) {
                let i = choose|i: int| 0 <= i < keys.drop_last().len() && keys.drop_last()[i] == x;
                assert(keys[i] == x);
            }
            if x == keys.last() {
                assert(keys[keys.len() - 1] == x);
            }
        }
        assert(without_all(g, keys).dom() =~= g.dom().difference(keys.to_set()));
    }
}

/// The hidden features of a well keyed graph can be laid out in order.
pub proof fn lemma_hidden_keys_ordered(g: GraphView, kept: Set<Seq<char>>)
    requires
        g.dom().finite(),
    ensures
        hidden_keys(g, kept).finite(),
        has_order(hidden_keys(g, kept)),
        sorted_seq(hidden_keys(g, kept)).to_set() == hidden_keys(g, kept),
        sorted_seq(hidden_keys(g, kept)).no_duplicates(),
{
    let h = hidden_keys(g, kept);
    assert(h.subset_of(g.dom()));
    vstd::set_lib::lemma_len_subset(h, g.dom());
    lemma_finite_has_order(h);
}

/// The last steps leave the graph well keyed, and take out of it the hidden features
/// and no other.
pub proof fn lemma_finished_well_keyed(g: GraphView, deps: DepsView, kept: Set<Seq<char>>)
    requires
        well_keyed(g),
    ensures
        well_keyed(finished(g, deps, kept).features),
        finished(g, deps, kept).features.dom() == g.dom().difference(hidden_keys(g, kept)),
{
    lemma_linked_pruned_well_keyed(g, deps);
    let p = pruned(g, deps);
    lemma_linked_pruned_well_keyed(p, deps);
    let l = linked(p);
    lemma_hidden_keys_ordered(l, kept);
    lemma_without_all_well_keyed(l, sorted_seq(hidden_keys(l, kept)));
    assert(hidden_keys(l, kept) =~= hidden_keys(g, kept));
}

/// What is gathered from a manifest is well keyed and holds the feature `default`,
/// whether or not the manifest declares it.
pub proof fn lemma_gathered_fresh<M>(m: Manifest<M>)
    ensures
        well_keyed(gathered(m).0),
        gathered(m).0.dom().contains(default_key()),
{
    let declared = m.features.deep_view();
    lemma_finite_keys(m.features);
    lemma_deep_map_dom(m.features@);
    lemma_parsed_features_well_keyed(declared, declares_default(declared));
    let g0 = parsed_features(declared, declares_default(declared));
    lemma_added_dependencies_well_keyed(
        g0,
        m.dependencies@,
        m.build_dependencies@,
        m.dev_dependencies@,
        m.target@,
    );
    let (g1, deps) = added_dependencies(
        g0,
        m.dependencies@,
        m.build_dependencies@,
        m.dev_dependencies@,
        m.target@,
    );
    lemma_required_by_bins_well_keyed(g1, m.bin@, crate::features::resolve::package_name(m));
}

/// The graph of a manifest is well keyed and holds the feature `default`, whether or
/// not the manifest declares it.
pub proof fn lemma_resolved_has_default<M>(m: Manifest<M>, kept: Set<Seq<char>>)
    ensures
        well_keyed(resolved(m, kept).features),
        resolved(m, kept).features.dom().contains(default_key()),
{
    lemma_gathered_fresh(m);
    lemma_finished_well_keyed(gathered(m).0, gathered(m).1, kept);
    lemma_default_not_hidden();
}

/// The name `default` does not begin with `_`.
pub proof fn lemma_default_not_hidden()
    ensures
        !has_hidden_marker(default_key()),
{
    reveal_strlit("default");
}

/// Meeting declarations that are handed over one by one keeps the graph well keyed
/// and takes no feature out.
pub proof fn lemma_custom_added_all_well_keyed(
    state: (GraphView, DepsView),
    named: Map<Seq<char>, bool>,
    deps: Seq<ParseDependency>,
)
    requires
        well_keyed(state.0),
    ensures
        well_keyed(custom_added_all(state, named, deps).0),
        state.0.dom().subset_of(custom_added_all(state, named, deps).0.dom()),
    decreases deps.len(),
{
    if deps.len() > 0 {
        lemma_custom_added_all_well_keyed(state, named, deps.drop_last());
        let prev = custom_added_all(state, named, deps.drop_last());
        let d = deps.last();
        lemma_added_dependency_well_keyed(
            prev,
            crate::features::deps::lookup(named, d.key@),
            d.kind,
            match d.target {
                Some(t) => Some(t@),
                None => None,
            },
            d.key@,
            *d.dep,
        );
    }
}

/// What is gathered from declared features and from dependencies handed over one by
/// one is well keyed and holds the feature `default`.
pub proof fn lemma_gathered_custom_fresh(
    declared: Map<Seq<char>, Seq<Seq<char>>>,
    deps: Seq<ParseDependency>,
)
    requires
        declared.dom().finite(),
    ensures
        well_keyed(gathered_custom(declared, deps).0),
        gathered_custom(declared, deps).0.dom().contains(default_key()),
{
    lemma_parsed_features_well_keyed(declared, declares_default(declared));
    let g0 = parsed_features(declared, declares_default(declared));
    let s0 = (g0, Map::<Seq<char>, crate::features::FeatureDependencyView>::empty());
    lemma_custom_added_all_well_keyed(s0, named_by_dep_syntax(g0), deps);
}

/// The graph of declared features and of dependencies handed over one by one is well
/// keyed and holds the feature `default`.
pub proof fn lemma_resolved_custom_has_default(
    declared: Map<Seq<char>, Seq<Seq<char>>>,
    deps: Seq<ParseDependency>,
    kept: Set<Seq<char>>,
)
    requires
        declared.dom().finite(),
    ensures
        well_keyed(resolved_custom(declared, deps, kept).features),
        resolved_custom(declared, deps, kept).features.dom().contains(default_key()),
{
    lemma_gathered_custom_fresh(declared, deps);
    lemma_finished_well_keyed(
        gathered_custom(declared, deps).0,
        gathered_custom(declared, deps).1,
        kept,
    );
    lemma_default_not_hidden();
}

/// Two graphs built from the same manifest with the same names to keep are the same:
/// they hold the same features under the same keys, the same dependencies, and the
/// same record of what was taken out.
pub proof fn lemma_resolved_twice<M>(m: Manifest<M>, kept: Set<Seq<char>>, a: FeaturesView, b: FeaturesView)
    requires
        a == resolved(m, kept),
        b == resolved(m, kept),
    ensures
        a.features.dom() == b.features.dom(),
        forall|k: Seq<char>| a.features.dom().contains(k) ==> a.features[k] == b.features[k],
        a.dependencies == b.dependencies,
        a.hidden_features == b.hidden_features,
        a.removed_hidden_features == b.removed_hidden_features,
{
}

/// The same of declared features and dependencies that are handed over one by one.
pub proof fn lemma_resolved_custom_twice(
    declared: Map<Seq<char>, Seq<Seq<char>>>,
    deps: Seq<ParseDependency>,
    kept: Set<Seq<char>>,
    a: FeaturesView,
    b: FeaturesView,
)
    requires
        a == resolved_custom(declared, deps, kept),
        b == resolved_custom(declared, deps, kept),
    ensures
        a.features.dom() == b.features.dom(),
        forall|k: Seq<char>| a.features.dom().contains(k) ==> a.features[k] == b.features[k],
        a.dependencies == b.dependencies,
        a.hidden_features == b.hidden_features,
        a.removed_hidden_features == b.removed_hidden_features,
{
}

} // verus!
