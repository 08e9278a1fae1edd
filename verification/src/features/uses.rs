//! The order of the declarations of a dependency: each use once, the most common use
//! first.

use vstd::prelude::*;
use crate::dependency::Dependency;
use crate::manifest::Target;
use crate::features::{target_key_lt, uses_ordered, FeatureDependencyView, GraphView, Kind, ParseDependency, TargetKeyView};
use crate::features::actions::first_keys;
use crate::features::deps::{added_dependencies, added_dependency, added_in_turn, added_section, added_targets, insert_target, lookup, named_by_dep_syntax, DepsView};
use crate::features::resolve::{custom_added_all, finished, gathered, gathered_custom};
use crate::manifest::Manifest;
use crate::order::sorted_seq;
use crate::text::{lemma_lex_total, lemma_lex_transitive};

verus! {

/// Of two different uses one comes before the other.
pub proof fn lemma_uses_total(a: TargetKeyView, b: TargetKeyView)
    ensures
        a == b || target_key_lt(a, b) || target_key_lt(b, a),
{
    if a.kind == b.kind {
        match (a.target, b.target) {
            (Some(x), Some(y)) => {
                lemma_lex_total(x, y);
            },
            _ => {},
        }
    }
}

/// The order of the uses is transitive.
pub proof fn lemma_uses_transitive(a: TargetKeyView, b: TargetKeyView, c: TargetKeyView)
    requires
        target_key_lt(a, b),
        target_key_lt(b, c),
    ensures
        target_key_lt(a, c),
{
    if a.kind == b.kind && b.kind == c.kind {
        match (a.target, b.target, c.target) {
            (Some(x), Some(y), Some(z)) => {
                lemma_lex_transitive(x, y, z);
            },
            _ => {},
        }
    }
}

/// Whether every dependency has a declaration, and has its declarations in the order
/// of their uses.
pub open spec fn deps_in_order(deps: DepsView) -> bool {
    forall|k: Seq<char>| deps.dom().contains(k) ==> (#[trigger] deps[k]).well_formed()
}

/// The walk of [`lemma_insert_target_in_order`] through the declarations.
proof fn lemma_insert_target_from(
    s: Seq<(TargetKeyView, Dependency)>,
    k: TargetKeyView,
    d: Dependency,
    i: int,
)
    requires
        uses_ordered(s),
        0 <= i <= s.len(),
        forall|j: int| 0 <= j < i ==> (#[trigger] s[j]).0 != k && !target_key_lt(k, s[j].0),
    ensures
        uses_ordered(insert_target(s, k, d)),
        insert_target(s, k, d).len() > 0,
    decreases s.len() - i,
{
    if i < s.len() && s[i].0 != k && !target_key_lt(k, s[i].0) {
        lemma_insert_target_from(s, k, d, i + 1);
    } else {
        crate::features::deps::lemma_insert_target_at(s, k, d, i);
        if !(i < s.len() && s[i].0 == k) {
            let r = s.insert(i, (k, d));
            assert forall|a: int, b: int| 0 <= a < b < r.len() implies target_key_lt(
                (#[trigger] r[a]).0,
                (#[trigger] r[b]).0,
            ) by {
                if b < i {
                    assert(r[a] == s[a] && r[b] == s[b]);
                } else if b == i {
                    assert(r[a] == s[a]);
                    lemma_uses_total(s[a].0, k);
                } else if a < i {
                    assert(r[a] == s[a] && r[b] == s[b - 1]);
                } else if a == i {
                    assert(r[b] == s[b - 1]);
                    if b - 1 > i {
                        lemma_uses_transitive(k, s[i].0, s[b - 1].0);
                    }
                } else {
                    assert(r[a] == s[a - 1] && r[b] == s[b - 1]);
                }
            }
        }
    }
}

/// A declaration takes its place among those that are in order: they stay in order,
/// and there is at least one.
pub proof fn lemma_insert_target_in_order(
    s: Seq<(TargetKeyView, Dependency)>,
    k: TargetKeyView,
    d: Dependency,
)
    requires
        uses_ordered(s),
    ensures
        uses_ordered(insert_target(s, k, d)),
        insert_target(s, k, d).len() > 0,
{
    lemma_insert_target_from(s, k, d, 0);
}

/// Meeting a declaration of a dependency leaves the declarations of every dependency
/// in order.
pub proof fn lemma_added_dependency_in_order(
    state: (GraphView, DepsView),
    named: Option<bool>,
    kind: Kind,
    target: Option<Seq<char>>,
    key: Seq<char>,
    dep: Dependency,
)
    requires
        deps_in_order(state.1),
    ensures
        deps_in_order(added_dependency(state, named, kind, target, key, dep).1),
{
    let before = if state.1.dom().contains(key) {
        state.1[key].targets
    } else {
        Seq::empty()
    };
    lemma_insert_target_in_order(before, TargetKeyView { kind, target }, dep);
}

/// Meeting declarations in turn leaves the declarations of every dependency in order.
pub proof fn lemma_added_in_turn_in_order(
    state: (GraphView, DepsView),
    crate_deps: Map<Seq<char>, Dependency>,
    keys: Seq<Seq<char>>,
    named: Map<Seq<char>, bool>,
    kind: Kind,
    target: Option<Seq<char>>,
)
    requires
        deps_in_order(state.1),
    ensures
        deps_in_order(added_in_turn(state, crate_deps, keys, named, kind, target).1),
    decreases keys.len(),
{
    if keys.len() > 0 {
        lemma_added_in_turn_in_order(state, crate_deps, keys.drop_last(), named, kind, target);
        lemma_added_dependency_in_order(
            added_in_turn(state, crate_deps, keys.drop_last(), named, kind, target),
            lookup(named, keys.last()),
            kind,
            target,
            keys.last(),
            crate_deps[keys.last()],
        );
    }
}

/// Reading the dependencies of targets leaves the declarations of every dependency in
/// order.
pub proof fn lemma_added_targets_in_order(
    state: (GraphView, DepsView),
    targets: Map<Seq<char>, Target>,
    keys: Seq<Seq<char>>,
    named: Map<Seq<char>, bool>,
    dev: bool,
)
    requires
        deps_in_order(state.1),
    ensures
        deps_in_order(added_targets(state, targets, keys, named, dev).1),
    decreases keys.len(),
{
    if keys.len() > 0 {
        lemma_added_targets_in_order(state, targets, keys.drop_last(), named, dev);
        let prev = added_targets(state, targets, keys.drop_last(), named, dev);
        let k = keys.last();
        let t = targets[k];
        if dev {
            lemma_added_in_turn_in_order(
                prev,
                t.dev_dependencies@,
                first_keys(t.dev_dependencies@.dom()),
                named,
                Kind::Dev,
                Some(k),
            );
        } else {
            lemma_added_in_turn_in_order(
                prev,
                t.dependencies@,
                first_keys(t.dependencies@.dom()),
                named,
                Kind::Normal,
                Some(k),
            );
            lemma_added_in_turn_in_order(
                added_section(prev, t.dependencies@, named, Kind::Normal, Some(k)),
                t.build_dependencies@,
                first_keys(t.build_dependencies@.dom()),
                named,
                Kind::Build,
                Some(k),
            );
        }
    }
}

/// After all sections of dependencies are read, every dependency that was gathered has
/// a declaration, and has its declarations in the order of their uses.
pub proof fn lemma_added_dependencies_in_order(
    features: GraphView,
    dependencies: Map<Seq<char>, Dependency>,
    build_dependencies: Map<Seq<char>, Dependency>,
    dev_dependencies: Map<Seq<char>, Dependency>,
    target: Map<Seq<char>, Target>,
)
    ensures
        deps_in_order(
            added_dependencies(features, dependencies, build_dependencies, dev_dependencies, target).1,
        ),
{
    let named = named_by_dep_syntax(features);
    let s0 = (features, Map::<Seq<char>, FeatureDependencyView>::empty());
    lemma_added_in_turn_in_order(
        s0,
        dependencies,
        first_keys(dependencies.dom()),
        named,
        Kind::Normal,
        None,
    );
    let s1 = added_section(s0, dependencies, named, Kind::Normal, None);
    lemma_added_in_turn_in_order(
        s1,
        build_dependencies,
        first_keys(build_dependencies.dom()),
        named,
        Kind::Build,
        None,
    );
    let s2 = added_section(s1, build_dependencies, named, Kind::Build, None);
    lemma_added_targets_in_order(s2, target, sorted_seq(target.dom()), named, false);
    let s3 = added_targets(s2, target, sorted_seq(target.dom()), named, false);
    lemma_added_in_turn_in_order(
        s3,
        dev_dependencies,
        first_keys(dev_dependencies.dom()),
        named,
        Kind::Dev,
        None,
    );
    let s4 = added_section(s3, dev_dependencies, named, Kind::Dev, None);
    lemma_added_targets_in_order(s4, target, sorted_seq(target.dom()), named, true);
}

/// Declarations that are handed over one by one leave the declarations of every
/// dependency in order.
pub proof fn lemma_custom_added_all_in_order(
    state: (GraphView, DepsView),
    named: Map<Seq<char>, bool>,
    deps: Seq<ParseDependency>,
)
    requires
        deps_in_order(state.1),
    ensures
        deps_in_order(custom_added_all(state, named, deps).1),
    decreases deps.len(),
{
    if deps.len() > 0 {
        lemma_custom_added_all_in_order(state, named, deps.drop_last());
        let d = deps.last();
        lemma_added_dependency_in_order(
            custom_added_all(state, named, deps.drop_last()),
            lookup(named, d.key@),
            d.kind,
            match d.target {
                Some(t) => Some(t@),
                None => None,
            },
            d.key@,
            *d.dep,
        );
    }
}

/// In the graph of a manifest every dependency has a declaration, and has its
/// declarations in the order of their uses.
pub proof fn lemma_gathered_in_order<M>(m: Manifest<M>, kept: Set<Seq<char>>)
    ensures
        deps_in_order(gathered(m).1),
        deps_in_order(finished(gathered(m).0, gathered(m).1, kept).dependencies),
{
    let declared = m.features.deep_view();
    let g = crate::features::actions::parsed_features(
        declared,
        crate::features::resolve::declares_default(declared),
    );
    lemma_added_dependencies_in_order(
        g,
        m.dependencies@,
        m.build_dependencies@,
        m.dev_dependencies@,
        m.target@,
    );
}

/// The same of declared features and dependencies that are handed over one by one.
pub proof fn lemma_gathered_custom_in_order(
    declared: Map<Seq<char>, Seq<Seq<char>>>,
    deps: Seq<ParseDependency>,
    kept: Set<Seq<char>>,
)
    ensures
        deps_in_order(gathered_custom(declared, deps).1),
        deps_in_order(
            finished(gathered_custom(declared, deps).0, gathered_custom(declared, deps).1, kept).dependencies,
        ),
{
    let g = crate::features::actions::parsed_features(
        declared,
        crate::features::resolve::declares_default(declared),
    );
    lemma_custom_added_all_in_order(
        (g, Map::<Seq<char>, FeatureDependencyView>::empty()),
        named_by_dep_syntax(g),
        deps,
    );
}

} // verus!
