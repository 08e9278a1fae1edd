//! From a manifest to the graph of its features.

use vstd::prelude::*;
use crate::manifest::Manifest;
use crate::features::{Feature, FeatureDependency, FeatureDependencyView, Features, FeaturesView, GraphView, ParseDependency, Resolver, MAX_ITEMS};
use crate::features::actions::{default_key, first_keys, parsed_features};
use crate::features::deps::{added_dependencies, added_dependency, lookup, named_by_dep_syntax, pruned, required_by_bins, DepsView};
use crate::features::link::linked;
use crate::features::hidden::{hidden_keys, is_hidden, recorded, without_all};
use crate::features::contraction::{hidden_dep_only_doubled, plain_on_hidden};
use crate::strmap::{StrMap, lemma_deep_map_empty};
use crate::order::{sorted_seq, lemma_sorted_seq_dom};
use crate::features::uses::{lemma_gathered_custom_in_order, lemma_gathered_in_order};

verus! {

broadcast use vstd::string::group_string_axioms;

/// Whether `default` is among the declared features that are read.
pub open spec fn declares_default(features: Map<Seq<char>, Seq<Seq<char>>>) -> bool {
    first_keys(features.dom()).contains(default_key())
}

/// The graph as it is before the hidden features are taken out: redundant features
/// of dependencies are taken out of the actions, and the features that switch each
/// feature on are found.
pub open spec fn before_inlining(g: GraphView, deps: DepsView) -> GraphView {
    linked(pruned(g, deps))
}

/// The last steps to the graph: from the graph of [`before_inlining`] the hidden
/// features are taken out.
pub open spec fn finished(g: GraphView, deps: DepsView, kept: Set<Seq<char>>) -> FeaturesView {
    let linked_graph = before_inlining(g, deps);
    let order = sorted_seq(hidden_keys(linked_graph, kept));
    let record = recorded(linked_graph, order);
    FeaturesView {
        features: without_all(linked_graph, order),
        dependencies: deps,
        removed_hidden_features: record.dom() != Set::<Seq<char>>::empty(),
        hidden_features: record,
    }
}

/// The name of the manifest's package; empty where the manifest is of a workspace
/// alone.
pub open spec fn package_name<M>(m: Manifest<M>) -> Seq<char> {
    match m.package {
        Some(p) => p.name@,
        None => Seq::empty(),
    }
}

/// The features that a manifest declares or that its optional dependencies stand for,
/// with the binaries noted at them, and the dependencies that features speak of or
/// that are optional. A binary without a name of its own goes by the package's.
pub open spec fn gathered<M>(m: Manifest<M>) -> (GraphView, DepsView) {
    let declared = m.features.deep_view();
    let g = parsed_features(declared, declares_default(declared));
    let (g, deps) = added_dependencies(
        g,
        m.dependencies@,
        m.build_dependencies@,
        m.dev_dependencies@,
        m.target@,
    );
    (required_by_bins(g, m.bin@, package_name(m)), deps)
}

/// The graph of a manifest's features, with the hidden features of `kept` left in.
pub open spec fn resolved<M>(m: Manifest<M>, kept: Set<Seq<char>>) -> FeaturesView {
    finished(gathered(m).0, gathered(m).1, kept)
}

/// The model of one declaration handed to [`Resolver::parse_custom`].
pub open spec fn custom_added(
    state: (GraphView, DepsView),
    named: Map<Seq<char>, bool>,
    d: ParseDependency,
) -> (GraphView, DepsView) {
    added_dependency(
        state,
        lookup(named, d.key@),
        d.kind,
        match d.target {
            Some(t) => Some(t@),
            None => None,
        },
        d.key@,
        *d.dep,
    )
}

/// The graph and the dependencies after the declarations of `deps` are met in turn.
pub open spec fn custom_added_all(
    state: (GraphView, DepsView),
    named: Map<Seq<char>, bool>,
    deps: Seq<ParseDependency>,
) -> (GraphView, DepsView)
    decreases deps.len(),
{
    if deps.len() == 0 {
        state
    } else {
        custom_added(custom_added_all(state, named, deps.drop_last()), named, deps.last())
    }
}

/// The declared features and those that optional dependencies stand for, and the
/// dependencies that features speak of or that are optional, where the dependencies
/// are handed over one by one.
pub open spec fn gathered_custom(
    declared: Map<Seq<char>, Seq<Seq<char>>>,
    deps: Seq<ParseDependency>,
) -> (GraphView, DepsView) {
    let g = parsed_features(declared, declares_default(declared));
    custom_added_all(
        (g, Map::<Seq<char>, FeatureDependencyView>::empty()),
        named_by_dep_syntax(g),
        deps,
    )
}

/// The graph of the declared features and of dependencies that are handed over one by
/// one, with the hidden features of `kept` left in. No binary is noted at a feature.
pub open spec fn resolved_custom(
    declared: Map<Seq<char>, Seq<Seq<char>>>,
    deps: Seq<ParseDependency>,
    kept: Set<Seq<char>>,
) -> FeaturesView {
    finished(gathered_custom(declared, deps).0, gathered_custom(declared, deps).1, kept)
}

impl Resolver {
    /// Whether `default` is among the declared features that are read.
    fn reads_default(features: &StrMap<Vec<String>>) -> (b: bool)
        ensures
            b == declares_default(features.deep_view()),
    {
        let n = features.len();
        let ghost keys = sorted_seq(features@.dom());
        proof {
            lemma_sorted_seq_dom(features@.dom());
            assert(features.deep_view().dom() =~= features@.dom());
        }
        match features.index_of("default") {
            Some(i) => {
                proof {
                    if i < MAX_ITEMS && keys.len() > MAX_ITEMS {
                        assert(keys.take(MAX_ITEMS as int)[i as int] == keys[i as int]);
                    }
                    if first_keys(features@.dom()).contains(default_key()) {
                        let fk = first_keys(features@.dom());
                        let j = choose|j: int| 0 <= j < fk.len() && fk[j] == default_key();
                        assert(keys[j] == default_key());
                        assert(j == i);
                    }
                }
                i < MAX_ITEMS
            },
            None => {
                proof {
                    let fk = first_keys(features@.dom());
                    if fk.contains(default_key()) {
                        let j = choose|j: int| 0 <= j < fk.len() && fk[j] == default_key();
                        assert(keys[j] == default_key());
                        assert(keys.to_set().contains(keys[j]));
                    }
                }
                false
            },
        }
    }

    /// Takes the last steps to the graph.
    fn finish<'a>(&self, features: StrMap<Feature>, dependencies: StrMap<FeatureDependency<'a>>) -> (r:
        Features<'a>)
        ensures
            r@ == finished(features.deep_view(), dependencies.deep_view(), self.kept()),
    {
        let mut features = features;
        Self::remove_redundant_dep_action_features(&mut features, &dependencies);
        Self::set_enabled_by(&mut features);
        let hidden_features = self.remove_hidden_features(&mut features);
        let none = hidden_features.is_empty();
        proof {
            assert(hidden_features.deep_view().dom() =~= hidden_features@.dom());
        }
        Features { features, dependencies, removed_hidden_features: !none, hidden_features }
    }

    /// Builds the graph of a manifest's features, for a manifest of a package and for
    /// one of a workspace alone.
    pub fn parse<'a, M>(&self, manifest: &'a Manifest<M>) -> (r: Features<'a>)
        ensures
            r@ == resolved(*manifest, self.kept()),
            forall|k: Seq<char>| #[trigger]
                r.dependencies@.dom().contains(k) ==> r.dependencies@[k]@.well_formed(),
            r@.features.dom().contains("default"@),
            forall|x: Seq<char>| #[trigger] r@.features.dom().contains(x) ==> !is_hidden(x, self.kept()),
            forall|x: Seq<char>, h: Seq<char>|
                r@.features.dom().contains(x) && is_hidden(h, self.kept()) && gathered(
                    *manifest,
                ).0.dom().contains(h) ==> !(#[trigger] r@.features[x].enables_features.contains(h)),
            plain_on_hidden(gathered(*manifest).0, self.kept()) ==> forall|
                x: Seq<char>,
                h: Seq<char>,
            |
                r@.features.dom().contains(x) && is_hidden(h, self.kept()) && gathered(
                    *manifest,
                ).0.dom().contains(h) ==> !(#[trigger] r@.features[x].enables_deps.dom().contains(h)),
            hidden_dep_only_doubled(gathered(*manifest).0, self.kept()) ==> forall|
                x: Seq<char>,
                h: Seq<char>,
            |
                r@.features.dom().contains(x) && is_hidden(h, self.kept()) && gathered(
                    *manifest,
                ).0.dom().contains(h) ==> !(#[trigger] r@.features[x].enabled_by.contains(h)),
    {
        let mut features = Self::parse_features(
            &manifest.features,
            Self::reads_default(&manifest.features),
        );
        let dependencies = Self::add_dependencies(
            &mut features,
            &manifest.dependencies,
            &manifest.build_dependencies,
            &manifest.dev_dependencies,
            &manifest.target,
        );
        let name = match &manifest.package {
            Some(p) => p.name.as_str(),
            None => "",
        };
        proof {
            reveal_strlit("");
            assert(name@ =~= package_name(*manifest));
        }
        Self::set_required_by_bins(&mut features, manifest.bin.as_slice(), name);
        let r = self.finish(features, dependencies);
        proof {
            crate::features::facts::lemma_resolved_has_default(*manifest, self.kept());
            lemma_gathered_in_order(*manifest, self.kept());
            assert forall|k: Seq<char>| #[trigger]
                r.dependencies@.dom().contains(k) implies r.dependencies@[k]@.well_formed() by {
                assert(r@.dependencies[k] == r.dependencies@[k]@);
            }
            crate::features::facts::lemma_gathered_fresh(*manifest);
            let (g, deps) = gathered(*manifest);
            crate::features::facts::lemma_finished_well_keyed(g, deps, self.kept());
            assert forall|x: Seq<char>| #[trigger] r@.features.dom().contains(x) implies !is_hidden(
                x,
                self.kept(),
            ) by {
                if is_hidden(x, self.kept()) {
                    assert(hidden_keys(g, self.kept()).contains(x));
                }
            }
            assert forall|x: Seq<char>, h: Seq<char>|
                r@.features.dom().contains(x) && is_hidden(
                    h,
                    self.kept(),
                ) && g.dom().contains(h) implies !is_hidden(x, self.kept()) && !(
            #[trigger] r@.features[x].enables_features.contains(h)) by {
                crate::features::contraction::lemma_finished_hidden_features_unreferenced(
                    g,
                    deps,
                    self.kept(),
                    x,
                    h,
                );
            }
            if plain_on_hidden(g, self.kept()) {
                assert forall|x: Seq<char>, h: Seq<char>|
                    r@.features.dom().contains(x) && is_hidden(h, self.kept()) && g.dom().contains(
                        h,
                    ) implies !(#[trigger] r@.features[x].enables_deps.dom().contains(h)) by {
                    crate::features::contraction::lemma_finished_hidden_action_keys_gone(
                        g,
                        deps,
                        self.kept(),
                        x,
                        h,
                    );
                }
            }
            if hidden_dep_only_doubled(g, self.kept()) {
                assert forall|x: Seq<char>, h: Seq<char>|
                    r@.features.dom().contains(x) && is_hidden(h, self.kept()) && g.dom().contains(
                        h,
                    ) implies !(#[trigger] r@.features[x].enabled_by.contains(h)) by {
                    crate::features::contraction::lemma_finished_hidden_enablers_gone(
                        g,
                        deps,
                        self.kept(),
                        x,
                        h,
                    );
                }
            }
        }
        r
    }

    /// Builds the graph of declared features and of dependencies that are handed over
    /// one by one. Of two declarations of a dependency for the same use the first
    /// counts. No binary is noted at a feature.
    pub fn parse_custom<'a>(
        &self,
        manifest_features: &StrMap<Vec<String>>,
        deps: Vec<ParseDependency<'a>>,
    ) -> (r: Features<'a>)
        ensures
            r@ == resolved_custom(manifest_features.deep_view(), deps@, self.kept()),
            forall|k: Seq<char>| #[trigger]
                r.dependencies@.dom().contains(k) ==> r.dependencies@[k]@.well_formed(),
            r@.features.dom().contains("default"@),
            forall|x: Seq<char>| #[trigger] r@.features.dom().contains(x) ==> !is_hidden(x, self.kept()),
            forall|x: Seq<char>, h: Seq<char>|
                r@.features.dom().contains(x) && is_hidden(h, self.kept()) && gathered_custom(
                    manifest_features.deep_view(),
                    deps@,
                ).0.dom().contains(h) ==> !(#[trigger] r@.features[x].enables_features.contains(h)),
            plain_on_hidden(gathered_custom(manifest_features.deep_view(), deps@).0, self.kept())
                ==> forall|x: Seq<char>, h: Seq<char>|
                r@.features.dom().contains(x) && is_hidden(h, self.kept()) && gathered_custom(
                    manifest_features.deep_view(),
                    deps@,
                ).0.dom().contains(h) ==> !(#[trigger] r@.features[x].enables_deps.dom().contains(h)),
            hidden_dep_only_doubled(gathered_custom(manifest_features.deep_view(), deps@).0, self.kept())
                ==> forall|x: Seq<char>, h: Seq<char>|
                r@.features.dom().contains(x) && is_hidden(h, self.kept()) && gathered_custom(
                    manifest_features.deep_view(),
                    deps@,
                ).0.dom().contains(h) ==> !(#[trigger] r@.features[x].enabled_by.contains(h)),
    {
        let mut features = Self::parse_features(
            manifest_features,
            Self::reads_default(manifest_features),
        );
        let named = Self::named_using_dep_syntax(&features);
        let mut dependencies: StrMap<FeatureDependency<'a>> = StrMap::new();
        let ghost s0 = (features.deep_view(), dependencies.deep_view());
        proof {
            lemma_deep_map_empty::<FeatureDependency<'a>>();
            assert(deps@.take(0) =~= Seq::<ParseDependency>::empty());
        }
        let mut i: usize = 0;
        while i < deps.len()
            invariant
                i <= deps@.len(),
                (features.deep_view(), dependencies.deep_view()) == custom_added_all(
                    s0,
                    named@,
                    deps@.take(i as int),
                ),
            decreases deps@.len() - i,
        {
            let d = &deps[i];
            let known = match named.get(d.key) {
                Some(b) => Some(*b),
                None => None,
            };
            proof {
                assert(deps@.take(i as int + 1).drop_last() =~= deps@.take(i as int));
                assert(deps@.take(i as int + 1).last() == deps@[i as int]);
            }
            Self::add_dependency(&mut features, &mut dependencies, known, d.kind, d.target, d.key, d.dep);
            i += 1;
        }
        proof {
            assert(deps@.take(deps@.len() as int) =~= deps@);
        }
        let r = self.finish(features, dependencies);
        proof {
            let declared = manifest_features.deep_view();
            crate::strmap::lemma_finite_keys(*manifest_features);
            crate::strmap::lemma_deep_map_dom(manifest_features@);
            crate::features::facts::lemma_resolved_custom_has_default(declared, deps@, self.kept());
            lemma_gathered_custom_in_order(declared, deps@, self.kept());
            assert forall|k: Seq<char>| #[trigger]
                r.dependencies@.dom().contains(k) implies r.dependencies@[k]@.well_formed() by {
                assert(r@.dependencies[k] == r.dependencies@[k]@);
            }
            crate::features::facts::lemma_gathered_custom_fresh(declared, deps@);
            let (g, all) = gathered_custom(declared, deps@);
            crate::features::facts::lemma_finished_well_keyed(g, all, self.kept());
            assert forall|x: Seq<char>| #[trigger] r@.features.dom().contains(x) implies !is_hidden(
                x,
                self.kept(),
            ) by {
                if is_hidden(x, self.kept()) {
                    assert(hidden_keys(g, self.kept()).contains(x));
                }
            }
            assert forall|x: Seq<char>, h: Seq<char>|
                r@.features.dom().contains(x) && is_hidden(
                    h,
                    self.kept(),
                ) && g.dom().contains(h) implies !is_hidden(x, self.kept()) && !(
            #[trigger] r@.features[x].enables_features.contains(
                h,
            )) by {
                crate::features::contraction::lemma_finished_hidden_features_unreferenced(
                    g,
                    all,
                    self.kept(),
                    x,
                    h,
                );
            }
            if plain_on_hidden(g, self.kept()) {
                assert forall|x: Seq<char>, h: Seq<char>|
                    r@.features.dom().contains(x) && is_hidden(h, self.kept()) && g.dom().contains(
                        h,
                    ) implies !(#[trigger] r@.features[x].enables_deps.dom().contains(h)) by {
                    crate::features::contraction::lemma_finished_hidden_action_keys_gone(
                        g,
                        all,
                        self.kept(),
                        x,
                        h,
                    );
                }
            }
            if hidden_dep_only_doubled(g, self.kept()) {
                assert forall|x: Seq<char>, h: Seq<char>|
                    r@.features.dom().contains(x) && is_hidden(h, self.kept()) && g.dom().contains(
                        h,
                    ) implies !(#[trigger] r@.features[x].enabled_by.contains(h)) by {
                    crate::features::contraction::lemma_finished_hidden_enablers_gone(
                        g,
                        all,
                        self.kept(),
                        x,
                        h,
                    );
                }
            }
        }
        r
    }
}

} // verus!
