//! The graph of a package's features: which features switch on which other features,
//! which dependencies they switch on or change, and which features switch a feature on.

use vstd::prelude::*;
use crate::strmap::StrMap;
use crate::strset::StrSet;
use crate::dependency::Dependency;
use crate::strmap::lemma_deep_map_insert;
use crate::order::{sorted_seq, lemma_sorted_seq_dom, lemma_take_push_set};
use crate::text::{lex_lt, text_lt, text_eq};

pub mod actions;
pub mod deps;
pub mod link;
pub mod hidden;
pub mod closure;
pub mod walk;
pub mod resolve;
pub mod keep;
pub mod facts;
pub mod contraction;
pub mod uses;

pub use crate::features::closure::DependenciesEnabledByFeatures;

verus! {

/// The most features, actions or dependencies that are read from one collection.
/// What lies beyond is left out without an error.
pub const MAX_ITEMS: usize = 2048;

/// How a feature affects a dependency.
#[derive(Debug, PartialEq)]
pub struct DepAction {
    /// Written with `?`: takes effect only if something else switches the dependency on.
    pub is_conditional: bool,
    /// Written with `dep:`: does not stand for a feature of the same name.
    pub is_dep_only: bool,
    /// Features of the dependency to switch on.
    pub dep_features: StrSet,
}

/// The model of a [`DepAction`].
pub struct DepActionView {
    pub is_conditional: bool,
    pub is_dep_only: bool,
    pub dep_features: Set<Seq<char>>,
}

impl DeepView for DepAction {
    type V = DepActionView;

    open spec fn deep_view(&self) -> DepActionView {
        DepActionView {
            is_conditional: self.is_conditional,
            is_dep_only: self.is_dep_only,
            dep_features: self.dep_features@,
        }
    }
}

impl View for DepAction {
    type V = DepActionView;

    open spec fn view(&self) -> DepActionView {
        self.deep_view()
    }
}

/// What two actions on one dependency come to when they meet in one feature: the
/// result is conditional only if both are, dependency-only if either is, and asks for
/// the features of both.
pub open spec fn merge_actions(a: DepActionView, b: DepActionView) -> DepActionView {
    DepActionView {
        is_conditional: a.is_conditional && b.is_conditional,
        is_dep_only: a.is_dep_only || b.is_dep_only,
        dep_features: a.dep_features.union(b.dep_features),
    }
}

impl DepAction {
    /// Takes `other` into this action, as [`merge_actions`] says.
    pub fn merge(&mut self, other: &DepAction)
        ensures
            final(self)@ == merge_actions(old(self)@, other@),
    {
        if !other.is_conditional {
            self.is_conditional = false;
        }
        if other.is_dep_only {
            self.is_dep_only = true;
        }
        self.dep_features.extend(&other.dep_features);
    }
}

/// One feature of the graph.
#[derive(Debug)]
pub struct Feature {
    /// The feature's name.
    pub key: String,
    /// The dependencies it switches on or changes, by their keys in the manifest.
    /// Direct ones only.
    pub enables_deps: StrMap<DepAction>,
    /// The features it switches on. Direct ones only; they may form a circle.
    pub enables_features: StrSet,
    /// The features that switch it on directly.
    pub enabled_by: StrSet,
    /// The binaries that ask for this feature.
    pub required_by_bins: Vec<String>,
    /// Whether the feature was declared as one, and did not come from an optional
    /// dependency.
    pub explicit: bool,
}

/// The model of a [`Feature`].
pub struct FeatureView {
    pub key: Seq<char>,
    pub enables_deps: Map<Seq<char>, DepActionView>,
    pub enables_features: Set<Seq<char>>,
    pub enabled_by: Set<Seq<char>>,
    pub required_by_bins: Seq<Seq<char>>,
    pub explicit: bool,
}

impl DeepView for Feature {
    type V = FeatureView;

    open spec fn deep_view(&self) -> FeatureView {
        FeatureView {
            key: self.key@,
            enables_deps: self.enables_deps.deep_view(),
            enables_features: self.enables_features@,
            enabled_by: self.enabled_by@,
            required_by_bins: self.required_by_bins.deep_view(),
            explicit: self.explicit,
        }
    }
}

impl View for Feature {
    type V = FeatureView;

    open spec fn view(&self) -> FeatureView {
        self.deep_view()
    }
}

impl Clone for DepAction {
    fn clone(&self) -> (r: Self)
        ensures
            r@ == self@,
    {
        DepAction {
            is_conditional: self.is_conditional,
            is_dep_only: self.is_dep_only,
            dep_features: self.dep_features.clone(),
        }
    }
}

/// A copy of a run of strings.
pub fn clone_strings(v: &Vec<String>) -> (r: Vec<String>)
    ensures
        r.deep_view() == v.deep_view(),
{
    let mut r: Vec<String> = Vec::new();
    let mut i: usize = 0;
    while i < v.len()
        invariant
            i <= v@.len(),
            r@.len() == i,
            forall|j: int| 0 <= j < i ==> r@[j]@ == v@[j]@,
        decreases v@.len() - i,
    {
        r.push(v[i].clone());
        i += 1;
    }
    assert(r.deep_view() =~= v.deep_view());
    r
}

/// A copy of a map of actions.
pub fn clone_actions(m: &StrMap<DepAction>) -> (r: StrMap<DepAction>)
    ensures
        r.deep_view() == m.deep_view(),
{
    let n = m.len();
    let mut r: StrMap<DepAction> = StrMap::new();
    let ghost keys = sorted_seq(m@.dom());
    let mut i: usize = 0;
    proof {
        lemma_sorted_seq_dom(m@.dom());
    }
    while i < n
        invariant
            i <= n,
            n == keys.len(),
            keys == sorted_seq(m@.dom()),
            keys.to_set() == m@.dom(),
            r.deep_view().dom() == keys.take(i as int).to_set(),
            forall|k: Seq<char>| #[trigger]
                r.deep_view().dom().contains(k) ==> r.deep_view()[k] == m.deep_view()[k],
        decreases n - i,
    {
        let key = m.key_at(i).clone();
        let value = m.value_at(i).clone();
        let ghost before = r@;
        r.insert(key, value);
        proof {
            lemma_deep_map_insert(before, key@, value);
            lemma_take_push_set(keys, i as int);
        }
        i += 1;
    }
    proof {
        assert(keys.take(n as int) =~= keys);
        assert(r.deep_view() =~= m.deep_view());
    }
    r
}

impl Clone for Feature {
    fn clone(&self) -> (r: Self)
        ensures
            r@ == self@,
    {
        Feature {
            key: self.key.clone(),
            enables_deps: clone_actions(&self.enables_deps),
            enables_features: self.enables_features.clone(),
            enabled_by: self.enabled_by.clone(),
            required_by_bins: clone_strings(&self.required_by_bins),
            explicit: self.explicit,
        }
    }
}

/// What a dependency is for.
#[derive(Debug, Copy, Clone, Eq, PartialEq, Ord, PartialOrd, Hash, Structural)]
pub enum Kind {
    /// The package itself.
    Normal,
    /// Its build script.
    Build,
    /// Its tests, examples and benchmarks.
    Dev,
}

impl Default for Kind {
    fn default() -> (r: Self)
        ensures
            r == Kind::Normal,
    {
        Kind::Normal
    }
}

impl Kind {
    /// The place of the kind in the order normal, build, dev.
    pub open spec fn rank(self) -> int {
        match self {
            Kind::Normal => 0,
            Kind::Build => 1,
            Kind::Dev => 2,
        }
    }

    /// Whether this kind comes before `other`.
    pub fn before(self, other: Kind) -> (b: bool)
        ensures
            b == (self.rank() < other.rank()),
    {
        match (self, other) {
            (Kind::Normal, Kind::Build) => true,
            (Kind::Normal, Kind::Dev) => true,
            (Kind::Build, Kind::Dev) => true,
            _ => false,
        }
    }
}

/// The use that a dependency is declared for: its kind and, where it holds for some
/// targets only, their condition.
#[derive(Debug, Clone, PartialEq, Eq, PartialOrd, Ord, Hash)]
pub struct TargetKey {
    pub kind: Kind,
    /// The condition. `None` for all targets.
    pub target: Option<String>,
}

/// The model of a [`TargetKey`].
pub struct TargetKeyView {
    pub kind: Kind,
    pub target: Option<Seq<char>>,
}

impl DeepView for TargetKey {
    type V = TargetKeyView;

    open spec fn deep_view(&self) -> TargetKeyView {
        TargetKeyView {
            kind: self.kind,
            target: match self.target {
                Some(t) => Some(t@),
                None => None,
            },
        }
    }
}

impl View for TargetKey {
    type V = TargetKeyView;

    open spec fn view(&self) -> TargetKeyView {
        self.deep_view()
    }
}

/// The order of the uses: by kind, then all targets before some, then by condition.
pub open spec fn target_key_lt(a: TargetKeyView, b: TargetKeyView) -> bool {
    a.kind.rank() < b.kind.rank() || (a.kind == b.kind && match (a.target, b.target) {
        (None, Some(_)) => true,
        (Some(x), Some(y)) => lex_lt(x, y),
        _ => false,
    })
}

impl TargetKey {
    /// Whether this use comes before `other`.
    pub fn before(&self, other: &TargetKey) -> (b: bool)
        ensures
            b == target_key_lt(self@, other@),
    {
        if self.kind.before(other.kind) {
            true
        } else if other.kind.before(self.kind) {
            false
        } else {
            match (&self.target, &other.target) {
                (None, Some(_)) => true,
                (Some(x), Some(y)) => text_lt(x.as_str(), y.as_str()),
                _ => false,
            }
        }
    }

    /// Whether this use is the same as `other`.
    pub fn same(&self, other: &TargetKey) -> (b: bool)
        ensures
            b == (self@ == other@),
    {
        if self.kind.before(other.kind) || other.kind.before(self.kind) {
            false
        } else {
            match (&self.target, &other.target) {
                (None, None) => true,
                (Some(x), Some(y)) => text_eq(x.as_str(), y.as_str()),
                _ => false,
            }
        }
    }
}

/// A dependency that features refer to, or that is optional.
#[derive(Debug)]
pub struct FeatureDependency<'a> {
    /// The name of the package. Several dependencies may be the same package.
    pub crate_name: String,
    /// The declarations of the dependency, one for each use, in the order of the uses.
    pub targets: Vec<(TargetKey, &'a Dependency)>,
}

/// The model of a [`FeatureDependency`].
pub struct FeatureDependencyView {
    pub crate_name: Seq<char>,
    pub targets: Seq<(TargetKeyView, Dependency)>,
}

/// Whether the declarations are in the order of their uses, each use once.
pub open spec fn uses_ordered(s: Seq<(TargetKeyView, Dependency)>) -> bool {
    forall|i: int, j: int|
        0 <= i < j < s.len() ==> target_key_lt((#[trigger] s[i]).0, (#[trigger] s[j]).0)
}

impl FeatureDependencyView {
    /// Whether there is a declaration, and the declarations are in the order of their
    /// uses. It is so of every dependency that the resolver gathers.
    pub open spec fn well_formed(self) -> bool {
        self.targets.len() > 0 && uses_ordered(self.targets)
    }
}

/// The model of a run of declarations.
pub open spec fn targets_view(v: Seq<(TargetKey, &Dependency)>) -> Seq<(TargetKeyView, Dependency)> {
    Seq::new(v.len(), |i: int| (v[i].0@, *v[i].1))
}

impl<'a> DeepView for FeatureDependency<'a> {
    type V = FeatureDependencyView;

    open spec fn deep_view(&self) -> FeatureDependencyView {
        FeatureDependencyView { crate_name: self.crate_name@, targets: targets_view(self.targets@) }
    }
}

impl<'a> View for FeatureDependency<'a> {
    type V = FeatureDependencyView;

    open spec fn view(&self) -> FeatureDependencyView {
        self.deep_view()
    }
}

impl<'a> FeatureDependency<'a> {
    /// The declaration for the first use. There must be one. Where the declarations
    /// are in order, it is the one for the least use.
    pub fn dep(&self) -> (r: &'a Dependency)
        requires
            self.targets@.len() > 0,
        ensures
            *r == self@.targets[0].1,
            uses_ordered(self@.targets) ==> forall|i: int|
                0 < i < self@.targets.len() ==> target_key_lt(
                    self@.targets[0].0,
                    (#[trigger] self@.targets[i]).0,
                ),
    {
        self.detail().0
    }

    /// The declaration for the first use and the kind of that use. There must be one.
    /// Where the declarations are in order, the use is the least of all: every other
    /// use comes after it, so that a normal use is preferred to one for the build
    /// script, and that to one for tests.
    pub fn detail(&self) -> (r: (&'a Dependency, Kind))
        requires
            self.targets@.len() > 0,
        ensures
            *r.0 == self@.targets[0].1,
            r.1 == self@.targets[0].0.kind,
            uses_ordered(self@.targets) ==> forall|i: int|
                0 < i < self@.targets.len() ==> target_key_lt(
                    self@.targets[0].0,
                    (#[trigger] self@.targets[i]).0,
                ),
            uses_ordered(self@.targets) ==> forall|i: int|
                0 <= i < self@.targets.len() ==> r.1.rank() <= (#[trigger] self@.targets[i]).0.kind.rank(),
    {
        proof {
            if uses_ordered(self@.targets) {
                assert forall|i: int| 0 < i < self@.targets.len() implies target_key_lt(
                    self@.targets[0].0,
                    (#[trigger] self@.targets[i]).0,
                ) by {
                    let first = self@.targets[0];
                    assert(target_key_lt(first.0, self@.targets[i].0));
                }
            }
        }
        (self.targets[0].1, self.targets[0].0.kind)
    }
}

/// One declaration of a dependency, for [`Resolver::parse_custom`].
#[derive(Debug, Clone)]
pub struct ParseDependency<'a> {
    /// The dependency's key, which is not always the package's name.
    pub key: &'a str,
    pub kind: Kind,
    /// The condition of the targets it holds for.
    pub target: Option<&'a str>,
    /// The declaration.
    pub dep: &'a Dependency,
}

/// The graph of a manifest's features.
#[derive(Debug)]
#[non_exhaustive]
pub struct Features<'a> {
    /// The features, each under its key. The default features are those of `default`.
    pub features: StrMap<Feature>,
    /// The dependencies that features refer to, or that are optional, under their keys
    /// in the manifest.
    pub dependencies: StrMap<FeatureDependency<'a>>,
    /// Whether hidden features were taken out of the graph.
    pub removed_hidden_features: bool,
    /// Under each hidden feature that was taken out, the features it switched on.
    pub hidden_features: StrMap<StrSet>,
}

/// The model of [`Features`].
pub struct FeaturesView {
    pub features: GraphView,
    pub dependencies: Map<Seq<char>, FeatureDependencyView>,
    pub removed_hidden_features: bool,
    pub hidden_features: Map<Seq<char>, Set<Seq<char>>>,
}

impl<'a> DeepView for Features<'a> {
    type V = FeaturesView;

    open spec fn deep_view(&self) -> FeaturesView {
        FeaturesView {
            features: self.features.deep_view(),
            dependencies: self.dependencies.deep_view(),
            removed_hidden_features: self.removed_hidden_features,
            hidden_features: self.hidden_features.deep_view(),
        }
    }
}

impl<'a> View for Features<'a> {
    type V = FeaturesView;

    open spec fn view(&self) -> FeaturesView {
        self.deep_view()
    }
}

/// Builds the graph of a manifest's features. A feature whose name begins with `_` is
/// hidden: it is taken out of the graph and what it switches on is handed to the
/// features that switch it on, unless it is named in the set of names to keep.
#[derive(Debug, Clone)]
pub struct Resolver {
    /// The hidden features that stay in the graph.
    pub always_keep: Option<StrSet>,
}

impl Resolver {
    /// A resolver that takes every hidden feature out.
    pub fn new() -> (r: Self)
        ensures
            r.always_keep is None,
    {
        Resolver { always_keep: None }
    }

    /// A resolver that keeps the hidden features named in `should_keep_hidden_feature`.
    pub fn new_with_hasher_and_filter(should_keep_hidden_feature: StrSet) -> (r: Self)
        ensures
            r.always_keep == Some(should_keep_hidden_feature),
    {
        Resolver { always_keep: Some(should_keep_hidden_feature) }
    }

    /// The names that this resolver keeps.
    pub open spec fn kept(&self) -> Set<Seq<char>> {
        match self.always_keep {
            Some(s) => s@,
            None => Set::empty(),
        }
    }
}

/// The model of a whole graph: each feature under its key.
pub type GraphView = Map<Seq<char>, FeatureView>;

} // verus!
