//! A whole manifest: the package, its dependencies and features, and the workspace.

use vstd::prelude::*;
use crate::strmap::StrMap;
use crate::dependency::Dependency;
use crate::package::{Package, Edition, OptionalFile, Publish, Resolver};
use crate::product::Product;
use crate::profile::Profiles;
use crate::badges::{Badges};
use crate::lints::{LintGroups, Lints};
use crate::inheritable::Inheritable;

verus! {

/// Dependencies under their keys. A key is not always the package's name.
pub type DepsSet = StrMap<Dependency>;

/// The dependencies of certain targets, under the targets' conditions.
pub type TargetDepsSet = StrMap<Target>;

/// The declared features: under each name the actions of the feature.
pub type FeatureSet = StrMap<Vec<String>>;

/// Replacements of dependencies, by registry.
pub type PatchSet = StrMap<DepsSet>;

/// Dependencies that hold for some targets only.
#[derive(Debug, Clone, PartialEq)]
pub struct Target {
    /// Dependencies of the package itself.
    pub dependencies: DepsSet,
    /// Dependencies of its tests, examples and benchmarks.
    pub dev_dependencies: DepsSet,
    /// Dependencies of its build script.
    pub build_dependencies: DepsSet,
}

/// What a workspace offers its members to inherit for their `[package]` sections.
#[derive(Debug, Clone, PartialEq, Eq)]
pub struct PackageTemplate {
    pub authors: Option<Vec<String>>,
    pub categories: Option<Vec<String>>,
    pub description: Option<String>,
    pub documentation: Option<String>,
    pub edition: Option<Edition>,
    pub exclude: Option<Vec<String>>,
    pub homepage: Option<String>,
    pub included: Option<Vec<String>>,
    pub keywords: Option<Vec<String>>,
    pub license: Option<String>,
    pub license_file: Option<String>,
    pub publish: Publish,
    pub readme: OptionalFile,
    pub repository: Option<String>,
    pub rust_version: Option<String>,
    pub version: Option<String>,
}

/// The `[workspace]` section.
#[derive(Debug, Clone, PartialEq)]
pub struct Workspace<Metadata = toml::Value> {
    /// The paths of the member packages.
    pub members: Vec<String>,
    /// The members that commands work on where none is named.
    pub default_members: Vec<String>,
    /// What members inherit for their `[package]` sections.
    pub package: Option<PackageTemplate>,
    /// Paths that are no members.
    pub exclude: Vec<String>,
    /// Whatever else tools keep in the manifest.
    pub metadata: Option<Metadata>,
    /// The way the features of dependencies are unified.
    pub resolver: Option<Resolver>,
    /// The dependencies that members inherit.
    pub dependencies: DepsSet,
    /// The lints that members inherit, by tool.
    pub lints: Option<LintGroups>,
}

/// A manifest.
#[derive(Debug, Clone, PartialEq)]
pub struct Manifest<Metadata = toml::Value> {
    /// The package, where the manifest is one of a package.
    pub package: Option<Package<Metadata>>,
    /// The workspace, where the manifest is the root of one.
    pub workspace: Option<Workspace<Metadata>>,
    /// Dependencies of the package itself.
    pub dependencies: DepsSet,
    /// Dependencies of its tests, examples and benchmarks.
    pub dev_dependencies: DepsSet,
    /// Dependencies of its build script.
    pub build_dependencies: DepsSet,
    /// Dependencies that hold for some targets only.
    pub target: TargetDepsSet,
    /// The declared features. Optional dependencies may add to them.
    pub features: FeatureSet,
    /// Replacements of dependencies, an older form of [`Manifest::patch`].
    pub replace: DepsSet,
    /// Replacements of dependencies, by registry.
    pub patch: PatchSet,
    /// The library. Where it is found on disk the manifest need not name it.
    pub lib: Option<Product>,
    /// How the package is compiled.
    pub profile: Profiles,
    /// The badges.
    pub badges: Badges,
    /// The binaries. Those found on disk need not be named.
    pub bin: Vec<Product>,
    /// The benchmarks.
    pub bench: Vec<Product>,
    /// The integration tests.
    pub test: Vec<Product>,
    /// The examples.
    pub example: Vec<Product>,
    /// The lints.
    pub lints: Option<Lints>,
}

impl Default for Target {
    fn default() -> (r: Self)
        ensures
            r.dependencies@ == Map::<Seq<char>, Dependency>::empty(),
            r.dev_dependencies@ == Map::<Seq<char>, Dependency>::empty(),
            r.build_dependencies@ == Map::<Seq<char>, Dependency>::empty(),
    {
        Target {
            dependencies: StrMap::new(),
            dev_dependencies: StrMap::new(),
            build_dependencies: StrMap::new(),
        }
    }
}

impl<Metadata> Default for Manifest<Metadata> {
    /// A manifest that holds nothing.
    fn default() -> (r: Self)
        ensures
            r.package is None,
            r.workspace is None,
            r.dependencies@ == Map::<Seq<char>, Dependency>::empty(),
            r.dev_dependencies@ == Map::<Seq<char>, Dependency>::empty(),
            r.build_dependencies@ == Map::<Seq<char>, Dependency>::empty(),
            r.target@ == Map::<Seq<char>, Target>::empty(),
            r.features@ == Map::<Seq<char>, Vec<String>>::empty(),
            r.replace@ == Map::<Seq<char>, Dependency>::empty(),
            r.patch@ == Map::<Seq<char>, DepsSet>::empty(),
            r.lib is None,
            r.profile.spec_is_blank(),
            r.badges.spec_is_blank(),
            r.lints is None,
            r.bin@.len() == 0,
            r.bench@.len() == 0,
            r.test@.len() == 0,
            r.example@.len() == 0,
    {
        Manifest {
            package: None,
            workspace: None,
            dependencies: StrMap::new(),
            dev_dependencies: StrMap::new(),
            build_dependencies: StrMap::new(),
            target: StrMap::new(),
            features: StrMap::new(),
            replace: StrMap::new(),
            patch: StrMap::new(),
            lib: None,
            profile: Profiles::default(),
            badges: Badges::default(),
            lints: None,
            bin: Vec::new(),
            bench: Vec::new(),
            test: Vec::new(),
            example: Vec::new(),
        }
    }
}

impl Default for PackageTemplate {
    fn default() -> (r: Self)
        ensures
            r.authors is None,
            r.categories is None,
            r.description is None,
            r.documentation is None,
            r.edition is None,
            r.exclude is None,
            r.homepage is None,
            r.included is None,
            r.keywords is None,
            r.license is None,
            r.license_file is None,
            r.publish == Publish::Flag(true),
            r.readme == OptionalFile::Flag(true),
            r.repository is None,
            r.rust_version is None,
            r.version is None,
    {
        PackageTemplate {
            authors: None,
            categories: None,
            description: None,
            documentation: None,
            edition: None,
            exclude: None,
            homepage: None,
            included: None,
            keywords: None,
            license: None,
            license_file: None,
            publish: Publish::Flag(true),
            readme: OptionalFile::Flag(true),
            repository: None,
            rust_version: None,
            version: None,
        }
    }
}

impl<Metadata> Default for Workspace<Metadata> {
    fn default() -> (r: Self)
        ensures
            r.members@.len() == 0,
            r.default_members@.len() == 0,
            r.package is None,
            r.exclude@.len() == 0,
            r.metadata is None,
            r.resolver is None,
            r.dependencies@ == Map::<Seq<char>, Dependency>::empty(),
            r.lints is None,
    {
        Workspace {
            members: Vec::new(),
            default_members: Vec::new(),
            package: None,
            exclude: Vec::new(),
            metadata: None,
            resolver: None,
            dependencies: StrMap::new(),
            lints: None,
        }
    }
}

/// Whether any of the dependencies is taken from a workspace not yet applied.
pub open spec fn any_inherited(deps: Map<Seq<char>, Dependency>) -> bool {
    exists|k: Seq<char>| deps.dom().contains(k) && #[trigger] deps[k] is Inherited
}

/// Whether any of the dependencies is taken from a workspace not yet applied.
fn has_inherited(deps: &StrMap<Dependency>) -> (b: bool)
    ensures
        b == any_inherited(deps@),
{
    let n = deps.len();
    let ghost keys = crate::order::sorted_seq(deps@.dom());
    proof {
        crate::order::lemma_sorted_seq_dom(deps@.dom());
    }
    let mut i: usize = 0;
    while i < n
        invariant
            i <= n,
            n == keys.len(),
            keys == crate::order::sorted_seq(deps@.dom()),
            keys.to_set() == deps@.dom(),
            forall|j: int| 0 <= j < i ==> !(#[trigger] deps@[keys[j]] is Inherited),
        decreases n - i,
    {
        let d = deps.value_at(i);
        if let Dependency::Inherited(_) = d {
            assert(keys.to_set().contains(keys[i as int]));
            return true;
        }
        i += 1;
    }
    proof {
        if any_inherited(deps@) {
            let k = choose|k: Seq<char>| deps@.dom().contains(k) && #[trigger] deps@[k] is Inherited;
            assert(keys.to_set().contains(k));
            let j = choose|j: int| 0 <= j < keys.len() && keys[j] == k;
            assert(!(deps@[keys[j]] is Inherited));
        }
    }
    false
}

impl<Metadata> Manifest<Metadata> {
    /// The model of [`Manifest::needs_workspace_inheritance`].
    pub open spec fn spec_needs_workspace_inheritance(&self) -> bool {
        (self.package matches Some(p) && p.spec_needs_workspace_inheritance()) || any_inherited(
            self.dependencies@,
        ) || any_inherited(self.build_dependencies@) || any_inherited(self.dev_dependencies@)
    }

    /// Whether anything in the manifest is left to the workspace: a value of the
    /// package, or a dependency of the package, of its build script or of its tests.
    /// Once the workspace is applied, nothing is.
    #[verifier::when_used_as_spec(spec_needs_workspace_inheritance)]
    pub fn needs_workspace_inheritance(&self) -> (b: bool)
        ensures
            b == self.spec_needs_workspace_inheritance(),
    {
        let p = match &self.package {
            Some(p) => p.needs_workspace_inheritance(),
            None => false,
        };
        p || has_inherited(&self.dependencies) || has_inherited(&self.build_dependencies)
            || has_inherited(&self.dev_dependencies)
    }

    /// The package. The manifest must be one of a package, not of a workspace only.
    pub fn package(&self) -> (p: &Package<Metadata>)
        requires
            self.package is Some,
        ensures
            self.package == Some(*p),
    {
        match &self.package {
            Some(p) => p,
            None => vstd::pervasive::unreached(),
        }
    }

    /// Whether the package neither names a version nor says whether it may be
    /// published: its version reads `0.0.0` and its publishing is left at the default.
    pub open spec fn unversioned(&self) -> bool {
        self.package matches Some(p) && p.version matches Inheritable::Value(v) && v@ == "0.0.0"@
            && p.publish == Inheritable::Value(Publish::Flag(true))
    }

    /// Forbids publishing where the package names no version, which a manifest that was
    /// just read shows by the version `0.0.0`, and does not say whether it may be
    /// published.
    pub fn forbid_publishing_unversioned(&mut self)
        ensures
            old(self).unversioned() ==> (final(self).package matches Some(p) && p.publish
                == Inheritable::Value(Publish::Flag(false)) && p.version == old(self).package->0.version
                && p.name == old(self).package->0.name),
            !old(self).unversioned() ==> *final(self) == *old(self),
            final(self).dependencies == old(self).dependencies,
            final(self).features == old(self).features,
    {
        if let Some(package) = &mut self.package {
            let zero = match &package.version {
                Inheritable::Value(v) => crate::text::text_eq(v.as_str(), "0.0.0"),
                Inheritable::Inherited => false,
            };
            let default_publish = match &package.publish {
                Inheritable::Value(p) => p.is_default(),
                Inheritable::Inherited => false,
            };
            if zero && default_publish {
                package.publish = Inheritable::Value(Publish::Flag(false));
            }
        }
    }
}

} // verus!
