//! What a manifest says of one dependency.

use vstd::prelude::*;
use crate::strmap::StrMap;
use crate::error::Error;

verus! {

/// A dependency as a manifest declares it. Its key (which is not always the package's
/// name) is kept by the section that holds it.
#[derive(Debug, PartialEq)]
pub enum Dependency {
    /// A version requirement and nothing else.
    Simple(String),
    /// Declared as taken from the workspace, which has not been applied yet.
    Inherited(InheritedDependencyDetail),
    /// A table of settings.
    Detailed(Box<DependencyDetail>),
}

/// The settings of a dependency that is more than a version requirement.
#[derive(Debug, PartialEq)]
pub struct DependencyDetail {
    /// Version requirement.
    pub version: Option<String>,
    /// Name of another registry to fetch from.
    pub registry: Option<String>,
    /// Address of another registry's index.
    pub registry_index: Option<String>,
    /// Where the package lies on disk. Relative to the manifest, or to the workspace
    /// where [`DependencyDetail::inherited`] is set.
    pub path: Option<String>,
    /// Set when the dependency was declared by the workspace.
    pub inherited: bool,
    /// Address of a source repository.
    pub git: Option<String>,
    /// Branch of the repository.
    pub branch: Option<String>,
    /// Tag of the repository.
    pub tag: Option<String>,
    /// Commit of the repository.
    pub rev: Option<String>,
    /// Features of the dependency to switch on.
    pub features: Vec<String>,
    /// An optional dependency may give rise to a feature of its own name.
    pub optional: bool,
    /// Whether the dependency's default features are on.
    pub default_features: bool,
    /// The package's name where it differs from the key.
    pub package: Option<String>,
    /// Settings this library does not know by name.
    pub unstable: StrMap<toml::Value>,
}

/// A dependency declared as `workspace = true`, before the workspace is applied.
#[derive(Debug, PartialEq, Eq, Default)]
pub struct InheritedDependencyDetail {
    /// Features to add to those the workspace names.
    pub features: Vec<String>,
    /// Makes the dependency optional.
    pub optional: bool,
    /// The marker itself.
    pub workspace: bool,
}

/// A copy of a text that may be there.
pub fn clone_text(t: &Option<String>) -> (r: Option<String>)
    ensures
        r == *t,
{
    match t {
        Some(s) => Some(s.clone()),
        None => None,
    }
}

/// A copy of a run of texts.
pub fn clone_texts(v: &Vec<String>) -> (r: Vec<String>)
    ensures
        r@ == v@,
{
    let mut r: Vec<String> = Vec::new();
    let mut i: usize = 0;
    while i < v.len()
        invariant
            i <= v@.len(),
            r@ == v@.take(i as int),
        decreases v@.len() - i,
    {
        r.push(v[i].clone());
        assert(r@ =~= v@.take(i as int + 1));
        i += 1;
    }
    assert(v@.take(v@.len() as int) =~= v@);
    r
}

impl DependencyDetail {
    /// Whether `other` holds what this table holds: the same settings, and under the
    /// same names of unknown settings copies of the same values.
    pub open spec fn copied_to(&self, other: &DependencyDetail) -> bool {
        &&& other.version == self.version
        &&& other.registry == self.registry
        &&& other.registry_index == self.registry_index
        &&& other.path == self.path
        &&& other.inherited == self.inherited
        &&& other.git == self.git
        &&& other.branch == self.branch
        &&& other.tag == self.tag
        &&& other.rev == self.rev
        &&& other.features@ == self.features@
        &&& other.optional == self.optional
        &&& other.default_features == self.default_features
        &&& other.package == self.package
        &&& other.unstable@.dom() == self.unstable@.dom()
        &&& forall|k: Seq<char>| #[trigger]
            self.unstable@.dom().contains(k) ==> vstd::pervasive::cloned(
                self.unstable@[k],
                other.unstable@[k],
            )
    }
}

impl Clone for DependencyDetail {
    fn clone(&self) -> (r: Self)
        ensures
            self.copied_to(&r),
    {
        DependencyDetail {
            version: clone_text(&self.version),
            registry: clone_text(&self.registry),
            registry_index: clone_text(&self.registry_index),
            path: clone_text(&self.path),
            inherited: self.inherited,
            git: clone_text(&self.git),
            branch: clone_text(&self.branch),
            tag: clone_text(&self.tag),
            rev: clone_text(&self.rev),
            features: clone_texts(&self.features),
            optional: self.optional,
            default_features: self.default_features,
            package: clone_text(&self.package),
            unstable: self.unstable.clone(),
        }
    }
}

impl Clone for InheritedDependencyDetail {
    fn clone(&self) -> (r: Self)
        ensures
            r.features@ == self.features@,
            r.optional == self.optional,
            r.workspace == self.workspace,
    {
        InheritedDependencyDetail {
            features: clone_texts(&self.features),
            optional: self.optional,
            workspace: self.workspace,
        }
    }
}

impl Dependency {
    /// Whether `other` holds what this declaration holds.
    pub open spec fn copied_to(&self, other: &Dependency) -> bool {
        match (self, other) {
            (Dependency::Simple(a), Dependency::Simple(b)) => a == b,
            (Dependency::Inherited(a), Dependency::Inherited(b)) => b.features@ == a.features@
                && b.optional == a.optional && b.workspace == a.workspace,
            (Dependency::Detailed(a), Dependency::Detailed(b)) => a.copied_to(&**b),
            _ => false,
        }
    }
}

impl Clone for Dependency {
    fn clone(&self) -> (r: Self)
        ensures
            self.copied_to(&r),
    {
        match self {
            Dependency::Simple(v) => Dependency::Simple(v.clone()),
            Dependency::Inherited(d) => Dependency::Inherited(d.clone()),
            Dependency::Detailed(d) => {
                let c: DependencyDetail = (**d).clone();
                Dependency::Detailed(Box::new(c))
            },
        }
    }
}

impl Default for DependencyDetail {
    /// No setting is made; the dependency's default features are on.
    fn default() -> (r: Self)
        ensures
            r.version is None,
            r.registry is None,
            r.registry_index is None,
            r.path is None,
            !r.inherited,
            r.git is None,
            r.branch is None,
            r.tag is None,
            r.rev is None,
            r.features@.len() == 0,
            !r.optional,
            r.default_features,
            r.package is None,
            r.unstable@ == Map::<Seq<char>, toml::Value>::empty(),
    {
        DependencyDetail {
            version: None,
            registry: None,
            registry_index: None,
            path: None,
            inherited: false,
            git: None,
            branch: None,
            tag: None,
            rev: None,
            features: Vec::new(),
            optional: false,
            default_features: true,
            package: None,
            unstable: StrMap::new(),
        }
    }
}

impl Dependency {
    /// The model of [`Dependency::detail`].
    pub open spec fn spec_detail(&self) -> Option<&DependencyDetail> {
        match self {
            Dependency::Detailed(d) => Some(&**d),
            _ => None,
        }
    }

    /// The table of settings, where the dependency is declared by one.
    #[verifier::when_used_as_spec(spec_detail)]
    pub fn detail(&self) -> (r: Option<&DependencyDetail>)
        ensures
            r == self.spec_detail(),
    {
        match self {
            Dependency::Detailed(d) => Some(&**d),
            Dependency::Simple(_) | Dependency::Inherited(_) => None,
        }
    }

    /// Whether a table of settings holds the version requirement `version` and nothing
    /// else but what it has where nothing is set.
    pub open spec fn bare(d: DependencyDetail, version: String) -> bool {
        &&& d.version == Some(version)
        &&& d.registry is None
        &&& d.registry_index is None
        &&& d.path is None
        &&& !d.inherited
        &&& d.git is None
        &&& d.branch is None
        &&& d.tag is None
        &&& d.rev is None
        &&& d.features@.len() == 0
        &&& !d.optional
        &&& d.default_features
        &&& d.package is None
        &&& d.unstable@ == Map::<Seq<char>, toml::Value>::empty()
    }

    /// The table of settings, for change. A dependency that is a version requirement
    /// only is first made into a table that holds it. One that is taken from a
    /// workspace not yet applied gives [`Error::InheritedUnknownValue`].
    pub fn try_detail_mut(&mut self) -> (r: Result<&mut DependencyDetail, Error>)
        ensures
            match *old(self) {
                Dependency::Inherited(_) => r matches Err(e) && e is InheritedUnknownValue
                    && *final(self) == *old(self),
                Dependency::Detailed(d) => r matches Ok(m) && *m == *d && *final(self)
                    == Dependency::Detailed(Box::new(*final(m))),
                Dependency::Simple(v) => r matches Ok(m) && Self::bare(*m, v) && *final(self)
                    == Dependency::Detailed(Box::new(*final(m))),
            },
    {
        if let Dependency::Simple(ver) = self {
            let mut detail = DependencyDetail::default();
            detail.version = Some(ver.clone());
            *self = Dependency::Detailed(Box::new(detail));
        }
        match self {
            Dependency::Detailed(d) => Ok(&mut **d),
            Dependency::Simple(_) => Err(Error::InheritedUnknownValue),
            Dependency::Inherited(_) => Err(Error::InheritedUnknownValue),
        }
    }

    /// The table of settings, for change. The dependency must not be one that is taken
    /// from a workspace not yet applied.
    pub fn detail_mut(&mut self) -> (r: &mut DependencyDetail)
        requires
            !(*old(self) is Inherited),
        ensures
            match *old(self) {
                Dependency::Detailed(d) => *r == *d,
                Dependency::Simple(v) => Self::bare(*r, v),
                Dependency::Inherited(_) => false,
            },
            *final(self) == Dependency::Detailed(Box::new(*final(r))),
    {
        match self.try_detail_mut() {
            Ok(d) => d,
            Err(_) => vstd::pervasive::unreached(),
        }
    }

    /// The model of [`Dependency::try_req`]: the version requirement, where it is known.
    pub open spec fn spec_req(&self) -> Option<Seq<char>> {
        match self {
            Dependency::Simple(v) => Some(v@),
            Dependency::Detailed(d) => match d.version {
                Some(v) => Some(v@),
                None => Some("*"@),
            },
            Dependency::Inherited(_) => None,
        }
    }

    /// The version requirement. The dependency must not be one that is taken from a
    /// workspace not yet applied.
    pub fn req(&self) -> (r: &str)
        requires
            !(self is Inherited),
        ensures
            Some(r@) == self.spec_req(),
    {
        match self.try_req() {
            Ok(r) => r,
            Err(_) => vstd::pervasive::unreached(),
        }
    }

    /// The version requirement: `*` where a table of settings holds none. A dependency
    /// that is taken from a workspace not yet applied gives
    /// [`Error::InheritedUnknownValue`].
    pub fn try_req(&self) -> (r: Result<&str, Error>)
        ensures
            match r {
                Ok(v) => Some(v@) == self.spec_req(),
                Err(e) => self is Inherited && e is InheritedUnknownValue,
            },
    {
        match self {
            Dependency::Simple(v) => Ok(v.as_str()),
            Dependency::Detailed(d) => match &d.version {
                Some(v) => Ok(v.as_str()),
                None => Ok("*"),
            },
            Dependency::Inherited(_) => Err(Error::InheritedUnknownValue),
        }
    }

    /// The features of the dependency that are asked for, besides its default ones.
    pub fn req_features(&self) -> (r: &[String])
        ensures
            r@ == match self {
                Dependency::Simple(_) => Seq::<String>::empty(),
                Dependency::Detailed(d) => d.features@,
                Dependency::Inherited(d) => d.features@,
            },
    {
        match self {
            Dependency::Simple(_) => &[],
            Dependency::Detailed(d) => d.features.as_slice(),
            Dependency::Inherited(d) => d.features.as_slice(),
        }
    }

    /// The address of the dependency's source repository, where it names one.
    pub fn git(&self) -> (r: Option<&str>)
        ensures
            match (self.spec_detail(), r) {
                (Some(d), Some(g)) => d.git matches Some(x) && x@ == g@,
                (Some(d), None) => d.git is None,
                (None, r) => r is None,
            },
    {
        match self.detail() {
            Some(d) => match &d.git {
                Some(g) => Some(g.as_str()),
                None => None,
            },
            None => None,
        }
    }

    /// The commit of the dependency's source repository, where it names one.
    pub fn git_rev(&self) -> (r: Option<&str>)
        ensures
            match (self.spec_detail(), r) {
                (Some(d), Some(g)) => d.rev matches Some(x) && x@ == g@,
                (Some(d), None) => d.rev is None,
                (None, r) => r is None,
            },
    {
        match self.detail() {
            Some(d) => match &d.rev {
                Some(g) => Some(g.as_str()),
                None => None,
            },
            None => None,
        }
    }

    /// Whether the dependency comes from the usual registry: it names no path, no other
    /// registry and no source repository. The dependency must not be one that is taken
    /// from a workspace not yet applied.
    pub fn is_crates_io(&self) -> (b: bool)
        requires
            !(self is Inherited),
        ensures
            b == match self {
                Dependency::Detailed(d) => d.path is None && d.registry is None && d.registry_index is None
                    && d.git is None && d.tag is None && d.branch is None && d.rev is None,
                _ => true,
            },
    {
        match self {
            Dependency::Simple(_) => true,
            Dependency::Detailed(d) => d.path.is_none() && d.registry.is_none()
                && d.registry_index.is_none() && d.git.is_none() && d.tag.is_none()
                && d.branch.is_none() && d.rev.is_none(),
            Dependency::Inherited(_) => vstd::pervasive::unreached(),
        }
    }

    /// The model of [`Dependency::optional`].
    pub open spec fn spec_optional(&self) -> bool {
        match self {
            Dependency::Simple(_) => false,
            Dependency::Detailed(d) => d.optional,
            Dependency::Inherited(d) => d.optional,
        }
    }

    /// Whether the dependency is optional.
    #[verifier::when_used_as_spec(spec_optional)]
    pub fn optional(&self) -> (r: bool)
        ensures
            r == self.spec_optional(),
    {
        match self {
            Dependency::Simple(_) => false,
            Dependency::Detailed(d) => d.optional,
            Dependency::Inherited(d) => d.optional,
        }
    }

    /// The model of [`Dependency::package`]: the character sequence of the overriding name.
    pub open spec fn spec_package(&self) -> Option<Seq<char>> {
        match self {
            Dependency::Detailed(d) => match d.package {
                Some(p) => Some(p@),
                None => None,
            },
            _ => None,
        }
    }

    /// The package's name where the declaration overrides it.
    pub fn package(&self) -> (r: Option<&str>)
        ensures
            r is Some == self.spec_package() is Some,
            r matches Some(p) ==> p@ == self.spec_package()->0,
    {
        match self {
            Dependency::Detailed(d) => match &d.package {
                Some(p) => Some(p.as_str()),
                None => None,
            },
            Dependency::Simple(_) | Dependency::Inherited(_) => None,
        }
    }
}

} // verus!
