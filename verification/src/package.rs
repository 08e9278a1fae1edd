//! The `[package]` section of a manifest and the values it holds.

use vstd::prelude::*;
use crate::inheritable::Inheritable;
use vstd::std_specs::cmp::PartialEqSpecImpl;

verus! {

/// The edition of the language that a package or a product is written in.
#[derive(Debug, PartialEq, Eq, PartialOrd, Ord, Copy, Clone, Hash, Structural)]
#[non_exhaustive]
pub enum Edition {
    /// 2015
    E2015,
    /// 2018
    E2018,
    /// 2021
    E2021,
    /// 2024
    E2024,
}

impl Default for Edition {
    fn default() -> (r: Self)
        ensures
            r == Edition::E2015,
    {
        Edition::E2015
    }
}

impl Edition {
    /// The minor version (1.x) of the oldest compiler that knows this edition. The
    /// edition must not be 2024, for which it is not fixed.
    pub fn min_rust_version_minor(self) -> (v: u16)
        requires
            self != Edition::E2024,
        ensures
            v == match self {
                Edition::E2015 => 1u16,
                Edition::E2018 => 31u16,
                _ => 56u16,
            },
    {
        match self {
            Edition::E2015 => 1,
            Edition::E2018 => 31,
            Edition::E2021 => 56,
            Edition::E2024 => vstd::pervasive::unreached(),
        }
    }
}

/// The way the features of dependencies are unified.
#[derive(Debug, PartialEq, Eq, PartialOrd, Ord, Copy, Clone, Hash, Structural)]
pub enum Resolver {
    /// `"1"`
    V1,
    /// `"2"`
    V2,
}

impl Default for Resolver {
    fn default() -> (r: Self)
        ensures
            r == Resolver::V1,
    {
        Resolver::V1
    }
}

impl Resolver {
    /// The setting as it is written in a manifest.
    pub fn as_str(&self) -> (s: &'static str)
        ensures
            s@ == match self {
                Resolver::V1 => "1"@,
                Resolver::V2 => "2"@,
            },
    {
        match self {
            Resolver::V1 => "1",
            Resolver::V2 => "2",
        }
    }
}

/// A file that a package may name, switch off, or leave to be found: its readme or
/// its build script.
#[derive(Debug, Clone, Eq, PartialEq)]
pub enum OptionalFile {
    /// `true` to have the usual file looked for, `false` to have none.
    Flag(bool),
    /// The file's path.
    Path(String),
}

impl Default for OptionalFile {
    fn default() -> (r: Self)
        ensures
            r == OptionalFile::Flag(true),
    {
        OptionalFile::Flag(true)
    }
}

impl OptionalFile {
    /// A text for people: the path, `<default>` or `<disabled>`.
    pub fn display(&self) -> (s: &str)
        ensures
            s@ == match self {
                OptionalFile::Path(p) => p@,
                OptionalFile::Flag(true) => "<default>"@,
                OptionalFile::Flag(false) => "<disabled>"@,
            },
    {
        match self {
            OptionalFile::Path(p) => p.as_str(),
            OptionalFile::Flag(true) => "<default>",
            OptionalFile::Flag(false) => "<disabled>",
        }
    }

    /// Whether this is the setting that a manifest has where it says nothing.
    pub fn is_default(&self) -> (b: bool)
        ensures
            b == (*self == OptionalFile::Flag(true)),
    {
        match self {
            OptionalFile::Flag(flag) => *flag,
            OptionalFile::Path(_) => false,
        }
    }

    /// The path where one is named. A flag has none, not even `true`.
    pub fn as_path(&self) -> (r: Option<&str>)
        ensures
            match self {
                OptionalFile::Path(p) => r matches Some(s) && s@ == p@,
                OptionalFile::Flag(_) => r is None,
            },
    {
        match self {
            OptionalFile::Path(p) => Some(p.as_str()),
            OptionalFile::Flag(_) => None,
        }
    }

    /// Whether there is, or may be, such a file.
    pub fn is_some(&self) -> (b: bool)
        ensures
            b == (*self != OptionalFile::Flag(false)),
    {
        match self {
            OptionalFile::Flag(flag) => *flag,
            OptionalFile::Path(_) => true,
        }
    }
}

/// Whether and where a package may be published.
#[derive(Debug, Clone, Eq, PartialEq)]
pub enum Publish {
    /// Anywhere or nowhere.
    Flag(bool),
    /// To the registries named.
    Registry(Vec<String>),
}

impl Default for Publish {
    fn default() -> (r: Self)
        ensures
            r == Publish::Flag(true),
    {
        Publish::Flag(true)
    }
}

impl Publish {
    /// Whether this is the setting that a manifest has where it says nothing.
    pub fn is_default(&self) -> (b: bool)
        ensures
            b == (*self == Publish::Flag(true)),
    {
        match self {
            Publish::Flag(flag) => *flag,
            Publish::Registry(_) => false,
        }
    }

    /// The model of [`Publish::allows`].
    pub open spec fn spec_allows(&self) -> bool {
        match self {
            Publish::Flag(flag) => *flag,
            Publish::Registry(reg) => reg@.len() != 0,
        }
    }

    /// Whether the package may be published at all: the flag, or whether any registry
    /// is named.
    #[verifier::when_used_as_spec(spec_allows)]
    pub fn allows(&self) -> (b: bool)
        ensures
            b == self.spec_allows(),
    {
        match self {
            Publish::Flag(flag) => *flag,
            Publish::Registry(reg) => reg.len() != 0,
        }
    }

}

impl PartialEq<Publish> for bool {
    /// Whether publishing is allowed exactly if the flag says so.
    fn eq(&self, p: &Publish) -> (b: bool) {
        match p {
            Publish::Flag(flag) => *flag == *self,
            Publish::Registry(reg) => (reg.len() == 0) != *self,
        }
    }
}

impl PartialEqSpecImpl<Publish> for bool {
    open spec fn obeys_eq_spec() -> bool {
        true
    }

    open spec fn eq_spec(&self, p: &Publish) -> bool {
        p.spec_allows() == *self
    }
}

impl PartialEq<bool> for Publish {
    /// Whether publishing is allowed exactly if the flag says so.
    fn eq(&self, b: &bool) -> (r: bool) {
        self.allows() == *b
    }
}

impl PartialEqSpecImpl<bool> for Publish {
    open spec fn obeys_eq_spec() -> bool {
        true
    }

    open spec fn eq_spec(&self, b: &bool) -> bool {
        self.spec_allows() == *b
    }
}

/// The `[package]` section.
#[derive(Debug, Clone, PartialEq)]
#[non_exhaustive]
pub struct Package<Metadata = toml::Value> {
    /// The package's name.
    pub name: String,
    /// The edition the package is written in.
    pub edition: Inheritable<Edition>,
    /// The oldest compiler the package supports, as `1.x`.
    pub rust_version: Option<Inheritable<String>>,
    /// The package's version.
    pub version: Inheritable<String>,
    /// The build script.
    pub build: Option<OptionalFile>,
    /// The workspace the package belongs to, where the manifest names it.
    pub workspace: Option<String>,
    /// The authors.
    pub authors: Inheritable<Vec<String>>,
    /// The name of a native library the package links to.
    pub links: Option<String>,
    /// A short description.
    pub description: Option<Inheritable<String>>,
    /// The address of the package's home page.
    pub homepage: Option<Inheritable<String>>,
    /// The address of the package's documentation.
    pub documentation: Option<Inheritable<String>>,
    /// The readme file.
    pub readme: Inheritable<OptionalFile>,
    /// Words to find the package by.
    pub keywords: Inheritable<Vec<String>>,
    /// The categories the package belongs to.
    pub categories: Inheritable<Vec<String>>,
    /// Files that are not published.
    pub exclude: Inheritable<Vec<String>>,
    /// Files that are published.
    pub included: Inheritable<Vec<String>>,
    /// The licence, as an expression.
    pub license: Option<Inheritable<String>>,
    /// The file that holds the licence, where it is not a known one.
    pub license_file: Option<Inheritable<String>>,
    /// The address of the package's source repository.
    pub repository: Option<Inheritable<String>>,
    /// The binary that is run where none is named.
    pub default_run: Option<String>,
    /// Whether binaries are looked for on disk.
    pub autobins: bool,
    /// Whether examples are looked for on disk.
    pub autoexamples: bool,
    /// Whether tests are looked for on disk.
    pub autotests: bool,
    /// Whether benchmarks are looked for on disk.
    pub autobenches: bool,
    /// Whether and where the package may be published.
    pub publish: Inheritable<Publish>,
    /// The way the features of dependencies are unified.
    pub resolver: Option<Resolver>,
    /// Whatever else tools keep in the manifest.
    pub metadata: Option<Metadata>,
}

impl<Metadata> Package<Metadata> {
    /// A package of this name and version, of the 2021 edition, with nothing else set
    /// but what a manifest has where it says nothing.
    pub fn new(name: String, version: String) -> (r: Self)
        ensures
            r.name == name,
            r.version == Inheritable::Value(version),
            r.edition == Inheritable::Value(Edition::E2021),
            r.rust_version is None,
            r.build is None,
            r.workspace is None,
            r.authors matches Inheritable::Value(v) && v@.len() == 0,
            r.links is None,
            r.description is None,
            r.homepage is None,
            r.documentation is None,
            r.readme == Inheritable::Value(OptionalFile::Flag(true)),
            r.keywords matches Inheritable::Value(v) && v@.len() == 0,
            r.categories matches Inheritable::Value(v) && v@.len() == 0,
            r.exclude matches Inheritable::Value(v) && v@.len() == 0,
            r.included matches Inheritable::Value(v) && v@.len() == 0,
            r.license is None,
            r.license_file is None,
            r.repository is None,
            r.default_run is None,
            r.autobins && r.autoexamples && r.autotests && r.autobenches,
            r.publish == Inheritable::Value(Publish::Flag(true)),
            r.resolver is None,
            r.metadata is None,
    {
        Package {
            name,
            version: Inheritable::Value(version),
            edition: Inheritable::Value(Edition::E2021),
            rust_version: None,
            build: None,
            workspace: None,
            authors: Inheritable::Value(Vec::new()),
            links: None,
            description: None,
            homepage: None,
            documentation: None,
            readme: Inheritable::Value(OptionalFile::Flag(true)),
            keywords: Inheritable::Value(Vec::new()),
            categories: Inheritable::Value(Vec::new()),
            exclude: Inheritable::Value(Vec::new()),
            included: Inheritable::Value(Vec::new()),
            license: None,
            license_file: None,
            repository: None,
            default_run: None,
            autobins: true,
            autoexamples: true,
            autotests: true,
            autobenches: true,
            publish: Inheritable::Value(Publish::Flag(true)),
            resolver: None,
            metadata: None,
        }
    }
}

/// Whether an optional value is there and can be read, or is not there at all.
pub open spec fn readable<T>(v: Option<Inheritable<T>>) -> bool {
    !(v matches Some(i) && i is Inherited)
}

/// The text of an optional value that can be read.
pub open spec fn text_of(v: Option<Inheritable<String>>) -> Option<Seq<char>> {
    match v {
        Some(Inheritable::Value(s)) => Some(s@),
        _ => None,
    }
}

/// The text of an optional value. It must not be left to the workspace.
fn read_text(v: &Option<Inheritable<String>>) -> (r: Option<&str>)
    requires
        readable(*v),
    ensures
        match r {
            Some(s) => text_of(*v) == Some(s@),
            None => *v is None,
        },
{
    match v {
        Some(Inheritable::Value(s)) => Some(s.as_str()),
        Some(Inheritable::Inherited) => vstd::pervasive::unreached(),
        None => None,
    }
}

/// An optional value that is set to the text, or not there where there is no text.
fn set_text(text: Option<String>) -> (r: Option<Inheritable<String>>)
    ensures
        r == match text {
            Some(s) => Some(Inheritable::Value(s)),
            None => None,
        },
{
    match text {
        Some(s) => Some(Inheritable::Value(s)),
        None => None,
    }
}

impl<Metadata> Package<Metadata> {
    /// The authors. They must not be left to the workspace.
    pub fn authors(&self) -> (r: &[String])
        requires
            self.authors is Value,
        ensures
            self.authors matches Inheritable::Value(v) && v@ == r@,
    {
        match &self.authors {
            Inheritable::Value(v) => v.as_slice(),
            Inheritable::Inherited => vstd::pervasive::unreached(),
        }
    }

    /// The categories the package belongs to. They must not be left to the workspace.
    pub fn categories(&self) -> (r: &[String])
        requires
            self.categories is Value,
        ensures
            self.categories matches Inheritable::Value(v) && v@ == r@,
    {
        match &self.categories {
            Inheritable::Value(v) => v.as_slice(),
            Inheritable::Inherited => vstd::pervasive::unreached(),
        }
    }

    /// The files that are not published. They must not be left to the workspace.
    pub fn exclude(&self) -> (r: &[String])
        requires
            self.exclude is Value,
        ensures
            self.exclude matches Inheritable::Value(v) && v@ == r@,
    {
        match &self.exclude {
            Inheritable::Value(v) => v.as_slice(),
            Inheritable::Inherited => vstd::pervasive::unreached(),
        }
    }

    /// The files that are published. They must not be left to the workspace.
    pub fn included(&self) -> (r: &[String])
        requires
            self.included is Value,
        ensures
            self.included matches Inheritable::Value(v) && v@ == r@,
    {
        match &self.included {
            Inheritable::Value(v) => v.as_slice(),
            Inheritable::Inherited => vstd::pervasive::unreached(),
        }
    }

    /// The words to find the package by. They must not be left to the workspace.
    pub fn keywords(&self) -> (r: &[String])
        requires
            self.keywords is Value,
        ensures
            self.keywords matches Inheritable::Value(v) && v@ == r@,
    {
        match &self.keywords {
            Inheritable::Value(v) => v.as_slice(),
            Inheritable::Inherited => vstd::pervasive::unreached(),
        }
    }

    /// The categories, for change. They must not be left to the workspace.
    pub fn categories_mut(&mut self) -> (r: &mut Vec<String>)
        requires
            old(self).categories is Value,
        ensures
            old(self).categories == Inheritable::Value(*r),
            final(self).categories == Inheritable::Value(*final(r)),
    {
        match &mut self.categories {
            Inheritable::Value(v) => v,
            Inheritable::Inherited => vstd::pervasive::unreached(),
        }
    }

    /// A short description, where the package has one. It must not be left to the workspace.
    pub fn description(&self) -> (r: Option<&str>)
        requires
            readable(self.description),
        ensures
            match r {
                Some(s) => text_of(self.description) == Some(s@),
                None => self.description is None,
            },
    {
        read_text(&self.description)
    }

    /// The address of the documentation, where the package has one. It must not be left to the workspace.
    pub fn documentation(&self) -> (r: Option<&str>)
        requires
            readable(self.documentation),
        ensures
            match r {
                Some(s) => text_of(self.documentation) == Some(s@),
                None => self.documentation is None,
            },
    {
        read_text(&self.documentation)
    }

    /// The address of the home page, where the package has one. It must not be left to the workspace.
    pub fn homepage(&self) -> (r: Option<&str>)
        requires
            readable(self.homepage),
        ensures
            match r {
                Some(s) => text_of(self.homepage) == Some(s@),
                None => self.homepage is None,
            },
    {
        read_text(&self.homepage)
    }

    /// The licence, where the package has one. It must not be left to the workspace.
    pub fn license(&self) -> (r: Option<&str>)
        requires
            readable(self.license),
        ensures
            match r {
                Some(s) => text_of(self.license) == Some(s@),
                None => self.license is None,
            },
    {
        read_text(&self.license)
    }

    /// The file that holds the licence, where the package has one. It must not be left to the workspace.
    pub fn license_file(&self) -> (r: Option<&str>)
        requires
            readable(self.license_file),
        ensures
            match r {
                Some(s) => text_of(self.license_file) == Some(s@),
                None => self.license_file is None,
            },
    {
        read_text(&self.license_file)
    }

    /// The address of the source repository, where the package has one. It must not be left to the workspace.
    pub fn repository(&self) -> (r: Option<&str>)
        requires
            readable(self.repository),
        ensures
            match r {
                Some(s) => text_of(self.repository) == Some(s@),
                None => self.repository is None,
            },
    {
        read_text(&self.repository)
    }

    /// The oldest compiler the package supports, where the package has one. It must not be left to the workspace.
    pub fn rust_version(&self) -> (r: Option<&str>)
        requires
            readable(self.rust_version),
        ensures
            match r {
                Some(s) => text_of(self.rust_version) == Some(s@),
                None => self.rust_version is None,
            },
    {
        read_text(&self.rust_version)
    }

    /// Sets or clears `description`.
    pub fn set_description(&mut self, description: Option<String>)
        ensures
            final(self).description == match description {
                Some(s) => Some(Inheritable::Value(s)),
                None => None,
            },
    {
        self.description = set_text(description);
    }

    /// Sets or clears `documentation`.
    pub fn set_documentation(&mut self, documentation: Option<String>)
        ensures
            final(self).documentation == match documentation {
                Some(s) => Some(Inheritable::Value(s)),
                None => None,
            },
    {
        self.documentation = set_text(documentation);
    }

    /// Sets or clears `homepage`.
    pub fn set_homepage(&mut self, homepage: Option<String>)
        ensures
            final(self).homepage == match homepage {
                Some(s) => Some(Inheritable::Value(s)),
                None => None,
            },
    {
        self.homepage = set_text(homepage);
    }

    /// Sets or clears `repository`.
    pub fn set_repository(&mut self, repository: Option<String>)
        ensures
            final(self).repository == match repository {
                Some(s) => Some(Inheritable::Value(s)),
                None => None,
            },
    {
        self.repository = set_text(repository);
    }

    /// Sets or clears `rust_version`.
    pub fn set_rust_version(&mut self, rust_version: Option<String>)
        ensures
            final(self).rust_version == match rust_version {
                Some(s) => Some(Inheritable::Value(s)),
                None => None,
            },
    {
        self.rust_version = set_text(rust_version);
    }

    /// The edition the package is written in. It must not be left to the workspace.
    pub fn edition(&self) -> (r: Edition)
        requires
            self.edition is Value,
        ensures
            self.edition == Inheritable::Value(r),
    {
        self.edition.unwrap()
    }

    /// Whether and where the package may be published. It must not be left to the
    /// workspace.
    pub fn publish(&self) -> (r: &Publish)
        requires
            self.publish is Value,
        ensures
            self.publish == Inheritable::Value(*r),
    {
        match &self.publish {
            Inheritable::Value(v) => v,
            Inheritable::Inherited => vstd::pervasive::unreached(),
        }
    }

    /// The readme file. It must not be left to the workspace.
    pub fn readme(&self) -> (r: &OptionalFile)
        requires
            self.readme is Value,
        ensures
            self.readme == Inheritable::Value(*r),
    {
        match &self.readme {
            Inheritable::Value(v) => v,
            Inheritable::Inherited => vstd::pervasive::unreached(),
        }
    }

    /// The package's version. It must not be left to the workspace.
    pub fn version(&self) -> (r: &str)
        requires
            self.version is Value,
        ensures
            self.version matches Inheritable::Value(v) && v@ == r@,
    {
        match &self.version {
            Inheritable::Value(v) => v.as_str(),
            Inheritable::Inherited => vstd::pervasive::unreached(),
        }
    }

    /// The name of a native library the package links to, where it names one.
    pub fn links(&self) -> (r: Option<&str>)
        ensures
            match r {
                Some(s) => self.links matches Some(l) && l@ == s@,
                None => self.links is None,
            },
    {
        match &self.links {
            Some(l) => Some(l.as_str()),
            None => None,
        }
    }

    /// The package's name.
    pub fn name(&self) -> (r: &str)
        ensures
            r@ == self.name@,
    {
        self.name.as_str()
    }

    /// The model of [`Package::needs_workspace_inheritance`].
    pub open spec fn spec_needs_workspace_inheritance(&self) -> bool {
        !(self.authors is Value && self.categories is Value && self.edition is Value
            && self.exclude is Value && self.included is Value && self.keywords is Value
            && self.version is Value && readable(self.description) && readable(self.documentation)
            && readable(self.homepage) && readable(self.license) && readable(self.license_file)
            && readable(self.repository) && readable(self.rust_version) && self.publish is Value
            && self.readme is Value)
    }

    /// Whether any value of the package is left to the workspace, so that it cannot be
    /// read before the workspace is applied.
    #[verifier::when_used_as_spec(spec_needs_workspace_inheritance)]
    pub fn needs_workspace_inheritance(&self) -> (b: bool)
        ensures
            b == self.spec_needs_workspace_inheritance(),
    {
        !(self.authors.is_set() && self.categories.is_set() && self.edition.is_set()
            && self.exclude.is_set() && self.included.is_set() && self.keywords.is_set()
            && self.version.is_set() && is_readable(&self.description) && is_readable(
            &self.documentation,
        ) && is_readable(&self.homepage) && is_readable(&self.license) && is_readable(
            &self.license_file,
        ) && is_readable(&self.repository) && is_readable(&self.rust_version)
            && self.publish.is_set() && self.readme.is_set())
    }
}

/// Whether an optional value is there and can be read, or is not there at all.
fn is_readable<T>(v: &Option<Inheritable<T>>) -> (b: bool)
    ensures
        b == readable(*v),
{
    match v {
        Some(i) => i.is_set(),
        None => true,
    }
}

impl<Metadata> Default for Package<Metadata> {
    /// The package without a name and without a version.
    fn default() -> (r: Self)
        ensures
            r.name@ == Seq::<char>::empty(),
            r.version matches Inheritable::Value(v) && v@ == Seq::<char>::empty(),
    {
        Package::new(String::new(), String::new())
    }
}

} // verus!
