//! Applying a workspace to the manifest of one of its members: what the member leaves
//! to the workspace is taken from it.

use vstd::prelude::*;
use vstd::string::StringExecFns;
use crate::dependency::{clone_texts, Dependency, DependencyDetail, InheritedDependencyDetail};
use crate::error::Error;
use crate::inheritable::Inheritable;
use crate::manifest::{Manifest, PackageTemplate, Target, Workspace};
use crate::package::{OptionalFile, Package};
use crate::strmap::StrMap;
use crate::order::{sorted_seq, strictly_sorted, lemma_sorted_seq_dom, lemma_sorted_take_below, lemma_take_push_set};
use crate::text::lex_lt;

verus! {

broadcast use vstd::string::group_string_axioms;

/// A path under a directory, by `std::path::Path::join`: the second path where it is
/// absolute, else the first with the second after it. Nothing is claimed of the text.
#[verifier::external_body]
fn join_path(base: &str, rel: &str) -> (r: String) {
    std::path::Path::new(base).join(rel).to_string_lossy().into_owned()
}

/// The last part of a path, by `std::path::Path::file_name`. Nothing is claimed of it.
#[verifier::external_body]
fn file_name_of(path: &str) -> (r: Option<String>) {
    match std::path::Path::new(path).file_name() {
        Some(n) => Some(n.to_string_lossy().into_owned()),
        None => None,
    }
}

/// A path without its last part, by `std::path::Path::parent`. Nothing is claimed of it.
#[verifier::external_body]
fn parent_of(path: &str) -> (r: Option<String>) {
    match std::path::Path::new(path).parent() {
        Some(p) => Some(p.to_string_lossy().into_owned()),
        None => None,
    }
}

/// Whether a member asks more of an inherited dependency than the workspace declares:
/// that it be optional, or more features.
pub open spec fn needs_table(o: InheritedDependencyDetail) -> bool {
    o.optional || o.features@.len() > 0
}

/// Whether `result` is what the declaration `template` of a workspace comes to for a
/// member that asks `o` of it.
///
/// A version requirement stays one unless the member asks more, which makes it a
/// table. A table is marked as inherited; it becomes optional if the member asks so,
/// the features that the member asks for follow the workspace's, and a path in it is
/// put under the workspace's directory.
pub open spec fn inherits_well(
    o: InheritedDependencyDetail,
    template: Dependency,
    result: Dependency,
) -> bool {
    match template {
        Dependency::Inherited(_) => !needs_table(o) && template.copied_to(&result),
        Dependency::Simple(v) => if needs_table(o) {
            &&& result matches Dependency::Detailed(d)
            &&& d.version == Some(v)
            &&& d.inherited
            &&& d.optional == o.optional
            &&& d.features@ == o.features@
            &&& d.path is None
            &&& d.package is None
            &&& d.default_features
        } else {
            result == Dependency::Simple(v)
        },
        Dependency::Detailed(t) => {
            &&& result matches Dependency::Detailed(d)
            &&& d.inherited
            &&& d.optional == (t.optional || o.optional)
            &&& d.features@ == t.features@ + o.features@
            &&& d.path is Some == t.path is Some
            &&& d.version == t.version
            &&& d.package == t.package
            &&& d.default_features == t.default_features
            &&& d.registry == t.registry
            &&& d.registry_index == t.registry_index
            &&& d.git == t.git
            &&& d.branch == t.branch
            &&& d.tag == t.tag
            &&& d.rev == t.rev
        },
    }
}

/// What the declaration of a workspace comes to for a member. A declaration that is
/// itself left to a workspace gives [`Error::InheritedUnknownValue`] where the member
/// asks more of it.
pub fn inherit_dependency(
    overrides: &InheritedDependencyDetail,
    template: &Dependency,
    workspace_base_path: &str,
) -> (r: Result<Dependency, Error>)
    ensures
        match r {
            Ok(d) => inherits_well(*overrides, *template, d),
            Err(e) => template is Inherited && needs_table(*overrides) && e is InheritedUnknownValue,
        },
{
    let wants_more = overrides.optional || overrides.features.len() > 0;
    match template.clone() {
        Dependency::Inherited(i) => {
            if wants_more {
                Err(Error::InheritedUnknownValue)
            } else {
                Ok(Dependency::Inherited(i))
            }
        },
        Dependency::Simple(v) => {
            if wants_more {
                let mut d = DependencyDetail::default();
                d.version = Some(v);
                d.optional = overrides.optional;
                d.features = clone_texts(&overrides.features);
                d.inherited = true;
                Ok(Dependency::Detailed(Box::new(d)))
            } else {
                Ok(Dependency::Simple(v))
            }
        },
        Dependency::Detailed(b) => {
            let mut d = *b;
            if overrides.optional {
                d.optional = true;
            }
            let mut more = clone_texts(&overrides.features);
            d.features.append(&mut more);
            d.inherited = true;
            let joined = match &d.path {
                Some(path) => Some(join_path(workspace_base_path, path.as_str())),
                None => None,
            };
            d.path = joined;
            Ok(Dependency::Detailed(Box::new(d)))
        },
    }
}

/// Whether `new` is the section of dependencies `old` with a workspace applied: each
/// dependency that was left to the workspace is what the workspace's declaration
/// comes to, and every other is as it was.
pub open spec fn section_inherited<I>(
    old: Map<Seq<char>, Dependency>,
    workspace: Option<&Workspace<I>>,
    new: Map<Seq<char>, Dependency>,
    keys: Set<Seq<char>>,
) -> bool {
    &&& new.dom() == old.dom()
    &&& forall|k: Seq<char>| #[trigger]
        old.dom().contains(k) ==> match old[k] {
            Dependency::Inherited(o) => if keys.contains(k) {
                &&& workspace matches Some(ws)
                &&& ws.dependencies@.dom().contains(k)
                &&& inherits_well(o, ws.dependencies@[k], new[k])
            } else {
                new[k] == old[k]
            },
            _ => new[k] == old[k],
        }
}

/// Whether a dependency that a member leaves to the workspace cannot be taken from
/// it: the workspace does not declare it, or leaves it to a workspace itself although
/// the member asks more of it.
pub open spec fn cannot_inherit<I>(d: Dependency, workspace: Option<&Workspace<I>>, k: Seq<char>) -> bool {
    d matches Dependency::Inherited(o) && !(workspace matches Some(ws) && ws.dependencies@.dom().contains(
        k,
    ) && !(ws.dependencies@[k] is Inherited && needs_table(o)))
}

/// Whether the workspace declares no dependency of this name.
pub open spec fn undeclared<I>(workspace: Option<&Workspace<I>>, k: Seq<char>) -> bool {
    !(workspace matches Some(ws) && ws.dependencies@.dom().contains(k))
}

/// The keys of a section that come before `k`.
pub open spec fn keys_before(keys: Set<Seq<char>>, k: Seq<char>) -> Set<Seq<char>> {
    Set::new(|j: Seq<char>| keys.contains(j) && lex_lt(j, k))
}

/// Whether some dependency of the section cannot be taken from the workspace.
pub open spec fn any_cannot_inherit<I>(
    section: Map<Seq<char>, Dependency>,
    workspace: Option<&Workspace<I>>,
) -> bool {
    exists|k: Seq<char>| section.dom().contains(k) && #[trigger] cannot_inherit(section[k], workspace, k)
}

/// Whether `k` is the first key of the section, in the order of the keys, whose
/// dependency cannot be taken from the workspace.
pub open spec fn first_failing<I>(
    section: Map<Seq<char>, Dependency>,
    workspace: Option<&Workspace<I>>,
    k: Seq<char>,
) -> bool {
    &&& section.dom().contains(k)
    &&& cannot_inherit(section[k], workspace, k)
    &&& forall|j: Seq<char>| #[trigger]
        keys_before(section.dom(), k).contains(j) ==> !cannot_inherit(section[j], workspace, j)
}

/// Whether `new` is the section `old` where taking from the workspace has stopped at
/// the key `k`: the dependencies before `k` are taken, those after it are as they
/// were, and the one under `k` is as it was where the workspace does not declare it,
/// else a copy of the workspace's declaration.
pub open spec fn stopped_at<I>(
    old: Map<Seq<char>, Dependency>,
    workspace: Option<&Workspace<I>>,
    new: Map<Seq<char>, Dependency>,
    k: Seq<char>,
) -> bool {
    &&& new.dom().contains(k)
    &&& section_inherited(old.remove(k), workspace, new.remove(k), keys_before(old.dom(), k))
    &&& match workspace {
        Some(ws) => if ws.dependencies@.dom().contains(k) {
            ws.dependencies@[k].copied_to(&new[k])
        } else {
            new[k] == old[k]
        },
        None => new[k] == old[k],
    }
}

/// A section that was taken from the workspace as a whole held no dependency that
/// cannot be taken.
pub proof fn lemma_inherited_section_could<I>(
    old: Map<Seq<char>, Dependency>,
    workspace: Option<&Workspace<I>>,
    new: Map<Seq<char>, Dependency>,
)
    requires
        section_inherited(old, workspace, new, old.dom()),
    ensures
        !any_cannot_inherit(old, workspace),
{
    assert forall|k: Seq<char>| old.dom().contains(k) implies !#[trigger] cannot_inherit(
        old[k],
        workspace,
        k,
    ) by {}
}

/// Takes from the workspace every dependency of a section that is left to it. Fails
/// if and only if one of them cannot be taken, at the first such in the order of the
/// keys: with [`Error::WorkspaceIntegrity`] where the workspace does not declare it,
/// with [`Error::InheritedUnknownValue`] where the workspace's own declaration is
/// left to a workspace and the member asks more of it. The dependencies before it
/// are taken nonetheless, see [`stopped_at`].
pub fn inherit_dependencies<I>(
    deps_to_inherit: &mut StrMap<Dependency>,
    workspace: Option<&Workspace<I>>,
    workspace_base_path: &str,
) -> (r: Result<(), Error>)
    ensures
        r is Err <==> any_cannot_inherit(old(deps_to_inherit)@, workspace),
        match r {
            Ok(_) => section_inherited(
                old(deps_to_inherit)@,
                workspace,
                final(deps_to_inherit)@,
                old(deps_to_inherit)@.dom(),
            ),
            Err(e) => exists|k: Seq<char>| #[trigger]
                first_failing(old(deps_to_inherit)@, workspace, k) && stopped_at(
                    old(deps_to_inherit)@,
                    workspace,
                    final(deps_to_inherit)@,
                    k,
                ) && if undeclared(workspace, k) {
                    e is WorkspaceIntegrity
                } else {
                    e is InheritedUnknownValue
                },
        },
{
    let keys = deps_to_inherit.keys();
    let ghost ks = sorted_seq(deps_to_inherit@.dom());
    let ghost d0 = deps_to_inherit@;
    proof {
        lemma_sorted_seq_dom(deps_to_inherit@.dom());
    }
    let mut i: usize = 0;
    assert(section_inherited(d0, workspace, deps_to_inherit@, ks.take(0).to_set()));
    while i < keys.len()
        invariant
            i <= keys@.len(),
            keys.deep_view() == ks,
            d0 == old(deps_to_inherit)@,
            ks.to_set() == d0.dom(),
            ks.no_duplicates(),
            strictly_sorted(ks),
            section_inherited(d0, workspace, deps_to_inherit@, ks.take(i as int).to_set()),
        decreases keys@.len() - i,
    {
        let key = &keys[i];
        proof {
            assert(ks[i as int] == keys@[i as int]@);
            assert(ks.to_set().contains(ks[i as int]));
            lemma_take_push_set(ks, i as int);
            lemma_sorted_take_below(ks, i as int);
            assert(ks.take(i as int).to_set() =~= keys_before(d0.dom(), key@));
            if ks.take(i as int).to_set().contains(ks[i as int]) {
                let j = choose|j: int| 0 <= j < i && ks.take(i as int)[j] == ks[i as int];
                assert(ks[j] == ks[i as int]);
            }
            assert(deps_to_inherit@[key@] == d0[key@]);
        }
        let ghost before = deps_to_inherit@;
        let inherited = match deps_to_inherit.get(key.as_str()) {
            Some(Dependency::Inherited(_)) => true,
            _ => false,
        };
        if inherited {
            let template = match workspace {
                Some(ws) => ws.dependencies.get(key.as_str()),
                None => None,
            };
            let template = match template {
                Some(t) => t,
                None => {
                    let mut msg = String::from_str("workspace dependencies are missing `");
                    msg.append(key.as_str());
                    msg.append("`");
                    proof {
                        assert(d0.dom().contains(key@));
                        assert(cannot_inherit(d0[key@], workspace, key@));
                        assert(first_failing(d0, workspace, key@));
                        assert(stopped_at(d0, workspace, deps_to_inherit@, key@));
                    }
                    return Err(Error::WorkspaceIntegrity(msg));
                },
            };
            let dep = deps_to_inherit.remove(key.as_str());
            let overrides = match dep {
                Some(Dependency::Inherited(o)) => o,
                _ => vstd::pervasive::unreached(),
            };
            match inherit_dependency(&overrides, template, workspace_base_path) {
                Ok(d) => {
                    deps_to_inherit.insert(key.clone(), d);
                },
                Err(e) => {
                    deps_to_inherit.insert(key.clone(), template.clone());
                    proof {
                        assert(d0.dom().contains(key@));
                        assert(cannot_inherit(d0[key@], workspace, key@));
                        assert(first_failing(d0, workspace, key@));
                        assert(deps_to_inherit@.remove(key@) =~= before.remove(key@));
                        assert(stopped_at(d0, workspace, deps_to_inherit@, key@));
                    }
                    return Err(e);
                },
            }
        }
        assert(section_inherited(d0, workspace, deps_to_inherit@, ks.take(i as int + 1).to_set())) by {
            assert(deps_to_inherit@.dom() =~= d0.dom());
        }
        i += 1;
    }
    proof {
        assert(ks.take(keys@.len() as int) =~= ks);
        lemma_inherited_section_could(d0, workspace, deps_to_inherit@);
    }
    Ok(())
}

/// Whether `new` is the value `old` with a workspace's value `from` applied: a value
/// that was set stays, one that was left to the workspace becomes a copy of what the
/// workspace offers, or stays left to it where the workspace offers nothing.
pub open spec fn took<T: Clone>(old: Inheritable<T>, from: Option<T>, new: Inheritable<T>) -> bool {
    match (old, from) {
        (Inheritable::Value(_), _) => new == old,
        (Inheritable::Inherited, Some(f)) => new is Value && vstd::pervasive::cloned(f, new->Value_0),
        (Inheritable::Inherited, None) => new is Inherited,
    }
}

/// The same for a value that a manifest need not have at all.
pub open spec fn maybe_took<T: Clone>(
    old: Option<Inheritable<T>>,
    from: Option<T>,
    new: Option<Inheritable<T>>,
) -> bool {
    match old {
        Some(o) => new matches Some(n) && took(o, from, n),
        None => new is None,
    }
}

fn inherit<T: Clone>(to: &mut Inheritable<T>, from: &Option<T>)
    ensures
        took(*old(to), *from, *final(to)),
{
    match from {
        Some(f) => {
            to.inherit(f);
        },
        None => {},
    }
}

fn maybe_inherit<T: Clone>(to: &mut Option<Inheritable<T>>, from: &Option<T>)
    ensures
        maybe_took(*old(to), *from, *final(to)),
{
    match to {
        Some(t) => {
            inherit(t, from);
        },
        None => {},
    }
}

/// Whether the package `new` is the package `old` with what a workspace offers
/// applied.
///
/// Each value that was left to the workspace and that the workspace offers is taken
/// from it. A readme that was left to the workspace becomes the workspace's flag, or
/// its file put under the workspace's directory. A licence file that the package and
/// the workspace both name becomes the workspace's, put under its directory.
pub open spec fn package_inherited<M>(old: Package<M>, ws: PackageTemplate, new: Package<M>) -> bool {
    &&& took(old.authors, ws.authors, new.authors)
    &&& took(old.categories, ws.categories, new.categories)
    &&& took(old.edition, ws.edition, new.edition)
    &&& took(old.exclude, ws.exclude, new.exclude)
    &&& took(old.included, ws.included, new.included)
    &&& took(old.keywords, ws.keywords, new.keywords)
    &&& took(old.version, ws.version, new.version)
    &&& maybe_took(old.description, ws.description, new.description)
    &&& maybe_took(old.documentation, ws.documentation, new.documentation)
    &&& maybe_took(old.homepage, ws.homepage, new.homepage)
    &&& maybe_took(old.license, ws.license, new.license)
    &&& maybe_took(old.repository, ws.repository, new.repository)
    &&& maybe_took(old.rust_version, ws.rust_version, new.rust_version)
    &&& took(old.publish, Some(ws.publish), new.publish)
    &&& match (old.readme, ws.readme) {
        (Inheritable::Inherited, OptionalFile::Flag(b)) => new.readme == Inheritable::Value(
            OptionalFile::Flag(b),
        ),
        (Inheritable::Inherited, OptionalFile::Path(_)) => new.readme matches Inheritable::Value(
            OptionalFile::Path(_),
        ),
        _ => new.readme == old.readme,
    }
    &&& match (old.license_file, ws.license_file) {
        (Some(_), Some(_)) => new.license_file matches Some(Inheritable::Value(_)),
        _ => new.license_file == old.license_file,
    }
    &&& new.name == old.name
    &&& new.build == old.build
    &&& new.workspace == old.workspace
    &&& new.links == old.links
    &&& new.default_run == old.default_run
    &&& new.autobins == old.autobins
    &&& new.autoexamples == old.autoexamples
    &&& new.autotests == old.autotests
    &&& new.autobenches == old.autobenches
    &&& new.resolver == old.resolver
    &&& new.metadata == old.metadata
}

/// Whether a value that is left to the workspace stays so: the workspace offers none.
pub open spec fn stays_open<T>(old: Inheritable<T>, from: Option<T>) -> bool {
    old is Inherited && from is None
}

/// The same for a value that a manifest need not have at all.
pub open spec fn maybe_stays_open<T>(old: Option<Inheritable<T>>, from: Option<T>) -> bool {
    old matches Some(o) && stays_open(o, from)
}

/// Whether the package leaves a value to the workspace that the workspace does not
/// offer its members.
pub open spec fn still_open<M>(p: Package<M>, ws: PackageTemplate) -> bool {
    ||| stays_open(p.authors, ws.authors)
    ||| stays_open(p.categories, ws.categories)
    ||| stays_open(p.edition, ws.edition)
    ||| stays_open(p.exclude, ws.exclude)
    ||| stays_open(p.included, ws.included)
    ||| stays_open(p.keywords, ws.keywords)
    ||| stays_open(p.version, ws.version)
    ||| maybe_stays_open(p.description, ws.description)
    ||| maybe_stays_open(p.documentation, ws.documentation)
    ||| maybe_stays_open(p.homepage, ws.homepage)
    ||| maybe_stays_open(p.license, ws.license)
    ||| maybe_stays_open(p.repository, ws.repository)
    ||| maybe_stays_open(p.rust_version, ws.rust_version)
    ||| (p.license_file == Some(Inheritable::<String>::Inherited) && ws.license_file is None)
}

/// Whether the package leaves a value to a workspace that does not offer it: to a
/// workspace that offers its members nothing, any value at all.
pub open spec fn package_left_open<M, I>(p: Package<M>, workspace: Option<&Workspace<I>>) -> bool {
    match workspace {
        Some(ws) => match ws.package {
            Some(t) => still_open(p, t),
            None => p.spec_needs_workspace_inheritance(),
        },
        None => p.spec_needs_workspace_inheritance(),
    }
}

/// A package that has taken what a workspace offers leaves a value to it exactly where
/// the workspace did not offer a value that the package had left to it.
pub proof fn lemma_package_inherited_open<M>(old: Package<M>, ws: PackageTemplate, new: Package<M>)
    requires
        package_inherited(old, ws, new),
    ensures
        new.spec_needs_workspace_inheritance() == still_open(old, ws),
{
}

impl<Metadata> Manifest<Metadata> {
    /// Applies to a package what a workspace offers its members. See
    /// [`package_inherited`]. This cannot fail.
    pub fn inherit_package_properties(
        package: &mut Package<Metadata>,
        ws: &PackageTemplate,
        workspace_base_path: &str,
    ) -> (r: Result<(), Error>)
        ensures
            r is Ok,
            package_inherited(*old(package), *ws, *final(package)),
    {
        inherit(&mut package.authors, &ws.authors);
        inherit(&mut package.categories, &ws.categories);
        inherit(&mut package.edition, &ws.edition);
        inherit(&mut package.exclude, &ws.exclude);
        inherit(&mut package.included, &ws.included);
        inherit(&mut package.keywords, &ws.keywords);
        inherit(&mut package.version, &ws.version);
        maybe_inherit(&mut package.description, &ws.description);
        maybe_inherit(&mut package.documentation, &ws.documentation);
        maybe_inherit(&mut package.homepage, &ws.homepage);
        maybe_inherit(&mut package.license, &ws.license);
        maybe_inherit(&mut package.repository, &ws.repository);
        maybe_inherit(&mut package.rust_version, &ws.rust_version);
        package.publish.inherit(&ws.publish);
        if let Inheritable::Inherited = &package.readme {
            match &ws.readme {
                OptionalFile::Flag(b) => {
                    package.readme = Inheritable::Value(OptionalFile::Flag(*b));
                },
                OptionalFile::Path(path) => {
                    package.readme = Inheritable::Value(
                        OptionalFile::Path(join_path(workspace_base_path, path.as_str())),
                    );
                },
            }
        }
        if package.license_file.is_some() {
            match &ws.license_file {
                Some(w) => {
                    package.license_file = Some(
                        Inheritable::Value(join_path(workspace_base_path, w.as_str())),
                    );
                },
                None => {},
            }
        }
        Ok(())
    }
}

/// Whether the sections of a target with a workspace applied are `new`.
pub open spec fn target_inherited<I>(old: Target, workspace: Option<&Workspace<I>>, new: Target) -> bool {
    &&& section_inherited(old.dependencies@, workspace, new.dependencies@, old.dependencies@.dom())
    &&& section_inherited(
        old.build_dependencies@,
        workspace,
        new.build_dependencies@,
        old.build_dependencies@.dom(),
    )
    &&& section_inherited(
        old.dev_dependencies@,
        workspace,
        new.dev_dependencies@,
        old.dev_dependencies@.dom(),
    )
}

/// Whether some dependency of the target cannot be taken from the workspace.
pub open spec fn target_cannot_inherit<I>(t: Target, workspace: Option<&Workspace<I>>) -> bool {
    ||| any_cannot_inherit(t.dependencies@, workspace)
    ||| any_cannot_inherit(t.build_dependencies@, workspace)
    ||| any_cannot_inherit(t.dev_dependencies@, workspace)
}

/// Whether the workspace's own declarations of dependencies are all known: none of
/// them is left to a workspace in turn.
pub open spec fn templates_known<I>(workspace: Option<&Workspace<I>>) -> bool {
    match workspace {
        Some(ws) => forall|k: Seq<char>| #[trigger]
            ws.dependencies@.dom().contains(k) ==> !(ws.dependencies@[k] is Inherited),
        None => true,
    }
}

/// A target whose dependencies were all taken from the workspace held none that
/// cannot be taken.
pub proof fn lemma_inherited_target_could<I>(old: Target, workspace: Option<&Workspace<I>>, new: Target)
    requires
        target_inherited(old, workspace, new),
    ensures
        !target_cannot_inherit(old, workspace),
{
    lemma_inherited_section_could(old.dependencies@, workspace, new.dependencies@);
    lemma_inherited_section_could(old.build_dependencies@, workspace, new.build_dependencies@);
    lemma_inherited_section_could(old.dev_dependencies@, workspace, new.dev_dependencies@);
}

/// Takes from the workspace the dependencies of one target that are left to it.
fn inherit_target<I>(target: &mut Target, workspace: Option<&Workspace<I>>, workspace_base_path: &str) -> (r:
    Result<(), Error>)
    ensures
        r is Err <==> target_cannot_inherit(*old(target), workspace),
        r is Ok ==> target_inherited(*old(target), workspace, *final(target)),
        r matches Err(e) ==> (e is WorkspaceIntegrity || e is InheritedUnknownValue) && (
        templates_known(workspace) ==> e is WorkspaceIntegrity),
{
    match inherit_dependencies(&mut target.dependencies, workspace, workspace_base_path) {
        Ok(_) => {},
        Err(e) => {
            return Err(e);
        },
    }
    match inherit_dependencies(&mut target.build_dependencies, workspace, workspace_base_path) {
        Ok(_) => {},
        Err(e) => {
            return Err(e);
        },
    }
    inherit_dependencies(&mut target.dev_dependencies, workspace, workspace_base_path)
}

impl<Metadata> Manifest<Metadata> {
    /// Whether `new` is this manifest with a workspace applied: the dependencies of the
    /// package and of every target are taken from it where they were left to it, and
    /// the package has taken what the workspace offers and leaves nothing to it.
    pub open spec fn inherited_to<I>(&self, workspace: Option<&Workspace<I>>, new: &Manifest<Metadata>) -> bool {
        &&& section_inherited(
            self.dependencies@,
            workspace,
            new.dependencies@,
            self.dependencies@.dom(),
        )
        &&& section_inherited(
            self.build_dependencies@,
            workspace,
            new.build_dependencies@,
            self.build_dependencies@.dom(),
        )
        &&& section_inherited(
            self.dev_dependencies@,
            workspace,
            new.dev_dependencies@,
            self.dev_dependencies@.dom(),
        )
        &&& new.target@.dom() == self.target@.dom()
        &&& forall|k: Seq<char>| #[trigger]
            self.target@.dom().contains(k) ==> target_inherited(self.target@[k], workspace, new.target@[k])
        &&& match self.package {
            Some(p) => new.package matches Some(q) && !q.spec_needs_workspace_inheritance() && (match workspace {
                Some(ws) => match ws.package {
                    Some(t) => package_inherited(p, t, q),
                    None => q == p,
                },
                None => q == p,
            }),
            None => new.package is None,
        }
        &&& new.features == self.features
        &&& new.workspace == self.workspace
        &&& new.lib == self.lib
        &&& new.bin == self.bin
    }

    /// Whether a workspace cannot be applied to this manifest: a dependency of the
    /// package or of a target cannot be taken from it, or the package leaves a value
    /// to it that it does not offer.
    pub open spec fn cannot_inherit_from<I>(&self, workspace: Option<&Workspace<I>>) -> bool {
        ||| any_cannot_inherit(self.dependencies@, workspace)
        ||| any_cannot_inherit(self.build_dependencies@, workspace)
        ||| any_cannot_inherit(self.dev_dependencies@, workspace)
        ||| exists|k: Seq<char>|
            self.target@.dom().contains(k) && target_cannot_inherit(#[trigger] self.target@[k], workspace)
        ||| match self.package {
            Some(p) => package_left_open(p, workspace),
            None => false,
        }
    }

    /// Applies a workspace whose directory is `workspace_base_path`. Fails if and only
    /// if the workspace cannot be applied, see [`Manifest::cannot_inherit_from`]:
    /// where a dependency cannot be taken from the workspace, as
    /// [`inherit_dependencies`] does, or with [`Error::WorkspaceIntegrity`] where the
    /// package still leaves a value to the workspace afterwards. What was taken
    /// before the failure stays taken.
    pub fn inherit_from<I>(&mut self, workspace: Option<&Workspace<I>>, workspace_base_path: &str) -> (r:
        Result<(), Error>)
        ensures
            r is Err <==> old(self).cannot_inherit_from(workspace),
            r is Ok ==> old(self).inherited_to(workspace, final(self)),
            r matches Err(e) ==> (e is WorkspaceIntegrity || e is InheritedUnknownValue) && (
            templates_known(workspace) ==> e is WorkspaceIntegrity),
    {
        match inherit_dependencies(&mut self.dependencies, workspace, workspace_base_path) {
            Ok(_) => {},
            Err(e) => {
                return Err(e);
            },
        }
        match inherit_dependencies(&mut self.build_dependencies, workspace, workspace_base_path) {
            Ok(_) => {},
            Err(e) => {
                return Err(e);
            },
        }
        match inherit_dependencies(&mut self.dev_dependencies, workspace, workspace_base_path) {
            Ok(_) => {},
            Err(e) => {
                return Err(e);
            },
        }
        let keys = self.target.keys();
        let ghost ks = sorted_seq(self.target@.dom());
        let ghost t0 = self.target@;
        proof {
            lemma_sorted_seq_dom(self.target@.dom());
        }
        let mut i: usize = 0;
        while i < keys.len()
            invariant
                i <= keys@.len(),
                keys.deep_view() == ks,
                ks.to_set() == t0.dom(),
                ks.no_duplicates(),
                t0 == old(self).target@,
                self.target@.dom() == t0.dom(),
                forall|k: Seq<char>| #[trigger]
                    t0.dom().contains(k) ==> if ks.take(i as int).to_set().contains(k) {
                        target_inherited(t0[k], workspace, self.target@[k])
                    } else {
                        self.target@[k] == t0[k]
                    },
                section_inherited(
                    old(self).dependencies@,
                    workspace,
                    self.dependencies@,
                    old(self).dependencies@.dom(),
                ),
                section_inherited(
                    old(self).build_dependencies@,
                    workspace,
                    self.build_dependencies@,
                    old(self).build_dependencies@.dom(),
                ),
                section_inherited(
                    old(self).dev_dependencies@,
                    workspace,
                    self.dev_dependencies@,
                    old(self).dev_dependencies@.dom(),
                ),
                self.package == old(self).package,
                self.features == old(self).features,
                self.workspace == old(self).workspace,
                self.lib == old(self).lib,
                self.bin == old(self).bin,
            decreases keys@.len() - i,
        {
            let key = &keys[i];
            proof {
                assert(ks[i as int] == keys@[i as int]@);
                assert(ks.to_set().contains(ks[i as int]));
                lemma_take_push_set(ks, i as int);
                if ks.take(i as int).to_set().contains(ks[i as int]) {
                    let j = choose|j: int| 0 <= j < i && ks.take(i as int)[j] == ks[i as int];
                    assert(ks[j] == ks[i as int]);
                }
            }
            let found = self.target.remove(key.as_str());
            let mut target = found.unwrap();
            match inherit_target(&mut target, workspace, workspace_base_path) {
                Ok(_) => {
                    self.target.insert(key.clone(), target);
                },
                Err(e) => {
                    self.target.insert(key.clone(), target);
                    proof {
                        assert(t0.dom().contains(key@));
                        assert(target_cannot_inherit(old(self).target@[key@], workspace));
                    }
                    return Err(e);
                },
            }
            proof {
                assert(self.target@.dom() =~= t0.dom());
            }
            i += 1;
        }
        proof {
            assert(ks.take(keys@.len() as int) =~= ks);
            lemma_inherited_section_could(old(self).dependencies@, workspace, self.dependencies@);
            lemma_inherited_section_could(
                old(self).build_dependencies@,
                workspace,
                self.build_dependencies@,
            );
            lemma_inherited_section_could(
                old(self).dev_dependencies@,
                workspace,
                self.dev_dependencies@,
            );
            assert forall|k: Seq<char>| t0.dom().contains(k) implies !target_cannot_inherit(
                #[trigger] t0[k],
                workspace,
            ) by {
                lemma_inherited_target_could(t0[k], workspace, self.target@[k]);
            }
        }
        let ghost p0 = self.package;
        let package = match &mut self.package {
            Some(p) => p,
            None => {
                return Ok(());
            },
        };
        match workspace {
            Some(w) => match &w.package {
                Some(ws) => {
                    let _ = Self::inherit_package_properties(package, ws, workspace_base_path);
                    proof {
                        lemma_package_inherited_open(p0->0, *ws, *package);
                    }
                },
                None => {},
            },
            None => {},
        }
        if package.needs_workspace_inheritance() {
            let mut msg = String::from_str("not all fields of `");
            msg.append(package.name());
            msg.append("` have been present in workspace.package");
            return Err(Error::WorkspaceIntegrity(msg));
        }
        Ok(())
    }

    /// Applies a workspace whose directory, or whose manifest in that directory, is
    /// `workspace_base_path`. Fails with [`Error::Other`], and leaves the manifest as
    /// it is, where the path names a manifest that lies in no directory; for any
    /// other path it fails if and only if [`Manifest::inherit_from`] does, and as
    /// that does.
    pub fn _inherit_workspace<I>(
        &mut self,
        workspace: Option<&Workspace<I>>,
        workspace_base_path: &str,
    ) -> (r: Result<(), Error>)
        ensures
            r is Ok ==> old(self).inherited_to(workspace, final(self)),
            r matches Err(e) ==> if e is Other {
                *final(self) == *old(self)
            } else {
                &&& old(self).cannot_inherit_from(workspace)
                &&& e is WorkspaceIntegrity || e is InheritedUnknownValue
                &&& templates_known(workspace) ==> e is WorkspaceIntegrity
            },
            old(self).cannot_inherit_from(workspace) ==> r is Err,
    {
        let names_manifest = match file_name_of(workspace_base_path) {
            Some(n) => crate::text::text_eq(n.as_str(), "Cargo.toml"),
            None => false,
        };
        if names_manifest {
            match parent_of(workspace_base_path) {
                Some(dir) => self.inherit_from(workspace, dir.as_str()),
                None => Err(Error::Other("bad path")),
            }
        } else {
            self.inherit_from(workspace, workspace_base_path)
        }
    }

    /// The workspace that the manifest declares, where it declares one.
    pub open spec fn spec_workspace(&self) -> Option<&Workspace<Metadata>> {
        match self.workspace {
            Some(w) => Some(&w),
            None => None,
        }
    }

    /// Applies the workspace of another manifest. See [`Manifest::_inherit_workspace`].
    pub fn inherit_workspace<I>(
        &mut self,
        workspace_manifest: &Manifest<I>,
        workspace_base_path: &str,
    ) -> (r: Result<(), Error>)
        ensures
            r is Ok ==> old(self).inherited_to(workspace_manifest.spec_workspace(), final(self)),
            r matches Err(e) ==> if e is Other {
                *final(self) == *old(self)
            } else {
                &&& old(self).cannot_inherit_from(workspace_manifest.spec_workspace())
                &&& e is WorkspaceIntegrity || e is InheritedUnknownValue
                &&& templates_known(workspace_manifest.spec_workspace()) ==> e is WorkspaceIntegrity
            },
            old(self).cannot_inherit_from(workspace_manifest.spec_workspace()) ==> r is Err,
    {
        let ws = match &workspace_manifest.workspace {
            Some(w) => Some(w),
            None => None,
        };
        self._inherit_workspace(ws, workspace_base_path)
    }
}

} // verus!
