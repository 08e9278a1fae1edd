use cargo_toml::{
    default_master, default_true, default_version, inherit_dependencies, is_default, is_false, is_true,
    Badges, DebugSetting, Dependency, DependencyDetail, Edition, Error, Filesystem, Inheritable,
    InheritedDependencyDetail, IoError, IoErrorKind, Listing, LtoSetting, MaintenanceStatus, Manifest,
    OptionalFile, Package, PackageTemplate, ParseError, Product, Profiles, Publish, Resolver, Scalar,
    StrMap, StrSet, StripSetting, Workspace,
};

fn names(items: &[&str]) -> Vec<String> {
    items.iter().map(|s| s.to_string()).collect()
}

fn set_of(items: &[&str]) -> StrSet {
    let mut s = StrSet::new();
    for i in items {
        s.insert(i.to_string());
    }
    s
}

fn inherited(optional: bool, features: &[&str]) -> Dependency {
    Dependency::Inherited(InheritedDependencyDetail {
        features: names(features),
        optional,
        workspace: true,
    })
}

#[test]
fn inheritable_values() {
    let mut v: Inheritable<u32> = Inheritable::Value(3);
    assert!(v.is_set());
    assert_eq!(*v.get().unwrap(), 3);
    assert!(matches!(v.as_ref(), Inheritable::Value(&3)));
    *v.get_mut().unwrap() = 4;
    assert_eq!(v.unwrap(), 4);
    if let Inheritable::Value(x) = v.as_mut() {
        *x = 5;
    }
    assert_eq!(v.unwrap(), 5);
    v.inherit(&9);
    assert_eq!(v.unwrap(), 5);
    let mut i: Inheritable<u32> = Inheritable::Inherited;
    assert!(!i.is_set());
    assert_eq!(i.get(), Err(Error::InheritedUnknownValue));
    assert_eq!(i.get_mut(), Err(Error::InheritedUnknownValue));
    assert!(matches!(i.as_ref(), Inheritable::Inherited));
    assert!(matches!(i.as_mut(), Inheritable::Inherited));
    i.inherit(&9);
    assert_eq!(i.unwrap(), 9);
    let mut s: Inheritable<u32> = Inheritable::Inherited;
    s.set(1);
    assert_eq!(s.unwrap(), 1);
}

#[test]
fn inheritable_equality_and_defaults() {
    assert!(Inheritable::Value(1) == Inheritable::Value(1));
    assert!(Inheritable::Value(1) != Inheritable::Value(2));
    assert!(Inheritable::<u32>::Inherited != Inheritable::Inherited);
    assert!(Inheritable::Value(1) != Inheritable::Inherited);
    assert!(Inheritable::<u32>::default() == Inheritable::Value(0));
    assert!(Inheritable::Value(0u32).is_default());
    assert!(!Inheritable::Value(1u32).is_default());
    assert!(!Inheritable::<u32>::Inherited.is_default());
    assert!(Inheritable::Value(Vec::<u8>::new()).is_empty());
    assert!(!Inheritable::Value(vec![1u8]).is_empty());
    assert!(!Inheritable::<Vec<u8>>::Inherited.is_empty());
    assert!(Inheritable::Value(StrMap::<u8>::new()).is_empty());
    assert!(!Inheritable::<StrMap<u8>>::Inherited.is_empty());
    assert!(matches!(Inheritable::from(Some(1)), Inheritable::Value(1)));
    assert!(matches!(Inheritable::<u8>::from(None), Inheritable::Inherited));
    assert_eq!(Option::from(Inheritable::Value(1)), Some(1));
    assert_eq!(Option::<u8>::from(Inheritable::Inherited), None);
}

#[test]
fn default_helpers() {
    assert!(default_true());
    assert!(is_true(&true) && !is_true(&false));
    assert!(is_false(&false) && !is_false(&true));
    assert!(is_default(&0u8) && !is_default(&1u8));
    assert!(is_default(&Edition::E2015) && !is_default(&Edition::E2021));
    assert_eq!(default_master(), "master");
    assert!(default_version() == Inheritable::Value("0.0.0".to_string()));
    assert_eq!(Filesystem::new("dir").path, "dir");
}

#[test]
fn editions_and_resolvers() {
    assert_eq!(Edition::E2015.min_rust_version_minor(), 1);
    assert_eq!(Edition::E2018.min_rust_version_minor(), 31);
    assert_eq!(Edition::E2021.min_rust_version_minor(), 56);
    assert_eq!(Edition::default(), Edition::E2015);
    assert!(Edition::E2015 < Edition::E2024);
    assert_eq!(Resolver::default(), Resolver::V1);
    assert_eq!(Resolver::V1.as_str(), "1");
    assert_eq!(Resolver::V2.as_str(), "2");
}

#[test]
fn optional_files() {
    assert_eq!(OptionalFile::default(), OptionalFile::Flag(true));
    assert_eq!(OptionalFile::Flag(true).display(), "<default>");
    assert_eq!(OptionalFile::Flag(false).display(), "<disabled>");
    assert_eq!(OptionalFile::Path("a/b".to_string()).display(), "a/b");
    assert!(OptionalFile::Flag(true).is_default());
    assert!(!OptionalFile::Flag(false).is_default());
    assert!(!OptionalFile::Path("x".to_string()).is_default());
    assert_eq!(OptionalFile::Path("x".to_string()).as_path(), Some("x"));
    assert_eq!(OptionalFile::Flag(true).as_path(), None);
    assert!(OptionalFile::Flag(true).is_some());
    assert!(!OptionalFile::Flag(false).is_some());
    assert!(OptionalFile::Path("x".to_string()).is_some());
}

#[test]
fn publish_compares_with_flags() {
    assert_eq!(Publish::default(), Publish::Flag(true));
    assert!(Publish::Flag(true).is_default());
    assert!(!Publish::Flag(false).is_default());
    assert!(!Publish::Registry(vec![]).is_default());
    assert!(Publish::Flag(true) == true);
    assert!(Publish::Flag(false) == false);
    assert!(true == Publish::Flag(true));
    assert!(false == Publish::Registry(vec![]));
    assert!(true == Publish::Registry(names(&["mine"])));
    assert!(Publish::Registry(names(&["mine"])) != false);
    assert!(Publish::Registry(names(&["mine"])).allows());
}

#[test]
fn dependency_readers() {
    let simple = Dependency::Simple("^1.5".to_string());
    assert_eq!(simple.req(), "^1.5");
    assert_eq!(simple.try_req().unwrap(), "^1.5");
    assert!(simple.detail().is_none());
    assert!(!simple.optional());
    assert_eq!(simple.package(), None);
    assert!(simple.req_features().is_empty());
    assert!(simple.is_crates_io());
    assert_eq!(simple.git(), None);
    assert_eq!(simple.git_rev(), None);

    let mut d = DependencyDetail::default();
    assert!(d.default_features && !d.optional && !d.inherited && d.version.is_none());
    d.features = names(&["a"]);
    d.optional = true;
    d.package = Some("real".to_string());
    d.git = Some("https://example/repo".to_string());
    d.rev = Some("abc".to_string());
    let detailed = Dependency::Detailed(Box::new(d));
    assert_eq!(detailed.req(), "*");
    assert_eq!(detailed.req_features(), &["a"]);
    assert!(detailed.optional());
    assert_eq!(detailed.package(), Some("real"));
    assert_eq!(detailed.git(), Some("https://example/repo"));
    assert_eq!(detailed.git_rev(), Some("abc"));
    assert!(!detailed.is_crates_io());
    assert!(detailed.detail().unwrap().optional);
    let mut plain = DependencyDetail::default();
    plain.version = Some("2".to_string());
    assert!(Dependency::Detailed(Box::new(plain)).is_crates_io());

    let inh = inherited(true, &["x"]);
    assert_eq!(inh.try_req(), Err(Error::InheritedUnknownValue));
    assert!(inh.optional());
    assert_eq!(inh.req_features(), &["x"]);
    assert!(inh.detail().is_none());
    assert_eq!(inh.clone(), inh);
}

#[test]
fn dependency_becomes_detailed_on_change() {
    let mut simple = Dependency::Simple("1.2".to_string());
    simple.try_detail_mut().unwrap().optional = true;
    let d = simple.detail().unwrap();
    assert_eq!(d.version.as_deref(), Some("1.2"));
    assert!(d.optional);
    assert!(d.default_features);
    simple.detail_mut().features.push("f".to_string());
    assert_eq!(simple.req_features(), &["f"]);
    let mut inh = inherited(false, &[]);
    assert!(matches!(inh.try_detail_mut(), Err(Error::InheritedUnknownValue)));
    assert_eq!(inh, inherited(false, &[]));
}

#[test]
fn package_readers_and_writers() {
    let mut p: Package = Package::new("name".to_string(), "1.2.3".to_string());
    assert_eq!(p.name(), "name");
    assert_eq!(p.version(), "1.2.3");
    assert_eq!(p.edition(), Edition::E2021);
    assert!(p.authors().is_empty());
    assert!(p.categories().is_empty());
    assert!(p.exclude().is_empty());
    assert!(p.included().is_empty());
    assert!(p.keywords().is_empty());
    assert_eq!(p.description(), None);
    assert_eq!(p.documentation(), None);
    assert_eq!(p.homepage(), None);
    assert_eq!(p.license(), None);
    assert_eq!(p.license_file(), None);
    assert_eq!(p.repository(), None);
    assert_eq!(p.rust_version(), None);
    assert_eq!(p.links(), None);
    assert_eq!(*p.publish(), Publish::Flag(true));
    assert_eq!(*p.readme(), OptionalFile::Flag(true));
    assert!(p.autobins && p.autoexamples && p.autotests && p.autobenches);
    assert!(!p.needs_workspace_inheritance());
    p.set_description(Some("d".to_string()));
    p.set_documentation(Some("docs".to_string()));
    p.set_homepage(Some("home".to_string()));
    p.set_repository(Some("repo".to_string()));
    p.set_rust_version(Some("1.70".to_string()));
    p.categories_mut().push("cat".to_string());
    assert_eq!(p.description(), Some("d"));
    assert_eq!(p.documentation(), Some("docs"));
    assert_eq!(p.homepage(), Some("home"));
    assert_eq!(p.repository(), Some("repo"));
    assert_eq!(p.rust_version(), Some("1.70"));
    assert_eq!(p.categories(), &["cat"]);
    p.set_description(None);
    assert_eq!(p.description(), None);
    p.license = Some(Inheritable::Inherited);
    assert!(p.needs_workspace_inheritance());
    p.license = None;
    p.keywords = Inheritable::Inherited;
    assert!(p.needs_workspace_inheritance());
    let d: Package = Package::default();
    assert_eq!(d.name(), "");
    assert_eq!(d.version(), "");
}

#[test]
fn manifest_knows_what_it_inherits() {
    let mut m = Manifest::<toml::Value>::default();
    assert!(!m.needs_workspace_inheritance());
    m.package = Some(Package::new("p".to_string(), "1".to_string()));
    assert_eq!(m.package().name(), "p");
    assert!(!m.needs_workspace_inheritance());
    m.dev_dependencies.insert("d".to_string(), inherited(false, &[]));
    assert!(m.needs_workspace_inheritance());
    m.dev_dependencies.remove("d");
    m.dependencies.insert("d".to_string(), Dependency::Simple("1".to_string()));
    assert!(!m.needs_workspace_inheritance());
    m.package.as_mut().unwrap().edition = Inheritable::Inherited;
    assert!(m.needs_workspace_inheritance());
}

#[test]
fn unversioned_package_is_not_published() {
    let mut m = Manifest::<toml::Value>::default();
    m.package = Some(Package::new("p".to_string(), "0.0.0".to_string()));
    m.forbid_publishing_unversioned();
    assert_eq!(*m.package().publish(), Publish::Flag(false));
    let mut v = Manifest::<toml::Value>::default();
    v.package = Some(Package::new("p".to_string(), "0.0.1".to_string()));
    v.forbid_publishing_unversioned();
    assert_eq!(*v.package().publish(), Publish::Flag(true));
    let mut r = Manifest::<toml::Value>::default();
    let mut p = Package::new("p".to_string(), "0.0.0".to_string());
    p.publish = Inheritable::Value(Publish::Registry(names(&["mine"])));
    r.package = Some(p);
    r.forbid_publishing_unversioned();
    assert_eq!(*r.package().publish(), Publish::Registry(names(&["mine"])));
    let mut none = Manifest::<toml::Value>::default();
    none.forbid_publishing_unversioned();
    assert!(none.package.is_none());
}

#[test]
fn debug_setting_from_values() {
    assert_eq!(DebugSetting::try_from(toml::Value::Boolean(true)), Ok(DebugSetting::Full));
    assert_eq!(DebugSetting::try_from(toml::Value::Boolean(false)), Ok(DebugSetting::Off));
    assert_eq!(DebugSetting::try_from(toml::Value::Integer(0)), Ok(DebugSetting::Off));
    assert_eq!(DebugSetting::try_from(toml::Value::Integer(1)), Ok(DebugSetting::Lines));
    assert_eq!(DebugSetting::try_from(toml::Value::Integer(2)), Ok(DebugSetting::Full));
    assert_eq!(
        DebugSetting::try_from(toml::Value::Integer(3)),
        Err(Error::Other("wrong number for debug setting"))
    );
    for (name, want) in [
        ("none", DebugSetting::Off),
        ("limited", DebugSetting::Lines),
        ("line-directives-only", DebugSetting::Lines),
        ("line-tables-only", DebugSetting::Lines),
        ("full", DebugSetting::Full),
    ] {
        assert_eq!(DebugSetting::try_from(toml::Value::String(name.to_string())), Ok(want));
    }
    assert_eq!(
        DebugSetting::try_from(toml::Value::String("much".to_string())),
        Err(Error::Other("wrong name for debug setting"))
    );
    assert_eq!(
        DebugSetting::try_from(toml::Value::Array(vec![])),
        Err(Error::Other("wrong data type for debug setting"))
    );
    assert_eq!(
        DebugSetting::try_from(toml::Value::Float(1.0)),
        Err(Error::Other("wrong data type for debug setting"))
    );
    assert_eq!(DebugSetting::from_scalar(&Scalar::Integer(-1)).is_err(), true);
    assert_eq!(DebugSetting::Off.to_scalar(), Scalar::Boolean(false));
    assert_eq!(DebugSetting::Lines.to_scalar(), Scalar::Integer(1));
    assert_eq!(DebugSetting::Full.to_scalar(), Scalar::Boolean(true));
}

#[test]
fn strip_setting_from_values() {
    assert_eq!(StripSetting::try_from(toml::Value::Boolean(true)), Ok(StripSetting::Symbols));
    assert_eq!(StripSetting::try_from(toml::Value::Boolean(false)), Ok(StripSetting::Off));
    for (name, want) in [
        ("none", StripSetting::Off),
        ("debuginfo", StripSetting::Debuginfo),
        ("symbols", StripSetting::Symbols),
    ] {
        assert_eq!(StripSetting::try_from(toml::Value::String(name.to_string())), Ok(want));
    }
    assert_eq!(
        StripSetting::try_from(toml::Value::String("all".to_string())),
        Err(Error::Other("strip setting has unknown string value"))
    );
    assert_eq!(
        StripSetting::try_from(toml::Value::Integer(1)),
        Err(Error::Other("wrong data type for strip setting"))
    );
    assert_eq!(StripSetting::Off.to_scalar(), Scalar::Boolean(false));
    assert_eq!(StripSetting::Debuginfo.to_scalar(), Scalar::Text("debuginfo".to_string()));
    assert_eq!(StripSetting::Symbols.to_scalar(), Scalar::Boolean(true));
}

#[test]
fn lto_setting_from_values() {
    assert_eq!(LtoSetting::try_from(toml::Value::Boolean(true)), Ok(LtoSetting::Fat));
    assert_eq!(LtoSetting::try_from(toml::Value::Boolean(false)), Ok(LtoSetting::ThinLocal));
    for (name, want) in [
        ("off", LtoSetting::Off),
        ("n", LtoSetting::Off),
        ("no", LtoSetting::Off),
        ("thin", LtoSetting::Thin),
        ("fat", LtoSetting::Fat),
        ("on", LtoSetting::Fat),
        ("y", LtoSetting::Fat),
        ("yes", LtoSetting::Fat),
        ("true", LtoSetting::Fat),
        ("false", LtoSetting::ThinLocal),
    ] {
        assert_eq!(LtoSetting::try_from(toml::Value::String(name.to_string())), Ok(want));
    }
    assert_eq!(
        LtoSetting::try_from(toml::Value::String("maybe".to_string())),
        Err(Error::Other("lto setting has unknown string value"))
    );
    assert_eq!(
        LtoSetting::try_from(toml::Value::Integer(1)),
        Err(Error::Other("wrong data type for lto setting"))
    );
    assert_eq!(LtoSetting::Off.to_scalar(), Scalar::Text("off".to_string()));
    assert_eq!(LtoSetting::ThinLocal.to_scalar(), Scalar::Boolean(false));
    assert_eq!(LtoSetting::Thin.to_scalar(), Scalar::Text("thin".to_string()));
    assert_eq!(LtoSetting::Fat.to_scalar(), Scalar::Boolean(true));
}

#[test]
fn blank_sections_are_skipped() {
    assert!(Badges::default().should_skip_serializing());
    let mut b = Badges::default();
    b.maintenance.status = MaintenanceStatus::Deprecated;
    assert!(!b.should_skip_serializing());
    assert!(Profiles::default().should_skip_serializing());
    let mut p = Profiles::default();
    p.custom.insert(
        "mine".to_string(),
        cargo_toml::Profile {
            opt_level: Some(toml::Value::Integer(3)),
            debug: Some(DebugSetting::Lines),
            split_debuginfo: None,
            rpath: None,
            lto: None,
            debug_assertions: None,
            codegen_units: None,
            panic: None,
            incremental: None,
            overflow_checks: None,
            strip: None,
            package: StrMap::new(),
            build_override: None,
            inherits: None,
        },
    );
    assert!(!p.should_skip_serializing());
}

#[test]
fn error_messages() {
    assert_eq!(Error::Other("bad path").message(), "bad path");
    assert_eq!(Error::InheritedUnknownValue.message(), "value from workspace hasn't been set");
    assert_eq!(Error::WorkspaceIntegrity("missing".to_string()).message(), "missing");
    let parse = Error::Parse(Box::new(ParseError { message: "expected `=`".to_string(), span: Some((3, 4)) }));
    assert_eq!(parse.message(), "expected `=`");
    let io = Error::Io(IoError { kind: IoErrorKind::NotFound, message: "no such file".to_string() });
    assert_eq!(io.message(), "no such file");
    let ws = Error::Workspace(Box::new((io.clone(), Some("/ws/Cargo.toml".to_string()))));
    assert_eq!(ws.message(), "can't load root workspace at /ws/Cargo.toml: no such file");
    let nested = Error::Workspace(Box::new((ws.clone(), None)));
    assert_eq!(
        nested.message(),
        "can't load root workspace: can't load root workspace at /ws/Cargo.toml: no such file"
    );
    assert_eq!(nested.clone(), nested);
    assert_eq!(parse.duplicate(), parse);
}

#[test]
fn dependencies_are_taken_from_the_workspace() {
    let mut ws: Workspace = Workspace::default();
    let mut other = DependencyDetail::default();
    other.version = Some("1".to_string());
    other.features = names(&["foo"]);
    other.path = Some("workspace-relative".to_string());
    ws.dependencies.insert("otherdep".to_string(), Dependency::Detailed(Box::new(other)));
    ws.dependencies.insert("simple".to_string(), Dependency::Simple("2".to_string()));
    ws.dependencies.insert("simple_more".to_string(), Dependency::Simple("3".to_string()));

    let mut deps: StrMap<Dependency> = StrMap::new();
    deps.insert("otherdep".to_string(), inherited(false, &["bar"]));
    deps.insert("simple".to_string(), inherited(false, &[]));
    deps.insert("simple_more".to_string(), inherited(true, &["x"]));
    let mut leaf = DependencyDetail::default();
    leaf.path = Some("leaf-relative".to_string());
    deps.insert("path_dep".to_string(), Dependency::Detailed(Box::new(leaf)));

    assert_eq!(inherit_dependencies(&mut deps, Some(&ws), "root"), Ok(()));
    let other = deps.get("otherdep").unwrap().detail().unwrap();
    assert!(other.inherited);
    assert_eq!(other.features, &["foo", "bar"]);
    assert_eq!(other.path.as_deref(), Some("root/workspace-relative"));
    assert_eq!(other.version.as_deref(), Some("1"));
    assert!(!other.optional);
    assert_eq!(deps.get("simple"), Some(&Dependency::Simple("2".to_string())));
    let more = deps.get("simple_more").unwrap().detail().unwrap();
    assert_eq!(more.version.as_deref(), Some("3"));
    assert!(more.optional && more.inherited);
    assert_eq!(more.features, &["x"]);
    let leaf = deps.get("path_dep").unwrap().detail().unwrap();
    assert_eq!(leaf.path.as_deref(), Some("leaf-relative"));
    assert!(!leaf.inherited);
}

#[test]
fn missing_workspace_dependency_is_an_error() {
    let ws: Workspace = Workspace::default();
    let mut deps: StrMap<Dependency> = StrMap::new();
    deps.insert("gone".to_string(), inherited(false, &[]));
    assert_eq!(
        inherit_dependencies(&mut deps, Some(&ws), "root"),
        Err(Error::WorkspaceIntegrity("workspace dependencies are missing `gone`".to_string()))
    );
    assert_eq!(
        inherit_dependencies::<toml::Value>(&mut deps, None, "root"),
        Err(Error::WorkspaceIntegrity("workspace dependencies are missing `gone`".to_string()))
    );
    let mut ws2: Workspace = Workspace::default();
    ws2.dependencies.insert("gone".to_string(), inherited(false, &[]));
    let mut wants: StrMap<Dependency> = StrMap::new();
    wants.insert("gone".to_string(), inherited(true, &[]));
    assert_eq!(inherit_dependencies(&mut wants, Some(&ws2), "root"), Err(Error::InheritedUnknownValue));
    let mut plain: StrMap<Dependency> = StrMap::new();
    plain.insert("d".to_string(), Dependency::Simple("1".to_string()));
    assert_eq!(inherit_dependencies::<toml::Value>(&mut plain, None, "root"), Ok(()));
}

#[test]
fn package_takes_what_the_workspace_offers() {
    let mut ws: Workspace = Workspace::default();
    let mut t = PackageTemplate::default();
    t.version = Some("1.0.0-lol".to_string());
    t.authors = Some(names(&["someone"]));
    t.readme = OptionalFile::Path("ws-path/readme".to_string());
    t.license_file = Some("ws-lic".to_string());
    t.publish = Publish::Flag(false);
    t.description = Some("from ws".to_string());
    ws.package = Some(t);

    let mut m = Manifest::<toml::Value>::default();
    let mut p = Package::new("leaf".to_string(), "9".to_string());
    p.version = Inheritable::Inherited;
    p.authors = Inheritable::Inherited;
    p.readme = Inheritable::Inherited;
    p.license_file = Some(Inheritable::Inherited);
    p.publish = Inheritable::Inherited;
    p.description = Some(Inheritable::Inherited);
    p.homepage = None;
    m.package = Some(p);
    m.dependencies.insert("d".to_string(), Dependency::Simple("1".to_string()));
    assert!(m.needs_workspace_inheritance());

    assert_eq!(m._inherit_workspace(Some(&ws), "root/Cargo.toml"), Ok(()));
    assert!(!m.needs_workspace_inheritance());
    let p = m.package();
    assert_eq!(p.version(), "1.0.0-lol");
    assert_eq!(p.authors(), &["someone"]);
    assert_eq!(p.readme().as_path(), Some("root/ws-path/readme"));
    assert_eq!(p.license_file(), Some("root/ws-lic"));
    assert_eq!(*p.publish(), Publish::Flag(false));
    assert_eq!(p.description(), Some("from ws"));
    assert_eq!(p.homepage(), None);
    assert_eq!(p.edition(), Edition::E2021);
}

#[test]
fn package_that_still_inherits_is_an_error() {
    let ws: Workspace = Workspace::default();
    let mut m = Manifest::<toml::Value>::default();
    let mut p = Package::new("leaf".to_string(), "9".to_string());
    p.keywords = Inheritable::Inherited;
    m.package = Some(p);
    assert_eq!(
        m.inherit_from(Some(&ws), "root"),
        Err(Error::WorkspaceIntegrity(
            "not all fields of `leaf` have been present in workspace.package".to_string()
        ))
    );
    let mut holder = Manifest::<toml::Value>::default();
    holder.workspace = Some(Workspace::default());
    let mut other = Manifest::<toml::Value>::default();
    assert_eq!(other.inherit_workspace(&holder, "root"), Ok(()));
    let mut q = Manifest::<toml::Value>::default();
    q.package = Some(Package::new("leaf".to_string(), "9".to_string()));
    assert_eq!(q._inherit_workspace::<toml::Value>(None, "Cargo.toml"), Ok(()));
}

#[test]
fn products_are_sorted_by_name_then_path() {
    let mut v: Vec<Product> = Vec::new();
    for (name, path) in [
        (Some("b"), Some("x")),
        (Some("a"), Some("z")),
        (None, Some("q")),
        (Some("a"), Some("y")),
        (Some("a"), None),
        (None, None),
    ] {
        let mut p = Product::default();
        p.name = name.map(|s| s.to_string());
        p.path = path.map(|s| s.to_string());
        v.push(p);
    }
    Manifest::<toml::Value>::sort_products(&mut v);
    let got: Vec<(Option<&str>, Option<&str>)> =
        v.iter().map(|p| (p.name.as_deref(), p.path.as_deref())).collect();
    assert_eq!(
        got,
        vec![
            (None, None),
            (None, Some("q")),
            (Some("a"), None),
            (Some("a"), Some("y")),
            (Some("a"), Some("z")),
            (Some("b"), Some("x")),
        ]
    );
}

fn listing(dirs: &[(&str, &[&str])]) -> Listing {
    let mut fs: Listing = StrMap::new();
    for (dir, files) in dirs {
        fs.insert(dir.to_string(), Ok(set_of(files)));
    }
    fs
}

#[test]
fn binaries_are_found_on_disk() {
    let mut m = Manifest::<toml::Value>::default();
    let mut p = Package::new("auto-bin".to_string(), "1".to_string());
    p.edition = Inheritable::Value(Edition::E2018);
    m.package = Some(p);
    let mut e = Product::default();
    e.name = Some("e".to_string());
    e.required_features = names(&["feat1"]);
    m.bin.push(e);
    let mut abcde = Product::default();
    abcde.name = Some("abcde".to_string());
    abcde.path = Some("src/abcde.rs".to_string());
    m.bin.push(abcde);
    let fs = listing(&[
        ("", &["Cargo.toml", "src", "README.txt", "build.rs"]),
        ("src", &["main.rs", "bin", "abcde.rs"]),
        ("src/bin", &["a.rs", "b.rs", "c", "d", "e", "notes.txt"]),
        ("src/bin/c", &["main.rs"]),
        ("src/bin/d", &["main.rs", "extra.rs"]),
        ("src/bin/e", &["main.rs"]),
    ]);
    assert_eq!(m.complete_from_abstract_filesystem_inner(&fs), Ok(()));
    assert!(m.lib.is_none());
    let bins: Vec<(&str, &str)> =
        m.bin.iter().map(|p| (p.name.as_deref().unwrap(), p.path.as_deref().unwrap())).collect();
    assert_eq!(
        bins,
        vec![
            ("a", "src/bin/a.rs"),
            ("abcde", "src/abcde.rs"),
            ("auto-bin", "src/main.rs"),
            ("b", "src/bin/b.rs"),
            ("c", "src/bin/c/main.rs"),
            ("d", "src/bin/d/main.rs"),
            ("e", "src/bin/e/main.rs"),
        ]
    );
    let bin_e = m.bin.iter().find(|p| p.name.as_deref() == Some("e")).unwrap();
    assert_eq!(bin_e.required_features, &["feat1"]);
    assert_eq!(bin_e.edition, Edition::E2015);
    assert_eq!(m.bin[0].edition, Edition::E2018);
    assert_eq!(m.package().readme().as_path(), Some("README.txt"));
    assert_eq!(m.package().build, Some(OptionalFile::Path("build.rs".to_string())));
}

#[test]
fn library_is_found_on_disk() {
    let mut m = Manifest::<toml::Value>::default();
    let mut p = Package::new("auto-lib".to_string(), "1".to_string());
    p.autobins = false;
    p.readme = Inheritable::Value(OptionalFile::Path("SOMETHING".to_string()));
    p.build = Some(OptionalFile::Flag(false));
    m.package = Some(p);
    let mut lib = Product::default();
    lib.required_features = names(&["ignored"]);
    lib.bench = false;
    m.lib = Some(lib);
    let fs = listing(&[
        ("", &["README.md", "build.rs"]),
        ("src", &["lib.rs", "main.rs"]),
        ("examples", &["demo.rs", "dir"]),
        ("examples/dir", &["other.rs"]),
        ("tests", &["t.rs.rs"]),
    ]);
    assert_eq!(m.complete_from_abstract_filesystem_inner(&fs), Ok(()));
    let lib = m.lib.as_ref().unwrap();
    assert_eq!(lib.name.as_deref(), Some("auto_lib"));
    assert_eq!(lib.path.as_deref(), Some("src/lib.rs"));
    assert_eq!(lib.crate_type, &["rlib"]);
    assert_eq!(lib.edition, Edition::E2021);
    assert!(lib.required_features.is_empty());
    assert!(!lib.bench);
    assert!(m.bin.is_empty());
    assert_eq!(m.example.len(), 1);
    assert_eq!(m.example[0].path.as_deref(), Some("examples/demo.rs"));
    assert_eq!(m.test.len(), 1);
    assert_eq!(m.test[0].name.as_deref(), Some("t"));
    assert_eq!(m.test[0].path.as_deref(), Some("tests/t.rs.rs"));
    assert!(m.bench.is_empty());
    assert_eq!(m.package().readme().as_path(), Some("SOMETHING"));
    assert_eq!(m.package().build, Some(OptionalFile::Flag(false)));
}

#[test]
fn named_library_keeps_its_name_and_path() {
    let mut m = Manifest::<toml::Value>::default();
    m.package = Some(Package::new("renamed_lib".to_string(), "1".to_string()));
    let mut lib = Product::default();
    lib.name = Some("librenamed".to_string());
    m.lib = Some(lib);
    let mut with_path = Product::default();
    with_path.path = Some("elsewhere.rs".to_string());
    let fs = listing(&[("", &[]), ("src", &["lib.rs"])]);
    assert_eq!(m.complete_from_abstract_filesystem_inner(&fs), Ok(()));
    assert_eq!(m.lib.as_ref().unwrap().name.as_deref(), Some("librenamed"));
    assert_eq!(m.lib.as_ref().unwrap().path.as_deref(), Some("src/lib.rs"));
    let mut n = Manifest::<toml::Value>::default();
    n.package = Some(Package::new("p".to_string(), "1".to_string()));
    n.lib = Some(with_path);
    assert_eq!(n.complete_from_abstract_filesystem_inner(&fs), Ok(()));
    assert_eq!(n.lib.as_ref().unwrap().path.as_deref(), Some("elsewhere.rs"));
    assert_eq!(n.lib.as_ref().unwrap().name, None);
}

#[test]
fn unreadable_directories() {
    let mut m = Manifest::<toml::Value>::default();
    m.package = Some(Package::new("p".to_string(), "1".to_string()));
    let mut fs: Listing = StrMap::new();
    fs.insert("".to_string(), Ok(StrSet::new()));
    fs.insert(
        "src".to_string(),
        Err(IoError { kind: IoErrorKind::NotFound, message: "gone".to_string() }),
    );
    assert_eq!(m.complete_from_abstract_filesystem_inner(&fs), Ok(()));
    let denied = IoError { kind: IoErrorKind::Other, message: "denied".to_string() };
    fs.insert("src".to_string(), Err(denied.clone()));
    assert_eq!(m.complete_from_abstract_filesystem_inner(&fs), Err(Error::Io(denied.clone())));
    fs.insert("src".to_string(), Ok(StrSet::new()));
    fs.insert("".to_string(), Err(denied.clone()));
    assert_eq!(m.complete_from_abstract_filesystem_inner(&fs), Err(Error::Io(denied)));
    let mut w = Manifest::<toml::Value>::default();
    w.workspace = Some(Workspace::default());
    assert_eq!(w.complete_from_abstract_filesystem_inner(&StrMap::new()), Ok(()));
    let mut i = Manifest::<toml::Value>::default();
    let mut p = Package::new("p".to_string(), "1".to_string());
    p.edition = Inheritable::Inherited;
    i.package = Some(p);
    let found = listing(&[("", &[]), ("src", &["lib.rs"])]);
    assert_eq!(i.complete_from_abstract_filesystem_inner(&found), Err(Error::InheritedUnknownValue));
}

#[test]
fn autoset_reports_overrides() {
    let mut m = Manifest::<toml::Value>::default();
    m.package = Some(Package::new("p".to_string(), "1".to_string()));
    let mut named = Product::default();
    named.name = Some("given".to_string());
    let mut unfound = Product::default();
    unfound.name = Some("unfound".to_string());
    let mut pathed = Product::default();
    pathed.path = Some("examples/skip.rs".to_string());
    let mut out = vec![named, pathed, unfound];
    let fs = listing(&[("examples", &["given.rs", "skip.rs", "new.rs"])]);
    let (full, partial) = m.autoset(&mut out, "examples", &fs).unwrap();
    assert_eq!(full.to_vec(), &["examples/skip.rs"]);
    assert_eq!(partial.keys(), &["unfound"]);
    let got: Vec<(Option<&str>, &str)> =
        out.iter().map(|p| (p.name.as_deref(), p.path.as_deref().unwrap())).collect();
    assert_eq!(
        got,
        vec![
            (None, "examples/skip.rs"),
            (Some("given"), "examples/given.rs"),
            (Some("new"), "examples/new.rs"),
        ]
    );
}

#[test]
fn inheriting_stops_at_the_first_dependency_that_cannot_be_taken() {
    let mut ws: Workspace = Workspace::default();
    ws.dependencies.insert("a".to_string(), Dependency::Simple("1".to_string()));
    ws.dependencies.insert("c".to_string(), inherited(false, &[]));
    ws.dependencies.insert("e".to_string(), Dependency::Simple("5".to_string()));
    let mut deps: StrMap<Dependency> = StrMap::new();
    deps.insert("a".to_string(), inherited(false, &[]));
    deps.insert("b".to_string(), inherited(false, &[]));
    deps.insert("c".to_string(), inherited(true, &[]));
    deps.insert("e".to_string(), inherited(false, &[]));
    assert_eq!(
        inherit_dependencies(&mut deps, Some(&ws), "root"),
        Err(Error::WorkspaceIntegrity("workspace dependencies are missing `b`".to_string()))
    );
    assert_eq!(deps.get("a"), Some(&Dependency::Simple("1".to_string())));
    assert_eq!(deps.get("b"), Some(&inherited(false, &[])));
    assert_eq!(deps.get("c"), Some(&inherited(true, &[])));
    assert_eq!(deps.get("e"), Some(&inherited(false, &[])));

    deps.remove("b");
    assert_eq!(inherit_dependencies(&mut deps, Some(&ws), "root"), Err(Error::InheritedUnknownValue));
    assert_eq!(deps.keys(), &["a", "c", "e"]);
    assert_eq!(deps.get("c"), Some(&inherited(false, &[])));
    assert_eq!(deps.get("e"), Some(&inherited(false, &[])));
}

#[test]
fn workspace_is_applied_unless_something_cannot_be_taken() {
    let mut ws: Workspace = Workspace::default();
    ws.dependencies.insert("a".to_string(), Dependency::Simple("1".to_string()));
    let mut t = PackageTemplate::default();
    t.keywords = Some(names(&["k"]));
    ws.package = Some(t);

    let mut m = Manifest::<toml::Value>::default();
    let mut p = Package::new("leaf".to_string(), "9".to_string());
    p.keywords = Inheritable::Inherited;
    m.package = Some(p);
    let mut target = cargo_toml::Target::default();
    target.build_dependencies.insert("a".to_string(), inherited(false, &[]));
    m.target.insert("cfg(unix)".to_string(), target);
    let mut ok = m.clone();
    assert_eq!(ok.inherit_from(Some(&ws), "root"), Ok(()));
    assert_eq!(ok.package().keywords(), &["k"]);
    assert_eq!(
        ok.target.get("cfg(unix)").unwrap().build_dependencies.get("a"),
        Some(&Dependency::Simple("1".to_string()))
    );

    let mut missing = m.clone();
    let mut changed = missing.target.remove("cfg(unix)").unwrap();
    changed.dev_dependencies.insert("zz".to_string(), inherited(false, &[]));
    missing.target.insert("cfg(unix)".to_string(), changed);
    assert_eq!(
        missing.inherit_from(Some(&ws), "root"),
        Err(Error::WorkspaceIntegrity("workspace dependencies are missing `zz`".to_string()))
    );

    let mut open = m.clone();
    open.package.as_mut().unwrap().license = Some(Inheritable::Inherited);
    assert_eq!(
        open.inherit_workspace(&holder_of(ws), "root/Cargo.toml"),
        Err(Error::WorkspaceIntegrity(
            "not all fields of `leaf` have been present in workspace.package".to_string()
        ))
    );
}

fn holder_of(ws: Workspace) -> Manifest {
    let mut holder = Manifest::<toml::Value>::default();
    holder.workspace = Some(ws);
    holder
}
