use cargo_toml::features::{Kind, ParseDependency, Resolver};
use cargo_toml::{Dependency, DependencyDetail, Manifest, Package, Product, StrMap, StrSet};

fn detailed(version: Option<&str>, package: Option<&str>, optional: bool) -> Dependency {
    let mut d = DependencyDetail::default();
    d.version = version.map(|v| v.to_string());
    d.package = package.map(|p| p.to_string());
    d.optional = optional;
    Dependency::Detailed(Box::new(d))
}

fn strings(items: &[&str]) -> Vec<String> {
    items.iter().map(|s| s.to_string()).collect()
}

fn fixture() -> Manifest {
    let mut m = Manifest::<toml::Value>::default();
    m.package = Some(Package::new("foo".to_string(), "0.0.0".to_string()));

    let mut thebin = Product::default();
    thebin.name = Some("thebin".to_string());
    thebin.required_features = strings(&["__hidden2", "loop3"]);
    m.bin.push(thebin);

    let mut not_optional = DependencyDetail::default();
    not_optional.path = Some("..".to_string());
    not_optional.package = Some("actual_pkg".to_string());
    not_optional.features = strings(&["f1", "f2"]);
    m.dependencies.insert("not_optional".to_string(), Dependency::Detailed(Box::new(not_optional)));
    let mut depend = DependencyDetail::default();
    depend.version = Some("1.0.0".to_string());
    depend.package = Some("actual_pkg".to_string());
    depend.optional = true;
    depend.default_features = false;
    m.dependencies.insert("depend".to_string(), Dependency::Detailed(Box::new(depend)));
    m.dependencies.insert("implied_standalone".to_string(), detailed(Some("1.0.0"), None, true));
    m.dependencies.insert("implied_referenced".to_string(), detailed(Some("1.0.0"), None, true));
    m.dependencies.insert("not_relevant".to_string(), Dependency::Simple("2".to_string()));
    m.dependencies.insert("feature_for_hidden".to_string(), detailed(Some("2"), None, true));
    m.dependencies.insert("__hidden_dep".to_string(), detailed(Some("2"), None, true));

    m.build_dependencies.insert("a_dep".to_string(), detailed(Some("1.0.0"), None, true));

    let f = &mut m.features;
    f.insert("default".to_string(), strings(&["x"]));
    f.insert("a".to_string(), strings(&[]));
    f.insert(
        "b".to_string(),
        strings(&["a", "implied_referenced/with_feature", "depend/default", "depend/default"]),
    );
    f.insert("c".to_string(), strings(&["__hidden"]));
    f.insert(
        "x".to_string(),
        strings(&["__hidden", "c", "not_optional/f2", "not_optional/f3", "not_optional/default"]),
    );
    f.insert("__hidden".to_string(), strings(&["__hidden2"]));
    f.insert(
        "__hidden2".to_string(),
        strings(&["dep:depend", "depend/with_x", "depend?/with_y", "__hidden0"]),
    );
    f.insert("__hidden0".to_string(), strings(&["a"]));
    f.insert("enables_hidden".to_string(), strings(&["__hidden0"]));
    f.insert("__feature_for_hidden".to_string(), strings(&["feature_for_hidden"]));
    f.insert("loop1".to_string(), strings(&["loop2"]));
    f.insert(
        "loop2".to_string(),
        strings(&["loop3", "a_dep?/maybe", "a_dep?/maybe_too", "depend/with_loop"]),
    );
    f.insert("loop3".to_string(), strings(&["loop1", "implied_referenced/from_loop_3"]));
    m
}

fn hidden(k: &str) -> bool {
    k.starts_with('_')
}

#[test]
fn features_test() {
    let m = fixture();
    let r = Resolver::new().parse(&m);
    let f = r.features;
    let d = r.dependencies;

    assert!(r.removed_hidden_features);

    // __hidden completely removed
    assert!(!f.keys().iter().any(|k| {
        let feature = f.get(k).unwrap();
        hidden(k)
            || feature.enables_features.to_vec().iter().any(|k| hidden(k))
            || feature.enables_deps.keys().iter().any(|k| hidden(k))
            || feature.enabled_by.to_vec().iter().any(|k| hidden(k))
    }));

    assert!(!d.keys().iter().any(|k| hidden(k) && k != "__hidden_dep"));
    assert!(f.get("__hidden_dep").is_none());

    assert_eq!(f.len(), 13);
    assert!(f.get("depend").is_none());

    assert_eq!(d.len(), 7);
    assert!(d.get("not_relevant").is_none());
    assert!(f.get("not_relevant").is_none());

    assert!(f.get("not_optional").is_none());
    assert_eq!(d.get("not_optional").unwrap().crate_name, "actual_pkg");

    assert_eq!(d.get("implied_standalone").unwrap().crate_name, "implied_standalone");
    assert!(d.get("implied_standalone").unwrap().detail().0.optional());
    assert!(d.get("a_dep").unwrap().targets.iter().all(|(t, _)| t.kind == Kind::Build));
    assert!(!f.get("implied_standalone").unwrap().explicit);
    assert!(!f.get("implied_referenced").unwrap().explicit);
    assert!(!f.get("a_dep").unwrap().explicit);
    assert!(!f.get("feature_for_hidden").unwrap().is_referenced());

    assert_eq!(f.get("x").unwrap().enables_deps.keys(), &["depend", "not_optional"]);
    assert_eq!(f.get("x").unwrap().enables_features.to_vec(), &["a", "c"]);

    assert_eq!(f.get("a").unwrap().enabled_by.to_vec(), &["b", "c", "enables_hidden", "x"]);
    assert!(f.get("a").unwrap().enables_deps.is_empty());
    assert!(f.get("a").unwrap().enables_features.is_empty());

    assert_eq!(f.get("loop1").unwrap().enabled_by.to_vec(), &["loop3"]);
    assert_eq!(f.get("loop2").unwrap().enabled_by.to_vec(), &["loop1"]);
    assert_eq!(f.get("loop3").unwrap().enabled_by.to_vec(), &["loop2"]);

    assert!(f.get("loop1").unwrap().enables_deps.is_empty());
    assert_eq!(f.get("loop2").unwrap().enables_deps.keys(), &["a_dep", "depend"]);
    assert!(f.get("loop2").unwrap().enables_deps.get("a_dep").unwrap().is_conditional);
    assert!(!f.get("loop2").unwrap().enables_deps.get("depend").unwrap().is_conditional);
    assert_eq!(f.get("loop3").unwrap().enables_deps.keys(), &["implied_referenced"]);

    assert_eq!(f.get("loop1").unwrap().enables_features.to_vec(), &["loop2"]);
    assert_eq!(f.get("loop2").unwrap().enables_features.to_vec(), &["loop3"]);
    assert_eq!(f.get("loop3").unwrap().enables_features.to_vec(), &["loop1"]);

    let (rf, rd) = f.get("loop1").unwrap().enables_recursive(&f);
    assert_eq!(rf.get("loop1").unwrap().key, "loop1");
    assert_eq!(rf.get("loop2").unwrap().key, "loop2");
    assert_eq!(rf.get("loop3").unwrap().key, "loop3");
    assert_eq!(rd.get("implied_referenced").unwrap()[0].0, "loop3");
    assert_eq!(rd.get("depend").unwrap()[0].0, "loop2");
    assert!(rd.get("a_dep").is_none());
}
