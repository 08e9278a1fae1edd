use cargo_toml::features::actions::read_action;
use cargo_toml::features::{DepAction, Feature, Kind, ParseDependency, Resolver, MAX_ITEMS};
use cargo_toml::{Dependency, DependencyDetail, Manifest, Package, Product, StrMap, StrSet, Target};

fn names(items: &[&str]) -> Vec<String> {
    items.iter().map(|s| s.to_string()).collect()
}

fn set_of(items: &[&str]) -> StrSet {
    let mut s = StrSet::new();
    for i in items {
        s.insert(i.to_string());
    }
    s
}

fn optional(version: &str) -> Dependency {
    let mut d = DependencyDetail::default();
    d.version = Some(version.to_string());
    d.optional = true;
    Dependency::Detailed(Box::new(d))
}

fn package(name: &str) -> Manifest {
    let mut m = Manifest::<toml::Value>::default();
    m.package = Some(Package::new(name.to_string(), "1.0.0".to_string()));
    m
}

fn feature(m: &mut Manifest, key: &str, actions: &[&str]) {
    m.features.insert(key.to_string(), names(actions));
}

#[test]
fn action_plain_name() {
    let a = read_action("name");
    assert_eq!(a.target, "name");
    assert!(!a.is_dep_only);
    assert!(!a.is_conditional);
    assert_eq!(a.dep_feature, None);
}

#[test]
fn action_with_all_markers() {
    let a = read_action("dep:name?/subfeature");
    assert_eq!(a.target, "name");
    assert!(a.is_dep_only);
    assert!(a.is_conditional);
    assert_eq!(a.dep_feature, Some("subfeature"));
}

#[test]
fn action_dep_prefix_only() {
    let a = read_action("dep:name");
    assert_eq!(a.target, "name");
    assert!(a.is_dep_only);
    assert!(!a.is_conditional);
    assert_eq!(a.dep_feature, None);
}

#[test]
fn action_question_only() {
    let a = read_action("name?");
    assert_eq!(a.target, "name");
    assert!(!a.is_dep_only);
    assert!(a.is_conditional);
}

#[test]
fn action_splits_at_first_slash() {
    let a = read_action("name/sub/more");
    assert_eq!(a.target, "name");
    assert_eq!(a.dep_feature, Some("sub/more"));
}

#[test]
fn action_empty_target_is_kept() {
    let a = read_action("/feature");
    assert_eq!(a.target, "");
    assert_eq!(a.dep_feature, Some("feature"));
    let (_, f) = Resolver::parse_feature("x", &names(&["/feature"]));
    assert_eq!(f.enables_deps.keys(), &[""]);
    assert!(f.enables_features.is_empty());
}

#[test]
fn action_of_markers_only() {
    let a = read_action("dep:?");
    assert_eq!(a.target, "");
    assert!(a.is_dep_only);
    assert!(a.is_conditional);
    let b = read_action("");
    assert_eq!(b.target, "");
    assert!(!b.is_dep_only && !b.is_conditional && b.dep_feature.is_none());
}

#[test]
fn action_with_other_alphabets() {
    let a = read_action("dep:größe?/ünïcode");
    assert_eq!(a.target, "größe");
    assert_eq!(a.dep_feature, Some("ünïcode"));
    assert!(a.is_dep_only && a.is_conditional);
}

#[test]
fn parse_feature_sorts_names_into_features_and_deps() {
    let (key, f) = Resolver::parse_feature("f", &names(&["b", "a", "dep:d", "e/x", "a"]));
    assert_eq!(key, "f");
    assert_eq!(f.key, "f");
    assert!(f.explicit);
    assert_eq!(f.enables_features.to_vec(), &["a", "b"]);
    assert_eq!(f.enables_deps.keys(), &["d", "e"]);
    assert!(f.enabled_by.is_empty());
    assert!(f.required_by_bins.is_empty());
    assert!(f.enables_deps.get("d").unwrap().is_dep_only);
    assert!(!f.enables_deps.get("e").unwrap().is_dep_only);
    assert_eq!(f.enables_deps.get("e").unwrap().dep_features.to_vec(), &["x"]);
}

#[test]
fn merge_unconditional_dominates() {
    let (_, f) = Resolver::parse_feature("f", &names(&["d?/a", "d/b"]));
    let a = f.enables_deps.get("d").unwrap();
    assert!(!a.is_conditional);
    assert!(!a.is_dep_only);
    assert_eq!(a.dep_features.to_vec(), &["a", "b"]);
    let (_, f) = Resolver::parse_feature("f", &names(&["d/b", "d?/a"]));
    let a = f.enables_deps.get("d").unwrap();
    assert!(!a.is_conditional);
    assert_eq!(a.dep_features.to_vec(), &["a", "b"]);
    let (_, f) = Resolver::parse_feature("f", &names(&["d?/b", "d?/a"]));
    assert!(f.enables_deps.get("d").unwrap().is_conditional);
}

#[test]
fn merge_dep_only_sticks() {
    let (_, f) = Resolver::parse_feature("f", &names(&["dep:d", "d/b"]));
    let a = f.enables_deps.get("d").unwrap();
    assert!(a.is_dep_only);
    assert_eq!(a.dep_features.to_vec(), &["b"]);
    let (_, f) = Resolver::parse_feature("f", &names(&["d/b", "dep:d"]));
    assert!(f.enables_deps.get("d").unwrap().is_dep_only);
}

#[test]
fn merge_of_two_actions() {
    let mut a = DepAction { is_conditional: true, is_dep_only: false, dep_features: set_of(&["x"]) };
    let b = DepAction { is_conditional: false, is_dep_only: true, dep_features: set_of(&["y", "x"]) };
    a.merge(&b);
    assert!(!a.is_conditional);
    assert!(a.is_dep_only);
    assert_eq!(a.dep_features.to_vec(), &["x", "y"]);
    let mut c = DepAction { is_conditional: true, is_dep_only: false, dep_features: set_of(&[]) };
    let d = DepAction { is_conditional: true, is_dep_only: false, dep_features: set_of(&[]) };
    c.merge(&d);
    assert!(c.is_conditional && !c.is_dep_only && c.dep_features.is_empty());
}

#[test]
fn parse_feature_reads_no_more_than_the_cap() {
    let mut actions: Vec<String> = Vec::new();
    for i in 0..MAX_ITEMS {
        actions.push(format!("f{i}"));
    }
    actions.push("beyond".to_string());
    let (_, f) = Resolver::parse_feature("x", &actions);
    assert_eq!(f.enables_features.len(), MAX_ITEMS);
    assert!(!f.enables_features.contains("beyond"));
    assert!(f.enables_features.contains("f2047"));
}

#[test]
fn default_is_added_when_not_declared() {
    let mut m = package("p");
    feature(&mut m, "a", &[]);
    let r = Resolver::new().parse(&m);
    assert_eq!(r.features.keys(), &["a", "default"]);
    let d = r.features.get("default").unwrap();
    assert!(d.explicit);
    assert!(d.enables_features.is_empty());
    assert!(d.enables_deps.is_empty());
    assert!(!r.removed_hidden_features);
    assert!(r.hidden_features.is_empty());
}

#[test]
fn default_is_there_for_an_empty_manifest() {
    let m = package("p");
    let r = Resolver::new().parse(&m);
    assert_eq!(r.features.keys(), &["default"]);
    assert!(r.dependencies.is_empty());
}

#[test]
fn declared_default_is_kept() {
    let mut m = package("p");
    feature(&mut m, "default", &["a"]);
    feature(&mut m, "a", &[]);
    let r = Resolver::new().parse(&m);
    assert_eq!(r.features.get("default").unwrap().enables_features.to_vec(), &["a"]);
    assert_eq!(r.features.get("a").unwrap().enabled_by.to_vec(), &["default"]);
}

#[test]
fn default_is_there_beyond_the_cap() {
    let mut m = package("p");
    for i in 0..MAX_ITEMS {
        feature(&mut m, &format!("a{i:04}"), &[]);
    }
    feature(&mut m, "default", &["a0000"]);
    let r = Resolver::new().parse(&m);
    assert_eq!(r.features.len(), MAX_ITEMS + 1);
    let d = r.features.get("default").unwrap();
    assert!(d.enables_features.is_empty());
    assert!(r.features.get("a2047").is_some());
}

#[test]
fn features_beyond_the_cap_are_left_out() {
    let mut m = package("p");
    feature(&mut m, "default", &[]);
    for i in 0..MAX_ITEMS {
        feature(&mut m, &format!("x{i:04}"), &[]);
    }
    let r = Resolver::new().parse(&m);
    assert_eq!(r.features.len(), MAX_ITEMS);
    assert!(r.features.get("default").is_some());
    assert!(r.features.get("x2046").is_some());
    assert!(r.features.get("x2047").is_none());
}

#[test]
fn optional_dependency_gets_a_feature() {
    let mut m = package("p");
    m.dependencies.insert("opt".to_string(), optional("1"));
    m.dependencies.insert("plain".to_string(), Dependency::Simple("1".to_string()));
    let r = Resolver::new().parse(&m);
    assert_eq!(r.features.keys(), &["default", "opt"]);
    let f = r.features.get("opt").unwrap();
    assert!(!f.explicit);
    assert_eq!(f.key, "opt");
    assert_eq!(f.enables_deps.keys(), &["opt"]);
    let a = f.enables_deps.get("opt").unwrap();
    assert!(!a.is_conditional && !a.is_dep_only && a.dep_features.is_empty());
    assert!(f.enables_features.is_empty());
    assert_eq!(r.dependencies.keys(), &["opt"]);
    assert_eq!(r.dependencies.get("opt").unwrap().crate_name, "opt");
}

#[test]
fn dep_syntax_anywhere_suppresses_the_feature() {
    let mut m = package("p");
    m.dependencies.insert("opt".to_string(), optional("1"));
    feature(&mut m, "a", &["opt/x"]);
    feature(&mut m, "z", &["dep:opt"]);
    let r = Resolver::new().parse(&m);
    assert_eq!(r.features.keys(), &["a", "default", "z"]);
    assert!(r.dependencies.get("opt").is_some());
}

#[test]
fn old_syntax_keeps_the_feature() {
    let mut m = package("p");
    m.dependencies.insert("opt".to_string(), optional("1"));
    feature(&mut m, "a", &["opt/x", "opt?/y"]);
    let r = Resolver::new().parse(&m);
    assert_eq!(r.features.keys(), &["a", "default", "opt"]);
    assert_eq!(r.features.get("opt").unwrap().enabled_by.to_vec(), &["a"]);
}

#[test]
fn named_using_dep_syntax_covers_features_and_deps() {
    let mut m: StrMap<Vec<String>> = StrMap::new();
    m.insert("a".to_string(), names(&["dep:x", "y/f", "b"]));
    m.insert("b".to_string(), names(&["x/g", "dep:y"]));
    let features = Resolver::parse_features(&m, false);
    let named = Resolver::named_using_dep_syntax(&features);
    assert_eq!(named.keys(), &["a", "b", "default", "x", "y"]);
    assert_eq!(named.get("a"), Some(&false));
    assert_eq!(named.get("default"), Some(&false));
    assert_eq!(named.get("x"), Some(&true));
    assert_eq!(named.get("y"), Some(&true));
}

#[test]
fn first_declaration_wins_per_use() {
    let mut m = package("p");
    let first = optional("1");
    m.dependencies.insert("d".to_string(), first);
    m.build_dependencies.insert("d".to_string(), optional("2"));
    m.dev_dependencies.insert("d".to_string(), optional("3"));
    let mut t = Target::default();
    t.dependencies.insert("d".to_string(), optional("4"));
    t.dev_dependencies.insert("d".to_string(), optional("5"));
    m.target.insert("cfg(unix)".to_string(), t);
    let r = Resolver::new().parse(&m);
    let d = r.dependencies.get("d").unwrap();
    let uses: Vec<(Kind, Option<&str>, &str)> =
        d.targets.iter().map(|(k, dep)| (k.kind, k.target.as_deref(), dep.req())).collect();
    assert_eq!(
        uses,
        vec![
            (Kind::Normal, None, "1"),
            (Kind::Normal, Some("cfg(unix)"), "4"),
            (Kind::Build, None, "2"),
            (Kind::Dev, None, "3"),
            (Kind::Dev, Some("cfg(unix)"), "5"),
        ]
    );
    assert_eq!(d.detail().1, Kind::Normal);
    assert_eq!(d.dep().req(), "1");
}

#[test]
fn custom_first_declaration_wins() {
    let features: StrMap<Vec<String>> = StrMap::new();
    let a = optional("1");
    let b = optional("2");
    let c = optional("3");
    let deps = vec![
        ParseDependency { key: "d", kind: Kind::Dev, target: None, dep: &a },
        ParseDependency { key: "d", kind: Kind::Dev, target: None, dep: &b },
        ParseDependency { key: "d", kind: Kind::Normal, target: Some("x"), dep: &c },
    ];
    let r = Resolver::new().parse_custom(&features, deps);
    let d = r.dependencies.get("d").unwrap();
    assert_eq!(d.targets.len(), 2);
    assert_eq!(d.targets[0].0.kind, Kind::Normal);
    assert_eq!(d.targets[0].1.req(), "3");
    assert_eq!(d.targets[1].0.kind, Kind::Dev);
    assert_eq!(d.targets[1].1.req(), "1");
    assert_eq!(r.features.keys(), &["d", "default"]);
    assert!(r.features.get("d").unwrap().required_by_bins.is_empty());
}

#[test]
fn package_override_names_the_crate() {
    let mut m = package("p");
    let mut d = DependencyDetail::default();
    d.package = Some("real".to_string());
    d.optional = true;
    m.dependencies.insert("alias".to_string(), Dependency::Detailed(Box::new(d)));
    let r = Resolver::new().parse(&m);
    assert_eq!(r.dependencies.get("alias").unwrap().crate_name, "real");
}

#[test]
fn bins_are_noted_at_their_features() {
    let mut m = package("pkg");
    feature(&mut m, "a", &[]);
    feature(&mut m, "b", &[]);
    let mut named = Product::default();
    named.name = Some("tool".to_string());
    named.required_features = names(&["a", "missing", "b", "a"]);
    let mut unnamed = Product::default();
    unnamed.required_features = names(&["a"]);
    m.bin.push(named);
    m.bin.push(unnamed);
    let r = Resolver::new().parse(&m);
    assert_eq!(r.features.get("a").unwrap().required_by_bins, &["tool", "tool", "pkg"]);
    assert_eq!(r.features.get("b").unwrap().required_by_bins, &["tool"]);
}

#[test]
fn redundant_dependency_features_are_pruned() {
    let mut m = package("p");
    let mut d = DependencyDetail::default();
    d.features = names(&["f1"]);
    m.dependencies.insert("d".to_string(), Dependency::Detailed(Box::new(d)));
    let mut e = DependencyDetail::default();
    e.default_features = false;
    m.dependencies.insert("e".to_string(), Dependency::Detailed(Box::new(e)));
    m.dependencies.insert("s".to_string(), Dependency::Simple("1".to_string()));
    feature(&mut m, "a", &["d/f1", "d/f2", "d/default", "e/default", "e/x", "s/default", "u/default"]);
    let r = Resolver::new().parse(&m);
    let a = r.features.get("a").unwrap();
    assert_eq!(a.enables_deps.get("d").unwrap().dep_features.to_vec(), &["f2"]);
    assert_eq!(a.enables_deps.get("e").unwrap().dep_features.to_vec(), &["default", "x"]);
    assert_eq!(a.enables_deps.get("s").unwrap().dep_features.to_vec(), &["default"]);
    assert_eq!(a.enables_deps.get("u").unwrap().dep_features.to_vec(), &["default"]);
}

#[test]
fn enabled_by_leaves_out_self_and_soft_edges() {
    let mut m = package("p");
    feature(&mut m, "a", &["a", "b", "c?/x", "dep:d", "e/y"]);
    feature(&mut m, "b", &[]);
    feature(&mut m, "c", &[]);
    feature(&mut m, "d", &[]);
    feature(&mut m, "e", &[]);
    let r = Resolver::new().parse(&m);
    let f = &r.features;
    assert!(f.get("a").unwrap().enabled_by.is_empty());
    assert_eq!(f.get("b").unwrap().enabled_by.to_vec(), &["a"]);
    assert!(f.get("c").unwrap().enabled_by.is_empty());
    assert!(f.get("d").unwrap().enabled_by.is_empty());
    assert_eq!(f.get("e").unwrap().enabled_by.to_vec(), &["a"]);
    assert!(f.get("b").unwrap().is_referenced());
    assert!(!f.get("c").unwrap().is_referenced());
}

#[test]
fn set_enabled_by_starts_afresh() {
    let mut features: StrMap<Feature> = StrMap::new();
    let (k, mut f) = Resolver::parse_feature("lonely", &[]);
    f.enabled_by.insert("stale".to_string());
    features.insert(k, f);
    let (k, f) = Resolver::parse_feature("a", &names(&["b"]));
    features.insert(k, f);
    let (k, mut f) = Resolver::parse_feature("b", &[]);
    f.enabled_by.insert("stale".to_string());
    features.insert(k, f);
    Resolver::set_enabled_by(&mut features);
    assert!(features.get("lonely").unwrap().enabled_by.is_empty());
    assert_eq!(features.get("b").unwrap().enabled_by.to_vec(), &["a"]);
}

#[test]
fn hidden_feature_is_inlined() {
    let mut m = package("p");
    feature(&mut m, "top", &["_mid"]);
    feature(&mut m, "_mid", &["leaf", "dep/f"]);
    feature(&mut m, "leaf", &[]);
    let r = Resolver::new().parse(&m);
    assert!(r.removed_hidden_features);
    assert_eq!(r.features.keys(), &["default", "leaf", "top"]);
    let top = r.features.get("top").unwrap();
    assert_eq!(top.enables_features.to_vec(), &["leaf"]);
    assert_eq!(top.enables_deps.keys(), &["dep"]);
    assert_eq!(top.enables_deps.get("dep").unwrap().dep_features.to_vec(), &["f"]);
    assert_eq!(r.features.get("leaf").unwrap().enabled_by.to_vec(), &["top"]);
    assert_eq!(r.hidden_features.keys(), &["_mid"]);
    assert_eq!(r.hidden_features.get("_mid").unwrap().to_vec(), &["leaf"]);
}

#[test]
fn chain_of_hidden_features_is_inlined() {
    let mut m = package("p");
    feature(&mut m, "top", &["_a"]);
    feature(&mut m, "_a", &["_b"]);
    feature(&mut m, "_b", &["_c"]);
    feature(&mut m, "_c", &["leaf", "d/x"]);
    feature(&mut m, "leaf", &[]);
    let r = Resolver::new().parse(&m);
    assert_eq!(r.features.keys(), &["default", "leaf", "top"]);
    let top = r.features.get("top").unwrap();
    assert_eq!(top.enables_features.to_vec(), &["leaf"]);
    assert_eq!(top.enables_deps.keys(), &["d"]);
    assert_eq!(r.features.get("leaf").unwrap().enabled_by.to_vec(), &["top"]);
    assert_eq!(r.hidden_features.keys(), &["_a", "_b", "_c"]);
}

#[test]
fn chain_in_reverse_order_is_inlined() {
    let mut m = package("p");
    feature(&mut m, "top", &["_c"]);
    feature(&mut m, "_c", &["_b"]);
    feature(&mut m, "_b", &["_a"]);
    feature(&mut m, "_a", &["leaf"]);
    feature(&mut m, "leaf", &[]);
    let r = Resolver::new().parse(&m);
    assert_eq!(r.features.get("top").unwrap().enables_features.to_vec(), &["leaf"]);
    assert_eq!(r.features.get("leaf").unwrap().enabled_by.to_vec(), &["top"]);
}

#[test]
fn hidden_circle_is_inlined() {
    let mut m = package("p");
    feature(&mut m, "top", &["_a"]);
    feature(&mut m, "_a", &["_b"]);
    feature(&mut m, "_b", &["_a", "leaf"]);
    feature(&mut m, "leaf", &[]);
    let r = Resolver::new().parse(&m);
    assert_eq!(r.features.keys(), &["default", "leaf", "top"]);
    assert_eq!(r.features.get("top").unwrap().enables_features.to_vec(), &["leaf"]);
    assert_eq!(r.features.get("leaf").unwrap().enabled_by.to_vec(), &["top"]);
}

#[test]
fn kept_hidden_feature_stays() {
    let mut m = package("p");
    feature(&mut m, "top", &["_keep", "_drop"]);
    feature(&mut m, "_keep", &["leaf"]);
    feature(&mut m, "_drop", &["other"]);
    feature(&mut m, "leaf", &[]);
    feature(&mut m, "other", &[]);
    let r = Resolver::new_with_hasher_and_filter(set_of(&["_keep"])).parse(&m);
    assert_eq!(r.features.keys(), &["_keep", "default", "leaf", "other", "top"]);
    assert_eq!(r.features.get("top").unwrap().enables_features.to_vec(), &["_keep", "other"]);
    assert_eq!(r.features.get("leaf").unwrap().enabled_by.to_vec(), &["_keep"]);
    assert_eq!(r.features.get("other").unwrap().enabled_by.to_vec(), &["top"]);
    assert_eq!(r.hidden_features.keys(), &["_drop"]);
    assert!(r.removed_hidden_features);
}

#[test]
fn hidden_entry_for_itself_is_not_handed_on() {
    let mut m = package("p");
    m.dependencies.insert("_opt".to_string(), optional("1"));
    feature(&mut m, "top", &["_opt"]);
    let r = Resolver::new().parse(&m);
    assert_eq!(r.features.keys(), &["default", "top"]);
    let top = r.features.get("top").unwrap();
    assert!(top.enables_features.is_empty());
    assert!(top.enables_deps.is_empty());
    assert!(r.dependencies.get("_opt").is_some());
}

#[test]
fn hidden_feature_hands_on_its_bins() {
    let mut m = package("p");
    feature(&mut m, "_h", &["leaf"]);
    feature(&mut m, "leaf", &[]);
    for i in 0..12 {
        let mut b = Product::default();
        b.name = Some(format!("b{i:02}"));
        b.required_features = names(&["_h"]);
        m.bin.push(b);
    }
    let mut own = Product::default();
    own.name = Some("b03".to_string());
    own.required_features = names(&["leaf"]);
    m.bin.push(own);
    let r = Resolver::new().parse(&m);
    assert_eq!(
        r.features.get("leaf").unwrap().required_by_bins,
        &["b03", "b00", "b01", "b02", "b04", "b05", "b06", "b07", "b08", "b09"]
    );
}

#[test]
fn conditional_action_of_hidden_feature_is_not_an_enabler() {
    let mut m = package("p");
    feature(&mut m, "top", &["_h"]);
    feature(&mut m, "_h", &["x?/f"]);
    feature(&mut m, "x", &[]);
    let r = Resolver::new().parse(&m);
    assert!(r.features.get("x").unwrap().enabled_by.is_empty());
    let top = r.features.get("top").unwrap();
    assert_eq!(top.enables_deps.keys(), &["x"]);
    assert!(top.enables_deps.get("x").unwrap().is_conditional);
}

#[test]
fn resolving_twice_gives_the_same() {
    let mut m = package("p");
    m.dependencies.insert("opt".to_string(), optional("1"));
    feature(&mut m, "a", &["_h", "opt/x"]);
    feature(&mut m, "_h", &["b", "dep:q"]);
    feature(&mut m, "b", &["a"]);
    let one = Resolver::new().parse(&m);
    let two = Resolver::new().parse(&m);
    assert_eq!(one.features.keys(), two.features.keys());
    for k in one.features.keys() {
        let a = one.features.get(&k).unwrap();
        let b = two.features.get(&k).unwrap();
        assert_eq!(a.key, b.key);
        assert_eq!(a.enables_deps, b.enables_deps);
        assert_eq!(a.enables_features, b.enables_features);
        assert_eq!(a.enabled_by, b.enabled_by);
        assert_eq!(a.required_by_bins, b.required_by_bins);
        assert_eq!(a.explicit, b.explicit);
    }
    assert_eq!(one.dependencies.keys(), two.dependencies.keys());
    assert_eq!(one.hidden_features, two.hidden_features);
    assert_eq!(one.removed_hidden_features, two.removed_hidden_features);
}

#[test]
fn closure_of_a_circle() {
    let mut m = package("p");
    feature(&mut m, "a", &["b"]);
    feature(&mut m, "b", &["c"]);
    feature(&mut m, "c", &["a"]);
    feature(&mut m, "outside", &["a"]);
    let r = Resolver::new().parse(&m);
    for start in ["a", "b", "c"] {
        let (found, deps) = r.features.get(start).unwrap().enables_recursive(&r.features);
        assert_eq!(found.keys(), &["a", "b", "c"]);
        assert!(deps.is_empty());
    }
    let (found, _) = r.features.get("outside").unwrap().enables_recursive(&r.features);
    assert_eq!(found.keys(), &["a", "b", "c", "outside"]);
}

#[test]
fn closure_lists_deps_in_order_of_discovery() {
    let mut m = package("p");
    feature(&mut m, "top", &["m", "b", "d/t"]);
    feature(&mut m, "b", &["z", "d/b", "e?/soft"]);
    feature(&mut m, "m", &["z", "d/m"]);
    feature(&mut m, "z", &["dep:d", "missing"]);
    let r = Resolver::new().parse(&m);
    let (found, deps) = r.features.get("top").unwrap().enables_recursive(&r.features);
    assert_eq!(found.keys(), &["b", "m", "top", "z"]);
    let order: Vec<&str> = deps.get("d").unwrap().iter().map(|(k, _)| *k).collect();
    assert_eq!(order, vec!["top", "b", "z", "m"]);
    assert!(deps.get("d").unwrap()[2].1.is_dep_only);
    assert!(deps.get("e").is_none());
}

#[test]
fn closure_from_a_feature_outside_the_graph() {
    let mut m = package("p");
    feature(&mut m, "a", &["b"]);
    feature(&mut m, "b", &[]);
    let r = Resolver::new().parse(&m);
    let (_, loose) = Resolver::parse_feature("loose", &names(&["a", "nowhere"]));
    let (found, _) = loose.enables_recursive(&r.features);
    assert_eq!(found.keys(), &["a", "b", "loose"]);
}

#[test]
fn add_to_set_skips_what_was_found() {
    let mut m = package("p");
    feature(&mut m, "a", &["b", "d/x"]);
    feature(&mut m, "b", &["c", "d/y"]);
    feature(&mut m, "c", &["d/z"]);
    let r = Resolver::new().parse(&m);
    let f = &r.features;
    let mut found = StrMap::new();
    let mut deps = StrMap::new();
    f.get("b").unwrap().add_to_set(f, &mut found, &mut deps);
    assert_eq!(found.keys(), &["b", "c"]);
    f.get("a").unwrap().add_to_set(f, &mut found, &mut deps);
    assert_eq!(found.keys(), &["a", "b", "c"]);
    let order: Vec<&str> = deps.get("d").unwrap().iter().map(|(k, _)| *k).collect();
    assert_eq!(order, vec!["b", "c", "a"]);
}

#[test]
fn user_facing_features() {
    let mut m = package("p");
    m.dependencies.insert("used".to_string(), optional("1"));
    m.dependencies.insert("alone".to_string(), optional("1"));
    feature(&mut m, "a", &["used", "_kept"]);
    feature(&mut m, "_kept", &[]);
    let r = Resolver::new_with_hasher_and_filter(set_of(&["_kept"])).parse(&m);
    let f = &r.features;
    assert!(f.get("a").unwrap().is_user_facing());
    assert!(f.get("alone").unwrap().is_user_facing());
    assert!(!f.get("used").unwrap().is_user_facing());
    assert!(!f.get("_kept").unwrap().is_user_facing());
}

#[test]
fn non_default_enabled_by_leaves_default_out() {
    let mut m = package("p");
    feature(&mut m, "default", &["x"]);
    feature(&mut m, "a", &["x"]);
    feature(&mut m, "z", &["x"]);
    feature(&mut m, "x", &[]);
    let r = Resolver::new().parse(&m);
    let x = r.features.get("x").unwrap();
    assert_eq!(x.enabled_by.to_vec(), &["a", "default", "z"]);
    assert_eq!(x.non_default_enabled_by(), &["a", "z"]);
}

#[test]
fn dep_only_action_of_a_hidden_parent_leaves_its_name() {
    let mut m = package("p");
    feature(&mut m, "__b", &["__a", "dep:x"]);
    feature(&mut m, "__a", &["x/f"]);
    feature(&mut m, "x", &[]);
    let r = Resolver::new().parse(&m);
    assert_eq!(r.features.keys(), &["default", "x"]);
    assert_eq!(r.features.get("x").unwrap().enabled_by.to_vec(), &["__b"]);
    assert_eq!(r.hidden_features.keys(), &["__a", "__b"]);
}

#[test]
fn dep_only_action_on_a_hidden_name_stays() {
    let mut m = package("p");
    feature(&mut m, "r", &["dep:__h"]);
    feature(&mut m, "__h", &[]);
    let r = Resolver::new().parse(&m);
    assert_eq!(r.features.keys(), &["default", "r"]);
    assert_eq!(r.features.get("r").unwrap().enables_deps.keys(), &["__h"]);
    let mut both = package("p");
    feature(&mut both, "r", &["__h", "dep:__h"]);
    feature(&mut both, "__h", &["leaf"]);
    feature(&mut both, "leaf", &[]);
    let r = Resolver::new().parse(&both);
    let f = r.features.get("r").unwrap();
    assert!(f.enables_deps.is_empty());
    assert_eq!(f.enables_features.to_vec(), &["leaf"]);
}

#[test]
fn function_chooses_what_to_keep() {
    let mut m = package("p");
    m.dependencies.insert("_opt".to_string(), optional("1"));
    let mut t = Target::default();
    t.build_dependencies.insert("_for_target".to_string(), optional("1"));
    m.target.insert("cfg(windows)".to_string(), t);
    feature(&mut m, "top", &["_keep", "_drop", "_opt"]);
    feature(&mut m, "_keep", &["a"]);
    feature(&mut m, "_drop", &["b"]);
    feature(&mut m, "a", &[]);
    feature(&mut m, "b", &[]);
    let asked = std::cell::RefCell::new(Vec::new());
    let r = Resolver::keeping(&m, |k: &str| {
        asked.borrow_mut().push(k.to_string());
        k == "_keep" || k == "_for_target" || k == "top"
    });
    assert_eq!(asked.into_inner(), vec!["_drop", "_keep", "_opt", "_for_target"]);
    assert_eq!(r.always_keep.as_ref().unwrap().to_vec(), &["_for_target", "_keep"]);
    let g = r.parse(&m);
    assert_eq!(g.features.keys(), &["_for_target", "_keep", "a", "b", "default", "top"]);
    assert_eq!(g.features.get("top").unwrap().enables_features.to_vec(), &["_keep", "b"]);
    assert_eq!(g.hidden_features.keys(), &["_drop", "_opt"]);
    let none = Resolver::keeping(&m, |_: &str| false).parse(&m);
    assert_eq!(none.features.keys(), Resolver::new().parse(&m).features.keys());
}

#[test]
fn lone_question_mark_is_an_action_on_a_dependency() {
    let (_, f) = Resolver::parse_feature("f", &names(&["a?"]));
    assert!(f.enables_features.is_empty());
    assert_eq!(f.enables_deps.keys(), &["a"]);
    let a = f.enables_deps.get("a").unwrap();
    assert!(a.is_conditional);
    assert!(!a.is_dep_only);
    assert!(a.dep_features.is_empty());
    let (_, g) = Resolver::parse_feature("g", &names(&["a?", "a/x"]));
    let a = g.enables_deps.get("a").unwrap();
    assert!(!a.is_conditional);
    assert_eq!(a.dep_features.to_vec(), &["x"]);
    let (_, h) = Resolver::parse_feature("h", &names(&["?", "dep:", "/x"]));
    assert!(h.enables_features.is_empty());
    assert_eq!(h.enables_deps.keys(), &[""]);
    let e = h.enables_deps.get("").unwrap();
    assert!(!e.is_conditional && e.is_dep_only);
}

#[test]
fn conditional_action_is_no_enabler() {
    let mut m = package("p");
    feature(&mut m, "top", &["x?"]);
    m.dependencies.insert("x".to_string(), optional("1"));
    let r = Resolver::new().parse(&m);
    assert!(r.features.get("x").unwrap().enabled_by.is_empty());
    assert!(r.features.get("top").unwrap().enables_features.is_empty());
}

#[test]
fn manifest_of_a_workspace_alone_is_resolved() {
    let mut m = Manifest::<toml::Value>::default();
    assert!(m.package.is_none());
    feature(&mut m, "a", &["_h", "/x", "dep:", "?"]);
    feature(&mut m, "_h", &["b"]);
    feature(&mut m, "b", &[]);
    let mut bin = Product::default();
    bin.required_features = names(&["b"]);
    m.bin.push(bin);
    let r = Resolver::new().parse(&m);
    assert_eq!(r.features.keys(), &["a", "b", "default"]);
    assert_eq!(r.features.get("a").unwrap().enables_features.to_vec(), &["b"]);
    assert_eq!(r.features.get("b").unwrap().required_by_bins, &[""]);
    let again = Resolver::new().parse(&m);
    assert_eq!(again.features.keys(), r.features.keys());
    assert_eq!(again.hidden_features.keys(), r.hidden_features.keys());
}

#[test]
fn detail_prefers_the_least_use() {
    let features: StrMap<Vec<String>> = StrMap::new();
    let a = optional("1");
    let b = optional("2");
    let c = optional("3");
    let d = optional("4");
    let deps = vec![
        ParseDependency { key: "d", kind: Kind::Dev, target: None, dep: &a },
        ParseDependency { key: "d", kind: Kind::Build, target: Some("unix"), dep: &b },
        ParseDependency { key: "d", kind: Kind::Build, target: None, dep: &c },
        ParseDependency { key: "e", kind: Kind::Normal, target: Some("unix"), dep: &d },
        ParseDependency { key: "e", kind: Kind::Normal, target: Some("linux"), dep: &a },
    ];
    let r = Resolver::new().parse_custom(&features, deps);
    let dep = r.dependencies.get("d").unwrap();
    let (first, kind) = dep.detail();
    assert_eq!(kind, Kind::Build);
    assert_eq!(first.req(), "3");
    for w in dep.targets.windows(2) {
        assert!(w[0].0.before(&w[1].0));
    }
    let e = r.dependencies.get("e").unwrap();
    assert_eq!(e.detail().0.req(), "1");
    assert_eq!(e.targets[0].0.target.as_deref(), Some("linux"));
}

#[test]
fn conditional_action_of_a_hidden_feature_leaves_no_hidden_name() {
    let mut m = package("p");
    feature(&mut m, "top", &["_h"]);
    feature(&mut m, "_h", &["opt?/f", "leaf"]);
    feature(&mut m, "leaf", &[]);
    m.dependencies.insert("opt".to_string(), optional("1"));
    let r = Resolver::new().parse(&m);
    assert_eq!(r.features.keys(), &["default", "leaf", "opt", "top"]);
    for k in r.features.keys() {
        let f = r.features.get(k.as_str()).unwrap();
        assert!(!f.enables_features.contains("_h"));
        assert!(!f.enables_deps.contains_key("_h"));
        assert!(!f.enabled_by.contains("_h"));
    }
    let top = r.features.get("top").unwrap();
    assert!(top.enables_deps.get("opt").unwrap().is_conditional);
    assert_eq!(r.features.get("leaf").unwrap().enabled_by.to_vec(), &["top"]);
}

#[test]
fn plain_action_on_a_hidden_name_goes_with_it() {
    let mut m = package("p");
    feature(&mut m, "top", &["_h/f"]);
    feature(&mut m, "_h", &["leaf"]);
    feature(&mut m, "leaf", &[]);
    let r = Resolver::new().parse(&m);
    let top = r.features.get("top").unwrap();
    assert!(top.enables_deps.is_empty());
    assert_eq!(top.enables_features.to_vec(), &["leaf"]);
    assert_eq!(r.features.get("leaf").unwrap().enabled_by.to_vec(), &["top"]);
}

#[test]
fn function_chooses_what_to_keep_among_handed_over_dependencies() {
    let mut features: StrMap<Vec<String>> = StrMap::new();
    features.insert("top".to_string(), names(&["_keep", "_drop"]));
    features.insert("_keep".to_string(), names(&["a"]));
    features.insert("_drop".to_string(), names(&["b"]));
    features.insert("a".to_string(), Vec::new());
    features.insert("b".to_string(), Vec::new());
    let opt = optional("1");
    let deps = vec![
        ParseDependency { key: "_opt", kind: Kind::Normal, target: None, dep: &opt },
        ParseDependency { key: "plain", kind: Kind::Normal, target: None, dep: &opt },
        ParseDependency { key: "_gone", kind: Kind::Dev, target: None, dep: &opt },
    ];
    let asked = std::cell::RefCell::new(Vec::new());
    let r = Resolver::keeping_custom(&features, &deps, |k: &str| {
        asked.borrow_mut().push(k.to_string());
        k == "_keep" || k == "_opt" || k == "plain"
    });
    assert_eq!(asked.into_inner(), vec!["_drop", "_keep", "_opt", "_gone"]);
    assert_eq!(r.always_keep.as_ref().unwrap().to_vec(), &["_keep", "_opt"]);
    let g = r.parse_custom(&features, deps);
    assert_eq!(g.features.keys(), &["_keep", "_opt", "a", "b", "default", "plain", "top"]);
    assert_eq!(g.hidden_features.keys(), &["_drop", "_gone"]);
}
