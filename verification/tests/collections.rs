use cargo_toml::text::{ends_with, find_char, replace_char, text_eq, text_lt, trim_end};
use cargo_toml::{StrMap, StrSet};

#[test]
fn text_order_is_by_code_point() {
    assert!(text_lt("a", "b"));
    assert!(!text_lt("b", "a"));
    assert!(!text_lt("a", "a"));
    assert!(text_lt("", "a"));
    assert!(!text_lt("a", ""));
    assert!(text_lt("a", "ab"));
    assert!(text_lt("Z", "a"));
    assert!(text_lt("_x", "a"));
    assert!(text_lt("z", "é"));
    assert!(text_lt("é", "中"));
    assert!(text_lt("\u{ffff}", "\u{10000}"));
    for (a, b) in [("a", "b"), ("ab", "a"), ("", ""), ("é", "z"), ("loop1", "loop10")] {
        assert_eq!(text_lt(a, b), a < b);
        assert_eq!(text_eq(a, b), a == b);
    }
}

#[test]
fn text_search_and_trim() {
    assert_eq!(find_char("a/b/c", '/'), 1);
    assert_eq!(find_char("abc", '/'), 3);
    assert_eq!(find_char("", '/'), 0);
    assert_eq!(find_char("é/x", '/'), 1);
    assert!(ends_with("main.rs", ".rs"));
    assert!(!ends_with("rs", ".rs"));
    assert!(ends_with("x", ""));
    assert_eq!(trim_end("a.rs", ".rs"), "a");
    assert_eq!(trim_end("a.rs.rs", ".rs"), "a");
    assert_eq!(trim_end("a.rs.txt", ".rs"), "a.rs.txt");
    assert_eq!(trim_end(".rs", ".rs"), "");
    assert_eq!(trim_end("abc", ""), "abc");
    assert_eq!(replace_char("auto-lib-x", '-', "_"), "auto_lib_x");
    assert_eq!(replace_char("plain", '-', "_"), "plain");
    assert_eq!(replace_char("-", '-', ""), "");
}

#[test]
fn set_keeps_order_and_no_duplicates() {
    let mut s = StrSet::new();
    assert!(s.is_empty());
    assert!(s.insert("m".to_string()));
    assert!(s.insert("a".to_string()));
    assert!(s.insert("z".to_string()));
    assert!(!s.insert("m".to_string()));
    assert_eq!(s.len(), 3);
    assert_eq!(s.to_vec(), &["a", "m", "z"]);
    assert_eq!(s.get(0), "a");
    assert_eq!(s.get(2), "z");
    assert!(s.contains("m"));
    assert!(!s.contains("b"));
    assert!(s.remove("m"));
    assert!(!s.remove("m"));
    assert_eq!(s.to_vec(), &["a", "z"]);
    let mut t = StrSet::new();
    t.insert("b".to_string());
    t.insert("z".to_string());
    s.extend(&t);
    assert_eq!(s.to_vec(), &["a", "b", "z"]);
    let c = s.clone();
    assert_eq!(c, s);
    assert!(StrSet::default().is_empty());
}

#[test]
fn map_keeps_order_and_replaces() {
    let mut m: StrMap<u32> = StrMap::new();
    assert!(m.is_empty());
    assert_eq!(m.insert("k".to_string(), 1), None);
    assert_eq!(m.insert("b".to_string(), 2), None);
    assert_eq!(m.insert("k".to_string(), 3), Some(1));
    assert_eq!(m.len(), 2);
    assert_eq!(m.keys(), &["b", "k"]);
    assert_eq!(m.key_at(0), "b");
    assert_eq!(*m.value_at(1), 3);
    assert_eq!(m.get("k"), Some(&3));
    assert_eq!(m.get("x"), None);
    assert_eq!(m.index_of("k"), Some(1));
    assert_eq!(m.index_of("a"), None);
    assert!(m.contains_key("b"));
    assert_eq!(m.remove("b"), Some(2));
    assert_eq!(m.remove("b"), None);
    assert_eq!(m.keys(), &["k"]);
    let c = m.clone();
    assert_eq!(c, m);
    assert!(StrMap::<u32>::default().is_empty());
}
