use pargo::fingerprint::script_stale;
use pargo::locate::choose_root;
use pargo::manifest::manifest_stale;
use pargo::rewrite::{merge, rewrite_deps};
use pargo::value::{val_eq, TomlTable, TomlValue};
use pargo::Error;

fn tab(entries: Vec<(&str, TomlValue)>) -> TomlTable {
    TomlTable { entries: entries.into_iter().map(|(k, v)| (k.to_string(), v)).collect() }
}

fn s(text: &str) -> TomlValue {
    TomlValue::Str(text.to_string())
}

fn path_of(dep: &TomlValue) -> &str {
    match dep {
        TomlValue::Tab(t) => match t.entries.iter().find(|e| e.0 == "path") {
            Some((_, TomlValue::Str(p))) => p,
            _ => panic!("no string path"),
        },
        _ => panic!("not a table"),
    }
}

#[test]
fn fingerprints_agree_on_equal_bytes() {
    let a = b"fn main() {}".to_vec();
    let b = b"fn main() {}".to_vec();
    assert!(!script_stale(&a, &b));
    assert!(!script_stale(&a, &a));
}

#[test]
fn fingerprints_differ_on_distinct_bytes() {
    let a = b"fn main() {}".to_vec();
    let b = b"fn main() { }".to_vec();
    assert!(script_stale(&a, &b));
    // detection is a pure read: asking again changes nothing
    assert!(script_stale(&a, &b));
    assert!(script_stale(&b, &a));
}

#[test]
fn rewrite_prefixes_path_dependencies() {
    let deps = tab(vec![("foo", TomlValue::Tab(tab(vec![("path", s("libs/foo"))])))]);
    let out = rewrite_deps(deps);
    assert_eq!(out.entries.len(), 1);
    assert_eq!(out.entries[0].0, "foo");
    assert_eq!(path_of(&out.entries[0].1), "../../libs/foo");
}

#[test]
fn rewrite_keeps_non_table_and_non_string_entries() {
    let deps = tab(vec![
        ("plain", s("1.0")),
        ("odd", TomlValue::Tab(tab(vec![("path", TomlValue::Int(3))]))),
        ("counted", TomlValue::Int(7)),
    ]);
    let out = rewrite_deps(deps);
    assert_eq!(out.entries.len(), 3);
    assert!(matches!(&out.entries[0].1, TomlValue::Str(v) if v == "1.0"));
    match &out.entries[1].1 {
        TomlValue::Tab(t) => assert!(matches!(t.entries[0].1, TomlValue::Int(3))),
        _ => panic!("dependency shape changed"),
    }
    assert!(matches!(out.entries[2].1, TomlValue::Int(7)));
}

#[test]
fn rewrite_without_paths_is_identity() {
    let mk = || {
        tab(vec![
            ("a", s("1.0")),
            ("b", TomlValue::Tab(tab(vec![("version", s("2"))]))),
        ])
    };
    let out = rewrite_deps(mk());
    let reference = mk();
    assert!(val_eq(&TomlValue::Tab(out), &TomlValue::Tab(reference)));
}

#[test]
fn table_equality_ignores_entry_order() {
    let one = tab(vec![("a", TomlValue::Int(1)), ("b", s("x"))]);
    let two = tab(vec![("b", s("x")), ("a", TomlValue::Int(1))]);
    assert!(val_eq(&TomlValue::Tab(one), &TomlValue::Tab(two)));
}

#[test]
fn table_equality_sees_changed_values() {
    let mk_one = || tab(vec![("a", TomlValue::Int(1))]);
    let two = tab(vec![("a", TomlValue::Int(2))]);
    let three = tab(vec![("b", TomlValue::Int(1))]);
    assert!(!val_eq(&TomlValue::Tab(mk_one()), &TomlValue::Tab(two)));
    assert!(!val_eq(&TomlValue::Tab(mk_one()), &TomlValue::Tab(three)));
}

#[test]
fn merge_overwrites_dependencies_and_keeps_the_rest() {
    let doc = tab(vec![
        ("package", TomlValue::Tab(tab(vec![("name", s("pargo"))]))),
        ("dependencies", TomlValue::Tab(tab(vec![("old", s("0.1"))]))),
    ]);
    let deps = tab(vec![("new", s("1.0"))]);
    let out = merge(doc, deps);
    assert_eq!(out.entries.len(), 2);
    assert_eq!(out.entries[0].0, "package");
    match &out.entries[1].1 {
        TomlValue::Tab(t) => {
            assert_eq!(t.entries.len(), 1);
            assert_eq!(t.entries[0].0, "new");
        },
        _ => panic!("dependencies not a table"),
    }
}

#[test]
fn merge_appends_dependencies_when_absent() {
    let doc = tab(vec![("package", TomlValue::Tab(tab(vec![("name", s("pargo"))])))]);
    let deps = tab(vec![("new", s("1.0"))]);
    let out = merge(doc, deps);
    assert_eq!(out.entries.len(), 2);
    assert_eq!(out.entries[1].0, "dependencies");
}

#[test]
fn manifest_staleness_false_on_matching_tables() {
    let root = b"[dependencies]\nfoo = { path = \"libs/foo\" }\n".to_vec();
    let nested = b"[package]\nname = \"pargo\"\n[dependencies]\nfoo = { path = \"../../libs/foo\" }\n"
        .to_vec();
    assert_eq!(manifest_stale(&root, &nested), Ok(false));
    // a pure read: asking again changes nothing
    assert_eq!(manifest_stale(&root, &nested), Ok(false));
}

#[test]
fn manifest_staleness_true_after_new_dependency() {
    let root = b"[dependencies]\nfoo = { path = \"libs/foo\" }\nbar = \"1.0\"\n".to_vec();
    let nested = b"[package]\nname = \"pargo\"\n[dependencies]\nfoo = { path = \"../../libs/foo\" }\n"
        .to_vec();
    assert_eq!(manifest_stale(&root, &nested), Ok(true));
}

#[test]
fn manifest_staleness_rejects_bad_toml() {
    let root = b"not = = toml".to_vec();
    let nested = b"[dependencies]\n".to_vec();
    assert_eq!(manifest_stale(&root, &nested), Err(Error::Parse));
}

#[test]
fn manifest_staleness_rejects_a_non_table_document() {
    // valid TOML whose sole top-level key is the toml crate's private
    // datetime marker: it parses, but as a bare datetime, not a table
    let root = b"\"$__toml_private_datetime\" = \"1979-05-27T07:32:00Z\"".to_vec();
    let nested = b"[dependencies]\n".to_vec();
    assert_eq!(manifest_stale(&root, &nested), Err(Error::Parse));
    assert_eq!(manifest_stale(&nested, &root), Err(Error::Parse));
}

#[test]
fn manifest_staleness_rejects_missing_dependencies() {
    let root = b"[package]\nname = \"x\"\n".to_vec();
    let nested = b"[dependencies]\n".to_vec();
    assert_eq!(manifest_stale(&root, &nested), Err(Error::Parse));
}

#[test]
fn root_choice_takes_the_outermost_marked_ancestor() {
    assert_eq!(choose_root(&vec![true, false]), 0);
    assert_eq!(choose_root(&vec![true, true, false]), 1);
    assert_eq!(choose_root(&vec![true, true, true, false]), 2);
}

#[test]
fn root_choice_steps_up_from_an_unmarked_origin() {
    assert_eq!(choose_root(&vec![false]), 1);
    assert_eq!(choose_root(&vec![false, true, false]), 1);
}
