use std::collections::{BTreeMap, HashMap};
use zenops::expand::{ExpandLookup, ExpandLookupError, ExpandStr};

fn write_to_string<L: ExpandLookup>(lookup: &L, key: &str) -> Result<String, String> {
    let mut buf = String::new();
    lookup.write_value(key, &mut buf).map(|()| buf).map_err(|e| format!("{e:?}"))
}

#[test]
fn btreemap_writes_value_for_known_key() {
    let mut m = BTreeMap::new();
    m.insert("name".to_string(), "alice".to_string());
    assert_eq!(write_to_string(&m, "name").unwrap(), "alice");
}

#[test]
fn btreemap_returns_unresolved_for_missing_key() {
    let m: BTreeMap<String, String> = BTreeMap::new();
    let mut buf = String::new();
    let err = m.write_value("missing", &mut buf).unwrap_err();
    assert_eq!(err, ExpandLookupError::Unresolved("missing"));
    assert!(buf.is_empty(), "lookup must not write on miss");
}

#[test]
fn hashmap_writes_value_for_known_key() {
    let mut m = HashMap::new();
    m.insert("name".to_string(), "alice".to_string());
    assert_eq!(write_to_string(&m, "name").unwrap(), "alice");
}

#[test]
fn hashmap_returns_unresolved_for_missing_key() {
    let m: HashMap<String, String> = HashMap::new();
    let mut buf = String::new();
    let err = m.write_value("missing", &mut buf).unwrap_err();
    assert_eq!(err, ExpandLookupError::Unresolved("missing"));
    assert!(buf.is_empty());
}

#[test]
fn indexmap_writes_value_for_known_key() {
    let mut m = indexmap::IndexMap::new();
    m.insert("name".to_string(), "alice".to_string());
    assert_eq!(write_to_string(&m, "name").unwrap(), "alice");
}

#[test]
fn indexmap_returns_unresolved_for_missing_key() {
    let m: indexmap::IndexMap<String, String> = indexmap::IndexMap::new();
    let mut buf = String::new();
    let err = m.write_value("missing", &mut buf).unwrap_err();
    assert_eq!(err, ExpandLookupError::Unresolved("missing"));
    assert!(buf.is_empty());
}

#[test]
fn array_chain_returns_first_hit() {
    let mut a = BTreeMap::new();
    a.insert("k".to_string(), "from_a".to_string());
    let mut b = BTreeMap::new();
    b.insert("k".to_string(), "from_b".to_string());
    let chain = [&a, &b];
    let mut buf = String::new();
    chain.write_value("k", &mut buf).unwrap();
    assert_eq!(buf, "from_a");
}

#[test]
fn array_chain_falls_through_to_second_lookup() {
    let a: BTreeMap<String, String> = BTreeMap::new();
    let mut b = BTreeMap::new();
    b.insert("k".to_string(), "from_b".to_string());
    let chain = [&a, &b];
    let mut buf = String::new();
    chain.write_value("k", &mut buf).unwrap();
    assert_eq!(buf, "from_b");
}

#[test]
fn array_chain_returns_unresolved_when_no_lookup_has_key() {
    let a: BTreeMap<String, String> = BTreeMap::new();
    let b: BTreeMap<String, String> = BTreeMap::new();
    let chain = [&a, &b];
    let mut buf = String::new();
    let err = chain.write_value("missing", &mut buf).unwrap_err();
    assert_eq!(err, ExpandLookupError::Unresolved("missing"));
}

fn map(pairs: &[(&str, &str)]) -> indexmap::IndexMap<String, String> {
    pairs.iter().map(|(k, v)| (k.to_string(), v.to_string())).collect()
}

#[test]
fn literal_passthrough() {
    let s = ExpandStr::new_static("plain text");
    assert_eq!(s.expand_to_string(&map(&[])).unwrap(), "plain text");
}

#[test]
fn resolves_single() {
    let s = ExpandStr::new_static("hello ${name}!");
    assert_eq!(s.expand_to_string(&map(&[("name", "world")])).unwrap(), "hello world!");
}

#[test]
fn resolves_adjacent_and_repeated() {
    let s = ExpandStr::new_static("${a}${b}-${a}");
    assert_eq!(s.expand_to_string(&map(&[("a", "X"), ("b", "Y")])).unwrap(), "XY-X");
}

#[test]
fn resolves_at_boundaries() {
    let s = ExpandStr::new_static("${a}");
    assert_eq!(s.expand_to_string(&map(&[("a", "v")])).unwrap(), "v");
}

#[test]
fn unresolved_key_errors() {
    let s = ExpandStr::new_static("a ${missing} b");
    let err = s.expand_to_string(&map(&[])).unwrap_err();
    assert_eq!(err, zenops::expand::ExpandError::Unresolved("missing".to_string()));
}

#[test]
fn unterminated_errors() {
    let s = ExpandStr::new_static("a ${oops");
    assert_eq!(s.expand_to_string(&map(&[])).unwrap_err(), zenops::expand::ExpandError::Unterminated);
}

#[test]
fn array_lookup_falls_through_and_propagates_unresolved() {
    let primary = map(&[("a", "from-primary")]);
    let fallback = map(&[("a", "ignored"), ("b", "from-fallback")]);
    let chain = [&primary, &fallback];
    let s = ExpandStr::new_static("${a}/${b}");
    assert_eq!(s.expand_to_string(&chain).unwrap(), "from-primary/from-fallback");
    let s = ExpandStr::new_static("${missing}");
    assert_eq!(
        s.expand_to_string(&chain).unwrap_err(),
        zenops::expand::ExpandError::Unresolved("missing".to_string())
    );
}
