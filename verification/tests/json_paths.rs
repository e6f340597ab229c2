//! Tests for the rendered path listings.

use analyse_json::json::paths::{parse_json_paths, JSONPaths, Paths};
use analyse_json::json::JsonValue;
use indexmap::IndexMap;

fn s(x: &str) -> JsonValue {
    JsonValue::Str(x.to_string())
}

fn num(x: &str) -> JsonValue {
    JsonValue::Num(x.to_string())
}

fn obj(pairs: Vec<(&str, JsonValue)>) -> JsonValue {
    JsonValue::Obj(pairs.into_iter().map(|(k, v)| (k.to_string(), v)).collect())
}

fn arr(items: Vec<JsonValue>) -> JsonValue {
    JsonValue::Arr(items)
}

#[test]
fn typical_parse_json_paths() {
    let v = obj(vec![
        ("key1", s("value1")),
        ("key2", obj(vec![("subkey1", s("value1"))])),
    ]);
    let out_expected = vec![String::from("$.key1"), String::from("$.key2.subkey1")];
    assert_eq!(v.json_paths(false, false), out_expected);
}

#[test]
fn trivial_parse_json_paths() {
    let v = num("1");
    let out_expected = vec![String::from("$")];
    assert_eq!(v.json_paths(false, false), out_expected);
}

#[test]
fn typical_parse_json_paths_types() {
    let v = obj(vec![
        ("key1", s("value1")),
        ("key2", obj(vec![("subkey1", arr(vec![s("value1")]))])),
    ]);
    let mut out_expected = IndexMap::new();
    out_expected.insert("$.key1".to_string(), "String".to_string());
    out_expected.insert("$.key2.subkey1".to_string(), "Array".to_string());
    assert_eq!(v.json_paths_types(false, false), out_expected);
}

#[test]
fn trivial_parse_json_paths_types() {
    let v = num("1");
    let mut out_expected = IndexMap::new();
    out_expected.insert("$".to_string(), "Number".to_string());
    assert_eq!(v.json_paths_types(false, false), out_expected);
}

#[test]
fn json_typical_parse_json_paths() {
    let v = obj(vec![
        ("key1", s("value1")),
        ("key2", obj(vec![("subkey1", s("value1"))])),
    ]);
    let v_expected = vec![String::from("$.key1"), String::from("$.key2.subkey1")];
    assert_eq!(parse_json_paths(&v), v_expected);
}

#[test]
fn json_trivial_parse_json_paths() {
    let v = num("1");
    let v_expected = vec![String::from("$")];
    assert_eq!(parse_json_paths(&v), v_expected);
}

#[test]
fn paths_method_matches_free_function() {
    let v = obj(vec![("a", num("1")), ("b", arr(vec![num("2")]))]);
    assert_eq!(v.paths(), parse_json_paths(&v));
    assert_eq!(v.paths(), vec!["$.a".to_string(), "$.b".to_string()]);
}

#[test]
fn json_paths_types_last_type_wins() {
    let v = obj(vec![("a", arr(vec![obj(vec![("x", num("1"))]), obj(vec![("x", s("s"))])]))]);
    let mut out_expected = IndexMap::new();
    out_expected.insert("$.a[*].x".to_string(), "String".to_string());
    assert_eq!(v.json_paths_types(false, true), out_expected);
}
