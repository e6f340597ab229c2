//! Tests for `ValuePath` and the document walker.

use analyse_json::json::paths::{ValuePath, ValuePaths};
use analyse_json::json::JsonValue;

fn s(x: &str) -> JsonValue {
    JsonValue::Str(x.to_string())
}

fn obj(pairs: Vec<(&str, JsonValue)>) -> JsonValue {
    JsonValue::Obj(pairs.into_iter().map(|(k, v)| (k.to_string(), v)).collect())
}

fn arr(items: Vec<JsonValue>) -> JsonValue {
    JsonValue::Arr(items)
}

#[test]
fn basic_valuepath() {
    let v = obj(vec![
        ("key1", s("value1")),
        ("key2", obj(vec![("subkey1", s("value1"))])),
    ]);
    let vp_0 = ValuePath::new(&v, None);
    assert_eq!(vp_0.jsonpath(), "$".to_string());

    let v_1 = obj(vec![("subkey1", s("value1"))]);
    let vp_1 = vp_0.index("key2");
    assert_eq!(vp_1.value, &v_1);
    assert_eq!(vp_1.path, vec!["key2".to_string()]);
    assert_eq!(vp_1.jsonpath(), "$.key2".to_string());
}

#[test]
fn basic_valuepath_array() {
    let v = obj(vec![("key1", s("value1")), ("key2", arr(vec![s("a"), s("b")]))]);
    let vp_0 = ValuePath::new(&v, None);

    let v_2 = s("a");
    let vp_1 = vp_0.index("key2");
    let vp_2 = vp_1.index(0usize);

    assert_eq!(vp_2.value, &v_2);
    assert_eq!(vp_2.path, vec!["key2".to_string(), "[0]".to_string()]);
    assert_eq!(vp_1.jsonpath(), "$.key2".to_string());
    assert_eq!(vp_2.jsonpath(), "$.key2[0]".to_string())
}

#[test]
fn parse_valuepaths() {
    let v = obj(vec![("key1", s("value1")), ("key2", arr(vec![s("a"), s("b")]))]);
    let vps = v.value_paths(false, false);

    let key1_v = s("value1");
    let key2_v = arr(vec![s("a"), s("b")]);
    let vp_0 = ValuePath::new(&v, None);
    let vp_1 = ValuePath::new(&key1_v, Some(vec!["key1".to_string()]));
    let vp_2 = ValuePath::new(&key2_v, Some(vec!["key2".to_string()]));
    let vp_1_alt = vp_0.index("key1");
    let vp_2_alt = vp_0.index("key2");

    let expected = vec![vp_1, vp_2];
    let expected_alt = vec![vp_1_alt, vp_2_alt];

    assert_eq!(vps, expected);
    assert_eq!(vps, expected_alt);
    assert_eq!(v.value_paths(false, false), expected);
    assert_eq!(v.value_paths(false, false), expected_alt);
}

#[test]
fn parse_valuepaths_explode_array() {
    let v = obj(vec![("key1", s("value1")), ("key2", arr(vec![s("a"), s("b")]))]);
    let vps = v.value_paths(true, false);

    let key1_v = s("value1");
    let elem_a = s("a");
    let elem_b = s("b");
    let vp_0 = ValuePath::new(&v, None);
    let vp_1 = ValuePath::new(&key1_v, Some(vec!["key1".to_string()]));
    let vp_2_1 = ValuePath::new(&elem_a, Some(vec!["key2".to_string(), "[0]".to_string()]));
    let vp_2_2 = ValuePath::new(&elem_b, Some(vec!["key2".to_string(), "[1]".to_string()]));
    let vp_1_alt = vp_0.index("key1");
    let vp_2_1_alt = vp_0.index("key2").index(0usize);
    let vp_2_2_alt = vp_0.index("key2").index(1usize);

    assert_eq!(vps, vec![vp_1, vp_2_1, vp_2_2]);
    assert_eq!(vps, vec![vp_1_alt, vp_2_1_alt, vp_2_2_alt]);
}

#[test]
fn parse_valuepaths_inspect_array() {
    let v = obj(vec![("key1", s("value1")), ("key2", arr(vec![s("a"), s("b")]))]);
    let vps = v.value_paths(false, true);

    let key1_v = s("value1");
    let elem_a = s("a");
    let elem_b = s("b");
    let vp_1 = ValuePath::new(&key1_v, Some(vec!["key1".to_string()]));
    let vp_2_1 = ValuePath::new(&elem_a, Some(vec!["key2".to_string(), "[*]".to_string()]));
    let vp_2_2 = ValuePath::new(&elem_b, Some(vec!["key2".to_string(), "[*]".to_string()]));

    assert_eq!(vps, vec![vp_1, vp_2_1, vp_2_2]);
}

#[test]
fn value_type_names() {
    assert_eq!(JsonValue::Null.value_type(), "Null".to_string());
    assert_eq!(JsonValue::Bool(true).value_type(), "Bool".to_string());
    assert_eq!(JsonValue::Num("1".to_string()).value_type(), "Number".to_string());
    assert_eq!(s("x").value_type(), "String".to_string());
    assert_eq!(arr(vec![]).value_type(), "Array".to_string());
    assert_eq!(obj(vec![]).value_type(), "Object".to_string());
}

#[test]
fn index_custom_records_given_segment() {
    let v = arr(vec![s("a"), s("b")]);
    let vp_0 = ValuePath::new(&v, None);
    let vp = vp_0.index_custom(1usize, "[*]");
    assert_eq!(vp.value, &s("b"));
    assert_eq!(vp.jsonpath(), "$[*]".to_string());
}
