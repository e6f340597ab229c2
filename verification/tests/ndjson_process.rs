//! Tests for the query expansion and the record-processing pipeline.

use analyse_json::json::ndjson::errors::{Errors, IndexedNDJSONError};
use analyse_json::json::ndjson::stats::Stats;
use analyse_json::json::ndjson::{
    expand_jsonpath_query, process_json_iterable, process_json_iterable_par,
};
use analyse_json::json::JsonValue;
use analyse_json::{Cli, Settings};
use indexmap::IndexMap;

fn jv(text: &str) -> serde_json::Value {
    serde_json::from_str(text).unwrap()
}

fn num(x: &str) -> JsonValue {
    JsonValue::Num(x.to_string())
}

#[test]
fn simple_expand_jsonpath_query() {
    let json_iter_in: Vec<(String, serde_json::Value)> = vec![
        (1.to_string(), jv(r#"{"key1": [1, 2, 3]}"#)),
        (2.to_string(), jv(r#"{"key2": 123}"#)),
        (3.to_string(), jv(r#"{"key1": [4, 5]}"#)),
    ];

    let mut args = Cli::default();
    args.jsonpath = Some("$.key1[*]".to_string());
    let settings = Settings::init(args).unwrap();
    let mut errors: Errors<IndexedNDJSONError> = Errors::default();

    let expected: Vec<(String, JsonValue)> = vec![
        ("1:$.key1[*][0]".to_string(), num("1")),
        ("1:$.key1[*][1]".to_string(), num("2")),
        ("1:$.key1[*][2]".to_string(), num("3")),
        ("3:$.key1[*][0]".to_string(), num("4")),
        ("3:$.key1[*][1]".to_string(), num("5")),
    ];

    let json_iter = expand_jsonpath_query(&settings, json_iter_in, &mut errors);
    assert_eq!(expected, json_iter);
    assert!(errors.container.len() == 1)
}

#[test]
fn simple_process_json_iterable() {
    let json_iter_in: Vec<(String, serde_json::Value)> = vec![
        (1.to_string(), jv(r#"{"key1": 123}"#)),
        (2.to_string(), jv(r#"{"key2": 123}"#)),
        (3.to_string(), jv(r#"{"key1": 123}"#)),
    ];

    let args = Cli::default();
    let settings = Settings::init(args).unwrap();
    let mut errors: Errors<IndexedNDJSONError> = Errors::default();

    let expected = Stats {
        keys_count: IndexMap::from([("$.key1".to_string(), 2), ("$.key2".to_string(), 1)]),
        line_count: 3,
        keys_types_count: IndexMap::from([
            ("$.key1::Number".to_string(), 2),
            ("$.key2::Number".to_string(), 1),
        ]),
        ..Default::default()
    };

    let stats = process_json_iterable(&settings, json_iter_in, &mut errors);
    assert_eq!(expected, stats);
    assert!(errors.container.is_empty())
}

#[test]
fn bad_process_json_iterable_path_query() {
    let json_iter_in: Vec<(String, serde_json::Value)> = vec![
        (1.to_string(), jv(r#"{"key1": 123}"#)),
        (2.to_string(), jv(r#"{"key2": 123}"#)),
        (3.to_string(), jv(r#"{"key1": 123}"#)),
    ];

    let mut args = Cli::default();
    args.jsonpath = Some("$.key1".to_string());
    let settings = Settings::init(args).unwrap();
    let mut errors: Errors<IndexedNDJSONError> = Errors::default();

    let expected = Stats {
        keys_count: IndexMap::from([("$".to_string(), 2)]),
        line_count: 2,
        keys_types_count: IndexMap::from([("$::Number".to_string(), 2)]),
        empty_lines: vec![2.to_string()],
        ..Default::default()
    };

    let stats = process_json_iterable(&settings, json_iter_in, &mut errors);
    assert_eq!(expected, stats);
    assert!(errors.container.len() == 1)
}

#[test]
fn simple_process_json_iterable_par() {
    let iter: Vec<(String, serde_json::Value)> = vec![
        (1.to_string(), jv(r#"{"key1": 123}"#)),
        (2.to_string(), jv(r#"{"key2": 123}"#)),
        (3.to_string(), jv(r#"{"key1": 123}"#)),
    ];

    let expected = Stats {
        keys_count: IndexMap::from([("$.key1".to_string(), 2), ("$.key2".to_string(), 1)]),
        line_count: 3,
        keys_types_count: IndexMap::from([
            ("$.key1::Number".to_string(), 2),
            ("$.key2::Number".to_string(), 1),
        ]),
        ..Default::default()
    };

    let args = Cli::default();
    let settings = Settings::init(args).unwrap();
    let mut errors: Errors<IndexedNDJSONError> = Errors::default();
    let stats = process_json_iterable_par(&settings, iter, &mut errors);
    assert_eq!(expected, stats);
}

#[test]
fn simple_process_json_iterable_par_jsonpath() {
    let iter: Vec<(String, serde_json::Value)> = vec![
        (1.to_string(), jv(r#"{"key1": 123}"#)),
        (2.to_string(), jv(r#"{"a": {"key2": 123}}"#)),
        (3.to_string(), jv(r#"{"key1": 123}"#)),
    ];

    let expected = Stats {
        keys_count: IndexMap::from([("$.key2".to_string(), 1)]),
        line_count: 1,
        keys_types_count: IndexMap::from([("$.key2::Number".to_string(), 1)]),
        empty_lines: vec![1.to_string(), 3.to_string()],
        ..Default::default()
    };

    let mut args = Cli::default();
    args.jsonpath = Some("$.a".to_string());
    let settings = Settings::init(args).unwrap();
    let mut errors: Errors<IndexedNDJSONError> = Errors::default();
    let stats = process_json_iterable_par(&settings, iter, &mut errors);
    assert_eq!(expected, stats);
}

#[test]
fn sequential_and_sharded_agree_with_limit() {
    let mut records: Vec<(String, serde_json::Value)> = Vec::new();
    for i in 1..=300usize {
        let text = if i % 3 == 0 {
            r#"{"a": [1, 2]}"#.to_string()
        } else {
            format!(r#"{{"k{}": {}}}"#, i % 7, i)
        };
        records.push((i.to_string(), jv(&text)));
    }
    let records_again = records.clone();

    let mut args = Cli::default();
    args.lines = Some(250);
    let settings = Settings::init(args).unwrap();

    let mut seq_errors: Errors<IndexedNDJSONError> = Errors::default();
    let sequential = process_json_iterable(&settings, records, &mut seq_errors);

    let mut par_errors: Errors<IndexedNDJSONError> = Errors::default();
    let sharded = process_json_iterable_par(&settings, records_again, &mut par_errors);

    assert_eq!(sequential.keys_count, sharded.keys_count);
    assert_eq!(sequential.keys_types_count, sharded.keys_types_count);
    assert_eq!(sequential.line_count, sharded.line_count);
    assert_eq!(sequential, sharded);
}

#[test]
fn explode_arrays_counts_each_index() {
    let records: Vec<(String, serde_json::Value)> = vec![(1.to_string(), jv(r#"{"a": [1, 2]}"#))];
    let mut args = Cli::default();
    args.explode_arrays = true;
    let settings = Settings::init(args).unwrap();
    let mut errors: Errors<IndexedNDJSONError> = Errors::default();
    let stats = process_json_iterable(&settings, records, &mut errors);
    assert_eq!(
        stats.keys_count,
        IndexMap::from([("$.a[0]".to_string(), 1), ("$.a[1]".to_string(), 1)])
    );
}

#[test]
fn inspect_arrays_collapses_indexes() {
    let records: Vec<(String, serde_json::Value)> = vec![(1.to_string(), jv(r#"{"a": [1, 2]}"#))];
    let mut args = Cli::default();
    args.inspect_arrays = true;
    let settings = Settings::init(args).unwrap();
    let mut errors: Errors<IndexedNDJSONError> = Errors::default();
    let stats = process_json_iterable(&settings, records, &mut errors);
    assert_eq!(stats.keys_count, IndexMap::from([("$.a[*]".to_string(), 2)]));
}

#[test]
fn plain_arrays_are_leaves() {
    let records: Vec<(String, serde_json::Value)> = vec![(1.to_string(), jv(r#"{"a": [1, 2]}"#))];
    let args = Cli::default();
    let settings = Settings::init(args).unwrap();
    let mut errors: Errors<IndexedNDJSONError> = Errors::default();
    let stats = process_json_iterable(&settings, records, &mut errors);
    assert_eq!(stats.keys_count, IndexMap::from([("$.a".to_string(), 1)]));
    assert_eq!(
        stats.keys_types_count,
        IndexMap::from([("$.a::Array".to_string(), 1)])
    );
}
