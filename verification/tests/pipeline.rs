//! Tests for the whole pipeline over raw text lines, the error
//! classification, and the startup validation.

use analyse_json::decimal::to_decimal;
use analyse_json::json::ndjson::errors::{
    classify_errors, IndexedNDJSONError, LineReadError, NDJSONError,
};
use analyse_json::json::ndjson::errors::Errors;
use analyse_json::json::ndjson::{parse_ndjson_lines, process_ndjson_lines};
use analyse_json::{Cli, Settings, StartupError};
use indexmap::IndexMap;

fn ok(text: &str) -> Result<String, LineReadError> {
    Ok(text.to_string())
}

#[test]
fn valid_lines_count_exactly() {
    let lines = vec![
        ok(r#"{"key1": 123}"#),
        ok(r#"{"key2": 123}"#),
        ok(r#"{"key1": 123}"#),
    ];
    let settings = Settings::init(Cli::default()).unwrap();
    let result = process_ndjson_lines(&settings, lines);
    assert_eq!(result.stats.line_count, 3);
    assert_eq!(
        result.stats.keys_count,
        IndexMap::from([("$.key1".to_string(), 2), ("$.key2".to_string(), 1)])
    );
    assert!(result.stats.bad_lines.is_empty());
    assert!(result.stats.empty_lines.is_empty());
    assert!(result.errors.container.is_empty());
}

#[test]
fn unparsable_line_is_bad_and_counted() {
    let lines = vec![ok("not valid json"), ok(r#"{"key1": 123}"#)];
    let settings = Settings::init(Cli::default()).unwrap();
    let result = process_ndjson_lines(&settings, lines);
    assert_eq!(result.stats.bad_lines, vec!["1".to_string()]);
    assert_eq!(result.stats.line_count, 2);
    assert_eq!(
        result.stats.keys_count,
        IndexMap::from([("$.key1".to_string(), 1)])
    );
    assert_eq!(result.errors.container.len(), 1);
    assert_eq!(result.errors.container[0].error, NDJSONError::JSONParsingError);
}

#[test]
fn unreadable_line_is_bad() {
    let lines = vec![ok(r#"{"key1": 123}"#), Err(LineReadError)];
    let settings = Settings::init(Cli::default()).unwrap();
    let result = process_ndjson_lines(&settings, lines);
    assert_eq!(result.stats.bad_lines, vec!["2".to_string()]);
    assert_eq!(result.errors.container[0].error, NDJSONError::IOError);
}

#[test]
fn limit_truncates_before_walking() {
    let lines = vec![
        ok(r#"{"key1": 1}"#),
        ok(r#"{"key2": 2}"#),
        ok(r#"{"key3": 3}"#),
    ];
    let mut args = Cli::default();
    args.lines = Some(2);
    let settings = Settings::init(args).unwrap();
    let result = process_ndjson_lines(&settings, lines);
    assert_eq!(result.stats.line_count, 2);
    assert_eq!(
        result.stats.keys_count,
        IndexMap::from([("$.key1".to_string(), 1), ("$.key2".to_string(), 1)])
    );
}

#[test]
fn query_pipeline_rewrites_identifiers() {
    let lines = vec![
        ok(r#"{"key1": [1, 2, 3]}"#),
        ok(r#"{"key2": 123}"#),
        ok(r#"{"key1": [4, 5]}"#),
    ];
    let mut args = Cli::default();
    args.jsonpath = Some("$.key1[*]".to_string());
    let settings = Settings::init(args).unwrap();
    let result = process_ndjson_lines(&settings, lines);
    assert_eq!(result.stats.line_count, 5);
    assert_eq!(result.stats.keys_count, IndexMap::from([("$".to_string(), 5)]));
    assert_eq!(result.stats.empty_lines, vec!["2".to_string()]);
}

#[test]
fn conflicting_array_flags_fail_at_startup() {
    let mut args = Cli::default();
    args.explode_arrays = true;
    args.inspect_arrays = true;
    assert!(matches!(
        Settings::init(args),
        Err(StartupError::ConflictingArrayFlags)
    ));
}

#[test]
fn invalid_query_fails_at_startup() {
    let mut args = Cli::default();
    args.jsonpath = Some("$[".to_string());
    assert!(matches!(Settings::init(args), Err(StartupError::InvalidQuery)));
}

#[test]
fn query_error_kind_classifies_as_bad() {
    let errs = vec![
        IndexedNDJSONError::new("7".to_string(), NDJSONError::QueryJsonPathError),
        IndexedNDJSONError::new("8".to_string(), NDJSONError::EmptyQuery),
    ];
    let mut bad: Vec<String> = Vec::new();
    let mut empty: Vec<String> = Vec::new();
    classify_errors(&errs, &mut bad, &mut empty);
    assert_eq!(bad, vec!["7".to_string()]);
    assert_eq!(empty, vec!["8".to_string()]);
}

#[test]
fn parse_lines_indexes_from_one() {
    let lines = vec![
        ok(r#"{"key1": 123}"#),
        ok(r#"{"key2": 123}"#),
        ok(r#"{"key1": 123}"#),
    ];
    let expected: Vec<(String, serde_json::Value)> = vec![
        (1.to_string(), serde_json::from_str(r#"{"key1": 123}"#).unwrap()),
        (2.to_string(), serde_json::from_str(r#"{"key2": 123}"#).unwrap()),
        (3.to_string(), serde_json::from_str(r#"{"key1": 123}"#).unwrap()),
    ];
    let mut errors: Errors<IndexedNDJSONError> = Errors::default();
    let records = parse_ndjson_lines(lines, &mut errors);
    assert_eq!(expected, records);
    assert!(errors.container.is_empty())
}

#[test]
fn parse_lines_skips_invalid() {
    let lines = vec![
        ok(r#"{"key1": 123}"#),
        ok("not valid json"),
        ok(r#"{"key1": 123}"#),
    ];
    let expected: Vec<(String, serde_json::Value)> = vec![
        (1.to_string(), serde_json::from_str(r#"{"key1": 123}"#).unwrap()),
        (3.to_string(), serde_json::from_str(r#"{"key1": 123}"#).unwrap()),
    ];
    let mut errors: Errors<IndexedNDJSONError> = Errors::default();
    let records = parse_ndjson_lines(lines, &mut errors);
    assert_eq!(expected, records);
    assert!(errors.container.len() == 1)
}

#[test]
fn decimal_rendering() {
    assert_eq!(to_decimal(0), "0".to_string());
    assert_eq!(to_decimal(9), "9".to_string());
    assert_eq!(to_decimal(10), "10".to_string());
    assert_eq!(to_decimal(305), "305".to_string());
    assert_eq!(to_decimal(usize::MAX), usize::MAX.to_string());
}
