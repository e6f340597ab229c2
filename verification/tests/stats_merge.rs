//! Tests for the statistics monoid and the per-file merge.

use analyse_json::json::ndjson::stats::{FileStats, Stats};
use indexmap::IndexMap;

#[test]
fn add_filestats() {
    let lhs = FileStats {
        file_path: "file/1.json".to_string(),
        stats: Stats {
            keys_count: IndexMap::from([("$.key1".to_string(), 3), ("$.key2".to_string(), 2)]),
            line_count: 5,
            keys_types_count: IndexMap::from([
                ("$.key1::Number".to_string(), 3),
                ("$.key2::Number".to_string(), 2),
            ]),
            bad_lines: vec!["4".to_string()],
            empty_lines: vec!["5".to_string()],
        },
    };
    let rhs = FileStats {
        file_path: "file/2.json".to_string(),
        stats: Stats {
            keys_count: IndexMap::from([("$.key3".to_string(), 3), ("$.key2".to_string(), 2)]),
            line_count: 7,
            keys_types_count: IndexMap::from([
                ("$.key3::Number".to_string(), 3),
                ("$.key2::Number".to_string(), 2),
            ]),
            bad_lines: vec!["1".to_string()],
            empty_lines: vec!["2".to_string()],
        },
    };
    let expected = Stats {
        keys_count: IndexMap::from([
            ("$.key1".to_string(), 3),
            ("$.key2".to_string(), 4),
            ("$.key3".to_string(), 3),
        ]),
        line_count: 12,
        keys_types_count: IndexMap::from([
            ("$.key1::Number".to_string(), 3),
            ("$.key2::Number".to_string(), 4),
            ("$.key3::Number".to_string(), 3),
        ]),
        bad_lines: vec!["file/1.json:4".to_string(), "file/2.json:1".to_string()],
        empty_lines: vec!["file/1.json:5".to_string(), "file/2.json:2".to_string()],
    };

    let vec_of_file_stats = vec![lhs.clone(), rhs.clone()];
    let actual_ref = lhs.clone().add(&rhs);
    let actual = lhs.add(&rhs);

    assert_eq!(actual, expected);
    assert_eq!(actual_ref, expected);
    assert_eq!(Stats::sum(&vec_of_file_stats), expected);
}

#[test]
fn merge_namespaces_bad_lines() {
    let a = FileStats::new(
        "file/1.json".to_string(),
        Stats {
            bad_lines: vec!["4".to_string()],
            ..Default::default()
        },
    );
    let b = FileStats::new(
        "file/2.json".to_string(),
        Stats {
            bad_lines: vec!["1".to_string()],
            ..Default::default()
        },
    );
    let merged = a.add(&b);
    assert_eq!(
        merged.bad_lines,
        vec!["file/1.json:4".to_string(), "file/2.json:1".to_string()]
    );
}

#[test]
fn combine_is_associative_on_example() {
    let mk = |key: &str, count: usize, line: &str| Stats {
        keys_count: IndexMap::from([(key.to_string(), count)]),
        line_count: count,
        bad_lines: vec![line.to_string()],
        keys_types_count: IndexMap::from([(format!("{}::Number", key), count)]),
        empty_lines: vec![],
    };
    let a = mk("$.a", 1, "f1:1");
    let b = mk("$.b", 2, "f2:2");
    let c = mk("$.a", 3, "f3:3");

    let left = a.clone().combine(&b).combine(&c);
    let right = b.clone().combine(&c);
    let right = a.combine(&right);
    assert_eq!(left, right);
}

#[test]
fn combine_with_empty_is_identity() {
    let a = Stats {
        keys_count: IndexMap::from([("$.a".to_string(), 2)]),
        line_count: 2,
        bad_lines: vec!["1".to_string()],
        keys_types_count: IndexMap::from([("$.a::Number".to_string(), 2)]),
        empty_lines: vec!["2".to_string()],
    };
    assert_eq!(Stats::new().combine(&a), a);
    assert_eq!(a.clone().combine(&Stats::new()), a);
}

#[test]
fn stats_new_is_empty() {
    let s = Stats::new();
    assert_eq!(s.keys_count.len(), 0);
    assert_eq!(s.line_count, 0);
    assert!(s.bad_lines.is_empty());
    assert_eq!(s.keys_types_count.len(), 0);
    assert!(s.empty_lines.is_empty());
    assert_eq!(s, Stats::default());
}

#[test]
fn counters_saturate_instead_of_overflowing() {
    let a = Stats {
        line_count: usize::MAX - 1,
        ..Default::default()
    };
    let b = Stats {
        line_count: 5,
        ..Default::default()
    };
    let merged = a.combine(&b);
    assert_eq!(merged.line_count, usize::MAX);
}
