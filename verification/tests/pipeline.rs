//! End-to-end tests of the line-analysis pipeline.

use json_type_report::analysis::{Analysis, TypeInfo};
use json_type_report::interpret::{analyze_lines, process_line, Diagnostic};

fn lines_of(texts: &[&str]) -> Vec<String> {
    texts.iter().map(|t| t.to_string()).collect()
}

fn run_ok(texts: &[&str]) -> (Vec<Diagnostic>, Analysis) {
    let lines = lines_of(texts);
    let (diags, result) = analyze_lines(&lines);
    (diags, result.expect("no fatal error expected"))
}

fn entries(analysis: &Analysis) -> Vec<(String, u32, usize)> {
    analysis
        .get_data()
        .iter()
        .map(|(k, info)| (k.clone(), info.object_count(), info.total_byte_size()))
        .collect()
}

#[test]
fn type_info_starts_empty_and_accumulates() {
    let mut info = TypeInfo::new();
    assert_eq!(info.object_count(), 0);
    assert_eq!(info.total_byte_size(), 0);
    info.add_object(10);
    info.add_object(5);
    assert_eq!(info.object_count(), 2);
    assert_eq!(info.total_byte_size(), 15);
}

#[test]
fn record_merges_equal_keys_and_keeps_order() {
    let mut analysis = Analysis::new();
    analysis.record("\"a\"".to_string(), 7);
    analysis.record("\"b\"".to_string(), 3);
    analysis.record("\"a\"".to_string(), 11);
    assert_eq!(
        entries(&analysis),
        vec![("\"a\"".to_string(), 2, 18), ("\"b\"".to_string(), 1, 3)]
    );
}

#[test]
fn empty_input_yields_empty_analysis() {
    let (diags, analysis) = run_ok(&[]);
    assert!(diags.is_empty());
    assert!(analysis.get_data().is_empty());
}

#[test]
fn identical_lines_merge_into_one_entry() {
    let line = "{\"type\":\"a\"}";
    let (diags, analysis) = run_ok(&[line, line]);
    assert!(diags.is_empty());
    assert_eq!(
        entries(&analysis),
        vec![("\"a\"".to_string(), 2, 2 * line.len())]
    );
}

#[test]
fn distinct_keys_produce_separate_entries() {
    let (diags, analysis) = run_ok(&["{\"type\":\"a\"}", "{\"type\":\"b\"}"]);
    assert!(diags.is_empty());
    assert_eq!(
        entries(&analysis),
        vec![
            ("\"a\"".to_string(), 1, 12),
            ("\"b\"".to_string(), 1, 12),
        ]
    );
}

#[test]
fn malformed_line_does_not_affect_other_counts() {
    let l1 = "{\"type\":\"a\"}";
    let l2 = "not json";
    let l3 = "{\"type\":\"a\"}";
    let (diags, analysis) = run_ok(&[l1, l2, l3]);
    assert_eq!(
        entries(&analysis),
        vec![("\"a\"".to_string(), 2, l1.len() + l3.len())]
    );
    assert_eq!(diags.len(), 1);
    assert_eq!(diags[0], Diagnostic::UnexpectedFormat { line: 2 });
}

#[test]
fn missing_type_field_is_diagnosed_and_skipped() {
    let (diags, analysis) = run_ok(&["{\"x\":1}"]);
    assert!(analysis.get_data().is_empty());
    assert_eq!(diags, vec![Diagnostic::MissingType { line: 1 }]);
    assert!(!diags[0].is_warning());
}

#[test]
fn empty_line_is_a_warning_and_skipped() {
    let (diags, analysis) = run_ok(&["", "{\"type\":\"a\"}"]);
    assert_eq!(entries(&analysis), vec![("\"a\"".to_string(), 1, 12)]);
    assert_eq!(diags, vec![Diagnostic::EmptyLine { line: 1 }]);
    assert!(diags[0].is_warning());
    assert_eq!(diags[0].line_number(), 1);
}

#[test]
fn non_object_json_is_rejected_per_line() {
    let (diags, analysis) = run_ok(&["[1,2]", "\"text\"", "42", "true"]);
    assert!(analysis.get_data().is_empty());
    assert_eq!(
        diags,
        vec![
            Diagnostic::UnexpectedFormat { line: 1 },
            Diagnostic::UnexpectedFormat { line: 2 },
            Diagnostic::UnexpectedFormat { line: 3 },
            Diagnostic::UnexpectedFormat { line: 4 },
        ]
    );
}

#[test]
fn type_keys_use_canonical_serialized_text() {
    let (diags, analysis) = run_ok(&[
        "{\"type\":42}",
        "{\"type\":null}",
        "{\"type\":{\"a\":1}}",
        "{\"type\":[1,2]}",
    ]);
    assert!(diags.is_empty());
    let keys: Vec<String> = entries(&analysis).into_iter().map(|e| e.0).collect();
    assert_eq!(
        keys,
        vec![
            "42".to_string(),
            "null".to_string(),
            "{\"a\":1}".to_string(),
            "[1,2]".to_string(),
        ]
    );
}

#[test]
fn string_keys_that_serialize_differently_stay_apart() {
    let (diags, analysis) = run_ok(&["{\"type\":\"a\"}", "{\"type\":\"a \"}"]);
    assert!(diags.is_empty());
    let keys: Vec<String> = entries(&analysis).into_iter().map(|e| e.0).collect();
    assert_eq!(keys, vec!["\"a\"".to_string(), "\"a \"".to_string()]);
}

#[test]
fn totals_match_contributing_lines() {
    let texts = [
        "{\"type\":\"a\"}",
        "",
        "{\"type\":\"b\",\"x\":1}",
        "broken",
        "{\"y\":2}",
        "{\"type\":\"a\",\"long\":\"value\"}",
    ];
    let contributing = [texts[0], texts[2], texts[5]];
    let (diags, analysis) = run_ok(&texts);
    let total_count: u32 = entries(&analysis).iter().map(|e| e.1).sum();
    let total_bytes: usize = entries(&analysis).iter().map(|e| e.2).sum();
    assert_eq!(total_count as usize, contributing.len());
    assert_eq!(
        total_bytes,
        contributing.iter().map(|l| l.len()).sum::<usize>()
    );
    assert_eq!(diags.len(), 3);
}

#[test]
fn two_runs_yield_identical_entries() {
    let texts = ["{\"type\":\"a\"}", "bad", "{\"type\":\"b\"}", "{\"type\":\"a\"}"];
    let (_, a1) = run_ok(&texts);
    let (_, a2) = run_ok(&texts);
    assert_eq!(entries(&a1), entries(&a2));
}

#[test]
fn process_line_feeds_the_accumulator() {
    let mut analysis = Analysis::new();
    let r = process_line(&mut analysis, "{\"type\":\"a\"}", 1);
    assert!(matches!(r, Ok(None)));
    let r = process_line(&mut analysis, "{}", 2);
    assert!(matches!(r, Ok(Some(Diagnostic::MissingType { line: 2 }))));
    assert_eq!(entries(&analysis), vec![("\"a\"".to_string(), 1, 12)]);
}
