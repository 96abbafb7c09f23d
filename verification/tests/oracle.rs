use conformance_oracle::errors::classify_errors;
use conformance_oracle::errors::ErrorMessagePosition;
use conformance_oracle::lines::classify_lines;
use conformance_oracle::outcome::ResultStatus;
use conformance_oracle::report::TestResult;

fn lines(texts: &[&str]) -> Vec<String> {
    texts.iter().map(|t| String::from(*t)).collect()
}

fn diag(message: &str, line: usize, col: usize) -> ErrorMessagePosition {
    ErrorMessagePosition {
        message: String::from(message),
        line,
        col,
    }
}

#[test]
fn scenario_both_lines_match() {
    let e = lines(&["<html>", "<body>"]);
    let a = lines(&["<html>", "<body>"]);
    let report = TestResult::new(&e, &a, &Vec::new(), &Vec::new());
    assert_eq!(report.tree_results.len(), 2);
    assert_eq!(report.tree_results[0].result, ResultStatus::Success);
    assert_eq!(report.tree_results[1].result, ResultStatus::Success);
    assert!(report.is_success());
}

#[test]
fn scenario_missing_line() {
    let e = lines(&["<html>", "<body>"]);
    let a = lines(&["<html>"]);
    let report = TestResult::new(&e, &a, &Vec::new(), &Vec::new());
    assert_eq!(report.tree_results.len(), 2);
    assert_eq!(report.tree_results[0].result, ResultStatus::Success);
    assert_eq!(report.tree_results[1].result, ResultStatus::Missing);
    assert_eq!(report.tree_results[1].expected, "<body>");
    assert_eq!(report.tree_results[1].actual, "");
    assert!(!report.is_success());
}

#[test]
fn scenario_additional_line() {
    let e = lines(&["<html>"]);
    let a = lines(&["<html>", "<body>"]);
    let report = TestResult::new(&e, &a, &Vec::new(), &Vec::new());
    assert_eq!(report.tree_results.len(), 2);
    assert_eq!(report.tree_results[0].result, ResultStatus::Success);
    assert_eq!(report.tree_results[1].result, ResultStatus::Additional);
    assert_eq!(report.tree_results[1].expected, "");
    assert_eq!(report.tree_results[1].actual, "<body>");
    assert!(!report.is_success());
}

#[test]
fn scenario_incorrect_position() {
    let e = vec![diag("bad token", 1, 5)];
    let a = vec![diag("bad token", 1, 9)];
    let report = TestResult::new(&Vec::new(), &Vec::new(), &e, &a);
    assert_eq!(report.error_results.len(), 1);
    assert_eq!(report.error_results[0].result, ResultStatus::IncorrectPosition);
    assert!(!report.is_success());
}

#[test]
fn scenario_message_mismatch() {
    let e = vec![diag("bad token", 1, 5)];
    let a = vec![diag("unexpected eof", 1, 5)];
    let report = TestResult::new(&Vec::new(), &Vec::new(), &e, &a);
    assert_eq!(report.error_results.len(), 1);
    assert_eq!(report.error_results[0].result, ResultStatus::Mismatch);
    assert!(!report.is_success());
}

#[test]
fn scenario_empty_report() {
    let report = TestResult::new(&Vec::new(), &Vec::new(), &Vec::new(), &Vec::new());
    assert!(report.tree_results.is_empty());
    assert!(report.error_results.is_empty());
    assert!(report.is_success());
}

#[test]
fn default_report_is_empty_and_succeeds() {
    let report = TestResult::default();
    assert!(report.tree_results.is_empty());
    assert!(report.error_results.is_empty());
    assert!(report.is_success());
}

#[test]
fn classified_length_is_max_of_inputs() {
    let e3 = lines(&["a", "b", "c"]);
    let a1 = lines(&["a"]);
    assert_eq!(classify_lines(&e3, &a1).len(), 3);
    assert_eq!(classify_lines(&a1, &e3).len(), 3);
    assert_eq!(classify_lines(&e3, &e3).len(), 3);
    assert_eq!(classify_lines(&Vec::new(), &Vec::new()).len(), 0);
    let d2 = vec![diag("x", 1, 1), diag("y", 2, 2)];
    let d0: Vec<ErrorMessagePosition> = Vec::new();
    assert_eq!(classify_errors(&d2, &d0).len(), 2);
    assert_eq!(classify_errors(&d0, &d2).len(), 2);
    assert_eq!(classify_errors(&d2, &d2).len(), 2);
}

#[test]
fn equal_inputs_give_all_success() {
    let e = lines(&["one", "two", "three"]);
    let a = lines(&["one", "two", "three"]);
    for record in classify_lines(&e, &a) {
        assert_eq!(record.result, ResultStatus::Success);
    }
    let de = vec![diag("m", 3, 7), diag("n", 4, 1)];
    let da = vec![diag("m", 3, 7), diag("n", 4, 1)];
    for record in classify_errors(&de, &da) {
        assert_eq!(record.result, ResultStatus::Success);
    }
}

#[test]
fn length_mismatch_tails() {
    let e = lines(&["a", "b", "c", "d"]);
    let a = lines(&["a"]);
    let records = classify_lines(&e, &a);
    for record in records.iter().skip(1) {
        assert_eq!(record.result, ResultStatus::Missing);
    }
    let records = classify_lines(&a, &e);
    for record in records.iter().skip(1) {
        assert_eq!(record.result, ResultStatus::Additional);
    }
}

#[test]
fn reclassifying_projections_reproduces_outcomes() {
    let e = lines(&["a", "x", "c", "d"]);
    let a = lines(&["a", "b", "c"]);
    let records = classify_lines(&e, &a);
    let expected_projection: Vec<String> = records
        .iter()
        .filter(|r| r.result != ResultStatus::Additional)
        .map(|r| r.expected.clone())
        .collect();
    let actual_projection: Vec<String> = records
        .iter()
        .filter(|r| r.result != ResultStatus::Missing)
        .map(|r| r.actual.clone())
        .collect();
    let again = classify_lines(&expected_projection, &actual_projection);
    assert_eq!(again.len(), records.len());
    for (first, second) in records.iter().zip(again.iter()) {
        assert_eq!(first.result, second.result);
        assert_eq!(first.expected, second.expected);
        assert_eq!(first.actual, second.actual);
    }
}

#[test]
fn reclassifying_error_projections_reproduces_outcomes() {
    let e = vec![diag("p", 1, 1), diag("q", 2, 2), diag("r", 3, 3)];
    let a = vec![diag("p", 1, 1), diag("q", 2, 9)];
    let records = classify_errors(&e, &a);
    let expected_projection: Vec<ErrorMessagePosition> = records
        .iter()
        .filter_map(|r| r.expected.as_ref().map(|d| d.duplicate()))
        .collect();
    let actual_projection: Vec<ErrorMessagePosition> = records
        .iter()
        .filter_map(|r| r.actual.as_ref().map(|d| d.duplicate()))
        .collect();
    let again = classify_errors(&expected_projection, &actual_projection);
    assert_eq!(again.len(), records.len());
    for (first, second) in records.iter().zip(again.iter()) {
        assert_eq!(first.result, second.result);
    }
}

#[test]
fn line_mismatch_keeps_both_texts() {
    let e = lines(&["<div>"]);
    let a = lines(&["<span>"]);
    let records = classify_lines(&e, &a);
    assert_eq!(records.len(), 1);
    assert_eq!(records[0].index, 0);
    assert_eq!(records[0].result, ResultStatus::Mismatch);
    assert_eq!(records[0].expected, "<div>");
    assert_eq!(records[0].actual, "<span>");
}

#[test]
fn lines_never_get_incorrect_position() {
    let e = lines(&["a", "b", "c", "d", ""]);
    let a = lines(&["a", "x", "", "d"]);
    for record in classify_lines(&e, &a) {
        assert_ne!(record.result, ResultStatus::IncorrectPosition);
    }
    for record in classify_lines(&a, &e) {
        assert_ne!(record.result, ResultStatus::IncorrectPosition);
    }
}

#[test]
fn missing_error_record_has_no_actual() {
    let e = vec![diag("only expected", 2, 3)];
    let a: Vec<ErrorMessagePosition> = Vec::new();
    let records = classify_errors(&e, &a);
    assert_eq!(records.len(), 1);
    assert_eq!(records[0].index, 0);
    assert_eq!(records[0].result, ResultStatus::Missing);
    assert!(records[0].actual.is_none());
    let kept = records[0].expected.as_ref().unwrap();
    assert_eq!(kept.message, "only expected");
    assert_eq!(kept.line, 2);
    assert_eq!(kept.col, 3);
}

#[test]
fn additional_error_record_has_no_expected() {
    let e: Vec<ErrorMessagePosition> = Vec::new();
    let a = vec![diag("only actual", 5, 8)];
    let records = classify_errors(&e, &a);
    assert_eq!(records.len(), 1);
    assert_eq!(records[0].result, ResultStatus::Additional);
    assert!(records[0].expected.is_none());
    let kept = records[0].actual.as_ref().unwrap();
    assert_eq!(kept.message, "only actual");
    assert_eq!(kept.line, 5);
    assert_eq!(kept.col, 8);
}

#[test]
fn matching_error_records_keep_both_diagnostics() {
    let e = vec![diag("bad token", 1, 5)];
    let a = vec![diag("bad token", 1, 5)];
    let records = classify_errors(&e, &a);
    assert_eq!(records.len(), 1);
    assert_eq!(records[0].result, ResultStatus::Success);
    assert_eq!(records[0].expected.as_ref().unwrap().message, "bad token");
    assert_eq!(records[0].actual.as_ref().unwrap().col, 5);
}

#[test]
fn success_requires_every_record_to_succeed() {
    let e = lines(&["a", "b"]);
    let a = lines(&["a", "x"]);
    let de = vec![diag("m", 1, 1)];
    let da = vec![diag("m", 1, 1)];
    let report = TestResult::new(&e, &a, &de, &da);
    assert!(!report.is_success());
    let report = TestResult::new(&e, &e, &de, &da);
    assert!(report.is_success());
    let report = TestResult::new(&e, &e, &de, &vec![diag("m", 1, 2)]);
    assert!(!report.is_success());
}

#[test]
fn duplicate_copies_every_field() {
    let original = diag("some message", 12, 34);
    let copy = original.duplicate();
    assert_eq!(copy.message, "some message");
    assert_eq!(copy.line, 12);
    assert_eq!(copy.col, 34);
}
