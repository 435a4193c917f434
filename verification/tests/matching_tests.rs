use cgrep::matching::line_contains;
use cgrep::scan::LineAction;
use cgrep::scan::LineRead;
use cgrep::scan::ScanOutcome;
use cgrep::scan::line_action;
use cgrep::scan::scan_lines;

fn b(s: &str) -> Vec<u8> {
    s.as_bytes().to_vec()
}

#[test]
fn pattern_in_middle() {
    assert!(line_contains(&b("a needle in a haystack"), &b("needle")));
}

#[test]
fn pattern_at_start_and_end() {
    assert!(line_contains(&b("needle and thread"), &b("needle")));
    assert!(line_contains(&b("thread and needle"), &b("needle")));
    assert!(line_contains(&b("needle"), &b("needle")));
}

#[test]
fn pattern_absent() {
    assert!(!line_contains(&b("a haystack only"), &b("needle")));
    assert!(!line_contains(&b("needl"), &b("needle")));
}

#[test]
fn pattern_case_sensitive() {
    assert!(!line_contains(&b("Needle"), &b("needle")));
}

#[test]
fn pattern_longer_than_line() {
    assert!(!line_contains(&b("ab"), &b("abc")));
}

#[test]
fn empty_pattern_matches_any_line() {
    assert!(line_contains(&b(""), &b("")));
    assert!(line_contains(&b("anything"), &b("")));
}

#[test]
fn empty_line_matches_only_empty_pattern() {
    assert!(!line_contains(&b(""), &b("x")));
}

#[test]
fn overlapping_occurrences_still_one_match() {
    // the pattern occurs twice, overlapping; the line is a match, once
    assert!(line_contains(&b("aaa"), &b("aa")));
}

#[test]
fn scan_reports_matches_in_line_order() {
    let lines = vec![
        LineRead::Line(b("first needle")),
        LineRead::Line(b("nothing here")),
        LineRead::Line(b("second needle")),
    ];
    let out: ScanOutcome = scan_lines(&lines, &b("needle"));
    assert_eq!(out.matched, vec![b("first needle"), b("second needle")]);
    assert_eq!(out.errors, Vec::<Vec<u8>>::new());
}

#[test]
fn scan_reports_matching_line_once_regardless_of_occurrences() {
    let lines = vec![LineRead::Line(b("needle needle needle"))];
    let out = scan_lines(&lines, &b("needle"));
    assert_eq!(out.matched, vec![b("needle needle needle")]);
}

#[test]
fn scan_of_file_without_match_contributes_nothing() {
    let lines = vec![
        LineRead::Line(b("plain text")),
        LineRead::Line(b("more text")),
    ];
    let out = scan_lines(&lines, &b("needle"));
    assert_eq!(out.matched, Vec::<Vec<u8>>::new());
    assert_eq!(out.errors, Vec::<Vec<u8>>::new());
}

#[test]
fn scan_keeps_going_after_a_read_error() {
    let lines = vec![
        LineRead::Line(b("needle before")),
        LineRead::ReadError(b("stream did not contain valid UTF-8")),
        LineRead::Line(b("needle after")),
    ];
    let out = scan_lines(&lines, &b("needle"));
    assert_eq!(out.matched, vec![b("needle before"), b("needle after")]);
    assert_eq!(out.errors, vec![b("stream did not contain valid UTF-8")]);
}

#[test]
fn line_action_emits_a_matching_line_verbatim() {
    let a = line_action(LineRead::Line(b("one needle here")), &b("needle"));
    assert_eq!(a, LineAction::Emit(b("one needle here")));
}

#[test]
fn line_action_drops_a_line_without_the_pattern() {
    let a = line_action(LineRead::Line(b("nothing")), &b("needle"));
    assert_eq!(a, LineAction::Nothing);
}

#[test]
fn line_action_diagnoses_a_read_error() {
    let a = line_action(LineRead::ReadError(b("bad byte")), &b("needle"));
    assert_eq!(a, LineAction::Diagnose(b("bad byte")));
}
