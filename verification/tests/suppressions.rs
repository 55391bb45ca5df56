use tiger::fileset::FileKind;
use tiger::parse::suppress::parse_suppressions;
use tiger::report::error_key::ErrorKey;
use tiger::report::errors::{log, Errors};
use tiger::report::report_struct::{Confidence, LogReport, PointedMessage, Severity};
use tiger::report::suppress::{should_suppress, suppress_from_text};
use tiger::report::writer::report_lines;
use tiger::token::Loc;

fn two_file_report(errors: &mut Errors) -> LogReport {
    let a = errors.paths.store("map_data/rivers.png".to_string(), "/g/map_data/rivers.png".to_string());
    let b = errors.paths.store("map_data/other.txt".to_string(), "/g/map_data/other.txt".to_string());
    let whole = Loc::new(a, FileKind::Vanilla);
    let mut line = Loc::new(b, FileKind::Vanilla);
    line.line = 100;
    line.column = 1;
    LogReport {
        severity: Severity::Error,
        confidence: Confidence::Strong,
        key: ErrorKey::Rivers,
        msg: "river ends".to_string(),
        info: None,
        pointers: vec![PointedMessage { loc: whole, length: 1, msg: None }, PointedMessage { loc: line, length: 2, msg: None }],
    }
}

#[test]
fn output_reads_back_as_suppressions() {
    let mut errors = Errors::new();
    let report = two_file_report(&mut errors);
    let mut text = String::new();
    for line in report_lines(&errors, &report, &vec![None, None]) {
        for (_, piece) in line {
            text.push_str(&piece);
        }
        text.push('\n');
    }
    let reports = parse_suppressions(&text).expect("readable");
    assert_eq!(reports.len(), 1);
    assert_eq!(reports[0].key, ErrorKey::Rivers);
    assert_eq!(reports[0].message, "river ends");
    let paths: Vec<&str> = reports[0].locations.iter().map(|l| l.path.as_str()).collect();
    assert_eq!(paths, vec!["map_data/rivers.png", "map_data/other.txt"]);
    assert!(reports[0].locations.iter().all(|l| l.line.is_none() && l.tag.is_none()));
    assert!(should_suppress(&reports, &errors, &report, &vec![None, None]));
    // Another message is not suppressed.
    let mut other = two_file_report(&mut errors);
    other.msg = "something else".to_string();
    assert!(!should_suppress(&reports, &errors, &other, &vec![None, None]));
}

#[test]
fn source_lines_tags_and_colors() {
    let text = "\x1b[1mwarning(validation): bad thing\n\x1b[34m  --> [MOD] common/x.txt\x1b[0m\n12 |     foo = bar\r\n   |     ^^^ <-- here\n   = Info: try again\n\n";
    let reports = parse_suppressions(text).expect("readable");
    assert_eq!(reports.len(), 1);
    let l = &reports[0].locations[0];
    assert_eq!(l.path, "common/x.txt");
    assert_eq!(l.line, Some("foo = bar".to_string()));
    assert_eq!(l.tag, Some("here".to_string()));
    assert_eq!(reports[0].key, ErrorKey::Validation);
}

#[test]
fn unreadable_suppressions() {
    assert!(parse_suppressions("").map(|v| v.is_empty()).unwrap_or(false));
    assert!(parse_suppressions("warning(no-such-key): x\n  --> [MOD] a\n\n").is_none());
    assert!(parse_suppressions("warning(validation): x\n\n").is_none());
    assert!(parse_suppressions("loud(validation): x\n  --> [MOD] a\n\n").is_none());
}

fn rendered(errors: &Errors, report: &LogReport, lines: &Vec<Option<String>>) -> String {
    let mut text = String::new();
    for line in report_lines(errors, report, lines) {
        for (_, piece) in line {
            text.push_str(&piece);
        }
        text.push('\n');
    }
    text
}

#[test]
fn log_leaves_out_suppressed_reports() {
    let mut errors = Errors::new();
    errors.filter.show_vanilla = true;
    let report = two_file_report(&mut errors);
    let text = rendered(&errors, &report, &vec![None, None]);
    assert!(suppress_from_text(&mut errors, &text));
    log(two_file_report(&mut errors), &mut errors);
    assert!(errors.drain_reports().is_empty());
    let mut other = two_file_report(&mut errors);
    other.msg = "something else".to_string();
    log(other, &mut errors);
    assert_eq!(errors.drain_reports().len(), 1);
}

fn one_line_report(errors: &mut Errors) -> LogReport {
    let b = errors.paths.store("map_data/other.txt".to_string(), "/g/map_data/other.txt".to_string());
    let mut line = Loc::new(b, FileKind::Vanilla);
    line.line = 100;
    line.column = 1;
    LogReport {
        severity: Severity::Error,
        confidence: Confidence::Strong,
        key: ErrorKey::Rivers,
        msg: "river ends".to_string(),
        info: None,
        pointers: vec![PointedMessage { loc: line, length: 2, msg: None }],
    }
}

#[test]
fn suppression_matches_by_source_line() {
    let mut other_lines = vec![String::new(); 100];
    other_lines[99] = "river = yes".to_string();
    let mut errors = Errors::new();
    errors.filter.show_vanilla = true;
    let report = one_line_report(&mut errors);
    let text = rendered(&errors, &report, &vec![Some("river = yes".to_string())]);
    assert!(suppress_from_text(&mut errors, &text));
    // Without the file's lines the suppressed line does not match.
    log(report, &mut errors);
    assert_eq!(errors.drain_reports().len(), 1);
    // Once the lines of the file are known, the report is suppressed.
    errors.sources = vec![Some(other_lines.clone()), Some(other_lines)];
    log(one_line_report(&mut errors), &mut errors);
    assert!(errors.drain_reports().is_empty());
}

#[test]
fn unreadable_suppressions_change_nothing() {
    let mut errors = Errors::new();
    assert!(!suppress_from_text(&mut errors, "this is not output\n"));
    assert!(errors.suppressions.is_empty());
}
