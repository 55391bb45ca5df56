use tiger::fileset::FileKind;
use tiger::report::error_key::ErrorKey;
use tiger::report::errors::Errors;
use tiger::report::report_struct::{Confidence, LogReport, PointedMessage, Severity};
use tiger::report::writer::{report_lines, severity_name, Styled};
use tiger::token::Loc;

fn text(line: &[(Styled, String)]) -> String {
    line.iter().map(|(_, t)| t.as_str()).collect()
}

#[test]
fn report_with_two_pointers_and_info() {
    let mut errors = Errors::new();
    let idx = errors.paths.store("common/x.txt".to_string(), "/game/common/x.txt".to_string());
    let mut l1 = Loc::new(idx, FileKind::Mod);
    l1.line = 12;
    l1.column = 9;
    let mut l2 = Loc::new(idx, FileKind::Mod);
    l2.line = 3;
    l2.column = 5;
    let report = LogReport {
        severity: Severity::Warning,
        confidence: Confidence::Reasonable,
        key: ErrorKey::Validation,
        msg: "bad thing".to_string(),
        info: Some("try again".to_string()),
        pointers: vec![
            PointedMessage { loc: l1, length: 3, msg: None },
            PointedMessage { loc: l2, length: 1, msg: Some("here".to_string()) },
        ],
    };
    let source = vec![Some("\t\t      foo = bar".to_string()), Some("          x".to_string())];
    let lines = report_lines(&errors, &report, &source);
    let shown: Vec<String> = lines.iter().map(|l| text(l)).collect();
    assert_eq!(
        shown,
        vec![
            "warning(validation): bad thing",
            "  --> [MOD] common/x.txt",
            "12 |     foo = bar",
            "   |     ^^^ ",
            " 3 |       x",
            "   | ^ <-- here",
            "   = Info: try again",
            "",
        ]
    );
    assert_eq!(lines[0][0].0, Styled::Tag(Severity::Warning, true));
    assert_eq!(lines[0][1].0, Styled::Tag(Severity::Warning, false));
    assert_eq!(lines[2][4], (Styled::SourceText, "    foo = bar".to_string()));
    assert_eq!(lines[3][5], (Styled::Tag(Severity::Warning, true), "^^^".to_string()));
}

#[test]
fn whole_file_pointer_and_unknown_source() {
    let mut errors = Errors::new();
    let a = errors.paths.store("map_data/rivers.png".to_string(), "/g/map_data/rivers.png".to_string());
    let b = errors.paths.store("map_data/other.txt".to_string(), "/g/map_data/other.txt".to_string());
    let whole = Loc::new(a, FileKind::Vanilla);
    let mut line = Loc::new(b, FileKind::Vanilla);
    line.line = 100;
    line.column = 1;
    let report = LogReport {
        severity: Severity::Error,
        confidence: Confidence::Strong,
        key: ErrorKey::Rivers,
        msg: "m".to_string(),
        info: None,
        pointers: vec![PointedMessage { loc: whole, length: 1, msg: None }, PointedMessage { loc: line, length: 2, msg: None }],
    };
    let lines = report_lines(&errors, &report, &vec![None, None]);
    let shown: Vec<String> = lines.iter().map(|l| text(l)).collect();
    assert_eq!(
        shown,
        vec!["error(rivers): m", "   --> [CK3] map_data/rivers.png", "   --> [CK3] map_data/other.txt", ""]
    );
    assert_eq!(severity_name(Severity::Untidy), "untidy");
}

#[test]
fn wide_chars_move_the_carets() {
    let mut errors = Errors::new();
    let idx = errors.paths.store("f.txt".to_string(), "/f.txt".to_string());
    let mut l = Loc::new(idx, FileKind::Mod);
    l.line = 1;
    l.column = 3;
    let report = LogReport {
        severity: Severity::Tips,
        confidence: Confidence::Weak,
        key: ErrorKey::Validation,
        msg: "m".to_string(),
        info: None,
        pointers: vec![PointedMessage { loc: l, length: 1, msg: None }],
    };
    let lines = report_lines(&errors, &report, &vec![Some("日本x".to_string())]);
    // Each of the two CJK chars takes two columns.
    assert_eq!(text(&lines[3]), "  |     ^ ");
}
