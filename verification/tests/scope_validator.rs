use tiger::pdxfile::parse::parse_pdx;
use tiger::report::report_struct::Severity;
use tiger::scope::validator::{FieldValue, FieldWant, ValidationError, ValidationReport, Validator};
use tiger::scope::{Scope, ScopeValue};

fn parse(text: &str) -> Scope {
    let mut errors = Vec::new();
    let scope = parse_pdx("test.txt", text, &mut errors).unwrap();
    assert!(errors.is_empty());
    scope
}

fn messages(reports: &[ValidationReport]) -> Vec<String> {
    reports.iter().map(|r| r.msg.clone()).collect()
}

#[test]
fn unique_value_keeps_the_last_and_warns() {
    let scope = parse("name = first\nname = second\nother < 3\n");
    let mut v = Validator::new(&scope, "thing");
    let mut reports = Vec::new();
    let name = v.allow_unique_field_value("name", &mut reports).unwrap();
    assert_eq!(name.as_str(), "second");
    let other = v.allow_unique_field_integer("other", &mut reports);
    assert_eq!(other, Some(3));
    assert_eq!(
        messages(&reports),
        vec!["multiple definitions of `name`, expected only one.", "expected `other =`, found `<`"]
    );
    assert_eq!(reports[0].severity, Severity::Warning);
    assert_eq!(reports[1].severity, Severity::Error);
    v.warn_unused_entries(&mut reports);
    assert_eq!(reports.len(), 2);
    assert!(v.err.is_none());
}

#[test]
fn typed_fields_report_wrong_kinds() {
    let scope = parse("flag = maybe\ncount = 12x\nsub = value\nlist = { a b = c { d } }\nyes_flag = yes\n");
    let mut v = Validator::new(&scope, "thing");
    let mut reports = Vec::new();
    assert_eq!(v.allow_unique_field_boolean("flag", &mut reports), None);
    assert_eq!(v.allow_unique_field_boolean("yes_flag", &mut reports), Some(true));
    assert_eq!(v.allow_unique_field_integer("count", &mut reports), None);
    assert!(v.allow_unique_field_scope("sub", &mut reports).is_none());
    let list = v.allow_unique_field_list("list", &mut reports).unwrap();
    let items: Vec<&str> = list.iter().map(|t| t.as_str()).collect();
    assert_eq!(items, vec!["a", "c"]);
    assert_eq!(
        messages(&reports),
        vec![
            "expected yes or no",
            "expected integer",
            "expected scope, found value",
            "found key `b`, expected only values",
            "expected value, found scope",
        ]
    );
}

#[test]
fn checked_field_as_any_value() {
    let scope = parse("x = { y = z }\n");
    let mut v = Validator::new(&scope, "thing");
    let mut reports = Vec::new();
    match v.allow_unique_field_check("x", FieldWant::Scope, &mut reports) {
        Some(FieldValue::Scope(s)) => assert_eq!(s.v.len(), 1),
        _ => panic!("expected a scope"),
    }
    match v.allow_unique_field("x", &mut reports) {
        Some(ScopeValue::Scope(_)) => {},
        _ => panic!("expected a scope"),
    }
    assert!(v.allow_unique_field("missing", &mut reports).is_none());
    assert!(reports.is_empty());
}

#[test]
fn required_field_missing_or_invalid() {
    let scope = parse("a = { }\nb = 1\n");
    let mut v = Validator::new(&scope, "thing");
    let mut reports = Vec::new();
    match v.require_unique_field_value("a", &mut reports) {
        Err(ValidationError::RequiredFieldMissing(name)) => assert_eq!(name, "a"),
        _ => panic!("expected a missing field"),
    }
    match &v.err {
        Some(ValidationError::RequiredFieldInvalid(name)) => assert_eq!(name, "a"),
        _ => panic!("the first error is kept"),
    }
    assert_eq!(v.require_unique_field_value("b", &mut reports).unwrap().as_str(), "1");
    assert!(v.require_unique_field_value("c", &mut reports).is_err());
    assert_eq!(
        messages(&reports),
        vec!["expected value, found scope", "required field `a` missing", "required field `c` missing"]
    );
    assert_eq!(reports[1].loc.line, 1);
    assert_eq!(reports[1].loc.column, 1);
}

#[test]
fn repeated_fields_and_unused_entries() {
    let scope = parse("tag = a\ntag = { x }\ntag > b\nkid = { }\nloose\n{ inner }\nodd = 1\n");
    let mut v = Validator::new(&scope, "thing");
    let mut reports = Vec::new();
    let tags = v.allow_field_values("tag", &mut reports);
    let tags: Vec<&str> = tags.iter().map(|t| t.as_str()).collect();
    assert_eq!(tags, vec!["a", "b"]);
    let kids = v.allow_field_scopes("kid", &mut reports);
    assert_eq!(kids.len(), 1);
    assert!(v.allow_field_scopes("tag", &mut reports).len() == 1);
    v.warn_unused_entries(&mut reports);
    assert_eq!(
        messages(&reports),
        vec![
            "expected value, found scope",
            "expected `tag =`, found `>`",
            "expected scope, found value",
            "expected `tag =`, found `>`",
            "expected scope, found value",
            "found loose value, expected only `key =`",
            "found subscope, expected only `key =`",
            "unknown field `odd` for thing",
        ]
    );
}

#[test]
fn first_error_is_kept() {
    let scope = parse("a = 1\n");
    let mut v = Validator::new(&scope, "thing");
    v.err(ValidationError::RequiredFieldMissing("x".to_string()));
    v.err(ValidationError::RequiredFieldInvalid("y".to_string()));
    match &v.err {
        Some(ValidationError::RequiredFieldMissing(name)) => assert_eq!(name, "x"),
        _ => panic!("the first error is kept"),
    }
}
