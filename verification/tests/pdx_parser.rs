use tiger::pdxfile::parse::parse_pdx;
use tiger::scope::{Comparator, ScopeValue};

fn key_of(item: &(Option<tiger::scope::Token>, Comparator, ScopeValue)) -> Option<&str> {
    item.0.as_ref().map(|t| t.as_str())
}

#[test]
fn parses_assignments_and_nested_scopes() {
    let mut errors = Vec::new();
    let scope = parse_pdx("test.txt", "a = b\nc = { d e }\n", &mut errors).unwrap();
    assert!(errors.is_empty());
    assert_eq!(scope.v.len(), 2);
    assert_eq!(key_of(&scope.v[0]), Some("a"));
    assert_eq!(scope.v[0].1, Comparator::Eq);
    match &scope.v[0].2 {
        ScopeValue::Token(t) => assert_eq!(t.as_str(), "b"),
        ScopeValue::Scope(_) => panic!("expected a token"),
    }
    assert_eq!(key_of(&scope.v[1]), Some("c"));
    match &scope.v[1].2 {
        ScopeValue::Scope(inner) => {
            assert_eq!(inner.v.len(), 2);
            assert_eq!(key_of(&inner.v[0]), None);
            assert_eq!(inner.v[0].1, Comparator::Absent);
            assert_eq!(inner.loc.line, 2);
            assert_eq!(inner.loc.column, 5);
        },
        ScopeValue::Token(_) => panic!("expected a scope"),
    }
}

#[test]
fn token_locations_are_where_the_token_ends() {
    let mut errors = Vec::new();
    let scope = parse_pdx("test.txt", "key = value", &mut errors).unwrap();
    let key = scope.v[0].0.as_ref().unwrap();
    assert_eq!(key.loc.line, 1);
    assert_eq!(key.loc.column, 4);
    assert_eq!(key.loc.offset, 3);
    assert_eq!(key.loc.pathname, "test.txt");
}

#[test]
fn comparators_and_comments() {
    let mut errors = Vec::new();
    let scope = parse_pdx("t", "# a comment = {\nx < 3 y >= 4 z != 5", &mut errors).unwrap();
    assert!(errors.is_empty());
    assert_eq!(scope.v.len(), 3);
    assert_eq!(scope.v[0].1, Comparator::Lt);
    assert_eq!(scope.v[1].1, Comparator::Ge);
    assert_eq!(scope.v[2].1, Comparator::Ne);
}

#[test]
fn quoted_strings_keep_their_quotes() {
    let mut errors = Vec::new();
    let scope = parse_pdx("t", "name = \"two words\"", &mut errors).unwrap();
    match &scope.v[0].2 {
        ScopeValue::Token(t) => assert_eq!(t.as_str(), "\"two words\""),
        ScopeValue::Scope(_) => panic!("expected a token"),
    }
}

#[test]
fn unclosed_brace_is_an_error() {
    let mut errors = Vec::new();
    let r = parse_pdx("file.txt", "a = { b", &mut errors);
    assert_eq!(r.unwrap_err(), "Could not parse file.txt due to brace mismatch");
    assert_eq!(errors.len(), 1);
    assert_eq!(errors[0].msg, "Opening { was never closed");
}

#[test]
fn unexpected_close_brace_is_an_error() {
    let mut errors = Vec::new();
    let r = parse_pdx("file.txt", "a = b }", &mut errors);
    assert!(r.is_err());
    assert_eq!(errors[0].msg, "Unexpected }");
}

#[test]
fn double_and_stray_comparators() {
    let mut errors = Vec::new();
    let scope = parse_pdx("t", "a = = b", &mut errors).unwrap();
    assert_eq!(errors.len(), 1);
    assert_eq!(errors[0].msg, "Double comparator '='");
    assert_eq!(scope.v.len(), 1);
    let mut errors = Vec::new();
    parse_pdx("t", "= b", &mut errors).unwrap();
    assert_eq!(errors[0].msg, "Unexpected comparator '='");
    let mut errors = Vec::new();
    parse_pdx("t", "a =< b", &mut errors).unwrap();
    assert_eq!(errors[0].msg, "Unrecognized comparator '=<'");
    let mut errors = Vec::new();
    let scope = parse_pdx("t", "a =", &mut errors).unwrap();
    assert_eq!(errors[0].msg, "Comparator without value");
    assert_eq!(scope.v.len(), 1);
}

#[test]
fn unknown_chars_and_unclosed_quotes() {
    let mut errors = Vec::new();
    parse_pdx("t", "a = b;", &mut errors).unwrap();
    assert_eq!(errors[0].msg, "Unrecognized character ;");
    let mut errors = Vec::new();
    let scope = parse_pdx("t", "a = \"open", &mut errors).unwrap();
    assert_eq!(errors.len(), 1);
    assert_eq!(errors[0].msg, "Quoted string not closed");
    assert_eq!(scope.v.len(), 1);
}

#[test]
fn loose_values_then_key() {
    let mut errors = Vec::new();
    let scope = parse_pdx("t", "x y z = w", &mut errors).unwrap();
    assert_eq!(scope.v.len(), 3);
    assert_eq!(key_of(&scope.v[0]), None);
    assert_eq!(key_of(&scope.v[1]), None);
    assert_eq!(key_of(&scope.v[2]), Some("z"));
}
