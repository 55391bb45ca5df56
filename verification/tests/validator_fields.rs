use tiger::block::{Block, Comparator, EqKind, BV};
use tiger::everything::{Everything, Item};
use tiger::fileset::FileKind;
use tiger::pathtable::PathTableIndex;
use tiger::report::error_key::ErrorKey;
use tiger::report::errors::Errors;
use tiger::report::report_struct::{LogReport, Severity};
use tiger::token::{Loc, Token};
use tiger::validator::value_validator::ValueValidator;
use tiger::validator::{Limit, Validator};

fn loc(line: u32, column: u32) -> Loc {
    let mut l = Loc::new(PathTableIndex(0), FileKind::Mod);
    l.line = line;
    l.column = column;
    l
}

fn tok(s: &str, line: u32) -> Token {
    Token::new(s, loc(line, 1))
}

fn eq() -> Comparator {
    Comparator::Equals(EqKind::Single)
}

fn block_of(fields: &[(&str, &str)]) -> Block {
    let mut b = Block::new(loc(1, 1));
    for (i, (k, v)) in fields.iter().enumerate() {
        let line = i as u32 + 2;
        b.add_key_bv(tok(k, line), eq(), BV::Value(tok(v, line)));
    }
    b
}

fn drain(errors: &mut Errors) -> Vec<LogReport> {
    errors.drain_reports()
}

#[test]
fn field_reports_duplicates_and_returns_presence() {
    let b = block_of(&[("name", "a"), ("name", "b"), ("other", "c")]);
    let data = Everything::new();
    let mut errors = Errors::new();
    let mut vd = Validator::new(&b, &data);
    assert!(vd.field("name", &mut errors));
    assert!(!vd.field("missing", &mut errors));
    let reports = drain(&mut errors);
    assert_eq!(reports.len(), 1);
    assert_eq!(reports[0].key, ErrorKey::Duplicate);
    assert_eq!(reports[0].severity, Severity::Warning);
    assert_eq!(reports[0].msg, "`name` is redefined in a following line");
    assert_eq!(reports[0].pointers.len(), 2);
    assert_eq!(reports[0].pointers[0].loc.line, 2);
    assert_eq!(reports[0].pointers[1].loc.line, 3);
    assert_eq!(reports[0].pointers[1].msg, Some("the other one is here".to_string()));
}

#[test]
fn multi_field_allows_repeats() {
    let b = block_of(&[("name", "a"), ("name", "b")]);
    let data = Everything::new();
    let mut errors = Errors::new();
    let mut vd = Validator::new(&b, &data);
    assert!(vd.multi_field("name", &mut errors));
    assert!(drain(&mut errors).is_empty());
    assert!(!vd.warn_remaining(&mut errors));
    assert!(drain(&mut errors).is_empty());
}

#[test]
fn field_value_gives_the_last_value() {
    let b = block_of(&[("name", "a"), ("name", "b")]);
    let data = Everything::new();
    let mut errors = Errors::new();
    let mut vd = Validator::new(&b, &data);
    let v = vd.field_value("name", &mut errors).unwrap();
    assert_eq!(v.as_str(), "b");
    assert!(vd.field_value("none", &mut errors).is_none());
}

#[test]
fn field_value_reports_a_block() {
    let mut b = Block::new(loc(1, 1));
    b.add_key_bv(tok("name", 2), eq(), BV::Block(Block::new(loc(2, 8))));
    let data = Everything::new();
    let mut errors = Errors::new();
    let mut vd = Validator::new(&b, &data);
    assert!(vd.field_value("name", &mut errors).is_none());
    let reports = drain(&mut errors);
    assert_eq!(reports.len(), 1);
    assert_eq!(reports[0].key, ErrorKey::Structure);
    assert_eq!(reports[0].msg, "expected value, not block");
}

#[test]
fn field_reports_wrong_comparator() {
    let mut b = Block::new(loc(1, 1));
    b.add_key_bv(tok("name", 2), Comparator::LessThan, BV::Value(tok("1", 2)));
    let data = Everything::new();
    let mut errors = Errors::new();
    let mut vd = Validator::new(&b, &data);
    assert!(vd.field("name", &mut errors));
    let reports = drain(&mut errors);
    assert_eq!(reports.len(), 1);
    assert_eq!(reports[0].key, ErrorKey::Validation);
    assert_eq!(reports[0].msg, "expected `name =`, found `<`");
    vd.set_allow_questionmark_equals(true);
    assert!(vd.field("name", &mut errors));
    let reports = drain(&mut errors);
    assert_eq!(reports[0].msg, "expected `name =` or `?=`, found `<`");
}

#[test]
fn field_bool_accepts_yes_and_no_only() {
    let b = block_of(&[("a", "yes"), ("b", "NO"), ("c", "maybe")]);
    let data = Everything::new();
    let mut errors = Errors::new();
    let mut vd = Validator::new(&b, &data);
    assert!(vd.field_bool("a", &mut errors));
    assert!(vd.field_bool("b", &mut errors));
    assert!(drain(&mut errors).is_empty());
    assert!(vd.field_bool("c", &mut errors));
    let reports = drain(&mut errors);
    assert_eq!(reports.len(), 1);
    assert_eq!(reports[0].msg, "expected yes or no");
    assert_eq!(reports[0].severity, Severity::Error);
}

#[test]
fn field_integer_range_message() {
    let b = block_of(&[("a", "5"), ("b", "50"), ("c", "x")]);
    let data = Everything::new();
    let mut errors = Errors::new();
    let mut vd = Validator::new(&b, &data);
    assert!(vd.field_integer_range("a", Limit::Included(0), Limit::Excluded(10), &mut errors));
    assert!(drain(&mut errors).is_empty());
    assert!(!vd.field_integer_range("d", Limit::Included(0), Limit::Excluded(10), &mut errors));
    vd.field_integer_range("b", Limit::Included(0), Limit::Excluded(10), &mut errors);
    let reports = drain(&mut errors);
    assert_eq!(reports.len(), 1);
    assert_eq!(reports[0].key, ErrorKey::Range);
    assert_eq!(reports[0].msg, "should be between 0 and 9 (inclusive)");
    vd.field_integer_range("b", Limit::Excluded(60), Limit::Unbounded, &mut errors);
    assert_eq!(drain(&mut errors)[0].msg, "should be at least 61");
    vd.field_integer_range("c", Limit::Unbounded, Limit::Included(3), &mut errors);
    let reports = drain(&mut errors);
    assert_eq!(reports.len(), 1);
    assert_eq!(reports[0].msg, "expected integer");
}

#[test]
fn req_field_reports_missing_field() {
    let b = block_of(&[("a", "1")]);
    let data = Everything::new();
    let mut errors = Errors::new();
    let mut vd = Validator::new(&b, &data);
    assert!(vd.req_field("a", &mut errors));
    assert!(!vd.req_field("b", &mut errors));
    assert!(!vd.req_field_warn("c", &mut errors));
    assert!(!vd.req_field_fatal("d", &mut errors));
    let reports = drain(&mut errors);
    assert_eq!(reports.len(), 3);
    assert_eq!(reports[0].key, ErrorKey::FieldMissing);
    assert_eq!(reports[0].msg, "required field `b` missing");
    assert_eq!(reports[0].severity, Severity::Error);
    assert_eq!(reports[1].severity, Severity::Warning);
    assert_eq!(reports[2].severity, Severity::Fatal);
    assert_eq!(reports[0].pointers[0].loc.line, 1);
}

#[test]
fn req_field_one_of_counts() {
    let b = block_of(&[("a", "1"), ("b", "2")]);
    let data = Everything::new();
    let mut errors = Errors::new();
    let mut vd = Validator::new(&b, &data);
    assert!(vd.req_field_one_of(&["a", "c"], &mut errors));
    assert!(drain(&mut errors).is_empty());
    assert!(!vd.req_field_one_of(&["a", "b"], &mut errors));
    let reports = drain(&mut errors);
    assert_eq!(reports[0].key, ErrorKey::Validation);
    assert_eq!(reports[0].msg, "expected exactly 1 of a, b");
    assert!(!vd.req_field_one_of(&["x", "y"], &mut errors));
    assert_eq!(drain(&mut errors)[0].key, ErrorKey::FieldMissing);
}

#[test]
fn ban_and_replaced_fields() {
    let b = block_of(&[("old", "1")]);
    let data = Everything::new();
    let mut errors = Errors::new();
    let mut vd = Validator::new(&b, &data);
    vd.ban_field("old", "characters", &mut errors);
    vd.replaced_field("old", "new", &mut errors);
    let reports = drain(&mut errors);
    assert_eq!(reports.len(), 2);
    assert_eq!(reports[0].msg, "`old = ` is only for characters");
    assert_eq!(reports[1].msg, "`old` has been replaced by new");
}

#[test]
fn warn_remaining_reports_unknown_fields_once() {
    let mut b = block_of(&[("known", "1"), ("unknown", "2")]);
    b.add_value(tok("loose", 9));
    let data = Everything::new();
    let mut errors = Errors::new();
    let mut vd = Validator::new(&b, &data);
    vd.field("known", &mut errors);
    assert!(vd.warn_remaining(&mut errors));
    let reports = drain(&mut errors);
    assert_eq!(reports.len(), 2);
    assert_eq!(reports[0].key, ErrorKey::UnknownField);
    assert_eq!(reports[0].msg, "unknown field `unknown`");
    assert_eq!(reports[1].msg, "found loose value loose, expected only `key =`");
    assert!(!vd.warn_remaining(&mut errors));
    assert!(drain(&mut errors).is_empty());
}

#[test]
fn case_insensitive_matching() {
    let b = block_of(&[("Name", "a")]);
    let data = Everything::new();
    let mut errors = Errors::new();
    let mut vd = Validator::new(&b, &data);
    assert!(!vd.field("name", &mut errors));
    vd.set_case_sensitive(false);
    assert!(vd.field("name", &mut errors));
    assert!(!vd.warn_remaining(&mut errors));
}

#[test]
fn field_item_checks_the_database() {
    let b = block_of(&[("trait", "brave"), ("other", "coward")]);
    let mut data = Everything::new();
    data.add_item(Item::Trait, "brave");
    let mut errors = Errors::new();
    let mut vd = Validator::new(&b, &data);
    assert!(vd.field_item("trait", Item::Trait, &mut errors));
    assert!(drain(&mut errors).is_empty());
    assert!(vd.field_item("other", Item::Trait, &mut errors));
    let reports = drain(&mut errors);
    assert_eq!(reports[0].key, ErrorKey::MissingItem);
    assert_eq!(reports[0].msg, "trait coward not defined");
}

#[test]
fn field_choice_lists_choices() {
    let b = block_of(&[("c", "z")]);
    let data = Everything::new();
    let mut errors = Errors::new();
    let mut vd = Validator::new(&b, &data);
    vd.field_choice("c", &["x", "y"], &mut errors);
    assert_eq!(drain(&mut errors)[0].msg, "expected one of x, y");
}

#[test]
fn lists_and_their_values() {
    let mut b = Block::new(loc(1, 1));
    let mut list = Block::new(loc(2, 5));
    list.add_value(Token::new("p", loc(2, 6)));
    list.add_value(Token::new("q", loc(2, 8)));
    b.add_key_bv(tok("list", 2), eq(), BV::Block(list));
    let data = Everything::new();
    let mut errors = Errors::new();
    let mut vd = Validator::new(&b, &data);
    let (found, values) = vd.field_validated_list("list", &mut errors);
    assert!(found);
    let texts: Vec<&str> = values.iter().map(|t| t.as_str()).collect();
    assert_eq!(texts, vec!["p", "q"]);
    assert!(drain(&mut errors).is_empty());
    vd.field_list_integers_exactly("list", 2, &mut errors);
    let reports = drain(&mut errors);
    assert_eq!(reports.len(), 3);
    assert_eq!(reports[0].msg, "expected integer");
    assert_eq!(reports[1].pointers[0].loc.column, 8);
    assert_eq!(reports[2].msg, "expected 2 integers");
}

#[test]
fn integer_keys_are_selected() {
    let b = block_of(&[("1", "a"), ("x", "b"), ("20", "c")]);
    let data = Everything::new();
    let mut errors = Errors::new();
    let mut vd = Validator::new(&b, &data);
    let pairs = vd.integer_values(&mut errors);
    let keys: Vec<&str> = pairs.iter().map(|(k, _)| k.as_str()).collect();
    assert_eq!(keys, vec!["1", "20"]);
    let unknown = vd.unknown_fields(&mut errors);
    assert_eq!(unknown.len(), 1);
    assert_eq!(unknown[0].0.as_str(), "x");
}

#[test]
fn advice_field_reports_the_last_one() {
    let b = block_of(&[("old", "1"), ("old", "2")]);
    let data = Everything::new();
    let mut errors = Errors::new();
    let mut vd = Validator::new(&b, &data);
    vd.advice_field("old", "not needed", &mut errors);
    let reports = drain(&mut errors);
    assert_eq!(reports.len(), 1);
    assert_eq!(reports[0].key, ErrorKey::Unneeded);
    assert_eq!(reports[0].severity, Severity::Untidy);
    assert_eq!(reports[0].pointers[0].loc.line, 3);
}

#[test]
fn max_severity_caps_reports() {
    let b = block_of(&[("c", "maybe")]);
    let data = Everything::new();
    let mut errors = Errors::new();
    let mut vd = Validator::new(&b, &data);
    vd.set_max_severity(Severity::Warning);
    vd.field_bool("c", &mut errors);
    assert_eq!(drain(&mut errors)[0].severity, Severity::Warning);
}

#[test]
fn value_validator_checks_once() {
    let data = Everything::new();
    let t = tok("maybe", 4);
    let mut errors = Errors::new();
    let mut vd = ValueValidator::new(&t, &data);
    vd.bool(&mut errors);
    vd.choice(&["a"], &mut errors);
    vd.warn_unvalidated(&mut errors);
    let reports = drain(&mut errors);
    assert_eq!(reports.len(), 1);
    assert_eq!(reports[0].msg, "expected yes or no");
}

#[test]
fn value_validator_warns_unvalidated() {
    let data = Everything::new();
    let t = tok("thing", 4);
    let mut errors = Errors::new();
    let mut vd = ValueValidator::new(&t, &data);
    assert!(!vd.maybe_is("other"));
    vd.warn_unvalidated(&mut errors);
    let reports = drain(&mut errors);
    assert_eq!(reports[0].msg, "unknown value `thing`");
    assert!(vd.maybe_is("thing"));
    vd.warn_unvalidated(&mut errors);
    assert!(drain(&mut errors).is_empty());
}

#[test]
fn value_validator_split_and_prefix() {
    let mut data = Everything::new();
    data.add_item(Item::Culture, "french");
    let t = tok("a|b|c", 4);
    let mut vd = ValueValidator::new(&t, &data);
    let parts = vd.split('|');
    let texts: Vec<&str> = parts.iter().map(|p| p.value().as_str()).collect();
    assert_eq!(texts, vec!["a", "b", "c"]);
    assert_eq!(parts[1].value().loc.column, 3);
    let t2 = tok("culture:french", 4);
    let mut vd2 = ValueValidator::new(&t2, &data);
    assert!(vd2.maybe_prefix_item("culture:", Item::Culture));
    let t3 = tok("culture:english", 4);
    let mut vd3 = ValueValidator::new(&t3, &data);
    assert!(!vd3.maybe_prefix_item("culture:", Item::Culture));
}
