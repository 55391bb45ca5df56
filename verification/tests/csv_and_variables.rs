use tiger::block::{Block, Comparator, EqKind, BV};
use tiger::fileset::FileKind;
use tiger::parse::csv::{parse_csv, read_csv};
use tiger::pathtable::PathTableIndex;
use tiger::report::errors::Errors;
use tiger::report::report_struct::Severity;
use tiger::token::{Loc, Token};
use tiger::variables::{Extract, Game, Variables};

fn loc(line: u32) -> Loc {
    let mut l = Loc::new(PathTableIndex(3), FileKind::Mod);
    l.line = line;
    l.column = 1;
    l
}

fn tok(s: &str) -> Token {
    Token::new(s, loc(1))
}

fn eq() -> Comparator {
    Comparator::Equals(EqKind::Single)
}

#[test]
fn csv_rows_skip_comments_and_headers() {
    let text = "# comment\nkey;english;french\nfoo;Foo;Le foo;\n\n  bar;Bar\n";
    let mut reader = parse_csv(loc(0), 1, text);
    let row = reader.next_row().unwrap();
    let fields: Vec<&str> = row.iter().map(|t| t.as_str()).collect();
    assert_eq!(fields, vec!["foo", "Foo", "Le foo", ""]);
    assert_eq!(row[0].loc.line, 3);
    assert_eq!(row[1].loc.column, 5);
    assert_eq!(row[0].loc.idx, PathTableIndex(3));
    let row = reader.next_row().unwrap();
    let fields: Vec<&str> = row.iter().map(|t| t.as_str()).collect();
    assert_eq!(fields, vec!["bar", "Bar"]);
    assert_eq!(row[0].loc.column, 3);
    assert!(reader.next_row().is_none());
    assert!(reader.next_row().is_none());
}

#[test]
fn csv_field_cut_by_comment_and_lost_at_end() {
    let mut reader = parse_csv(loc(0), 0, "a;b # note\nc;d");
    let row = reader.next_row().unwrap();
    let fields: Vec<&str> = row.iter().map(|t| t.as_str()).collect();
    assert_eq!(fields, vec!["a", "b "]);
    let row = reader.next_row().unwrap();
    let fields: Vec<&str> = row.iter().map(|t| t.as_str()).collect();
    assert_eq!(fields, vec!["c"]);
}

#[test]
fn csv_decoding_is_windows_1252() {
    let text = read_csv(&[b'a', b';', 0xE9, 0x80]).unwrap();
    assert_eq!(text, "a;é€");
    assert_eq!(text.chars().count(), 4);
}

#[test]
fn scan_registers_variables_and_lists() {
    let mut root = Block::new(loc(1));
    let mut set = Block::new(loc(2));
    set.add_key_bv(tok("name"), eq(), BV::Value(tok("my_var")));
    root.add_key_bv(tok("set_variable"), eq(), BV::Block(set));
    root.add_key_bv(tok("set_global_variable"), eq(), BV::Value(tok("global_var")));
    let mut nested = Block::new(loc(3));
    let mut list = Block::new(loc(4));
    list.add_key_bv(tok("name"), eq(), BV::Value(tok("my_list")));
    nested.add_key_bv(tok("add_to_variable_list"), eq(), BV::Block(list));
    root.add_key_bv(tok("if"), eq(), BV::Block(nested));
    root.add_key_bv(tok("set_local_variable"), Comparator::LessThan, BV::Value(tok("ignored")));
    let mut vars = Variables::new(Game::Ck3);
    vars.scan(&root);
    let mut errors = Errors::new();
    vars.verify_variable_exists(&tok("my_var"), Severity::Warning, &mut errors);
    vars.verify_variable_exists(&tok("global_var"), Severity::Warning, &mut errors);
    vars.verify_list_exists(&tok("my_list"), Severity::Warning, &mut errors);
    assert!(errors.drain_reports().is_empty());
    vars.verify_variable_exists(&Token::new("ignored", loc(7)), Severity::Warning, &mut errors);
    vars.verify_list_exists(&Token::new("nope", loc(8)), Severity::Warning, &mut errors);
    let reports = errors.drain_reports();
    assert_eq!(reports.len(), 2);
    assert_eq!(reports[0].msg, "variable `ignored` was not set anywhere");
    assert_eq!(reports[0].severity, Severity::Warning);
    assert_eq!(reports[1].msg, "variable list `nope` was not created anywhere");
}

#[test]
fn hoi4_names_prefixes_and_tags() {
    let mut vars = Variables::new(Game::Hoi4);
    vars.register_variable("ROOT.score");
    vars.register_variable("stock@GER");
    vars.register_variable("countGER");
    let mut errors = Errors::new();
    vars.verify_variable_exists(&tok("score"), Severity::Error, &mut errors);
    vars.verify_variable_prefix_exists(&tok("stock"), Severity::Error, &mut errors);
    vars.verify_variable_prefix_exists(&tok("count"), Severity::Error, &mut errors);
    vars.verify_variable_exists(&tok("stockFRA"), Severity::Error, &mut errors);
    assert!(errors.drain_reports().is_empty());
    vars.verify_variable_exists(&Token::new("otherFRA", loc(5)), Severity::Error, &mut errors);
    vars.verify_list_exists(&Token::new("arr", loc(6)), Severity::Error, &mut errors);
    let reports = errors.drain_reports();
    assert_eq!(reports[0].msg, "variable `otherFRA` or `otherFRA@TAG` was not set anywhere");
    assert_eq!(reports[1].msg, "array `arr` was not created anywhere");
}

#[test]
fn extract_finds_names() {
    let value = BV::Value(tok("direct"));
    assert_eq!(Extract::AssignOrField("name").extract(&value), Some("direct"));
    assert_eq!(Extract::Field("name").extract(&value), None);
    let mut b = Block::new(loc(1));
    b.add_key_bv(tok("other_name"), eq(), BV::Value(tok("v")));
    let bv = BV::Block(b);
    assert_eq!(Extract::InternalAssignOrField("var").extract(&bv), Some("other_name"));
    assert_eq!(Extract::Field("var").extract(&bv), None);
}
