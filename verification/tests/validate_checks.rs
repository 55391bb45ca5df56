use tiger::block::{Block, Comparator, EqKind, BV};
use tiger::fileset::FileKind;
use tiger::pathtable::PathTableIndex;
use tiger::report::error_key::ErrorKey;
use tiger::report::errors::Errors;
use tiger::report::report_struct::Severity;
use tiger::token::{Loc, Token};
use tiger::validate::{validate_ifelse_sequence, ListType};

fn loc(line: u32) -> Loc {
    let mut l = Loc::new(PathTableIndex(2), FileKind::Mod);
    l.line = line;
    l.column = 1;
    l
}

fn tok(s: &str, line: u32) -> Token {
    Token::new(s, loc(line))
}

fn eq() -> Comparator {
    Comparator::Equals(EqKind::Single)
}

fn def(b: &mut Block, key: &str, line: u32, with_limit: bool) {
    let mut inner = Block::new(loc(line));
    if with_limit {
        inner.add_key_bv(tok("limit", line), eq(), BV::Block(Block::new(loc(line))));
    }
    b.add_key_bv(tok(key, line), eq(), BV::Block(inner));
}

#[test]
fn list_type_names() {
    for t in [ListType::Plain, ListType::Any, ListType::Every, ListType::Ordered, ListType::Random] {
        assert_eq!(ListType::from_name(t.name()), Some(t));
    }
    assert_eq!(ListType::Any.name(), "any");
    assert_eq!(ListType::Plain.name(), "");
    assert_eq!(ListType::from_name("some"), None);
}

#[test]
fn ifelse_sequences() {
    let mut b = Block::new(loc(1));
    def(&mut b, "if", 1, false);
    def(&mut b, "else_if", 2, false);
    b.add_value(tok("loose", 3));
    def(&mut b, "else", 4, false);
    def(&mut b, "else", 5, false);
    def(&mut b, "else_if", 6, false);
    def(&mut b, "if", 7, false);
    def(&mut b, "else", 8, true);
    def(&mut b, "else", 9, false);
    def(&mut b, "other", 10, false);
    b.add_key_bv(tok("else", 11), eq(), BV::Value(tok("x", 11)));
    def(&mut b, "else", 12, false);
    let mut errors = Errors::new();
    validate_ifelse_sequence(&b, "if", "else_if", "else", &mut errors);
    let reports = errors.drain_reports();
    let msgs: Vec<(String, u32)> = reports.iter().map(|r| (r.msg.clone(), r.pointers[0].loc.line)).collect();
    assert_eq!(
        msgs,
        vec![
            ("`else without preceding `if`".to_string(), 5),
            ("`else_if without preceding `if`".to_string(), 6),
            ("`else without preceding `if`".to_string(), 12),
        ]
    );
    assert!(reports.iter().all(|r| r.key == ErrorKey::IfElse && r.severity == Severity::Warning));
}
