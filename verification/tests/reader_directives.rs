use tiger::block::{Comparator, EqKind};
use tiger::fileset::FileKind;
use tiger::parse::directives::{define_var, warn_macros};
use tiger::parse::memory::{CombinedMemory, PdxfileMemory};
use tiger::pathtable::PathTableIndex;
use tiger::report::error_key::ErrorKey;
use tiger::report::errors::Errors;
use tiger::report::report_struct::Severity;
use tiger::token::{Loc, Token};

fn tok(s: &str, column: u32) -> Token {
    let mut l = Loc::new(PathTableIndex(1), FileKind::Mod);
    l.line = 2;
    l.column = column;
    Token::new(s, l)
}

fn msgs(errors: &mut Errors) -> Vec<String> {
    errors.drain_reports().iter().map(|r| r.msg.clone()).collect()
}

#[test]
fn defining_reader_variables() {
    let global = PdxfileMemory::new();
    let mut memory = CombinedMemory::new(&global);
    let mut errors = Errors::new();
    let eq = Comparator::Equals(EqKind::Single);
    define_var(&mut memory, &tok("@size", 1), eq, tok("12", 9), &mut errors);
    assert_eq!(memory.get_variable("size").map(|t| t.as_str().to_string()), Some("12".to_string()));
    assert!(msgs(&mut errors).is_empty());

    // A name without `@` comes from `@:register_variable`.
    define_var(&mut memory, &tok("width", 1), eq, tok("3", 9), &mut errors);
    assert!(memory.has_variable("width"));

    define_var(&mut memory, &tok("@size", 1), eq, tok("13", 9), &mut errors);
    assert_eq!(memory.get_variable("size").map(|t| t.as_str().to_string()), Some("12".to_string()));
    let reports = errors.drain_reports();
    assert_eq!(reports.len(), 1);
    assert_eq!(reports[0].msg, "`size` is already defined as a reader variable");
    assert_eq!(reports[0].key, ErrorKey::ReaderDirectives);
    assert_eq!(reports[0].severity, Severity::Error);

    define_var(&mut memory, &tok("@1st", 1), Comparator::LessThan, tok("1", 9), &mut errors);
    assert!(!memory.has_variable("1st"));
    assert_eq!(
        msgs(&mut errors),
        vec!["expected `1st =`".to_string(), "reader variable names must start with an ascii letter".to_string()]
    );

    define_var(&mut memory, &tok("@h", 1), Comparator::Equals(EqKind::Question), tok("1", 9), &mut errors);
    assert!(memory.has_variable("h"));
    assert_eq!(msgs(&mut errors), vec!["expected `h =`".to_string()]);
}

#[test]
fn macros_outside_blocks() {
    let mut errors = Errors::new();
    warn_macros(&tok("$X$", 4), false, &mut errors);
    assert!(msgs(&mut errors).is_empty());
    warn_macros(&tok("$X$", 4), true, &mut errors);
    let reports = errors.drain_reports();
    assert_eq!(reports[0].msg, "$-substitutions only work inside blocks");
    assert_eq!(reports[0].key, ErrorKey::Macro);
}
