use tiger::fileset::FileKind;
use tiger::pathtable::PathTableIndex;
use tiger::report::errors::Errors;
use tiger::token::{Loc, Token};
use tiger::trigger::{partition, Part};
use tiger::variables::Game;

fn token(s: &str) -> Token {
    let mut l = Loc::new(PathTableIndex(4), FileKind::Mod);
    l.line = 3;
    l.column = 10;
    Token::new(s, l)
}

fn shown(parts: &[Part]) -> Vec<String> {
    parts
        .iter()
        .map(|p| match p {
            Part::Token(t) => format!("{}@{}", t.as_str(), t.loc.column),
            Part::TokenArgument(f, a) => format!("{}@{}({}@{})", f.as_str(), f.loc.column, a.as_str(), a.loc.column),
        })
        .collect()
}

fn reports(errors: &mut Errors) -> Vec<(String, u32)> {
    errors.drain_reports().iter().map(|r| (r.msg.clone(), r.pointers[0].loc.column)).collect()
}

#[test]
fn dotted_parts() {
    let mut errors = Errors::new();
    let parts = partition(&token("liege.primary_title.holder"), Game::Ck3, &mut errors);
    assert_eq!(shown(&parts), vec!["liege@10", "primary_title@16", "holder@30"]);
    assert!(reports(&mut errors).is_empty());
}

#[test]
fn function_with_argument() {
    let mut errors = Errors::new();
    let parts = partition(&token("root.prowess_diff( liege ).x"), Game::Ck3, &mut errors);
    assert_eq!(shown(&parts), vec!["root@10", "prowess_diff@15(liege@29)", "x@37"]);
    assert!(reports(&mut errors).is_empty());
}

#[test]
fn syntax_problems() {
    let mut errors = Errors::new();
    let parts = partition(&token("a..b(c)d.e)"), Game::Ck3, &mut errors);
    assert_eq!(shown(&parts), vec!["a@10", "b@13(c@15)", "e)@19"]);
    assert_eq!(
        reports(&mut errors),
        vec![
            ("empty part".to_string(), 12),
            ("argument can only be the last part or followed by dot `.`".to_string(), 17),
            ("closing without opening parenthesis `(`".to_string(), 20),
        ]
    );
}

#[test]
fn unbalanced_and_trailing() {
    let mut errors = Errors::new();
    let parts = partition(&token("f(g(h))."), Game::Ck3, &mut errors);
    assert_eq!(shown(&parts), vec!["f@10(g(h)@12)"]);
    assert_eq!(
        reports(&mut errors),
        vec![
            ("cannot have nested parentheses".to_string(), 13),
            ("trailing dot `.`".to_string(), 18),
        ]
    );
    let parts = partition(&token("a.f(x"), Game::Ck3, &mut errors);
    assert_eq!(shown(&parts), vec!["a@10", "f(x@12"]);
    assert_eq!(reports(&mut errors), vec![("opening without closing parenthesis `)`".to_string(), 13)]);
    let parts = partition(&token(""), Game::Ck3, &mut errors);
    assert!(parts.is_empty());
    assert_eq!(reports(&mut errors), vec![("trailing dot `.`".to_string(), 10)]);
}

#[test]
fn imperator_hidden_prefix() {
    let mut errors = Errors::new();
    let parts = partition(&token("hidden:c:ROM.capital"), Game::Imperator, &mut errors);
    assert_eq!(shown(&parts), vec!["c:ROM@17", "capital@23"]);
    let parts = partition(&token("hidden:c:ROM.capital"), Game::Ck3, &mut errors);
    assert_eq!(shown(&parts), vec!["hidden:c:ROM@10", "capital@23"]);
}
