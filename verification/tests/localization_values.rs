use tiger::datatype::{CodeArg, CodeChain};
use tiger::fileset::FileKind;
use tiger::localization::{LocaEntry, LocaValue, MacroValue};
use tiger::parse::localization::{parse_loca, ValueParser};
use tiger::pathtable::PathTableIndex;
use tiger::report::errors::Errors;
use tiger::report::report_struct::{LogReport, Severity};
use tiger::token::{Loc, Token};
use tiger::variables::Game;

fn loc(line: u32, column: u32) -> Loc {
    let mut l = Loc::new(PathTableIndex(3), FileKind::Mod);
    l.line = line;
    l.column = column;
    l
}

fn chain(c: &CodeChain) -> String {
    let parts: Vec<String> = c
        .codes
        .iter()
        .map(|code| {
            if code.arguments.is_empty() {
                code.name.s.clone()
            } else {
                let args: Vec<String> = code
                    .arguments
                    .iter()
                    .map(|a| match a {
                        CodeArg::Literal(t) => format!("'{}'", t.s),
                        CodeArg::Chain(c) => chain(c),
                    })
                    .collect();
                format!("{}({})", code.name.s, args.join(","))
            }
        })
        .collect();
    parts.join(".")
}

fn show(v: &LocaValue) -> String {
    match v {
        LocaValue::Concat(vs) => {
            let parts: Vec<String> = vs.iter().map(show).collect();
            format!("Concat[{}]", parts.join(" "))
        }
        LocaValue::Text(t) => format!("Text({:?}@{})", t.s, t.loc.column),
        LocaValue::Markup => "Markup".to_string(),
        LocaValue::MarkupEnd => "MarkupEnd".to_string(),
        LocaValue::Tooltip(t) => format!("Tooltip({})", t.s),
        LocaValue::ComplexTooltip(a, b) => format!("ComplexTooltip({}@{},{}@{})", a.s, a.loc.column, b.s, b.loc.column),
        LocaValue::Code(c, f) => match f {
            Some(f) => format!("Code({}|{})", chain(c), f.s),
            None => format!("Code({})", chain(c)),
        },
        LocaValue::Icon(t) => format!("Icon({})", t.s),
        LocaValue::Macro(ms) => {
            let parts: Vec<String> = ms
                .iter()
                .map(|m| match m {
                    MacroValue::Text(t) => format!("T({:?})", t.s),
                    MacroValue::Keyword(t) => format!("K({})", t.s),
                })
                .collect();
            format!("Macro[{}]", parts.join(" "))
        }
        LocaValue::Error => "Error".to_string(),
    }
}

fn parse_one(text: &str, game: Game) -> (Vec<String>, Vec<LogReport>) {
    let t = Token::new(text, loc(1, 10));
    let mut errors = Errors::new();
    let v = ValueParser::new(vec![&t], game).parse_vec(&mut errors);
    (v.iter().map(show).collect(), errors.drain_reports())
}

#[test]
fn plain_text_code_and_icon() {
    let (v, reports) = parse_one("Hello [ROOT.Char.GetName|U] and @gold_icon! \\n", Game::Ck3);
    assert_eq!(
        v,
        vec![
            "Text(\"Hello \"@10)",
            "Code(ROOT.Char.GetName|U)",
            "Text(\" and \"@37)",
            "Icon(gold_icon)",
            "Text(\" \"@53)",
            "Text(\"\\n\"@54)",
        ]
    );
    assert!(reports.is_empty());
}

#[test]
fn code_arguments() {
    let (v, reports) = parse_one("[GetTrait('brave').GetName( ROOT.Char )]", Game::Ck3);
    assert_eq!(v, vec!["Code(GetTrait('brave').GetName(ROOT.Char))"]);
    assert!(reports.is_empty());
}

#[test]
fn markup_and_tooltips() {
    let (v, reports) = parse_one("#tooltip:tag,key text#! ## #bold;italic x", Game::Ck3);
    assert_eq!(
        v,
        vec![
            "ComplexTooltip(tag@18,key@22)",
            "Markup",
            "Text(\"text\"@27)",
            "MarkupEnd",
            "Text(\" \"@33)",
            "Text(\"#\"@34)",
            "Text(\" \"@36)",
            "Markup",
            "Text(\"x\"@50)",
        ]
    );
    assert!(reports.is_empty());
    let (v, _) = parse_one("#TOOLTIP:some_key rest", Game::Ck3);
    assert_eq!(v[0], "Tooltip(some_key)");
}

#[test]
fn unterminated_code_is_an_error() {
    let (v, reports) = parse_one("text [GetName and more", Game::Ck3);
    assert_eq!(v, vec!["Error"]);
    assert_eq!(reports.len(), 1);
    assert_eq!(reports[0].msg, "Unexpected character `a`, expected `]`");
    assert_eq!(reports[0].severity, Severity::Warning);
    assert_eq!(reports[0].pointers[0].loc.column, 24);
}

#[test]
fn surplus_parens_are_untidy() {
    let (v, reports) = parse_one("[GetName))]", Game::Ck3);
    assert_eq!(v, vec!["Code(GetName)"]);
    assert_eq!(reports.len(), 1);
    assert_eq!(reports[0].msg, "too many `)`");
    assert_eq!(reports[0].severity, Severity::Untidy);
}

#[test]
fn markup_needs_a_space() {
    let (v, reports) = parse_one("#bold[", Game::Ck3);
    assert_eq!(v, vec!["Error"]);
    assert_eq!(reports[0].msg, "#markup should be followed by a space");
}

#[test]
fn imperator_icons_may_hold_code() {
    let (v, reports) = parse_one("@[GetFlag]!", Game::Imperator);
    assert_eq!(v, vec!["Code(GetFlag)", "Text(\"!\"@20)"]);
    assert!(reports.is_empty());
    let (v, reports) = parse_one("@[GetFlag]!", Game::Ck3);
    assert_eq!(v, vec!["Error"]);
    assert_eq!(reports[0].msg, "Unexpected character `[`, expected icon name");
}

#[test]
fn values_across_tokens() {
    let a = Token::new("one [Get", loc(1, 5));
    let b = Token::new("Name] two", loc(7, 30));
    let mut errors = Errors::new();
    let v = ValueParser::new(vec![&a, &b], Game::Ck3).parse(&mut errors);
    assert_eq!(show(&v), "Concat[Text(\"one \"@5) Code(GetName) Text(\" two\"@35)]");
}

#[test]
fn single_piece_is_not_concatenated() {
    let t = Token::new("just text", loc(1, 1));
    let mut errors = Errors::new();
    let v = ValueParser::new(vec![&t], Game::Ck3).parse(&mut errors);
    assert_eq!(show(&v), "Text(\"just text\"@1)");
}

fn entries(content: &str) -> (Vec<(String, String, Option<String>)>, Vec<LogReport>) {
    let mut errors = Errors::new();
    let mut reader = parse_loca(loc(0, 0), content, "english", Game::Ck3, &mut errors);
    let mut out = Vec::new();
    while let Some(LocaEntry { key, value, orig }) = reader.next_entry(&mut errors) {
        out.push((key.s.clone(), show(&value), orig.map(|t| t.s)));
    }
    (out, errors.drain_reports())
}

#[test]
fn localization_file() {
    let content = "\u{feff}l_english:\n # a comment\n key: \"Hello [GetName]!\"\n other:0 \"Say \"hi\"\" # trailing\n mac: \"$name$ and $other|V$\"\n";
    let (es, reports) = entries(content);
    assert_eq!(
        es,
        vec![
            (
                "key".to_string(),
                "Concat[Text(\"Hello \"@8) Code(GetName) Text(\"!\"@23)]".to_string(),
                Some("Hello [GetName]!".to_string())
            ),
            ("other".to_string(), "Text(\"Say \\\"hi\\\"\"@11)".to_string(), Some("Say \"hi\"".to_string())),
            (
                "mac".to_string(),
                "Macro[T(\"\") K(name) T(\" and \") K(other) T(\"\")]".to_string(),
                Some("$name$ and $other|V$".to_string())
            ),
        ]
    );
    assert!(reports.is_empty());
}

#[test]
fn localization_file_problems() {
    let content = "l_french:\n key \"x\"\n nothing:\n open: \"no end\n %bad\n";
    let (es, reports) = entries(content);
    let keys: Vec<(String, String)> = es.iter().map(|(k, v, _)| (k.clone(), v.clone())).collect();
    assert_eq!(
        keys,
        vec![
            ("key".to_string(), "Error".to_string()),
            ("nothing".to_string(), "Error".to_string()),
            ("open".to_string(), "Error".to_string()),
        ]
    );
    let msgs: Vec<String> = reports.iter().map(|r| r.msg.clone()).collect();
    assert_eq!(
        msgs,
        vec![
            "Expected UTF-8 BOM encoding",
            "wrong language header, should be `l_english:`",
            "Unexpected character `\"`, expected `:`",
            "key with no value",
            "localization entry without ending quote",
            "Unexpected character `%`, expected localization key",
        ]
    );
}

#[test]
fn double_bom_and_missing_header() {
    let content = "\u{feff}\u{feff}key: \"v\" extra\n";
    let (es, reports) = entries(content);
    assert_eq!(es.len(), 1);
    let msgs: Vec<String> = reports.iter().map(|r| r.msg.clone()).collect();
    assert_eq!(
        msgs,
        vec![
            "double BOM in localization file",
            "expected language header `l_english:`",
            "content after final `\"` on line",
        ]
    );
    assert_eq!(reports[0].info, Some("This will make the game engine skip the whole file.".to_string()));
    assert_eq!(reports[0].pointers[0].loc.column, 2);
}
