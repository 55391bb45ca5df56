use tiger::fileset::FileKind;
use tiger::lowercase::Lowercase;
use tiger::number::parse_i64;
use tiger::pathtable::{PathTable, PathTableIndex};
use tiger::report::errors::Errors;
use tiger::text::{chars_of, join_strs, i64_to_string, str_contains};
use tiger::token::{Loc, Token};

fn loc(line: u32, column: u32) -> Loc {
    let mut l = Loc::new(PathTableIndex(0), FileKind::Mod);
    l.line = line;
    l.column = column;
    l
}

#[test]
fn token_split_keeps_positions() {
    let t = Token::new("a.bc.d", loc(3, 10));
    let parts = t.split('.');
    let texts: Vec<&str> = parts.iter().map(|p| p.as_str()).collect();
    assert_eq!(texts, vec!["a", "bc", "d"]);
    assert_eq!(parts[1].loc.column, 12);
    assert_eq!(parts[2].loc.column, 15);
    assert_eq!(parts[2].loc.line, 3);
}

#[test]
fn token_split_once_and_after() {
    let t = Token::new("scope:target", loc(1, 1));
    let (a, b) = t.split_once(':').unwrap();
    assert_eq!(a.as_str(), "scope");
    assert_eq!(b.as_str(), "target");
    assert_eq!(b.loc.column, 7);
    let (c, d) = t.split_after(':').unwrap();
    assert_eq!(c.as_str(), "scope:");
    assert_eq!(d.as_str(), "target");
    assert!(t.split_once('|').is_none());
}

#[test]
fn token_strip_and_trim() {
    let t = Token::new("prefix_rest", loc(1, 1));
    let r = t.strip_prefix("prefix_").unwrap();
    assert_eq!(r.as_str(), "rest");
    assert_eq!(r.loc.column, 8);
    assert!(t.strip_prefix("other").is_none());
    assert_eq!(t.strip_suffix("_rest").unwrap().as_str(), "prefix");
    let padded = Token::new("  x y ", loc(1, 1));
    let trimmed = padded.trim();
    assert_eq!(trimmed.as_str(), "x y");
    assert_eq!(trimmed.loc.column, 3);
}

#[test]
fn token_numbers() {
    let mut errors = Errors::new();
    assert!(Token::new("1.5", loc(1, 1)).is_number());
    assert!(Token::new("-3", loc(1, 1)).is_number());
    assert!(!Token::new("abc", loc(1, 1)).is_number());
    assert_eq!(Token::new("42", loc(1, 1)).get_integer(), Some(42));
    assert_eq!(Token::new("-42", loc(1, 1)).expect_integer(&mut errors), Some(-42));
    assert!(errors.drain_reports().is_empty());
    assert!(Token::new("4.2", loc(1, 1)).expect_integer(&mut errors).is_none());
    assert_eq!(errors.drain_reports()[0].msg, "expected integer");
    assert!(Token::new("1.123456", loc(1, 1)).expect_number(&mut errors));
    assert_eq!(errors.drain_reports().len(), 1);
    assert!(Token::new("1.123456", loc(2, 1)).expect_precise_number(&mut errors));
    assert!(errors.drain_reports().is_empty());
}

#[test]
fn parse_i64_bounds() {
    assert_eq!(parse_i64(&chars_of("9223372036854775807")), Some(i64::MAX));
    assert_eq!(parse_i64(&chars_of("-9223372036854775808")), Some(i64::MIN));
    assert_eq!(parse_i64(&chars_of("9223372036854775808")), None);
    assert_eq!(parse_i64(&chars_of("+7")), Some(7));
    assert_eq!(parse_i64(&chars_of("")), None);
    assert_eq!(parse_i64(&chars_of("-")), None);
    assert_eq!(parse_i64(&chars_of("1x")), None);
}

#[test]
fn text_helpers() {
    assert_eq!(join_strs(&["a", "b", "c"], ", "), "a, b, c");
    assert_eq!(join_strs(&[], ", "), "");
    assert_eq!(i64_to_string(-120), "-120");
    assert_eq!(i64_to_string(0), "0");
    assert!(str_contains("hello world", "o w"));
    assert!(!str_contains("hello", "world"));
}

#[test]
fn lowercase_strings() {
    let l = Lowercase::new("MiXeD_Case");
    assert_eq!(l.as_str(), "mixed_case");
    assert_eq!(l.to_uppercase(), "MIXED_CASE");
    assert_eq!(l.strip_prefix_unchecked("mixed_").unwrap().as_str(), "case");
    assert!(l.strip_prefix_unchecked("case").is_none());
    assert_eq!(l.strip_suffix_unchecked("_case").unwrap().as_str(), "mixed");
    assert!(l.contains_unchecked("d_c"));
    assert_eq!(l.rmatch_indices_unchecked('e'), vec![9, 3]);
    assert_eq!(l.slice(1, 4).as_str(), "ixe");
    assert_eq!(Lowercase::empty().as_str(), "");
    assert!(Lowercase::new_unchecked("ABC").is("ABC"));
}

#[test]
fn path_table_roundtrip() {
    let mut table = PathTable::new();
    let a = table.store("common/a.txt".to_string(), "/game/common/a.txt".to_string());
    let b = table.store("common/b.txt".to_string(), "/game/common/b.txt".to_string());
    assert_eq!(table.lookup_path(a), "common/a.txt");
    assert_eq!(table.lookup_fullpath(b), "/game/common/b.txt");
    assert_eq!(table.len(), 2);
    let l = Loc::new(b, FileKind::Vanilla);
    assert_eq!(l.pathname(&table), "common/b.txt");
    assert!(l.same_file(Loc::new(b, FileKind::Vanilla)));
}

#[test]
fn token_trim_removes_all_whitespace() {
    let t = Token::new(" \tab ", loc(1, 1));
    let trimmed = t.trim();
    assert_eq!(trimmed.as_str(), "ab");
    assert_eq!(trimmed.loc.column, 3);
    let blank = Token::new(" \t\n", loc(1, 4)).trim();
    assert_eq!(blank.as_str(), "");
    assert_eq!(blank.loc.column, 4);
}

#[test]
fn subtoken_stripped_strips_whitespace() {
    let t = Token::new("f( \tx  )", loc(1, 1));
    let s = t.subtoken_stripped(2, 7, loc(1, 3));
    assert_eq!(s.as_str(), "x");
    assert_eq!(s.loc.column, 5);
    let blank = Token::new("f(  )", loc(1, 1)).subtoken_stripped(2, 4, loc(1, 3));
    assert_eq!(blank.as_str(), "");
    assert_eq!(blank.loc.column, 5);
}

#[test]
fn whitespace_agrees_with_std() {
    for n in 0u32..0x11000 {
        if let Some(c) = char::from_u32(n) {
            assert_eq!(tiger::text::char_is_whitespace(c), c.is_whitespace(), "U+{n:04X}");
        }
    }
}
