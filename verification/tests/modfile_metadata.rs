use tiger::block::{Block, Comparator, EqKind, BV};
use tiger::fileset::FileKind;
use tiger::mod_metadata::ModMetadata;
use tiger::modfile::validate_modfile;
use tiger::pathtable::PathTableIndex;
use tiger::report::error_key::ErrorKey;
use tiger::report::errors::Errors;
use tiger::report::report_struct::Severity;
use tiger::token::{Loc, Token};

fn loc(line: u32) -> Loc {
    let mut l = Loc::new(PathTableIndex(1), FileKind::Mod);
    l.line = line;
    l.column = 1;
    l
}

fn tok(s: &str, line: u32) -> Token {
    Token::new(s, loc(line))
}

fn eq() -> Comparator {
    Comparator::Equals(EqKind::Single)
}

fn list(values: &[&str], line: u32) -> Block {
    let mut b = Block::new(loc(line));
    for v in values {
        b.add_value(tok(v, line));
    }
    b
}

#[test]
fn block_field_lookups() {
    let mut b = Block::new(loc(1));
    b.add_key_bv(tok("tag", 1), eq(), BV::Value(tok("a", 1)));
    b.add_key_bv(tok("tag", 2), eq(), BV::Block(list(&["x"], 2)));
    b.add_key_bv(tok("tag", 3), eq(), BV::Value(tok("b", 3)));
    b.add_key_bv(tok("group", 4), eq(), BV::Block(list(&["p", "q"], 4)));
    let values: Vec<&str> = b.get_field_values("tag").iter().map(|t| t.as_str()).collect();
    assert_eq!(values, vec!["a", "b"]);
    assert!(b.get_field_block("tag").is_none());
    assert_eq!(b.get_field_block("group").unwrap().num_items(), 2);
    let items: Vec<String> = b.get_field_list("group").unwrap().iter().map(|t| t.as_str().to_string()).collect();
    assert_eq!(items, vec!["p", "q"]);
    assert!(b.get_field_list("tag").is_none());
    assert!(b.get_field_list("missing").is_none());
}

#[test]
fn modfile_fields_and_checks() {
    let mut b = Block::new(loc(1));
    b.add_key_bv(tok("name", 1), eq(), BV::Value(tok("My Mod", 1)));
    b.add_key_bv(tok("path", 2), eq(), BV::Value(tok("mod/my_mod", 2)));
    b.add_key_bv(tok("replace_path", 3), eq(), BV::Value(tok("history", 3)));
    b.add_key_bv(tok("replace_path", 4), eq(), BV::Value(tok("common/traits", 4)));
    b.add_key_bv(tok("picture", 5), eq(), BV::Value(tok("cover.png", 5)));
    let mut errors = Errors::new();
    let m = validate_modfile(b, &mut errors);
    assert_eq!(m.display_name(), Some("My Mod".to_string()));
    assert_eq!(m.replace_paths(), vec!["history".to_string(), "common/traits".to_string()]);
    let reports = errors.drain_reports();
    assert_eq!(reports.len(), 2);
    assert_eq!(reports[0].key, ErrorKey::Packaging);
    assert_eq!(reports[0].severity, Severity::Warning);
    assert_eq!(reports[0].msg, "Steam ignores picture= and always uses thumbnail.png.");
    assert_eq!(reports[1].key, ErrorKey::Unneeded);
    assert_eq!(reports[1].severity, Severity::Untidy);
    assert_eq!(
        reports[1].info.as_deref(),
        Some("So replace_path = history is not useful, you should replace the paths under it.")
    );
    assert_eq!(reports[1].pointers[0].loc.line, 3);
}

#[test]
fn modfile_without_problems() {
    let mut b = Block::new(loc(1));
    b.add_key_bv(tok("picture", 1), eq(), BV::Value(tok("thumbnail.png", 1)));
    let mut errors = Errors::new();
    let m = validate_modfile(b, &mut errors);
    assert_eq!(m.display_name(), None);
    assert!(m.replace_paths().is_empty());
    assert!(errors.drain_reports().is_empty());
}

#[test]
fn metadata_replace_paths_and_name() {
    let mut custom = Block::new(loc(2));
    custom.add_key_bv(tok("replace_paths", 3), eq(), BV::Block(list(&["common/laws", "events"], 3)));
    let mut b = Block::new(loc(1));
    b.add_key_bv(tok("name", 1), eq(), BV::Value(tok("Meta Mod", 1)));
    b.add_key_bv(tok("game_custom_data", 2), eq(), BV::Block(custom));
    let meta = ModMetadata { modpath: "/mods/meta".to_string(), block: b };
    assert_eq!(meta.modpath(), "/mods/meta");
    assert_eq!(meta.replace_paths(), vec!["common/laws".to_string(), "events".to_string()]);
    assert_eq!(meta.display_name(), Some("Meta Mod".to_string()));
    let empty = ModMetadata { modpath: String::new(), block: Block::new(loc(1)) };
    assert!(empty.replace_paths().is_empty());
    assert_eq!(empty.display_name(), None);
}
