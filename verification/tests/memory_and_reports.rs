use tiger::block::Block;
use tiger::fileset::FileKind;
use tiger::macros::MacroMap;
use tiger::parse::memory::{CombinedMemory, PdxfileMemory};
use tiger::pathtable::PathTableIndex;
use tiger::report::builder::{err, warn};
use tiger::report::error_key::ErrorKey;
use tiger::report::errors::{set_show_vanilla, Errors};
use tiger::token::{Loc, Token};

fn loc(line: u32) -> Loc {
    let mut l = Loc::new(PathTableIndex(0), FileKind::Mod);
    l.line = line;
    l
}

#[test]
fn combined_memory_prefers_local_values() {
    let mut global = PdxfileMemory::new();
    let mut other = PdxfileMemory::new();
    {
        let mut m = CombinedMemory::new(&other);
        m.set_variable("x".to_string(), Token::new("1", loc(1)));
        assert_eq!(m.get_variable("x").unwrap().as_str(), "1");
    }
    let mut g = CombinedMemory::from_local(&other, PdxfileMemory::new());
    g.set_variable("a".to_string(), Token::new("global", loc(2)));
    g.define_block("blk".to_string(), Block::new(loc(3)));
    assert!(g.has_block("blk"));
    assert!(!g.has_block("none"));
    assert!(g.get_block("blk").is_some());
    other = PdxfileMemory::new();
    global.merge(other);
    let mut m = CombinedMemory::new(&global);
    assert!(!m.has_variable("a"));
    m.set_variable("a".to_string(), Token::new("first", loc(4)));
    m.set_variable("a".to_string(), Token::new("second", loc(5)));
    assert_eq!(m.get_variable("a").unwrap().as_str(), "second");
    assert!(m.has_variable("a"));
    assert!(m.get_variable("b").is_none());
}

#[test]
fn logging_the_same_report_twice_keeps_one() {
    let mut errors = Errors::new();
    err(ErrorKey::Validation).msg("same").loc(loc(1)).push(&mut errors);
    err(ErrorKey::Validation).msg("same").loc(loc(1)).push(&mut errors);
    warn(ErrorKey::Validation).msg("same").loc(loc(1)).push(&mut errors);
    let reports = errors.drain_reports();
    assert_eq!(reports.len(), 2);
}

#[test]
fn vanilla_reports_are_filtered_unless_config() {
    let mut errors = Errors::new();
    let vanilla = Loc::new(PathTableIndex(0), FileKind::Vanilla);
    err(ErrorKey::Validation).msg("hidden").loc(vanilla).push(&mut errors);
    err(ErrorKey::Config).msg("shown").loc(vanilla).push(&mut errors);
    let reports = errors.drain_reports();
    assert_eq!(reports.len(), 1);
    assert_eq!(reports[0].msg, "shown");
    set_show_vanilla(&mut errors, true);
    err(ErrorKey::Validation).msg("now shown").loc(vanilla).push(&mut errors);
    assert_eq!(errors.drain_reports().len(), 1);
}

#[test]
fn macro_map_roundtrip() {
    let mut map = MacroMap::new();
    let a = map.insert_or_get_loc(loc(1));
    let b = map.insert_or_get_loc(loc(2));
    let again = map.get_or_insert_loc(loc(1));
    assert_eq!(a, again);
    assert_ne!(a, b);
    assert_eq!(map.get_loc(b), Some(loc(2)));
    assert_eq!(map.get_index(loc(2)), Some(b));
    assert_eq!(map.len(), 2);
    map.clear();
    assert_eq!(map.len(), 0);
}
