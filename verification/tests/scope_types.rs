use tiger::scopes::Scopes;
use tiger::variables::Game;

#[test]
fn snake_case_names() {
    let character = Scopes::from_snake_case(Game::Ck3, "character").unwrap();
    assert_eq!(character, Scopes { bits: 0x40 });
    assert_eq!(Scopes::from_snake_case(Game::Ck3, "landed_title"), Some(Scopes { bits: 0x80_0000_0000 }));
    assert_eq!(Scopes::from_snake_case(Game::Ck3, "ghw"), Scopes::from_name(Game::Ck3, "GreatHolyWar"));
    assert_eq!(Scopes::from_snake_case(Game::Ck3, "story"), Scopes::from_name(Game::Ck3, "StoryCycle"));
    assert_eq!(Scopes::from_snake_case(Game::Ck3, "great_holy_war"), None);
    assert_eq!(Scopes::from_snake_case(Game::Ck3, "story_cycle"), None);
    assert_eq!(Scopes::from_snake_case(Game::Vic3, "interest_group"), Some(Scopes { bits: 0x100_0000_0000 }));
    assert_eq!(Scopes::from_snake_case(Game::Ck3, "interest_group"), None);
    assert_eq!(Scopes::from_snake_case(Game::Hoi4, "strategic_region"), Some(Scopes { bits: 0x100_0000 }));
    assert_eq!(Scopes::from_snake_case(Game::Vic3, "strategic_region"), Some(Scopes { bits: 0x40_0000_0000_0000 }));
    assert_eq!(Scopes::from_snake_case(Game::Imperator, "none"), Some(Scopes { bits: 1 }));
    assert_eq!(Scopes::from_snake_case(Game::Ck3, ""), None);
}

#[test]
fn several_scope_types() {
    let s = Scopes::from_snake_case_multi(Game::Ck3, "character|province").unwrap();
    assert_eq!(s, Scopes { bits: 0x40 | 0x100 });
    assert!(s.contains(Scopes::from_snake_case(Game::Ck3, "province").unwrap()));
    assert_eq!(Scopes::from_snake_case_multi(Game::Ck3, "character|nothing"), None);
    assert_eq!(Scopes::from_snake_case_multi(Game::Ck3, ""), None);
    assert_eq!(Scopes::from_snake_case_multi(Game::Ck3, "character|"), None);
    assert_eq!(Scopes::from_snake_case_multi(Game::Ck3, "value"), Scopes::from_snake_case(Game::Ck3, "value"));
}

#[test]
fn scope_type_groups() {
    assert_eq!(Scopes::primitive(), Scopes { bits: 0b1110 });
    let all = Scopes::all(Game::Hoi4);
    assert_eq!(Scopes::non_primitive(Game::Hoi4).union(Scopes { bits: 0xf }), all);
    assert!(!Scopes::all_but_none(Game::Hoi4).contains(Scopes { bits: 1 }));
    assert!(all.contains(Scopes::from_snake_case(Game::Hoi4, "combined_country_and_character").unwrap()));
    assert_eq!(Scopes::empty().bits, 0);
}
