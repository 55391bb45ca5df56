use tiger::everything::{Everything, Item};
use tiger::fileset::FileKind;
use tiger::modifs::{lookup_modif, ModifKinds, CHARACTER, COUNTY, PROVINCE, TERRAIN, TRAVEL_PLAN};
use tiger::pathtable::PathTableIndex;
use tiger::report::error_key::ErrorKey;
use tiger::report::errors::Errors;
use tiger::report::report_struct::{LogReport, Severity};
use tiger::token::{Loc, Token};

fn tok(s: &str) -> Token {
    let mut l = Loc::new(PathTableIndex(4), FileKind::Mod);
    l.line = 3;
    l.column = 7;
    Token::new(s, l)
}

fn lookup(name: &str, data: &Everything, warn: bool) -> (Option<ModifKinds>, Vec<LogReport>) {
    let mut errors = Errors::new();
    let r = lookup_modif(&tok(name), data, warn, &mut errors);
    (r, errors.drain_reports())
}

fn msgs(reports: &[LogReport]) -> Vec<String> {
    reports.iter().map(|r| r.msg.clone()).collect()
}

#[test]
fn table_modifs() {
    let data = Everything::new();
    let (r, reports) = lookup("travel_safety", &data, true);
    assert_eq!(r, Some(ModifKinds { bits: TRAVEL_PLAN }));
    assert!(reports.is_empty());
    let (r, _) = lookup("additional_fort_level", &data, true);
    assert_eq!(r, Some(ModifKinds { bits: CHARACTER | PROVINCE | COUNTY }));
    let (r, _) = lookup("character_travel_safety", &data, true);
    assert_eq!(r, Some(ModifKinds { bits: CHARACTER }));
}

#[test]
fn unknown_modif() {
    let data = Everything::new();
    let (r, reports) = lookup("no_such_thing_at_all", &data, true);
    assert_eq!(r, None);
    assert!(reports.is_empty());
}

#[test]
fn opinion_modifs() {
    let mut data = Everything::new();
    let (r, reports) = lookup("norse_opinion", &data, true);
    assert_eq!(r, Some(ModifKinds { bits: CHARACTER }));
    assert_eq!(msgs(&reports), vec!["could not find any norse".to_string()]);
    assert_eq!(reports[0].key, ErrorKey::MissingItem);
    assert_eq!(reports[0].severity, Severity::Warning);
    assert_eq!(
        reports[0].info,
        Some("Could be a culture, faith, religion, religion family, government type, or vassal stance".to_string())
    );
    data.add_item(Item::Culture, "norse");
    let (r, reports) = lookup("norse_opinion", &data, true);
    assert_eq!(r, Some(ModifKinds { bits: CHARACTER }));
    assert!(reports.is_empty());
    // Without warnings nothing is reported.
    let (r, reports) = lookup("saxon_opinion", &data, false);
    assert_eq!(r, Some(ModifKinds { bits: CHARACTER }));
    assert!(reports.is_empty());
}

#[test]
fn vassal_stance_opinions_come_first() {
    let data = Everything::new();
    let (r, reports) = lookup("glory_hound_same_faith_opinion", &data, true);
    assert_eq!(r, Some(ModifKinds { bits: CHARACTER }));
    assert_eq!(msgs(&reports), vec!["vassal stance glory_hound not defined".to_string()]);
    assert_eq!(reports[0].severity, Severity::Error);
}

#[test]
fn men_at_arms_modifs() {
    let mut data = Everything::new();
    data.add_item(Item::MenAtArmsBase, "pikemen");
    let (r, reports) = lookup("stationed_pikemen_damage_add", &data, true);
    assert_eq!(r, Some(ModifKinds { bits: PROVINCE }));
    assert!(reports.is_empty());
    let (r, reports) = lookup("pikemen_toughness_mult", &data, true);
    assert_eq!(r, Some(ModifKinds { bits: CHARACTER }));
    assert!(reports.is_empty());
    let (r, reports) = lookup("archers_screen_add", &data, true);
    assert_eq!(r, Some(ModifKinds { bits: CHARACTER }));
    assert_eq!(msgs(&reports), vec!["men-at-arms base type archers not defined".to_string()]);
}

#[test]
fn xp_modifs() {
    let mut data = Everything::new();
    let (r, reports) = lookup("lustful_xp_gain_mult", &data, true);
    assert_eq!(r, Some(ModifKinds { bits: CHARACTER | PROVINCE | COUNTY }));
    assert_eq!(
        msgs(&reports),
        vec!["trait lustful not defined".to_string(), "trait lustful does not have an xp track".to_string()]
    );
    assert_eq!(reports[1].key, ErrorKey::Validation);
    assert_eq!(reports[1].info, Some("so the modifier lustful_xp_gain_mult does not exist".to_string()));
    data.add_item(Item::Trait, "lustful");
    let (_, reports) = lookup("lustful_xp_gain_mult", &data, true);
    assert_eq!(msgs(&reports), vec!["trait lustful does not have an xp track".to_string()]);
    data.add_property(Item::Trait, "lustful", "track");
    let (_, reports) = lookup("lustful_xp_loss_mult", &data, true);
    assert!(reports.is_empty());
    // Individual tracks of a trait.
    let (r, reports) = lookup("trait_track_hunter_xp_degradation_mult", &data, true);
    assert_eq!(r, Some(ModifKinds { bits: CHARACTER }));
    assert_eq!(msgs(&reports), vec!["trait track hunter not defined".to_string()]);
    // Lifestyle xp.
    data.add_item(Item::Lifestyle, "martial_lifestyle");
    let (r, reports) = lookup("monthly_martial_lifestyle_xp_gain_mult", &data, true);
    assert_eq!(r, Some(ModifKinds { bits: CHARACTER }));
    assert!(reports.is_empty());
}

#[test]
fn holding_and_terrain_modifs() {
    let mut data = Everything::new();
    data.add_item(Item::Holding, "castle");
    let (r, reports) = lookup("castle_holding_build_speed", &data, true);
    assert_eq!(r, Some(ModifKinds { bits: CHARACTER | PROVINCE | COUNTY }));
    assert!(reports.is_empty());
    data.add_item(Item::Holding, "city_holding");
    let (_, reports) = lookup("city_build_gold_cost", &data, true);
    assert_eq!(msgs(&reports), vec!["holding city not defined".to_string()]);
    let (r, reports) = lookup("desert_travel_danger", &data, true);
    assert_eq!(r, Some(ModifKinds { bits: CHARACTER | PROVINCE | COUNTY }));
    assert_eq!(msgs(&reports), vec!["terrain desert not defined".to_string()]);
    data.add_item(Item::Terrain, "hills");
    let (r, reports) = lookup("hills_advantage", &data, true);
    assert_eq!(r, Some(ModifKinds { bits: CHARACTER }));
    assert!(reports.is_empty());
    assert_eq!(TERRAIN, 8);
}

#[test]
fn table_modifs_written_over_several_lines() {
    let data = Everything::new();
    let (r, reports) = lookup("monthly_county_control_change_at_war_mult", &data, true);
    assert_eq!(r, Some(ModifKinds { bits: CHARACTER | PROVINCE | COUNTY }));
    assert!(reports.is_empty());
    let (r, _) = lookup("monthly_prestige_gain_per_happy_powerful_vassal_mult", &data, true);
    assert_eq!(r, Some(ModifKinds { bits: CHARACTER }));
    let (r, _) = lookup("artifact_decay_reduction_mult", &data, true);
    assert_eq!(r, Some(ModifKinds { bits: CHARACTER | PROVINCE | COUNTY }));
}
