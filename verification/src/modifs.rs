//! Modifs, the things that modifiers modify, and the kinds of things that each applies to.
use vstd::prelude::*;

use crate::everything::{implied_item_report, Everything, Item};
use crate::report::builder::{err, simple_report};
use crate::report::error_key::ErrorKey;
use crate::report::errors::{lemma_logged_nothing, lemma_logged_trans, Errors};
use crate::report::report_struct::{Confidence, ReportView, Severity};
use crate::text::{chars_of, concat_str, spec_ends_with, spec_starts_with, str_eq, str_ends_with, str_starts_with, string_from_chars};
use crate::token::Token;

verus! {

/// The kinds of things that a modif applies to, one bit each.
#[derive(Clone, Copy, Debug, PartialEq, Eq, Structural)]
pub struct ModifKinds {
    pub bits: u8,
}

/// Modifs of characters.
pub const CHARACTER: u8 = 0x01;
/// Modifs of provinces.
pub const PROVINCE: u8 = 0x02;
/// Modifs of counties.
pub const COUNTY: u8 = 0x04;
/// Modifs of terrain.
pub const TERRAIN: u8 = 0x08;
/// Modifs of cultures.
pub const CULTURE: u8 = 0x10;
/// Modifs of schemes.
pub const SCHEME: u8 = 0x20;
/// Modifs of travel plans.
pub const TRAVEL_PLAN: u8 = 0x40;

pub open spec fn table_part_0(name: Seq<char>) -> Option<u8> {
    if name == "accolade_glory_gain_mult"@ {
        Some(1)
    } else if name == "active_accolades"@ {
        Some(1)
    } else if name == "additional_fort_level"@ {
        Some(7)
    } else if name == "advantage"@ {
        Some(1)
    } else if name == "advantage_against_coreligionists"@ {
        Some(1)
    } else if name == "ai_amenity_spending"@ {
        Some(1)
    } else if name == "ai_amenity_target_baseline"@ {
        Some(1)
    } else if name == "ai_boldness"@ {
        Some(1)
    } else if name == "ai_compassion"@ {
        Some(1)
    } else if name == "ai_energy"@ {
        Some(1)
    } else if name == "ai_greed"@ {
        Some(1)
    } else if name == "ai_honor"@ {
        Some(1)
    } else if name == "ai_rationality"@ {
        Some(1)
    } else if name == "ai_sociability"@ {
        Some(1)
    } else if name == "ai_vengefulness"@ {
        Some(1)
    } else if name == "ai_war_chance"@ {
        Some(1)
    } else if name == "ai_war_cooldown"@ {
        Some(1)
    } else if name == "ai_zeal"@ {
        Some(1)
    } else if name == "army_damage_mult"@ {
        Some(1)
    } else if name == "army_maintenance_mult"@ {
        Some(1)
    } else if name == "army_pursuit_mult"@ {
        Some(1)
    } else if name == "army_screen_mult"@ {
        Some(1)
    } else if name == "army_siege_value_mult"@ {
        Some(1)
    } else if name == "army_toughness_mult"@ {
        Some(1)
    } else if name == "attacker_advantage"@ {
        Some(1)
    } else if name == "attraction_opinion"@ {
        Some(1)
    } else if name == "build_gold_cost"@ {
        Some(7)
    } else if name == "building_slot_add"@ {
        Some(7)
    } else if name == "build_piety_cost"@ {
        Some(7)
    } else if name == "build_prestige_cost"@ {
        Some(7)
    } else if name == "build_speed"@ {
        Some(7)
    } else if name == "character_travel_safety"@ {
        Some(1)
    } else if name == "character_travel_safety_mult"@ {
        Some(1)
    } else if name == "character_travel_speed"@ {
        Some(1)
    } else if name == "character_travel_speed_mult"@ {
        Some(1)
    } else if name == "child_except_player_heir_opinion"@ {
        Some(1)
    } else if name == "child_opinion"@ {
        Some(1)
    } else if name == "clergy_opinion"@ {
        Some(1)
    } else if name == "close_relative_opinion"@ {
        Some(1)
    } else if name == "coastal_advantage"@ {
        Some(1)
    } else if name == "controlled_province_advantage"@ {
        Some(1)
    } else if name == "councillor_opinion"@ {
        Some(1)
    } else if name == "counter_efficiency"@ {
        Some(9)
    } else if name == "counter_resistance"@ {
        Some(9)
    } else if name == "county_opinion_add"@ {
        Some(5)
    } else if name == "county_opinion_add_even_if_baron"@ {
        Some(1)
    } else if name == "court_grandeur_baseline_add"@ {
        Some(1)
    } else if name == "courtier_and_guest_opinion"@ {
        Some(1)
    } else if name == "courtier_opinion"@ {
        Some(1)
    } else if name == "cowed_vassal_levy_contribution_add"@ {
        Some(1)
    } else if name == "cowed_vassal_levy_contribution_mult"@ {
        Some(1)
    } else if name == "cowed_vassal_tax_contribution_add"@ {
        Some(1)
    } else if name == "cowed_vassal_tax_contribution_mult"@ {
        Some(1)
    } else if name == "cultural_acceptance_gain_mult"@ {
        Some(16)
    } else if name == "cultural_head_acceptance_gain_mult"@ {
        Some(1)
    } else if name == "cultural_head_fascination_add"@ {
        Some(1)
    } else if name == "cultural_head_fascination_mult"@ {
        Some(1)
    } else if name == "culture_tradition_max_add"@ {
        Some(16)
    } else if name == "defender_advantage"@ {
        Some(1)
    } else if name == "defender_holding_advantage"@ {
        Some(7)
    } else if name == "defender_winter_advantage"@ {
        Some(2)
    } else if name == "development_growth"@ {
        Some(7)
    } else if name == "development_growth_factor"@ {
        Some(7)
    } else if name == "different_culture_opinion"@ {
        Some(1)
    } else if name == "different_faith_county_opinion_mult"@ {
        Some(1)
    } else if name == "different_faith_liege_opinion"@ {
        Some(1)
    } else if name == "different_faith_opinion"@ {
        Some(1)
    } else if name == "diplomacy"@ {
        Some(1)
    } else if name == "diplomacy_per_piety_level"@ {
        Some(1)
    } else if name == "diplomacy_per_prestige_level"@ {
        Some(1)
    } else if name == "diplomacy_per_stress_level"@ {
        Some(1)
    } else if name == "diplomacy_scheme_power"@ {
        Some(1)
    } else if name == "diplomacy_scheme_resistance"@ {
        Some(1)
    } else if name == "diplomatic_range_mult"@ {
        Some(1)
    } else if name == "direct_vassal_opinion"@ {
        Some(1)
    } else if name == "domain_limit"@ {
        Some(1)
    } else if name == "domain_tax_different_faith_mult"@ {
        Some(1)
    } else if name == "domain_tax_different_faith_mult_even_if_baron"@ {
        Some(1)
    } else if name == "domain_tax_mult"@ {
        Some(1)
    } else if name == "domain_tax_mult_even_if_baron"@ {
        Some(1)
    } else if name == "domain_tax_same_faith_mult"@ {
        Some(1)
    } else if name == "domain_tax_same_faith_mult_even_if_baron"@ {
        Some(1)
    } else if name == "dread_baseline_add"@ {
        Some(1)
    } else if name == "dread_decay_add"@ {
        Some(1)
    } else if name == "dread_decay_mult"@ {
        Some(1)
    } else if name == "dread_gain_mult"@ {
        Some(1)
    } else if name == "dread_loss_mult"@ {
        Some(1)
    } else if name == "dread_per_tyranny_add"@ {
        Some(1)
    } else if name == "dread_per_tyranny_mult"@ {
        Some(1)
    } else if name == "dynasty_house_opinion"@ {
        Some(1)
    } else {
        None
    }
}

fn table_part_0_exec(name: &str) -> (r: Option<u8>)
    ensures
        r == table_part_0(name@),
{
    if str_eq(name, "accolade_glory_gain_mult") {
        Some(1)
    } else if str_eq(name, "active_accolades") {
        Some(1)
    } else if str_eq(name, "additional_fort_level") {
        Some(7)
    } else if str_eq(name, "advantage") {
        Some(1)
    } else if str_eq(name, "advantage_against_coreligionists") {
        Some(1)
    } else if str_eq(name, "ai_amenity_spending") {
        Some(1)
    } else if str_eq(name, "ai_amenity_target_baseline") {
        Some(1)
    } else if str_eq(name, "ai_boldness") {
        Some(1)
    } else if str_eq(name, "ai_compassion") {
        Some(1)
    } else if str_eq(name, "ai_energy") {
        Some(1)
    } else if str_eq(name, "ai_greed") {
        Some(1)
    } else if str_eq(name, "ai_honor") {
        Some(1)
    } else if str_eq(name, "ai_rationality") {
        Some(1)
    } else if str_eq(name, "ai_sociability") {
        Some(1)
    } else if str_eq(name, "ai_vengefulness") {
        Some(1)
    } else if str_eq(name, "ai_war_chance") {
        Some(1)
    } else if str_eq(name, "ai_war_cooldown") {
        Some(1)
    } else if str_eq(name, "ai_zeal") {
        Some(1)
    } else if str_eq(name, "army_damage_mult") {
        Some(1)
    } else if str_eq(name, "army_maintenance_mult") {
        Some(1)
    } else if str_eq(name, "army_pursuit_mult") {
        Some(1)
    } else if str_eq(name, "army_screen_mult") {
        Some(1)
    } else if str_eq(name, "army_siege_value_mult") {
        Some(1)
    } else if str_eq(name, "army_toughness_mult") {
        Some(1)
    } else if str_eq(name, "attacker_advantage") {
        Some(1)
    } else if str_eq(name, "attraction_opinion") {
        Some(1)
    } else if str_eq(name, "build_gold_cost") {
        Some(7)
    } else if str_eq(name, "building_slot_add") {
        Some(7)
    } else if str_eq(name, "build_piety_cost") {
        Some(7)
    } else if str_eq(name, "build_prestige_cost") {
        Some(7)
    } else if str_eq(name, "build_speed") {
        Some(7)
    } else if str_eq(name, "character_travel_safety") {
        Some(1)
    } else if str_eq(name, "character_travel_safety_mult") {
        Some(1)
    } else if str_eq(name, "character_travel_speed") {
        Some(1)
    } else if str_eq(name, "character_travel_speed_mult") {
        Some(1)
    } else if str_eq(name, "child_except_player_heir_opinion") {
        Some(1)
    } else if str_eq(name, "child_opinion") {
        Some(1)
    } else if str_eq(name, "clergy_opinion") {
        Some(1)
    } else if str_eq(name, "close_relative_opinion") {
        Some(1)
    } else if str_eq(name, "coastal_advantage") {
        Some(1)
    } else if str_eq(name, "controlled_province_advantage") {
        Some(1)
    } else if str_eq(name, "councillor_opinion") {
        Some(1)
    } else if str_eq(name, "counter_efficiency") {
        Some(9)
    } else if str_eq(name, "counter_resistance") {
        Some(9)
    } else if str_eq(name, "county_opinion_add") {
        Some(5)
    } else if str_eq(name, "county_opinion_add_even_if_baron") {
        Some(1)
    } else if str_eq(name, "court_grandeur_baseline_add") {
        Some(1)
    } else if str_eq(name, "courtier_and_guest_opinion") {
        Some(1)
    } else if str_eq(name, "courtier_opinion") {
        Some(1)
    } else if str_eq(name, "cowed_vassal_levy_contribution_add") {
        Some(1)
    } else if str_eq(name, "cowed_vassal_levy_contribution_mult") {
        Some(1)
    } else if str_eq(name, "cowed_vassal_tax_contribution_add") {
        Some(1)
    } else if str_eq(name, "cowed_vassal_tax_contribution_mult") {
        Some(1)
    } else if str_eq(name, "cultural_acceptance_gain_mult") {
        Some(16)
    } else if str_eq(name, "cultural_head_acceptance_gain_mult") {
        Some(1)
    } else if str_eq(name, "cultural_head_fascination_add") {
        Some(1)
    } else if str_eq(name, "cultural_head_fascination_mult") {
        Some(1)
    } else if str_eq(name, "culture_tradition_max_add") {
        Some(16)
    } else if str_eq(name, "defender_advantage") {
        Some(1)
    } else if str_eq(name, "defender_holding_advantage") {
        Some(7)
    } else if str_eq(name, "defender_winter_advantage") {
        Some(2)
    } else if str_eq(name, "development_growth") {
        Some(7)
    } else if str_eq(name, "development_growth_factor") {
        Some(7)
    } else if str_eq(name, "different_culture_opinion") {
        Some(1)
    } else if str_eq(name, "different_faith_county_opinion_mult") {
        Some(1)
    } else if str_eq(name, "different_faith_liege_opinion") {
        Some(1)
    } else if str_eq(name, "different_faith_opinion") {
        Some(1)
    } else if str_eq(name, "diplomacy") {
        Some(1)
    } else if str_eq(name, "diplomacy_per_piety_level") {
        Some(1)
    } else if str_eq(name, "diplomacy_per_prestige_level") {
        Some(1)
    } else if str_eq(name, "diplomacy_per_stress_level") {
        Some(1)
    } else if str_eq(name, "diplomacy_scheme_power") {
        Some(1)
    } else if str_eq(name, "diplomacy_scheme_resistance") {
        Some(1)
    } else if str_eq(name, "diplomatic_range_mult") {
        Some(1)
    } else if str_eq(name, "direct_vassal_opinion") {
        Some(1)
    } else if str_eq(name, "domain_limit") {
        Some(1)
    } else if str_eq(name, "domain_tax_different_faith_mult") {
        Some(1)
    } else if str_eq(name, "domain_tax_different_faith_mult_even_if_baron") {
        Some(1)
    } else if str_eq(name, "domain_tax_mult") {
        Some(1)
    } else if str_eq(name, "domain_tax_mult_even_if_baron") {
        Some(1)
    } else if str_eq(name, "domain_tax_same_faith_mult") {
        Some(1)
    } else if str_eq(name, "domain_tax_same_faith_mult_even_if_baron") {
        Some(1)
    } else if str_eq(name, "dread_baseline_add") {
        Some(1)
    } else if str_eq(name, "dread_decay_add") {
        Some(1)
    } else if str_eq(name, "dread_decay_mult") {
        Some(1)
    } else if str_eq(name, "dread_gain_mult") {
        Some(1)
    } else if str_eq(name, "dread_loss_mult") {
        Some(1)
    } else if str_eq(name, "dread_per_tyranny_add") {
        Some(1)
    } else if str_eq(name, "dread_per_tyranny_mult") {
        Some(1)
    } else if str_eq(name, "dynasty_house_opinion") {
        Some(1)
    } else {
        None
    }
}

pub open spec fn table_part_1(name: Seq<char>) -> Option<u8> {
    if name == "dynasty_opinion"@ {
        Some(1)
    } else if name == "eligible_child_except_player_heir_opinion"@ {
        Some(1)
    } else if name == "eligible_child_opinion"@ {
        Some(1)
    } else if name == "embarkation_cost_mult"@ {
        Some(1)
    } else if name == "enemy_hard_casualty_modifier"@ {
        Some(9)
    } else if name == "enemy_hostile_scheme_success_chance_add"@ {
        Some(1)
    } else if name == "enemy_personal_scheme_success_chance_add"@ {
        Some(1)
    } else if name == "enemy_terrain_advantage"@ {
        Some(1)
    } else if name == "faith_conversion_piety_cost_add"@ {
        Some(1)
    } else if name == "faith_conversion_piety_cost_mult"@ {
        Some(1)
    } else if name == "faith_creation_piety_cost_add"@ {
        Some(1)
    } else if name == "faith_creation_piety_cost_mult"@ {
        Some(1)
    } else if name == "fellow_vassal_opinion"@ {
        Some(1)
    } else if name == "fertility"@ {
        Some(1)
    } else if name == "fort_level"@ {
        Some(7)
    } else if name == "garrison_size"@ {
        Some(7)
    } else if name == "general_opinion"@ {
        Some(1)
    } else if name == "genetic_trait_strengthen_chance"@ {
        Some(1)
    } else if name == "guest_opinion"@ {
        Some(1)
    } else if name == "happy_powerful_vassal_levy_contribution_add"@ {
        Some(1)
    } else if name == "happy_powerful_vassal_levy_contribution_mult"@ {
        Some(1)
    } else if name == "happy_powerful_vassal_tax_contribution_add"@ {
        Some(1)
    } else if name == "happy_powerful_vassal_tax_contribution_mult"@ {
        Some(1)
    } else if name == "hard_casualty_modifier"@ {
        Some(9)
    } else if name == "hard_casualty_winter"@ {
        Some(2)
    } else if name == "health"@ {
        Some(1)
    } else if name == "holding_build_gold_cost"@ {
        Some(7)
    } else if name == "holding_build_piety_cost"@ {
        Some(7)
    } else if name == "holding_build_prestige_cost"@ {
        Some(7)
    } else if name == "holding_build_speed"@ {
        Some(7)
    } else if name == "holy_order_hire_cost_add"@ {
        Some(1)
    } else if name == "holy_order_hire_cost_mult"@ {
        Some(1)
    } else if name == "hostile_county_attrition"@ {
        Some(1)
    } else if name == "hostile_county_attrition_raiding"@ {
        Some(1)
    } else if name == "hostile_raid_time"@ {
        Some(7)
    } else if name == "hostile_scheme_power_add"@ {
        Some(1)
    } else if name == "hostile_scheme_power_mult"@ {
        Some(1)
    } else if name == "hostile_scheme_resistance_add"@ {
        Some(1)
    } else if name == "hostile_scheme_resistance_mult"@ {
        Some(1)
    } else if name == "ignore_different_faith_opinion"@ {
        Some(1)
    } else if name == "ignore_negative_culture_opinion"@ {
        Some(1)
    } else if name == "ignore_negative_opinion_of_culture"@ {
        Some(1)
    } else if name == "ignore_opinion_of_different_faith"@ {
        Some(1)
    } else if name == "inbreeding_chance"@ {
        Some(1)
    } else if name == "independent_primary_defender_advantage_add"@ {
        Some(1)
    } else if name == "independent_ruler_opinion"@ {
        Some(1)
    } else if name == "intimidated_vassal_levy_contribution_add"@ {
        Some(1)
    } else if name == "intimidated_vassal_levy_contribution_mult"@ {
        Some(1)
    } else if name == "intimidated_vassal_tax_contribution_add"@ {
        Some(1)
    } else if name == "intimidated_vassal_tax_contribution_mult"@ {
        Some(1)
    } else if name == "intrigue"@ {
        Some(1)
    } else if name == "intrigue_per_piety_level"@ {
        Some(1)
    } else if name == "intrigue_per_prestige_level"@ {
        Some(1)
    } else if name == "intrigue_per_stress_level"@ {
        Some(1)
    } else if name == "intrigue_scheme_power"@ {
        Some(1)
    } else if name == "intrigue_scheme_resistance"@ {
        Some(1)
    } else if name == "knight_effectiveness_mult"@ {
        Some(1)
    } else if name == "knight_effectiveness_per_dread"@ {
        Some(1)
    } else if name == "knight_effectiveness_per_tyranny"@ {
        Some(1)
    } else if name == "knight_limit"@ {
        Some(1)
    } else if name == "learning"@ {
        Some(1)
    } else if name == "learning_per_piety_level"@ {
        Some(1)
    } else if name == "learning_per_prestige_level"@ {
        Some(1)
    } else if name == "learning_per_stress_level"@ {
        Some(1)
    } else if name == "learning_scheme_power"@ {
        Some(1)
    } else if name == "learning_scheme_resistance"@ {
        Some(1)
    } else if name == "led_by_owner_extra_advantage_add"@ {
        Some(1)
    } else if name == "levy_attack"@ {
        Some(1)
    } else if name == "levy_maintenance"@ {
        Some(1)
    } else if name == "levy_pursuit"@ {
        Some(1)
    } else if name == "levy_reinforcement_rate"@ {
        Some(7)
    } else if name == "levy_reinforcement_rate_different_faith"@ {
        Some(1)
    } else if name == "levy_reinforcement_rate_even_if_baron"@ {
        Some(1)
    } else if name == "levy_reinforcement_rate_same_faith"@ {
        Some(1)
    } else if name == "levy_screen"@ {
        Some(1)
    } else if name == "levy_siege"@ {
        Some(1)
    } else if name == "levy_size"@ {
        Some(7)
    } else if name == "levy_toughness"@ {
        Some(1)
    } else if name == "liege_opinion"@ {
        Some(1)
    } else if name == "life_expectancy"@ {
        Some(1)
    } else if name == "long_reign_bonus_mult"@ {
        Some(1)
    } else if name == "maa_damage_add"@ {
        Some(1)
    } else if name == "maa_damage_mult"@ {
        Some(1)
    } else if name == "maa_pursuit_add"@ {
        Some(1)
    } else if name == "maa_pursuit_mult"@ {
        Some(1)
    } else if name == "maa_screen_add"@ {
        Some(1)
    } else if name == "maa_screen_mult"@ {
        Some(1)
    } else if name == "maa_siege_value_add"@ {
        Some(1)
    } else if name == "maa_siege_value_mult"@ {
        Some(1)
    } else if name == "maa_toughness_add"@ {
        Some(1)
    } else {
        None
    }
}

fn table_part_1_exec(name: &str) -> (r: Option<u8>)
    ensures
        r == table_part_1(name@),
{
    if str_eq(name, "dynasty_opinion") {
        Some(1)
    } else if str_eq(name, "eligible_child_except_player_heir_opinion") {
        Some(1)
    } else if str_eq(name, "eligible_child_opinion") {
        Some(1)
    } else if str_eq(name, "embarkation_cost_mult") {
        Some(1)
    } else if str_eq(name, "enemy_hard_casualty_modifier") {
        Some(9)
    } else if str_eq(name, "enemy_hostile_scheme_success_chance_add") {
        Some(1)
    } else if str_eq(name, "enemy_personal_scheme_success_chance_add") {
        Some(1)
    } else if str_eq(name, "enemy_terrain_advantage") {
        Some(1)
    } else if str_eq(name, "faith_conversion_piety_cost_add") {
        Some(1)
    } else if str_eq(name, "faith_conversion_piety_cost_mult") {
        Some(1)
    } else if str_eq(name, "faith_creation_piety_cost_add") {
        Some(1)
    } else if str_eq(name, "faith_creation_piety_cost_mult") {
        Some(1)
    } else if str_eq(name, "fellow_vassal_opinion") {
        Some(1)
    } else if str_eq(name, "fertility") {
        Some(1)
    } else if str_eq(name, "fort_level") {
        Some(7)
    } else if str_eq(name, "garrison_size") {
        Some(7)
    } else if str_eq(name, "general_opinion") {
        Some(1)
    } else if str_eq(name, "genetic_trait_strengthen_chance") {
        Some(1)
    } else if str_eq(name, "guest_opinion") {
        Some(1)
    } else if str_eq(name, "happy_powerful_vassal_levy_contribution_add") {
        Some(1)
    } else if str_eq(name, "happy_powerful_vassal_levy_contribution_mult") {
        Some(1)
    } else if str_eq(name, "happy_powerful_vassal_tax_contribution_add") {
        Some(1)
    } else if str_eq(name, "happy_powerful_vassal_tax_contribution_mult") {
        Some(1)
    } else if str_eq(name, "hard_casualty_modifier") {
        Some(9)
    } else if str_eq(name, "hard_casualty_winter") {
        Some(2)
    } else if str_eq(name, "health") {
        Some(1)
    } else if str_eq(name, "holding_build_gold_cost") {
        Some(7)
    } else if str_eq(name, "holding_build_piety_cost") {
        Some(7)
    } else if str_eq(name, "holding_build_prestige_cost") {
        Some(7)
    } else if str_eq(name, "holding_build_speed") {
        Some(7)
    } else if str_eq(name, "holy_order_hire_cost_add") {
        Some(1)
    } else if str_eq(name, "holy_order_hire_cost_mult") {
        Some(1)
    } else if str_eq(name, "hostile_county_attrition") {
        Some(1)
    } else if str_eq(name, "hostile_county_attrition_raiding") {
        Some(1)
    } else if str_eq(name, "hostile_raid_time") {
        Some(7)
    } else if str_eq(name, "hostile_scheme_power_add") {
        Some(1)
    } else if str_eq(name, "hostile_scheme_power_mult") {
        Some(1)
    } else if str_eq(name, "hostile_scheme_resistance_add") {
        Some(1)
    } else if str_eq(name, "hostile_scheme_resistance_mult") {
        Some(1)
    } else if str_eq(name, "ignore_different_faith_opinion") {
        Some(1)
    } else if str_eq(name, "ignore_negative_culture_opinion") {
        Some(1)
    } else if str_eq(name, "ignore_negative_opinion_of_culture") {
        Some(1)
    } else if str_eq(name, "ignore_opinion_of_different_faith") {
        Some(1)
    } else if str_eq(name, "inbreeding_chance") {
        Some(1)
    } else if str_eq(name, "independent_primary_defender_advantage_add") {
        Some(1)
    } else if str_eq(name, "independent_ruler_opinion") {
        Some(1)
    } else if str_eq(name, "intimidated_vassal_levy_contribution_add") {
        Some(1)
    } else if str_eq(name, "intimidated_vassal_levy_contribution_mult") {
        Some(1)
    } else if str_eq(name, "intimidated_vassal_tax_contribution_add") {
        Some(1)
    } else if str_eq(name, "intimidated_vassal_tax_contribution_mult") {
        Some(1)
    } else if str_eq(name, "intrigue") {
        Some(1)
    } else if str_eq(name, "intrigue_per_piety_level") {
        Some(1)
    } else if str_eq(name, "intrigue_per_prestige_level") {
        Some(1)
    } else if str_eq(name, "intrigue_per_stress_level") {
        Some(1)
    } else if str_eq(name, "intrigue_scheme_power") {
        Some(1)
    } else if str_eq(name, "intrigue_scheme_resistance") {
        Some(1)
    } else if str_eq(name, "knight_effectiveness_mult") {
        Some(1)
    } else if str_eq(name, "knight_effectiveness_per_dread") {
        Some(1)
    } else if str_eq(name, "knight_effectiveness_per_tyranny") {
        Some(1)
    } else if str_eq(name, "knight_limit") {
        Some(1)
    } else if str_eq(name, "learning") {
        Some(1)
    } else if str_eq(name, "learning_per_piety_level") {
        Some(1)
    } else if str_eq(name, "learning_per_prestige_level") {
        Some(1)
    } else if str_eq(name, "learning_per_stress_level") {
        Some(1)
    } else if str_eq(name, "learning_scheme_power") {
        Some(1)
    } else if str_eq(name, "learning_scheme_resistance") {
        Some(1)
    } else if str_eq(name, "led_by_owner_extra_advantage_add") {
        Some(1)
    } else if str_eq(name, "levy_attack") {
        Some(1)
    } else if str_eq(name, "levy_maintenance") {
        Some(1)
    } else if str_eq(name, "levy_pursuit") {
        Some(1)
    } else if str_eq(name, "levy_reinforcement_rate") {
        Some(7)
    } else if str_eq(name, "levy_reinforcement_rate_different_faith") {
        Some(1)
    } else if str_eq(name, "levy_reinforcement_rate_even_if_baron") {
        Some(1)
    } else if str_eq(name, "levy_reinforcement_rate_same_faith") {
        Some(1)
    } else if str_eq(name, "levy_screen") {
        Some(1)
    } else if str_eq(name, "levy_siege") {
        Some(1)
    } else if str_eq(name, "levy_size") {
        Some(7)
    } else if str_eq(name, "levy_toughness") {
        Some(1)
    } else if str_eq(name, "liege_opinion") {
        Some(1)
    } else if str_eq(name, "life_expectancy") {
        Some(1)
    } else if str_eq(name, "long_reign_bonus_mult") {
        Some(1)
    } else if str_eq(name, "maa_damage_add") {
        Some(1)
    } else if str_eq(name, "maa_damage_mult") {
        Some(1)
    } else if str_eq(name, "maa_pursuit_add") {
        Some(1)
    } else if str_eq(name, "maa_pursuit_mult") {
        Some(1)
    } else if str_eq(name, "maa_screen_add") {
        Some(1)
    } else if str_eq(name, "maa_screen_mult") {
        Some(1)
    } else if str_eq(name, "maa_siege_value_add") {
        Some(1)
    } else if str_eq(name, "maa_siege_value_mult") {
        Some(1)
    } else if str_eq(name, "maa_toughness_add") {
        Some(1)
    } else {
        None
    }
}

pub open spec fn table_part_2(name: Seq<char>) -> Option<u8> {
    if name == "maa_toughness_mult"@ {
        Some(1)
    } else if name == "martial"@ {
        Some(1)
    } else if name == "martial_per_piety_level"@ {
        Some(1)
    } else if name == "martial_per_prestige_level"@ {
        Some(1)
    } else if name == "martial_per_stress_level"@ {
        Some(1)
    } else if name == "martial_scheme_power"@ {
        Some(1)
    } else if name == "martial_scheme_resistance"@ {
        Some(1)
    } else if name == "max_combat_roll"@ {
        Some(1)
    } else if name == "max_hostile_schemes_add"@ {
        Some(1)
    } else if name == "max_loot_mult"@ {
        Some(1)
    } else if name == "max_personal_schemes_add"@ {
        Some(1)
    } else if name == "men_at_arms_cap"@ {
        Some(1)
    } else if name == "men_at_arms_limit"@ {
        Some(1)
    } else if name == "men_at_arms_maintenance"@ {
        Some(1)
    } else if name == "men_at_arms_maintenance_per_dread_mult"@ {
        Some(1)
    } else if name == "men_at_arms_recruitment_cost"@ {
        Some(1)
    } else if name == "mercenary_count_mult"@ {
        Some(16)
    } else if name == "mercenary_hire_cost_add"@ {
        Some(1)
    } else if name == "mercenary_hire_cost_mult"@ {
        Some(1)
    } else if name == "min_combat_roll"@ {
        Some(1)
    } else if name == "monthly_county_control_change_add_even_if_baron"@ {
        Some(1)
    } else if name == "monthly_court_grandeur_change_add"@ {
        Some(1)
    } else if name == "monthly_court_grandeur_change_mult"@ {
        Some(1)
    } else if name == "monthly_dread"@ {
        Some(1)
    } else if name == "monthly_dynasty_prestige"@ {
        Some(1)
    } else if name == "monthly_dynasty_prestige_mult"@ {
        Some(1)
    } else if name == "monthly_income"@ {
        Some(3)
    } else if name == "monthly_income_mult"@ {
        Some(1)
    } else if name == "monthly_income_per_stress_level_add"@ {
        Some(1)
    } else if name == "monthly_income_per_stress_level_mult"@ {
        Some(1)
    } else if name == "monthly_lifestyle_xp_gain_mult"@ {
        Some(1)
    } else if name == "monthly_piety"@ {
        Some(1)
    } else if name == "monthly_piety_from_buildings_mult"@ {
        Some(1)
    } else if name == "monthly_piety_gain_mult"@ {
        Some(1)
    } else if name == "monthly_piety_gain_per_dread_add"@ {
        Some(1)
    } else if name == "monthly_piety_gain_per_dread_mult"@ {
        Some(1)
    } else if name == "monthly_piety_gain_per_knight_add"@ {
        Some(1)
    } else if name == "monthly_piety_gain_per_knight_mult"@ {
        Some(1)
    } else if name == "monthly_prestige"@ {
        Some(1)
    } else if name == "monthly_prestige_from_buildings_mult"@ {
        Some(1)
    } else if name == "monthly_prestige_gain_mult"@ {
        Some(1)
    } else if name == "monthly_prestige_gain_per_dread_add"@ {
        Some(1)
    } else if name == "monthly_prestige_gain_per_dread_mult"@ {
        Some(1)
    } else if name == "monthly_prestige_gain_per_knight_add"@ {
        Some(1)
    } else if name == "monthly_prestige_gain_per_knight_mult"@ {
        Some(1)
    } else if name == "monthly_tyranny"@ {
        Some(1)
    } else if name == "monthly_war_income_add"@ {
        Some(1)
    } else if name == "monthly_war_income_mult"@ {
        Some(1)
    } else if name == "movement_speed"@ {
        Some(1)
    } else if name == "movement_speed_land_raiding"@ {
        Some(1)
    } else if name == "naval_movement_speed_mult"@ {
        Some(1)
    } else if name == "negate_diplomacy_penalty_add"@ {
        Some(1)
    } else if name == "negate_fertility_penalty_add"@ {
        Some(1)
    } else if name == "negate_health_penalty_add"@ {
        Some(1)
    } else if name == "negate_intrigue_penalty_add"@ {
        Some(1)
    } else if name == "negate_learning_penalty_add"@ {
        Some(1)
    } else if name == "negate_martial_penalty_add"@ {
        Some(1)
    } else if name == "negate_prowess_penalty_add"@ {
        Some(1)
    } else if name == "negate_stewardship_penalty_add"@ {
        Some(1)
    } else if name == "negative_inactive_inheritance_chance"@ {
        Some(1)
    } else if name == "negative_random_genetic_chance"@ {
        Some(1)
    } else if name == "no_disembark_penalty"@ {
        Some(1)
    } else if name == "no_prowess_loss_from_age"@ {
        Some(1)
    } else if name == "no_water_crossing_penalty"@ {
        Some(1)
    } else if name == "opinion_of_different_culture"@ {
        Some(1)
    } else if name == "opinion_of_different_faith"@ {
        Some(1)
    } else if name == "opinion_of_different_faith_liege"@ {
        Some(1)
    } else if name == "opinion_of_female_rulers"@ {
        Some(1)
    } else if name == "opinion_of_liege"@ {
        Some(1)
    } else if name == "opinion_of_male_rulers"@ {
        Some(1)
    } else if name == "opinion_of_parents"@ {
        Some(1)
    } else if name == "opinion_of_same_culture"@ {
        Some(1)
    } else if name == "opinion_of_same_faith"@ {
        Some(1)
    } else if name == "opinion_of_vassal"@ {
        Some(1)
    } else if name == "owned_hostile_scheme_success_chance_add"@ {
        Some(1)
    } else if name == "owned_personal_scheme_success_chance_add"@ {
        Some(1)
    } else if name == "owned_scheme_secrecy_add"@ {
        Some(1)
    } else if name == "personal_scheme_power_add"@ {
        Some(1)
    } else if name == "personal_scheme_power_mult"@ {
        Some(1)
    } else if name == "personal_scheme_resistance_add"@ {
        Some(1)
    } else if name == "personal_scheme_resistance_mult"@ {
        Some(1)
    } else if name == "piety_level_impact_mult"@ {
        Some(1)
    } else if name == "player_heir_opinion"@ {
        Some(1)
    } else if name == "positive_inactive_inheritance_chance"@ {
        Some(1)
    } else if name == "positive_random_genetic_chance"@ {
        Some(1)
    } else if name == "powerful_vassal_opinion"@ {
        Some(1)
    } else if name == "prestige_level_impact_mult"@ {
        Some(1)
    } else if name == "prisoner_opinion"@ {
        Some(1)
    } else if name == "prowess"@ {
        Some(1)
    } else if name == "prowess_no_portrait"@ {
        Some(1)
    } else {
        None
    }
}

fn table_part_2_exec(name: &str) -> (r: Option<u8>)
    ensures
        r == table_part_2(name@),
{
    if str_eq(name, "maa_toughness_mult") {
        Some(1)
    } else if str_eq(name, "martial") {
        Some(1)
    } else if str_eq(name, "martial_per_piety_level") {
        Some(1)
    } else if str_eq(name, "martial_per_prestige_level") {
        Some(1)
    } else if str_eq(name, "martial_per_stress_level") {
        Some(1)
    } else if str_eq(name, "martial_scheme_power") {
        Some(1)
    } else if str_eq(name, "martial_scheme_resistance") {
        Some(1)
    } else if str_eq(name, "max_combat_roll") {
        Some(1)
    } else if str_eq(name, "max_hostile_schemes_add") {
        Some(1)
    } else if str_eq(name, "max_loot_mult") {
        Some(1)
    } else if str_eq(name, "max_personal_schemes_add") {
        Some(1)
    } else if str_eq(name, "men_at_arms_cap") {
        Some(1)
    } else if str_eq(name, "men_at_arms_limit") {
        Some(1)
    } else if str_eq(name, "men_at_arms_maintenance") {
        Some(1)
    } else if str_eq(name, "men_at_arms_maintenance_per_dread_mult") {
        Some(1)
    } else if str_eq(name, "men_at_arms_recruitment_cost") {
        Some(1)
    } else if str_eq(name, "mercenary_count_mult") {
        Some(16)
    } else if str_eq(name, "mercenary_hire_cost_add") {
        Some(1)
    } else if str_eq(name, "mercenary_hire_cost_mult") {
        Some(1)
    } else if str_eq(name, "min_combat_roll") {
        Some(1)
    } else if str_eq(name, "monthly_county_control_change_add_even_if_baron") {
        Some(1)
    } else if str_eq(name, "monthly_court_grandeur_change_add") {
        Some(1)
    } else if str_eq(name, "monthly_court_grandeur_change_mult") {
        Some(1)
    } else if str_eq(name, "monthly_dread") {
        Some(1)
    } else if str_eq(name, "monthly_dynasty_prestige") {
        Some(1)
    } else if str_eq(name, "monthly_dynasty_prestige_mult") {
        Some(1)
    } else if str_eq(name, "monthly_income") {
        Some(3)
    } else if str_eq(name, "monthly_income_mult") {
        Some(1)
    } else if str_eq(name, "monthly_income_per_stress_level_add") {
        Some(1)
    } else if str_eq(name, "monthly_income_per_stress_level_mult") {
        Some(1)
    } else if str_eq(name, "monthly_lifestyle_xp_gain_mult") {
        Some(1)
    } else if str_eq(name, "monthly_piety") {
        Some(1)
    } else if str_eq(name, "monthly_piety_from_buildings_mult") {
        Some(1)
    } else if str_eq(name, "monthly_piety_gain_mult") {
        Some(1)
    } else if str_eq(name, "monthly_piety_gain_per_dread_add") {
        Some(1)
    } else if str_eq(name, "monthly_piety_gain_per_dread_mult") {
        Some(1)
    } else if str_eq(name, "monthly_piety_gain_per_knight_add") {
        Some(1)
    } else if str_eq(name, "monthly_piety_gain_per_knight_mult") {
        Some(1)
    } else if str_eq(name, "monthly_prestige") {
        Some(1)
    } else if str_eq(name, "monthly_prestige_from_buildings_mult") {
        Some(1)
    } else if str_eq(name, "monthly_prestige_gain_mult") {
        Some(1)
    } else if str_eq(name, "monthly_prestige_gain_per_dread_add") {
        Some(1)
    } else if str_eq(name, "monthly_prestige_gain_per_dread_mult") {
        Some(1)
    } else if str_eq(name, "monthly_prestige_gain_per_knight_add") {
        Some(1)
    } else if str_eq(name, "monthly_prestige_gain_per_knight_mult") {
        Some(1)
    } else if str_eq(name, "monthly_tyranny") {
        Some(1)
    } else if str_eq(name, "monthly_war_income_add") {
        Some(1)
    } else if str_eq(name, "monthly_war_income_mult") {
        Some(1)
    } else if str_eq(name, "movement_speed") {
        Some(1)
    } else if str_eq(name, "movement_speed_land_raiding") {
        Some(1)
    } else if str_eq(name, "naval_movement_speed_mult") {
        Some(1)
    } else if str_eq(name, "negate_diplomacy_penalty_add") {
        Some(1)
    } else if str_eq(name, "negate_fertility_penalty_add") {
        Some(1)
    } else if str_eq(name, "negate_health_penalty_add") {
        Some(1)
    } else if str_eq(name, "negate_intrigue_penalty_add") {
        Some(1)
    } else if str_eq(name, "negate_learning_penalty_add") {
        Some(1)
    } else if str_eq(name, "negate_martial_penalty_add") {
        Some(1)
    } else if str_eq(name, "negate_prowess_penalty_add") {
        Some(1)
    } else if str_eq(name, "negate_stewardship_penalty_add") {
        Some(1)
    } else if str_eq(name, "negative_inactive_inheritance_chance") {
        Some(1)
    } else if str_eq(name, "negative_random_genetic_chance") {
        Some(1)
    } else if str_eq(name, "no_disembark_penalty") {
        Some(1)
    } else if str_eq(name, "no_prowess_loss_from_age") {
        Some(1)
    } else if str_eq(name, "no_water_crossing_penalty") {
        Some(1)
    } else if str_eq(name, "opinion_of_different_culture") {
        Some(1)
    } else if str_eq(name, "opinion_of_different_faith") {
        Some(1)
    } else if str_eq(name, "opinion_of_different_faith_liege") {
        Some(1)
    } else if str_eq(name, "opinion_of_female_rulers") {
        Some(1)
    } else if str_eq(name, "opinion_of_liege") {
        Some(1)
    } else if str_eq(name, "opinion_of_male_rulers") {
        Some(1)
    } else if str_eq(name, "opinion_of_parents") {
        Some(1)
    } else if str_eq(name, "opinion_of_same_culture") {
        Some(1)
    } else if str_eq(name, "opinion_of_same_faith") {
        Some(1)
    } else if str_eq(name, "opinion_of_vassal") {
        Some(1)
    } else if str_eq(name, "owned_hostile_scheme_success_chance_add") {
        Some(1)
    } else if str_eq(name, "owned_personal_scheme_success_chance_add") {
        Some(1)
    } else if str_eq(name, "owned_scheme_secrecy_add") {
        Some(1)
    } else if str_eq(name, "personal_scheme_power_add") {
        Some(1)
    } else if str_eq(name, "personal_scheme_power_mult") {
        Some(1)
    } else if str_eq(name, "personal_scheme_resistance_add") {
        Some(1)
    } else if str_eq(name, "personal_scheme_resistance_mult") {
        Some(1)
    } else if str_eq(name, "piety_level_impact_mult") {
        Some(1)
    } else if str_eq(name, "player_heir_opinion") {
        Some(1)
    } else if str_eq(name, "positive_inactive_inheritance_chance") {
        Some(1)
    } else if str_eq(name, "positive_random_genetic_chance") {
        Some(1)
    } else if str_eq(name, "powerful_vassal_opinion") {
        Some(1)
    } else if str_eq(name, "prestige_level_impact_mult") {
        Some(1)
    } else if str_eq(name, "prisoner_opinion") {
        Some(1)
    } else if str_eq(name, "prowess") {
        Some(1)
    } else if str_eq(name, "prowess_no_portrait") {
        Some(1)
    } else {
        None
    }
}

pub open spec fn table_part_3(name: Seq<char>) -> Option<u8> {
    if name == "prowess_per_piety_level"@ {
        Some(1)
    } else if name == "prowess_per_prestige_level"@ {
        Some(1)
    } else if name == "prowess_per_stress_level"@ {
        Some(1)
    } else if name == "prowess_scheme_power"@ {
        Some(1)
    } else if name == "prowess_scheme_resistance"@ {
        Some(1)
    } else if name == "pursue_efficiency"@ {
        Some(9)
    } else if name == "raid_speed"@ {
        Some(1)
    } else if name == "random_advantage"@ {
        Some(1)
    } else if name == "realm_priest_opinion"@ {
        Some(1)
    } else if name == "religious_head_opinion"@ {
        Some(1)
    } else if name == "religious_vassal_opinion"@ {
        Some(1)
    } else if name == "retreat_losses"@ {
        Some(9)
    } else if name == "revolting_siege_morale_loss_add"@ {
        Some(1)
    } else if name == "revolting_siege_morale_loss_mult"@ {
        Some(1)
    } else if name == "same_culture_holy_order_hire_cost_add"@ {
        Some(1)
    } else if name == "same_culture_holy_order_hire_cost_mult"@ {
        Some(1)
    } else if name == "same_culture_mercenary_hire_cost_add"@ {
        Some(1)
    } else if name == "same_culture_mercenary_hire_cost_mult"@ {
        Some(1)
    } else if name == "same_culture_opinion"@ {
        Some(1)
    } else if name == "same_faith_opinion"@ {
        Some(1)
    } else if name == "same_heritage_county_advantage_add"@ {
        Some(1)
    } else if name == "scheme_discovery_chance_mult"@ {
        Some(1)
    } else if name == "scheme_power"@ {
        Some(32)
    } else if name == "scheme_resistance"@ {
        Some(32)
    } else if name == "scheme_secrecy"@ {
        Some(32)
    } else if name == "scheme_success_chance"@ {
        Some(32)
    } else if name == "short_reign_duration_mult"@ {
        Some(1)
    } else if name == "siege_morale_loss"@ {
        Some(1)
    } else if name == "siege_phase_time"@ {
        Some(1)
    } else if name == "spouse_opinion"@ {
        Some(1)
    } else if name == "stationed_maa_damage_add"@ {
        Some(2)
    } else if name == "stationed_maa_damage_mult"@ {
        Some(2)
    } else if name == "stationed_maa_pursuit_add"@ {
        Some(2)
    } else if name == "stationed_maa_pursuit_mult"@ {
        Some(2)
    } else if name == "stationed_maa_screen_add"@ {
        Some(2)
    } else if name == "stationed_maa_screen_mult"@ {
        Some(2)
    } else if name == "stationed_maa_siege_value_add"@ {
        Some(2)
    } else if name == "stationed_maa_siege_value_mult"@ {
        Some(2)
    } else if name == "stationed_maa_toughness_add"@ {
        Some(2)
    } else if name == "stationed_maa_toughness_mult"@ {
        Some(2)
    } else if name == "stewardship"@ {
        Some(1)
    } else if name == "stewardship_per_piety_level"@ {
        Some(1)
    } else if name == "stewardship_per_prestige_level"@ {
        Some(1)
    } else if name == "stewardship_per_stress_level"@ {
        Some(1)
    } else if name == "stewardship_scheme_power"@ {
        Some(1)
    } else if name == "stewardship_scheme_resistance"@ {
        Some(1)
    } else if name == "stress_gain_mult"@ {
        Some(1)
    } else if name == "stress_loss_mult"@ {
        Some(1)
    } else if name == "stress_loss_per_piety_level"@ {
        Some(1)
    } else if name == "stress_loss_per_prestige_level"@ {
        Some(1)
    } else if name == "strife_opinion_gain_mult"@ {
        Some(1)
    } else if name == "strife_opinion_loss_mult"@ {
        Some(1)
    } else if name == "supply_capacity_add"@ {
        Some(1)
    } else if name == "supply_capacity_mult"@ {
        Some(1)
    } else if name == "supply_duration"@ {
        Some(1)
    } else if name == "supply_limit"@ {
        Some(7)
    } else if name == "supply_limit_mult"@ {
        Some(7)
    } else if name == "supply_loss_winter"@ {
        Some(2)
    } else if name == "tax_mult"@ {
        Some(7)
    } else if name == "title_creation_cost"@ {
        Some(1)
    } else if name == "title_creation_cost_mult"@ {
        Some(1)
    } else if name == "tolerance_advantage_mod"@ {
        Some(1)
    } else if name == "travel_companion_opinion"@ {
        Some(1)
    } else if name == "travel_danger"@ {
        Some(7)
    } else if name == "travel_safety_mult"@ {
        Some(64)
    } else if name == "travel_safety"@ {
        Some(64)
    } else if name == "travel_speed_mult"@ {
        Some(64)
    } else if name == "travel_speed"@ {
        Some(64)
    } else if name == "twin_opinion"@ {
        Some(1)
    } else if name == "tyranny_gain_mult"@ {
        Some(1)
    } else if name == "tyranny_loss_mult"@ {
        Some(1)
    } else if name == "uncontrolled_province_advantage"@ {
        Some(1)
    } else if name == "vassal_levy_contribution_add"@ {
        Some(1)
    } else if name == "vassal_levy_contribution_mult"@ {
        Some(1)
    } else if name == "vassal_limit"@ {
        Some(1)
    } else if name == "vassal_opinion"@ {
        Some(1)
    } else if name == "vassal_tax_contribution_add"@ {
        Some(1)
    } else if name == "vassal_tax_contribution_mult"@ {
        Some(1)
    } else if name == "vassal_tax_mult"@ {
        Some(1)
    } else if name == "winter_advantage"@ {
        Some(1)
    } else if name == "winter_movement_speed"@ {
        Some(1)
    } else if name == "years_of_fertility"@ {
        Some(1)
    } else {
        None
    }
}

fn table_part_3_exec(name: &str) -> (r: Option<u8>)
    ensures
        r == table_part_3(name@),
{
    if str_eq(name, "prowess_per_piety_level") {
        Some(1)
    } else if str_eq(name, "prowess_per_prestige_level") {
        Some(1)
    } else if str_eq(name, "prowess_per_stress_level") {
        Some(1)
    } else if str_eq(name, "prowess_scheme_power") {
        Some(1)
    } else if str_eq(name, "prowess_scheme_resistance") {
        Some(1)
    } else if str_eq(name, "pursue_efficiency") {
        Some(9)
    } else if str_eq(name, "raid_speed") {
        Some(1)
    } else if str_eq(name, "random_advantage") {
        Some(1)
    } else if str_eq(name, "realm_priest_opinion") {
        Some(1)
    } else if str_eq(name, "religious_head_opinion") {
        Some(1)
    } else if str_eq(name, "religious_vassal_opinion") {
        Some(1)
    } else if str_eq(name, "retreat_losses") {
        Some(9)
    } else if str_eq(name, "revolting_siege_morale_loss_add") {
        Some(1)
    } else if str_eq(name, "revolting_siege_morale_loss_mult") {
        Some(1)
    } else if str_eq(name, "same_culture_holy_order_hire_cost_add") {
        Some(1)
    } else if str_eq(name, "same_culture_holy_order_hire_cost_mult") {
        Some(1)
    } else if str_eq(name, "same_culture_mercenary_hire_cost_add") {
        Some(1)
    } else if str_eq(name, "same_culture_mercenary_hire_cost_mult") {
        Some(1)
    } else if str_eq(name, "same_culture_opinion") {
        Some(1)
    } else if str_eq(name, "same_faith_opinion") {
        Some(1)
    } else if str_eq(name, "same_heritage_county_advantage_add") {
        Some(1)
    } else if str_eq(name, "scheme_discovery_chance_mult") {
        Some(1)
    } else if str_eq(name, "scheme_power") {
        Some(32)
    } else if str_eq(name, "scheme_resistance") {
        Some(32)
    } else if str_eq(name, "scheme_secrecy") {
        Some(32)
    } else if str_eq(name, "scheme_success_chance") {
        Some(32)
    } else if str_eq(name, "short_reign_duration_mult") {
        Some(1)
    } else if str_eq(name, "siege_morale_loss") {
        Some(1)
    } else if str_eq(name, "siege_phase_time") {
        Some(1)
    } else if str_eq(name, "spouse_opinion") {
        Some(1)
    } else if str_eq(name, "stationed_maa_damage_add") {
        Some(2)
    } else if str_eq(name, "stationed_maa_damage_mult") {
        Some(2)
    } else if str_eq(name, "stationed_maa_pursuit_add") {
        Some(2)
    } else if str_eq(name, "stationed_maa_pursuit_mult") {
        Some(2)
    } else if str_eq(name, "stationed_maa_screen_add") {
        Some(2)
    } else if str_eq(name, "stationed_maa_screen_mult") {
        Some(2)
    } else if str_eq(name, "stationed_maa_siege_value_add") {
        Some(2)
    } else if str_eq(name, "stationed_maa_siege_value_mult") {
        Some(2)
    } else if str_eq(name, "stationed_maa_toughness_add") {
        Some(2)
    } else if str_eq(name, "stationed_maa_toughness_mult") {
        Some(2)
    } else if str_eq(name, "stewardship") {
        Some(1)
    } else if str_eq(name, "stewardship_per_piety_level") {
        Some(1)
    } else if str_eq(name, "stewardship_per_prestige_level") {
        Some(1)
    } else if str_eq(name, "stewardship_per_stress_level") {
        Some(1)
    } else if str_eq(name, "stewardship_scheme_power") {
        Some(1)
    } else if str_eq(name, "stewardship_scheme_resistance") {
        Some(1)
    } else if str_eq(name, "stress_gain_mult") {
        Some(1)
    } else if str_eq(name, "stress_loss_mult") {
        Some(1)
    } else if str_eq(name, "stress_loss_per_piety_level") {
        Some(1)
    } else if str_eq(name, "stress_loss_per_prestige_level") {
        Some(1)
    } else if str_eq(name, "strife_opinion_gain_mult") {
        Some(1)
    } else if str_eq(name, "strife_opinion_loss_mult") {
        Some(1)
    } else if str_eq(name, "supply_capacity_add") {
        Some(1)
    } else if str_eq(name, "supply_capacity_mult") {
        Some(1)
    } else if str_eq(name, "supply_duration") {
        Some(1)
    } else if str_eq(name, "supply_limit") {
        Some(7)
    } else if str_eq(name, "supply_limit_mult") {
        Some(7)
    } else if str_eq(name, "supply_loss_winter") {
        Some(2)
    } else if str_eq(name, "tax_mult") {
        Some(7)
    } else if str_eq(name, "title_creation_cost") {
        Some(1)
    } else if str_eq(name, "title_creation_cost_mult") {
        Some(1)
    } else if str_eq(name, "tolerance_advantage_mod") {
        Some(1)
    } else if str_eq(name, "travel_companion_opinion") {
        Some(1)
    } else if str_eq(name, "travel_danger") {
        Some(7)
    } else if str_eq(name, "travel_safety_mult") {
        Some(64)
    } else if str_eq(name, "travel_safety") {
        Some(64)
    } else if str_eq(name, "travel_speed_mult") {
        Some(64)
    } else if str_eq(name, "travel_speed") {
        Some(64)
    } else if str_eq(name, "twin_opinion") {
        Some(1)
    } else if str_eq(name, "tyranny_gain_mult") {
        Some(1)
    } else if str_eq(name, "tyranny_loss_mult") {
        Some(1)
    } else if str_eq(name, "uncontrolled_province_advantage") {
        Some(1)
    } else if str_eq(name, "vassal_levy_contribution_add") {
        Some(1)
    } else if str_eq(name, "vassal_levy_contribution_mult") {
        Some(1)
    } else if str_eq(name, "vassal_limit") {
        Some(1)
    } else if str_eq(name, "vassal_opinion") {
        Some(1)
    } else if str_eq(name, "vassal_tax_contribution_add") {
        Some(1)
    } else if str_eq(name, "vassal_tax_contribution_mult") {
        Some(1)
    } else if str_eq(name, "vassal_tax_mult") {
        Some(1)
    } else if str_eq(name, "winter_advantage") {
        Some(1)
    } else if str_eq(name, "winter_movement_speed") {
        Some(1)
    } else if str_eq(name, "years_of_fertility") {
        Some(1)
    } else {
        None
    }
}

pub open spec fn table_part_4(name: Seq<char>) -> Option<u8> {
    if name == "artifact_decay_reduction_mult"@ {
        Some(7)
    } else if name == "character_capital_county_monthly_development_growth_add"@ {
        Some(1)
    } else if name == "different_faith_county_opinion_mult_even_if_baron"@ {
        Some(1)
    } else if name == "levy_reinforcement_rate_different_faith_even_if_baron"@ {
        Some(1)
    } else if name == "levy_reinforcement_rate_friendly_territory"@ {
        Some(7)
    } else if name == "levy_reinforcement_rate_same_faith_even_if_baron"@ {
        Some(1)
    } else if name == "monthly_county_control_change_add"@ {
        Some(7)
    } else if name == "monthly_county_control_change_at_war_add"@ {
        Some(7)
    } else if name == "monthly_county_control_change_at_war_mult"@ {
        Some(7)
    } else if name == "monthly_county_control_change_factor"@ {
        Some(7)
    } else if name == "monthly_county_control_change_factor_even_if_baron"@ {
        Some(1)
    } else if name == "monthly_piety_gain_per_happy_powerful_vassal_add"@ {
        Some(1)
    } else if name == "monthly_piety_gain_per_happy_powerful_vassal_mult"@ {
        Some(1)
    } else if name == "monthly_prestige_gain_per_happy_powerful_vassal_add"@ {
        Some(1)
    } else if name == "monthly_prestige_gain_per_happy_powerful_vassal_mult"@ {
        Some(1)
    } else {
        None
    }
}

fn table_part_4_exec(name: &str) -> (r: Option<u8>)
    ensures
        r == table_part_4(name@),
{
    if str_eq(name, "artifact_decay_reduction_mult") {
        Some(7)
    } else if str_eq(name, "character_capital_county_monthly_development_growth_add") {
        Some(1)
    } else if str_eq(name, "different_faith_county_opinion_mult_even_if_baron") {
        Some(1)
    } else if str_eq(name, "levy_reinforcement_rate_different_faith_even_if_baron") {
        Some(1)
    } else if str_eq(name, "levy_reinforcement_rate_friendly_territory") {
        Some(7)
    } else if str_eq(name, "levy_reinforcement_rate_same_faith_even_if_baron") {
        Some(1)
    } else if str_eq(name, "monthly_county_control_change_add") {
        Some(7)
    } else if str_eq(name, "monthly_county_control_change_at_war_add") {
        Some(7)
    } else if str_eq(name, "monthly_county_control_change_at_war_mult") {
        Some(7)
    } else if str_eq(name, "monthly_county_control_change_factor") {
        Some(7)
    } else if str_eq(name, "monthly_county_control_change_factor_even_if_baron") {
        Some(1)
    } else if str_eq(name, "monthly_piety_gain_per_happy_powerful_vassal_add") {
        Some(1)
    } else if str_eq(name, "monthly_piety_gain_per_happy_powerful_vassal_mult") {
        Some(1)
    } else if str_eq(name, "monthly_prestige_gain_per_happy_powerful_vassal_add") {
        Some(1)
    } else if str_eq(name, "monthly_prestige_gain_per_happy_powerful_vassal_mult") {
        Some(1)
    } else {
        None
    }
}

/// The kinds of the modif `name` in the table of modifs, if it is there.
pub open spec fn modif_table(name: Seq<char>) -> Option<u8> {
    match table_part_0(name) {
        Some(k) => Some(k),
        None => match table_part_1(name) {
        Some(k) => Some(k),
        None => match table_part_2(name) {
        Some(k) => Some(k),
        None => match table_part_3(name) {
        Some(k) => Some(k),
        None => table_part_4(name),
    },
    },
    },
    }
}

fn modif_table_exec(name: &str) -> (r: Option<u8>)
    ensures
        r == modif_table(name@),
{
    if let Some(k) = table_part_0_exec(name) {
        return Some(k);
    }
    if let Some(k) = table_part_1_exec(name) {
        return Some(k);
    }
    if let Some(k) = table_part_2_exec(name) {
        return Some(k);
    }
    if let Some(k) = table_part_3_exec(name) {
        return Some(k);
    }
    table_part_4_exec(name)
}

/// `n` without the suffix `sfx`.
pub open spec fn strip_sfx(n: Seq<char>, sfx: Seq<char>) -> Seq<char> {
    n.take(n.len() - sfx.len())
}

/// What checking a generated modif gives: its kinds `mk`, and, when `warn` holds, the report
/// about the item `s` of kind `itype` that the modif `name` names, if it does not exist.
pub open spec fn check_item(data: &Everything, name: &Token, s: Seq<char>, itype: Item, mk: u8, warn: bool) -> (
    Option<u8>,
    Seq<ReportView>,
) {
    (Some(mk), if warn && !data.spec_item_exists(itype, s) {
        seq![implied_item_report(itype, s, name)]
    } else {
        Seq::empty()
    })
}

/// The report about a modif `name` that names `s`, which is not any of the items it could be.
pub open spec fn missing_any_report(name: &Token, s: Seq<char>, info: Seq<char>) -> ReportView {
    simple_report(ErrorKey::MissingItem, Severity::Warning, Confidence::Reasonable, "could not find any "@ + s, Some(info), name.loc)
}

/// The report about a modif `name` that cannot exist because of what `msg` says.
pub open spec fn no_modif_report(name: &Token, msg: Seq<char>) -> ReportView {
    simple_report(
        ErrorKey::Validation,
        Severity::Error,
        Confidence::Reasonable,
        msg,
        Some("so the modifier "@ + name@ + " does not exist"@),
        name.loc,
    )
}

/// An opinion modif `name` of `s`: a culture, faith, religion, religion family, government type
/// or vassal stance.
pub open spec fn opinion_result(data: &Everything, name: &Token, s: Seq<char>, warn: bool) -> (Option<u8>, Seq<ReportView>) {
    (Some(CHARACTER), if warn && !data.spec_item_exists(Item::Culture, s) && !data.spec_item_exists(Item::Faith, s)
        && !data.spec_item_exists(Item::Religion, s) && !data.spec_item_exists(Item::ReligionFamily, s)
        && !data.spec_item_exists(Item::GovernmentType, s) && !data.spec_item_exists(Item::VassalStance, s) {
        seq![
            missing_any_report(
                name,
                s,
                "Could be a culture, faith, religion, religion family, government type, or vassal stance"@,
            ),
        ]
    } else {
        Seq::empty()
    })
}

/// An opinion modif of something that exists needs no report. Looking up `s` followed by
/// `_opinion`, where `s` is a culture, faith, religion, religion family, government type or
/// vassal stance, gives a character modif and logs nothing, with or without `warn`. This holds
/// for every such name that the table does not list and that is not one of the more specific
/// opinion modifs checked before it (those ending in `_different_culture_opinion`,
/// `_different_faith_opinion`, `_same_culture_opinion`, `_same_faith_opinion` or
/// `_vassal_opinion`).
pub proof fn law_opinion_of_existing_item(data: &Everything, name: &Token, s: Seq<char>, warn: bool)
    requires
        name@ == s + "_opinion"@,
        modif_table(name@) is None,
        !spec_ends_with(name@, "_different_culture_opinion"@),
        !spec_ends_with(name@, "_different_faith_opinion"@),
        !spec_ends_with(name@, "_same_culture_opinion"@),
        !spec_ends_with(name@, "_same_faith_opinion"@),
        !spec_ends_with(name@, "_vassal_opinion"@),
        data.spec_item_exists(Item::Culture, s) || data.spec_item_exists(Item::Faith, s)
            || data.spec_item_exists(Item::Religion, s) || data.spec_item_exists(Item::ReligionFamily, s)
            || data.spec_item_exists(Item::GovernmentType, s) || data.spec_item_exists(Item::VassalStance, s),
    ensures
        spec_lookup_modif(data, name, warn) == (Some(CHARACTER), Seq::<ReportView>::empty()),
{
    let n = name@;
    let t = "_opinion"@;
    assert(n.subrange(n.len() - t.len(), n.len() as int) =~= t);
    assert(spec_ends_with(n, t));
    assert(strip_sfx(n, t) =~= s);
    assert(!spec_ends_with(n, "_opinion_same_faith"@)) by {
        reveal_strlit("_opinion_same_faith");
        reveal_strlit("_opinion");
        let u = "_opinion_same_faith"@;
        if spec_ends_with(n, u) {
            assert(n[n.len() - 1] == u[u.len() - 1]);
            assert(n[n.len() - 1] == t[t.len() - 1]);
        }
    }
}

/// A levy or tax contribution modif `name` of `s`: a government type or vassal stance.
pub open spec fn contribution_result(data: &Everything, name: &Token, s: Seq<char>, warn: bool) -> (Option<u8>, Seq<ReportView>) {
    (Some(CHARACTER), if warn && !data.spec_item_exists(Item::GovernmentType, s) && !data.spec_item_exists(
        Item::VassalStance,
        s,
    ) {
        seq![missing_any_report(name, s, "Could be a government type or vassal stance"@)]
    } else {
        Seq::empty()
    })
}

/// A men-at-arms modif `name` of `s`; with `stationed_` before the type, of the provinces they
/// are stationed in.
pub open spec fn maa_result(data: &Everything, name: &Token, s: Seq<char>, warn: bool) -> (Option<u8>, Seq<ReportView>) {
    if spec_starts_with(s, "stationed_"@) {
        check_item(data, name, s.skip("stationed_"@.len() as int), Item::MenAtArmsBase, PROVINCE, warn)
    } else {
        check_item(data, name, s, Item::MenAtArmsBase, CHARACTER, warn)
    }
}

/// An xp modif `name` of `s`: a track of a trait, as `trait_track_` and its name, or a trait
/// with an xp track.
pub open spec fn xp_result(data: &Everything, name: &Token, s: Seq<char>, warn: bool) -> (Option<u8>, Seq<ReportView>) {
    if spec_starts_with(s, "trait_track_"@) {
        check_item(data, name, s.skip("trait_track_"@.len() as int), Item::TraitTrack, CHARACTER, warn)
    } else {
        (Some((CHARACTER | PROVINCE | COUNTY) as u8), if warn {
            (if data.spec_item_exists(Item::Trait, s) {
                Seq::empty()
            } else {
                seq![implied_item_report(Item::Trait, s, name)]
            }) + if data.spec_item_has_property(Item::Trait, s, "track"@) {
                Seq::empty()
            } else {
                seq![no_modif_report(name, "trait "@ + s + " does not have an xp track"@)]
            }
        } else {
            Seq::empty()
        })
    }
}

/// A development modif `name` of `s`: a geographical region that generates modifiers, or a
/// terrain.
pub open spec fn development_result(data: &Everything, name: &Token, s: Seq<char>, warn: bool) -> (Option<u8>, Seq<ReportView>) {
    (Some((CHARACTER | PROVINCE | COUNTY) as u8), if data.spec_item_exists(Item::Region, s) {
        if warn && !data.spec_item_has_property(Item::Region, s, "generates_modifiers"@) {
            seq![no_modif_report(name, "region "@ + s + " does not have `generates_modifiers = yes`"@)]
        } else {
            Seq::empty()
        }
    } else if warn && !data.spec_item_exists(Item::Terrain, s) {
        seq![missing_any_report(name, s, "Could be a geographical region or terrain"@)]
    } else {
        Seq::empty()
    })
}

/// A building modif `name` of `s`: a holding type, with or without `_holding` after it.
pub open spec fn holding_result(data: &Everything, name: &Token, s: Seq<char>, warn: bool) -> (Option<u8>, Seq<ReportView>) {
    (Some((CHARACTER | PROVINCE | COUNTY) as u8), if data.spec_item_exists(Item::Holding, s) {
        Seq::empty()
    } else if spec_ends_with(s, "_holding"@) && data.spec_item_exists(Item::Holding, strip_sfx(s, "_holding"@)) {
        Seq::empty()
    } else if warn {
        seq![implied_item_report(Item::Holding, s, name)]
    } else {
        Seq::empty()
    })
}

/// What looking up the modif `name` gives: its kinds, if it is a modif or could be one if the
/// item it names existed, and, when `warn` holds, the reports about the items it names. The
/// table of modifs is tried first, then the modifs generated from item names, by their
/// suffixes and prefixes, in a careful order because the suffixes overlap.
pub open spec fn spec_lookup_modif(data: &Everything, name: &Token, warn: bool) -> (Option<u8>, Seq<ReportView>) {
    let n = name@;
    if modif_table(n) is Some {
        (modif_table(n), Seq::empty())
    } else if spec_ends_with(n, "_different_culture_opinion"@) {
        check_item(data, name, strip_sfx(n, "_different_culture_opinion"@), Item::VassalStance, 1, warn)
    } else if spec_ends_with(n, "_different_faith_opinion"@) {
        check_item(data, name, strip_sfx(n, "_different_faith_opinion"@), Item::VassalStance, 1, warn)
    } else if spec_ends_with(n, "_same_culture_opinion"@) {
        check_item(data, name, strip_sfx(n, "_same_culture_opinion"@), Item::VassalStance, 1, warn)
    } else if spec_ends_with(n, "_same_faith_opinion"@) {
        check_item(data, name, strip_sfx(n, "_same_faith_opinion"@), Item::VassalStance, 1, warn)
    } else if spec_ends_with(n, "_vassal_opinion"@) {
        check_item(data, name, strip_sfx(n, "_vassal_opinion"@), Item::GovernmentType, 1, warn)
    } else if spec_ends_with(n, "_opinion_same_faith"@) {
        check_item(data, name, strip_sfx(n, "_opinion_same_faith"@), Item::GovernmentType, 1, warn)
    } else if spec_ends_with(n, "_opinion"@) {
        opinion_result(data, name, strip_sfx(n, "_opinion"@), warn)
    } else if spec_ends_with(n, "_levy_contribution_add"@) {
        contribution_result(data, name, strip_sfx(n, "_levy_contribution_add"@), warn)
    } else if spec_ends_with(n, "_levy_contribution_mult"@) {
        contribution_result(data, name, strip_sfx(n, "_levy_contribution_mult"@), warn)
    } else if spec_ends_with(n, "_tax_contribution_add"@) {
        contribution_result(data, name, strip_sfx(n, "_tax_contribution_add"@), warn)
    } else if spec_ends_with(n, "_tax_contribution_mult"@) {
        contribution_result(data, name, strip_sfx(n, "_tax_contribution_mult"@), warn)
    } else if spec_ends_with(n, "_damage_add"@) {
        maa_result(data, name, strip_sfx(n, "_damage_add"@), warn)
    } else if spec_ends_with(n, "_damage_mult"@) {
        maa_result(data, name, strip_sfx(n, "_damage_mult"@), warn)
    } else if spec_ends_with(n, "_pursuit_add"@) {
        maa_result(data, name, strip_sfx(n, "_pursuit_add"@), warn)
    } else if spec_ends_with(n, "_pursuit_mult"@) {
        maa_result(data, name, strip_sfx(n, "_pursuit_mult"@), warn)
    } else if spec_ends_with(n, "_screen_add"@) {
        maa_result(data, name, strip_sfx(n, "_screen_add"@), warn)
    } else if spec_ends_with(n, "_screen_mult"@) {
        maa_result(data, name, strip_sfx(n, "_screen_mult"@), warn)
    } else if spec_ends_with(n, "_siege_value_add"@) {
        maa_result(data, name, strip_sfx(n, "_siege_value_add"@), warn)
    } else if spec_ends_with(n, "_siege_value_mult"@) {
        maa_result(data, name, strip_sfx(n, "_siege_value_mult"@), warn)
    } else if spec_ends_with(n, "_toughness_add"@) {
        maa_result(data, name, strip_sfx(n, "_toughness_add"@), warn)
    } else if spec_ends_with(n, "_toughness_mult"@) {
        maa_result(data, name, strip_sfx(n, "_toughness_mult"@), warn)
    } else if spec_ends_with(n, "_maintenance_mult"@) {
        check_item(data, name, strip_sfx(n, "_maintenance_mult"@), Item::MenAtArmsBase, 1, warn)
    } else if spec_ends_with(n, "_max_size_add"@) {
        check_item(data, name, strip_sfx(n, "_max_size_add"@), Item::MenAtArmsBase, 1, warn)
    } else if spec_ends_with(n, "_max_size_mult"@) {
        check_item(data, name, strip_sfx(n, "_max_size_mult"@), Item::MenAtArmsBase, 1, warn)
    } else if spec_ends_with(n, "_recruitment_cost_mult"@) {
        check_item(data, name, strip_sfx(n, "_recruitment_cost_mult"@), Item::MenAtArmsBase, 1, warn)
    } else if spec_ends_with(n, "_scheme_power_add"@) {
        check_item(data, name, strip_sfx(n, "_scheme_power_add"@), Item::Scheme, 1, warn)
    } else if spec_ends_with(n, "_scheme_power_mult"@) {
        check_item(data, name, strip_sfx(n, "_scheme_power_mult"@), Item::Scheme, 1, warn)
    } else if spec_ends_with(n, "_scheme_resistance_add"@) {
        check_item(data, name, strip_sfx(n, "_scheme_resistance_add"@), Item::Scheme, 1, warn)
    } else if spec_ends_with(n, "_scheme_resistance_mult"@) {
        check_item(data, name, strip_sfx(n, "_scheme_resistance_mult"@), Item::Scheme, 1, warn)
    } else if spec_ends_with(n, "_advantage"@) {
        check_item(data, name, strip_sfx(n, "_advantage"@), Item::Terrain, 1, warn)
    } else if spec_ends_with(n, "_attrition_mult"@) {
        check_item(data, name, strip_sfx(n, "_attrition_mult"@), Item::Terrain, 1, warn)
    } else if spec_ends_with(n, "_cancel_negative_supply"@) {
        check_item(data, name, strip_sfx(n, "_cancel_negative_supply"@), Item::Terrain, 1, warn)
    } else if spec_ends_with(n, "_max_combat_roll"@) {
        check_item(data, name, strip_sfx(n, "_max_combat_roll"@), Item::Terrain, 1, warn)
    } else if spec_ends_with(n, "_min_combat_roll"@) {
        check_item(data, name, strip_sfx(n, "_min_combat_roll"@), Item::Terrain, 1, warn)
    } else if spec_starts_with(n, "monthly_"@) && spec_ends_with(n.skip("monthly_"@.len() as int), "_xp_gain_mult"@) {
        check_item(data, name, strip_sfx(n.skip("monthly_"@.len() as int), "_xp_gain_mult"@), Item::Lifestyle, 1, warn)
    } else if spec_ends_with(n, "_xp_degradation_mult"@) {
        xp_result(data, name, strip_sfx(n, "_xp_degradation_mult"@), warn)
    } else if spec_ends_with(n, "_xp_gain_mult"@) {
        xp_result(data, name, strip_sfx(n, "_xp_gain_mult"@), warn)
    } else if spec_ends_with(n, "_xp_loss_mult"@) {
        xp_result(data, name, strip_sfx(n, "_xp_loss_mult"@), warn)
    } else if spec_starts_with(n, "max_"@) && spec_ends_with(n.skip("max_"@.len() as int), "_schemes_add"@) {
        check_item(data, name, strip_sfx(n.skip("max_"@.len() as int), "_schemes_add"@), Item::Scheme, 1, warn)
    } else if spec_starts_with(n, "scheme_power_against_"@) && spec_ends_with(n.skip("scheme_power_against_"@.len() as int), "_add"@) {
        check_item(data, name, strip_sfx(n.skip("scheme_power_against_"@.len() as int), "_add"@), Item::Relation, 1, warn)
    } else if spec_starts_with(n, "scheme_power_against_"@) && spec_ends_with(n.skip("scheme_power_against_"@.len() as int), "_mult"@) {
        check_item(data, name, strip_sfx(n.skip("scheme_power_against_"@.len() as int), "_mult"@), Item::Relation, 1, warn)
    } else if spec_ends_with(n, "_development_growth"@) {
        development_result(data, name, strip_sfx(n, "_development_growth"@), warn)
    } else if spec_ends_with(n, "_development_growth_factor"@) {
        development_result(data, name, strip_sfx(n, "_development_growth_factor"@), warn)
    } else if spec_ends_with(n, "_build_gold_cost"@) {
        holding_result(data, name, strip_sfx(n, "_build_gold_cost"@), warn)
    } else if spec_ends_with(n, "_build_piety_cost"@) {
        holding_result(data, name, strip_sfx(n, "_build_piety_cost"@), warn)
    } else if spec_ends_with(n, "_build_prestige_cost"@) {
        holding_result(data, name, strip_sfx(n, "_build_prestige_cost"@), warn)
    } else if spec_ends_with(n, "_build_speed"@) {
        holding_result(data, name, strip_sfx(n, "_build_speed"@), warn)
    } else if spec_ends_with(n, "_holding_construction_gold_cost"@) {
        check_item(data, name, strip_sfx(n, "_holding_construction_gold_cost"@), Item::Terrain, 7, warn)
    } else if spec_ends_with(n, "_holding_construction_piety_cost"@) {
        check_item(data, name, strip_sfx(n, "_holding_construction_piety_cost"@), Item::Terrain, 7, warn)
    } else if spec_ends_with(n, "_holding_construction_prestige_cost"@) {
        check_item(data, name, strip_sfx(n, "_holding_construction_prestige_cost"@), Item::Terrain, 7, warn)
    } else if spec_ends_with(n, "_construction_gold_cost"@) {
        check_item(data, name, strip_sfx(n, "_construction_gold_cost"@), Item::Terrain, 7, warn)
    } else if spec_ends_with(n, "_construction_piety_cost"@) {
        check_item(data, name, strip_sfx(n, "_construction_piety_cost"@), Item::Terrain, 7, warn)
    } else if spec_ends_with(n, "_construction_prestige_cost"@) {
        check_item(data, name, strip_sfx(n, "_construction_prestige_cost"@), Item::Terrain, 7, warn)
    } else if spec_ends_with(n, "_levy_size"@) {
        check_item(data, name, strip_sfx(n, "_levy_size"@), Item::Terrain, 7, warn)
    } else if spec_ends_with(n, "_supply_limit"@) {
        check_item(data, name, strip_sfx(n, "_supply_limit"@), Item::Terrain, 7, warn)
    } else if spec_ends_with(n, "_supply_limit_mult"@) {
        check_item(data, name, strip_sfx(n, "_supply_limit_mult"@), Item::Terrain, 7, warn)
    } else if spec_ends_with(n, "_tax_mult"@) {
        check_item(data, name, strip_sfx(n, "_tax_mult"@), Item::Terrain, 7, warn)
    } else if spec_ends_with(n, "_travel_danger"@) {
        check_item(data, name, strip_sfx(n, "_travel_danger"@), Item::Terrain, 7, warn)
    } else {
        (None, Seq::empty())
    }
}

/// `s` without the suffix `sfx`, if it has it.
fn strip_suffix_str(s: &str, sfx: &str) -> (r: Option<String>)
    ensures
        match r {
            Some(t) => spec_ends_with(s@, sfx@) && t@ == strip_sfx(s@, sfx@),
            None => !spec_ends_with(s@, sfx@),
        },
{
    if str_ends_with(s, sfx) {
        let v = chars_of(s);
        let n = v.len() - chars_of(sfx).len();
        proof {
            assert(v@.subrange(0, n as int) =~= strip_sfx(s@, sfx@));
        }
        Some(string_from_chars(v.as_slice(), 0, n))
    } else {
        None
    }
}

/// `s` without the prefix `pfx`, if it has it.
fn strip_prefix_str(s: &str, pfx: &str) -> (r: Option<String>)
    ensures
        match r {
            Some(t) => spec_starts_with(s@, pfx@) && t@ == s@.skip(pfx@.len() as int),
            None => !spec_starts_with(s@, pfx@),
        },
{
    if str_starts_with(s, pfx) {
        let v = chars_of(s);
        let n = chars_of(pfx).len();
        proof {
            assert(v@.subrange(n as int, v@.len() as int) =~= s@.skip(pfx@.len() as int));
        }
        Some(string_from_chars(v.as_slice(), n, v.len()))
    } else {
        None
    }
}

fn check_item_exec(data: &Everything, name: &Token, s: &str, itype: Item, mk: u8, warn: bool, errors: &mut Errors) -> (r: Option<u8>)
    ensures
        r == check_item(data, name, s@, itype, mk, warn).0,
        final(errors).logged(old(errors), check_item(data, name, s@, itype, mk, warn).1),
{
    if warn {
        data.verify_exists_implied(itype, s, name, errors);
    } else {
        proof {
            lemma_logged_nothing(errors);
        }
    }
    Some(mk)
}

fn opinion_exec(data: &Everything, name: &Token, s: &str, warn: bool, errors: &mut Errors) -> (r: Option<u8>)
    ensures
        r == opinion_result(data, name, s@, warn).0,
        final(errors).logged(old(errors), opinion_result(data, name, s@, warn).1),
{
    if warn && !data.item_exists(Item::Culture, s) && !data.item_exists(Item::Faith, s) && !data.item_exists(Item::Religion, s)
        && !data.item_exists(Item::ReligionFamily, s) && !data.item_exists(Item::GovernmentType, s) && !data.item_exists(
        Item::VassalStance,
        s,
    ) {
        let msg = concat_str("could not find any ", s);
        let info = "Could be a culture, faith, religion, religion family, government type, or vassal stance";
        proof {
            reveal_strlit("Could be a culture, faith, religion, religion family, government type, or vassal stance");
        }
        crate::report::builder::warn(ErrorKey::MissingItem).msg(msg.as_str()).info(info).loc(name).push(errors);
    } else {
        proof {
            lemma_logged_nothing(errors);
        }
    }
    Some(CHARACTER)
}

fn contribution_exec(data: &Everything, name: &Token, s: &str, warn: bool, errors: &mut Errors) -> (r: Option<u8>)
    ensures
        r == contribution_result(data, name, s@, warn).0,
        final(errors).logged(old(errors), contribution_result(data, name, s@, warn).1),
{
    if warn && !data.item_exists(Item::GovernmentType, s) && !data.item_exists(Item::VassalStance, s) {
        let msg = concat_str("could not find any ", s);
        let info = "Could be a government type or vassal stance";
        proof {
            reveal_strlit("Could be a government type or vassal stance");
        }
        crate::report::builder::warn(ErrorKey::MissingItem).msg(msg.as_str()).info(info).loc(name).push(errors);
    } else {
        proof {
            lemma_logged_nothing(errors);
        }
    }
    Some(CHARACTER)
}

fn maa_exec(data: &Everything, name: &Token, s: &str, warn: bool, errors: &mut Errors) -> (r: Option<u8>)
    ensures
        r == maa_result(data, name, s@, warn).0,
        final(errors).logged(old(errors), maa_result(data, name, s@, warn).1),
{
    if let Some(t) = strip_prefix_str(s, "stationed_") {
        return check_item_exec(data, name, t.as_str(), Item::MenAtArmsBase, PROVINCE, warn, errors);
    }
    check_item_exec(data, name, s, Item::MenAtArmsBase, CHARACTER, warn, errors)
}

/// The info of a report about the modif `name` that cannot exist.
fn no_modif_info(name: &Token) -> (s: String)
    ensures
        s@ == "so the modifier "@ + name@ + " does not exist"@,
        s@.len() > 0,
{
    proof {
        reveal_strlit("so the modifier ");
    }
    concat_str(concat_str("so the modifier ", name.as_str()).as_str(), " does not exist")
}

fn xp_exec(data: &Everything, name: &Token, s: &str, warn: bool, errors: &mut Errors) -> (r: Option<u8>)
    ensures
        r == xp_result(data, name, s@, warn).0,
        final(errors).logged(old(errors), xp_result(data, name, s@, warn).1),
{
    if let Some(t) = strip_prefix_str(s, "trait_track_") {
        return check_item_exec(data, name, t.as_str(), Item::TraitTrack, CHARACTER, warn, errors);
    }
    if warn {
        let ghost e0 = *errors;
        data.verify_exists_implied(Item::Trait, s, name, errors);
        let ghost e1 = *errors;
        if !data.has_track(s) {
            let msg = concat_str(concat_str("trait ", s).as_str(), " does not have an xp track");
            let info = no_modif_info(name);
            err(ErrorKey::Validation).msg(msg.as_str()).info(info.as_str()).loc(name).push(errors);
        } else {
            proof {
                lemma_logged_nothing(errors);
            }
        }
        proof {
            let a = if data.spec_item_exists(Item::Trait, s@) {
                Seq::<ReportView>::empty()
            } else {
                seq![implied_item_report(Item::Trait, s@, name)]
            };
            let b = if data.spec_item_has_property(Item::Trait, s@, "track"@) {
                Seq::<ReportView>::empty()
            } else {
                seq![no_modif_report(name, "trait "@ + s@ + " does not have an xp track"@)]
            };
            lemma_logged_trans(&e0, &e1, errors, a, b);
        }
    } else {
        proof {
            lemma_logged_nothing(errors);
        }
    }
    Some(CHARACTER | PROVINCE | COUNTY)
}

fn development_exec(data: &Everything, name: &Token, s: &str, warn: bool, errors: &mut Errors) -> (r: Option<u8>)
    ensures
        r == development_result(data, name, s@, warn).0,
        final(errors).logged(old(errors), development_result(data, name, s@, warn).1),
{
    if data.item_exists(Item::Region, s) {
        if warn && !data.item_has_property(Item::Region, s, "generates_modifiers") {
            let msg = concat_str(concat_str("region ", s).as_str(), " does not have `generates_modifiers = yes`");
            let info = no_modif_info(name);
            err(ErrorKey::Validation).msg(msg.as_str()).info(info.as_str()).loc(name).push(errors);
        } else {
            proof {
                lemma_logged_nothing(errors);
            }
        }
    } else if warn && !data.item_exists(Item::Terrain, s) {
        let msg = concat_str("could not find any ", s);
        let info = "Could be a geographical region or terrain";
        proof {
            reveal_strlit("Could be a geographical region or terrain");
        }
        crate::report::builder::warn(ErrorKey::MissingItem).msg(msg.as_str()).info(info).loc(name).push(errors);
    } else {
        proof {
            lemma_logged_nothing(errors);
        }
    }
    Some(CHARACTER | PROVINCE | COUNTY)
}

fn holding_exec(data: &Everything, name: &Token, s: &str, warn: bool, errors: &mut Errors) -> (r: Option<u8>)
    ensures
        r == holding_result(data, name, s@, warn).0,
        final(errors).logged(old(errors), holding_result(data, name, s@, warn).1),
{
    if data.item_exists(Item::Holding, s) {
        proof {
            lemma_logged_nothing(errors);
        }
        return Some(CHARACTER | PROVINCE | COUNTY);
    }
    if let Some(t) = strip_suffix_str(s, "_holding") {
        if data.item_exists(Item::Holding, t.as_str()) {
            proof {
                lemma_logged_nothing(errors);
            }
            return Some(CHARACTER | PROVINCE | COUNTY);
        }
    }
    if warn {
        data.verify_exists_implied(Item::Holding, s, name, errors);
    } else {
        proof {
            lemma_logged_nothing(errors);
        }
    }
    Some(CHARACTER | PROVINCE | COUNTY)
}


/// Look up the modif `name`: its kinds, if it is a modif or could be one if the item it names
/// existed; when `warn` holds, the items it names are checked and reported on.
#[verifier::rlimit(60)]
pub fn lookup_modif(name: &Token, data: &Everything, warn: bool, errors: &mut Errors) -> (r: Option<ModifKinds>)
    ensures
        match r {
            Some(mk) => spec_lookup_modif(data, name, warn).0 == Some(mk.bits),
            None => spec_lookup_modif(data, name, warn).0 is None,
        },
        final(errors).logged(old(errors), spec_lookup_modif(data, name, warn).1),
{
    match lookup_bits(name, data, warn, errors) {
        Some(bits) => Some(ModifKinds { bits }),
        None => None,
    }
}

#[verifier::rlimit(100)]
fn lookup_bits(name: &Token, data: &Everything, warn: bool, errors: &mut Errors) -> (r: Option<u8>)
    ensures
        r == spec_lookup_modif(data, name, warn).0,
        final(errors).logged(old(errors), spec_lookup_modif(data, name, warn).1),
{
    let n = name.as_str();
    if let Some(k) = modif_table_exec(n) {
        proof {
            lemma_logged_nothing(errors);
        }
        return Some(k);
    }
    if let Some(s) = strip_suffix_str(n, "_different_culture_opinion") {
        return check_item_exec(data, name, s.as_str(), Item::VassalStance, 1, warn, errors);
    }
    if let Some(s) = strip_suffix_str(n, "_different_faith_opinion") {
        return check_item_exec(data, name, s.as_str(), Item::VassalStance, 1, warn, errors);
    }
    if let Some(s) = strip_suffix_str(n, "_same_culture_opinion") {
        return check_item_exec(data, name, s.as_str(), Item::VassalStance, 1, warn, errors);
    }
    if let Some(s) = strip_suffix_str(n, "_same_faith_opinion") {
        return check_item_exec(data, name, s.as_str(), Item::VassalStance, 1, warn, errors);
    }
    if let Some(s) = strip_suffix_str(n, "_vassal_opinion") {
        return check_item_exec(data, name, s.as_str(), Item::GovernmentType, 1, warn, errors);
    }
    if let Some(s) = strip_suffix_str(n, "_opinion_same_faith") {
        return check_item_exec(data, name, s.as_str(), Item::GovernmentType, 1, warn, errors);
    }
    if let Some(s) = strip_suffix_str(n, "_opinion") {
        return opinion_exec(data, name, s.as_str(), warn, errors);
    }
    if let Some(s) = strip_suffix_str(n, "_levy_contribution_add") {
        return contribution_exec(data, name, s.as_str(), warn, errors);
    }
    if let Some(s) = strip_suffix_str(n, "_levy_contribution_mult") {
        return contribution_exec(data, name, s.as_str(), warn, errors);
    }
    if let Some(s) = strip_suffix_str(n, "_tax_contribution_add") {
        return contribution_exec(data, name, s.as_str(), warn, errors);
    }
    if let Some(s) = strip_suffix_str(n, "_tax_contribution_mult") {
        return contribution_exec(data, name, s.as_str(), warn, errors);
    }
    if let Some(s) = strip_suffix_str(n, "_damage_add") {
        return maa_exec(data, name, s.as_str(), warn, errors);
    }
    if let Some(s) = strip_suffix_str(n, "_damage_mult") {
        return maa_exec(data, name, s.as_str(), warn, errors);
    }
    if let Some(s) = strip_suffix_str(n, "_pursuit_add") {
        return maa_exec(data, name, s.as_str(), warn, errors);
    }
    if let Some(s) = strip_suffix_str(n, "_pursuit_mult") {
        return maa_exec(data, name, s.as_str(), warn, errors);
    }
    if let Some(s) = strip_suffix_str(n, "_screen_add") {
        return maa_exec(data, name, s.as_str(), warn, errors);
    }
    if let Some(s) = strip_suffix_str(n, "_screen_mult") {
        return maa_exec(data, name, s.as_str(), warn, errors);
    }
    if let Some(s) = strip_suffix_str(n, "_siege_value_add") {
        return maa_exec(data, name, s.as_str(), warn, errors);
    }
    if let Some(s) = strip_suffix_str(n, "_siege_value_mult") {
        return maa_exec(data, name, s.as_str(), warn, errors);
    }
    if let Some(s) = strip_suffix_str(n, "_toughness_add") {
        return maa_exec(data, name, s.as_str(), warn, errors);
    }
    if let Some(s) = strip_suffix_str(n, "_toughness_mult") {
        return maa_exec(data, name, s.as_str(), warn, errors);
    }
    if let Some(s) = strip_suffix_str(n, "_maintenance_mult") {
        return check_item_exec(data, name, s.as_str(), Item::MenAtArmsBase, 1, warn, errors);
    }
    if let Some(s) = strip_suffix_str(n, "_max_size_add") {
        return check_item_exec(data, name, s.as_str(), Item::MenAtArmsBase, 1, warn, errors);
    }
    if let Some(s) = strip_suffix_str(n, "_max_size_mult") {
        return check_item_exec(data, name, s.as_str(), Item::MenAtArmsBase, 1, warn, errors);
    }
    if let Some(s) = strip_suffix_str(n, "_recruitment_cost_mult") {
        return check_item_exec(data, name, s.as_str(), Item::MenAtArmsBase, 1, warn, errors);
    }
    if let Some(s) = strip_suffix_str(n, "_scheme_power_add") {
        return check_item_exec(data, name, s.as_str(), Item::Scheme, 1, warn, errors);
    }
    if let Some(s) = strip_suffix_str(n, "_scheme_power_mult") {
        return check_item_exec(data, name, s.as_str(), Item::Scheme, 1, warn, errors);
    }
    if let Some(s) = strip_suffix_str(n, "_scheme_resistance_add") {
        return check_item_exec(data, name, s.as_str(), Item::Scheme, 1, warn, errors);
    }
    if let Some(s) = strip_suffix_str(n, "_scheme_resistance_mult") {
        return check_item_exec(data, name, s.as_str(), Item::Scheme, 1, warn, errors);
    }
    if let Some(s) = strip_suffix_str(n, "_advantage") {
        return check_item_exec(data, name, s.as_str(), Item::Terrain, 1, warn, errors);
    }
    if let Some(s) = strip_suffix_str(n, "_attrition_mult") {
        return check_item_exec(data, name, s.as_str(), Item::Terrain, 1, warn, errors);
    }
    if let Some(s) = strip_suffix_str(n, "_cancel_negative_supply") {
        return check_item_exec(data, name, s.as_str(), Item::Terrain, 1, warn, errors);
    }
    if let Some(s) = strip_suffix_str(n, "_max_combat_roll") {
        return check_item_exec(data, name, s.as_str(), Item::Terrain, 1, warn, errors);
    }
    if let Some(s) = strip_suffix_str(n, "_min_combat_roll") {
        return check_item_exec(data, name, s.as_str(), Item::Terrain, 1, warn, errors);
    }
    if let Some(s) = strip_prefix_str(n, "monthly_") {
        if let Some(s) = strip_suffix_str(s.as_str(), "_xp_gain_mult") {
            return check_item_exec(data, name, s.as_str(), Item::Lifestyle, 1, warn, errors);
        }
    }
    if let Some(s) = strip_suffix_str(n, "_xp_degradation_mult") {
        return xp_exec(data, name, s.as_str(), warn, errors);
    }
    if let Some(s) = strip_suffix_str(n, "_xp_gain_mult") {
        return xp_exec(data, name, s.as_str(), warn, errors);
    }
    if let Some(s) = strip_suffix_str(n, "_xp_loss_mult") {
        return xp_exec(data, name, s.as_str(), warn, errors);
    }
    if let Some(s) = strip_prefix_str(n, "max_") {
        if let Some(s) = strip_suffix_str(s.as_str(), "_schemes_add") {
            return check_item_exec(data, name, s.as_str(), Item::Scheme, 1, warn, errors);
        }
    }
    if let Some(s) = strip_prefix_str(n, "scheme_power_against_") {
        if let Some(s) = strip_suffix_str(s.as_str(), "_add") {
            return check_item_exec(data, name, s.as_str(), Item::Relation, 1, warn, errors);
        }
        if let Some(s) = strip_suffix_str(s.as_str(), "_mult") {
            return check_item_exec(data, name, s.as_str(), Item::Relation, 1, warn, errors);
        }
    }
    if let Some(s) = strip_suffix_str(n, "_development_growth") {
        return development_exec(data, name, s.as_str(), warn, errors);
    }
    if let Some(s) = strip_suffix_str(n, "_development_growth_factor") {
        return development_exec(data, name, s.as_str(), warn, errors);
    }
    if let Some(s) = strip_suffix_str(n, "_build_gold_cost") {
        return holding_exec(data, name, s.as_str(), warn, errors);
    }
    if let Some(s) = strip_suffix_str(n, "_build_piety_cost") {
        return holding_exec(data, name, s.as_str(), warn, errors);
    }
    if let Some(s) = strip_suffix_str(n, "_build_prestige_cost") {
        return holding_exec(data, name, s.as_str(), warn, errors);
    }
    if let Some(s) = strip_suffix_str(n, "_build_speed") {
        return holding_exec(data, name, s.as_str(), warn, errors);
    }
    if let Some(s) = strip_suffix_str(n, "_holding_construction_gold_cost") {
        return check_item_exec(data, name, s.as_str(), Item::Terrain, 7, warn, errors);
    }
    if let Some(s) = strip_suffix_str(n, "_holding_construction_piety_cost") {
        return check_item_exec(data, name, s.as_str(), Item::Terrain, 7, warn, errors);
    }
    if let Some(s) = strip_suffix_str(n, "_holding_construction_prestige_cost") {
        return check_item_exec(data, name, s.as_str(), Item::Terrain, 7, warn, errors);
    }
    if let Some(s) = strip_suffix_str(n, "_construction_gold_cost") {
        return check_item_exec(data, name, s.as_str(), Item::Terrain, 7, warn, errors);
    }
    if let Some(s) = strip_suffix_str(n, "_construction_piety_cost") {
        return check_item_exec(data, name, s.as_str(), Item::Terrain, 7, warn, errors);
    }
    if let Some(s) = strip_suffix_str(n, "_construction_prestige_cost") {
        return check_item_exec(data, name, s.as_str(), Item::Terrain, 7, warn, errors);
    }
    if let Some(s) = strip_suffix_str(n, "_levy_size") {
        return check_item_exec(data, name, s.as_str(), Item::Terrain, 7, warn, errors);
    }
    if let Some(s) = strip_suffix_str(n, "_supply_limit") {
        return check_item_exec(data, name, s.as_str(), Item::Terrain, 7, warn, errors);
    }
    if let Some(s) = strip_suffix_str(n, "_supply_limit_mult") {
        return check_item_exec(data, name, s.as_str(), Item::Terrain, 7, warn, errors);
    }
    if let Some(s) = strip_suffix_str(n, "_tax_mult") {
        return check_item_exec(data, name, s.as_str(), Item::Terrain, 7, warn, errors);
    }
    if let Some(s) = strip_suffix_str(n, "_travel_danger") {
        return check_item_exec(data, name, s.as_str(), Item::Terrain, 7, warn, errors);
    }
    proof {
        lemma_logged_nothing(errors);
    }
    None
}

} // verus!
