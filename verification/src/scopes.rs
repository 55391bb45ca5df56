//! The scope types of the games: what is known about the type of a script value is a set of them.
use vstd::prelude::*;

use crate::everything::Item;
use crate::text::{chars_of, str_eq, string_from_chars, spec_upper_char, to_ascii_uppercase_char};
use crate::variables::Game;

verus! {

/// A set of scope types: what is known about the type of a script value, mostly narrowed down
/// to one type. Each scope type of a game has a bit of its own; the games share bits, so a set
/// means something only for one game.
#[derive(Clone, Copy, Debug, PartialEq, Eq, Hash, Structural)]
pub struct Scopes {
    pub bits: u128,
}

/// The bits of the types `None`, `Value`, `Bool` and `Flag`, which every game has.
pub open spec fn generic_bits() -> u128 {
    0xf
}

/// The bit of `None`: no scope at all.
pub open spec fn none_bit() -> u128 {
    0x1
}

/// The bits of all the scope types of `game`.
pub open spec fn all_bits(game: Game) -> u128 {
    match game {
        Game::Ck3 => 0x1fffffffffffff29cf,
        Game::Vic3 => 0x7ffffff7ffffffffff3fff,
        Game::Imperator => 0x7fff3fff,
        Game::Hoi4 => 0x7ff106f,
    }
}

fn all_bits_exec(game: Game) -> (b: u128)
    ensures
        b == all_bits(game),
{
    match game {
        Game::Ck3 => 0x1fffffffffffff29cf,
        Game::Vic3 => 0x7ffffff7ffffffffff3fff,
        Game::Imperator => 0x7fff3fff,
        Game::Hoi4 => 0x7ff106f,
    }
}

/// The bit of the scope type named `name` in Ck3, by the type's name in camel case.
pub open spec fn ck3_flag(name: Seq<char>) -> Option<u128> {
    if name == "None"@ {
        Some(0x1)
    } else if name == "Value"@ {
        Some(0x2)
    } else if name == "Bool"@ {
        Some(0x4)
    } else if name == "Flag"@ {
        Some(0x8)
    } else if name == "Character"@ {
        Some(0x40)
    } else if name == "Culture"@ {
        Some(0x80)
    } else if name == "Province"@ {
        Some(0x100)
    } else if name == "Religion"@ {
        Some(0x800)
    } else if name == "War"@ {
        Some(0x2000)
    } else if name == "Accolade"@ {
        Some(0x10000)
    } else if name == "AccoladeType"@ {
        Some(0x20000)
    } else if name == "Activity"@ {
        Some(0x40000)
    } else if name == "ActivityType"@ {
        Some(0x80000)
    } else if name == "Army"@ {
        Some(0x100000)
    } else if name == "Artifact"@ {
        Some(0x200000)
    } else if name == "CasusBelli"@ {
        Some(0x400000)
    } else if name == "CharacterMemory"@ {
        Some(0x800000)
    } else if name == "Combat"@ {
        Some(0x1000000)
    } else if name == "CombatSide"@ {
        Some(0x2000000)
    } else if name == "CouncilTask"@ {
        Some(0x4000000)
    } else if name == "CulturePillar"@ {
        Some(0x8000000)
    } else if name == "CultureTradition"@ {
        Some(0x10000000)
    } else if name == "Decision"@ {
        Some(0x20000000)
    } else if name == "Doctrine"@ {
        Some(0x40000000)
    } else if name == "Dynasty"@ {
        Some(0x80000000)
    } else if name == "DynastyHouse"@ {
        Some(0x100000000)
    } else if name == "Faction"@ {
        Some(0x200000000)
    } else if name == "Faith"@ {
        Some(0x400000000)
    } else if name == "GovernmentType"@ {
        Some(0x800000000)
    } else if name == "GreatHolyWar"@ {
        Some(0x1000000000)
    } else if name == "HolyOrder"@ {
        Some(0x2000000000)
    } else if name == "Inspiration"@ {
        Some(0x4000000000)
    } else if name == "LandedTitle"@ {
        Some(0x8000000000)
    } else if name == "MercenaryCompany"@ {
        Some(0x10000000000)
    } else if name == "Scheme"@ {
        Some(0x20000000000)
    } else if name == "Secret"@ {
        Some(0x40000000000)
    } else if name == "StoryCycle"@ {
        Some(0x80000000000)
    } else if name == "Struggle"@ {
        Some(0x100000000000)
    } else if name == "TitleAndVassalChange"@ {
        Some(0x200000000000)
    } else if name == "Trait"@ {
        Some(0x400000000000)
    } else if name == "TravelPlan"@ {
        Some(0x800000000000)
    } else if name == "VassalContract"@ {
        Some(0x1000000000000)
    } else if name == "VassalObligationLevel"@ {
        Some(0x2000000000000)
    } else if name == "HoldingType"@ {
        Some(0x4000000000000)
    } else if name == "TaxSlot"@ {
        Some(0x8000000000000)
    } else if name == "EpidemicType"@ {
        Some(0x10000000000000)
    } else if name == "Epidemic"@ {
        Some(0x20000000000000)
    } else if name == "LegendType"@ {
        Some(0x40000000000000)
    } else if name == "Legend"@ {
        Some(0x80000000000000)
    } else if name == "GeographicalRegion"@ {
        Some(0x100000000000000)
    } else if name == "Domicile"@ {
        Some(0x200000000000000)
    } else if name == "AgentSlot"@ {
        Some(0x400000000000000)
    } else if name == "TaskContract"@ {
        Some(0x800000000000000)
    } else if name == "TaskContractType"@ {
        Some(0x1000000000000000)
    } else if name == "Regiment"@ {
        Some(0x2000000000000000)
    } else if name == "CasusBelliType"@ {
        Some(0x4000000000000000)
    } else if name == "CourtPosition"@ {
        Some(0x8000000000000000)
    } else if name == "CourtPositionType"@ {
        Some(0x10000000000000000)
    } else if name == "Situation"@ {
        Some(0x20000000000000000)
    } else if name == "SituationParticipantGroup"@ {
        Some(0x40000000000000000)
    } else if name == "SituationSubRegion"@ {
        Some(0x80000000000000000)
    } else if name == "Confederation"@ {
        Some(0x100000000000000000)
    } else {
        None
    }
}

fn ck3_from_name(name: &str) -> (r: Option<u128>)
    ensures
        r == ck3_flag(name@),
{
    if str_eq(name, "None") {
        Some(0x1)
    } else if str_eq(name, "Value") {
        Some(0x2)
    } else if str_eq(name, "Bool") {
        Some(0x4)
    } else if str_eq(name, "Flag") {
        Some(0x8)
    } else if str_eq(name, "Character") {
        Some(0x40)
    } else if str_eq(name, "Culture") {
        Some(0x80)
    } else if str_eq(name, "Province") {
        Some(0x100)
    } else if str_eq(name, "Religion") {
        Some(0x800)
    } else if str_eq(name, "War") {
        Some(0x2000)
    } else if str_eq(name, "Accolade") {
        Some(0x10000)
    } else if str_eq(name, "AccoladeType") {
        Some(0x20000)
    } else if str_eq(name, "Activity") {
        Some(0x40000)
    } else if str_eq(name, "ActivityType") {
        Some(0x80000)
    } else if str_eq(name, "Army") {
        Some(0x100000)
    } else if str_eq(name, "Artifact") {
        Some(0x200000)
    } else if str_eq(name, "CasusBelli") {
        Some(0x400000)
    } else if str_eq(name, "CharacterMemory") {
        Some(0x800000)
    } else if str_eq(name, "Combat") {
        Some(0x1000000)
    } else if str_eq(name, "CombatSide") {
        Some(0x2000000)
    } else if str_eq(name, "CouncilTask") {
        Some(0x4000000)
    } else if str_eq(name, "CulturePillar") {
        Some(0x8000000)
    } else if str_eq(name, "CultureTradition") {
        Some(0x10000000)
    } else if str_eq(name, "Decision") {
        Some(0x20000000)
    } else if str_eq(name, "Doctrine") {
        Some(0x40000000)
    } else if str_eq(name, "Dynasty") {
        Some(0x80000000)
    } else if str_eq(name, "DynastyHouse") {
        Some(0x100000000)
    } else if str_eq(name, "Faction") {
        Some(0x200000000)
    } else if str_eq(name, "Faith") {
        Some(0x400000000)
    } else if str_eq(name, "GovernmentType") {
        Some(0x800000000)
    } else if str_eq(name, "GreatHolyWar") {
        Some(0x1000000000)
    } else if str_eq(name, "HolyOrder") {
        Some(0x2000000000)
    } else if str_eq(name, "Inspiration") {
        Some(0x4000000000)
    } else if str_eq(name, "LandedTitle") {
        Some(0x8000000000)
    } else if str_eq(name, "MercenaryCompany") {
        Some(0x10000000000)
    } else if str_eq(name, "Scheme") {
        Some(0x20000000000)
    } else if str_eq(name, "Secret") {
        Some(0x40000000000)
    } else if str_eq(name, "StoryCycle") {
        Some(0x80000000000)
    } else if str_eq(name, "Struggle") {
        Some(0x100000000000)
    } else if str_eq(name, "TitleAndVassalChange") {
        Some(0x200000000000)
    } else if str_eq(name, "Trait") {
        Some(0x400000000000)
    } else if str_eq(name, "TravelPlan") {
        Some(0x800000000000)
    } else if str_eq(name, "VassalContract") {
        Some(0x1000000000000)
    } else if str_eq(name, "VassalObligationLevel") {
        Some(0x2000000000000)
    } else if str_eq(name, "HoldingType") {
        Some(0x4000000000000)
    } else if str_eq(name, "TaxSlot") {
        Some(0x8000000000000)
    } else if str_eq(name, "EpidemicType") {
        Some(0x10000000000000)
    } else if str_eq(name, "Epidemic") {
        Some(0x20000000000000)
    } else if str_eq(name, "LegendType") {
        Some(0x40000000000000)
    } else if str_eq(name, "Legend") {
        Some(0x80000000000000)
    } else if str_eq(name, "GeographicalRegion") {
        Some(0x100000000000000)
    } else if str_eq(name, "Domicile") {
        Some(0x200000000000000)
    } else if str_eq(name, "AgentSlot") {
        Some(0x400000000000000)
    } else if str_eq(name, "TaskContract") {
        Some(0x800000000000000)
    } else if str_eq(name, "TaskContractType") {
        Some(0x1000000000000000)
    } else if str_eq(name, "Regiment") {
        Some(0x2000000000000000)
    } else if str_eq(name, "CasusBelliType") {
        Some(0x4000000000000000)
    } else if str_eq(name, "CourtPosition") {
        Some(0x8000000000000000)
    } else if str_eq(name, "CourtPositionType") {
        Some(0x10000000000000000)
    } else if str_eq(name, "Situation") {
        Some(0x20000000000000000)
    } else if str_eq(name, "SituationParticipantGroup") {
        Some(0x40000000000000000)
    } else if str_eq(name, "SituationSubRegion") {
        Some(0x80000000000000000)
    } else if str_eq(name, "Confederation") {
        Some(0x100000000000000000)
    } else {
        None
    }
}

/// The bit of the scope type named `name` in Vic3, by the type's name in camel case.
pub open spec fn vic3_flag(name: Seq<char>) -> Option<u128> {
    if name == "None"@ {
        Some(0x1)
    } else if name == "Value"@ {
        Some(0x2)
    } else if name == "Bool"@ {
        Some(0x4)
    } else if name == "Flag"@ {
        Some(0x8)
    } else if name == "Color"@ {
        Some(0x10)
    } else if name == "Country"@ {
        Some(0x20)
    } else if name == "Character"@ {
        Some(0x40)
    } else if name == "Culture"@ {
        Some(0x80)
    } else if name == "Province"@ {
        Some(0x100)
    } else if name == "Pop"@ {
        Some(0x200)
    } else if name == "Party"@ {
        Some(0x400)
    } else if name == "Religion"@ {
        Some(0x800)
    } else if name == "State"@ {
        Some(0x1000)
    } else if name == "War"@ {
        Some(0x2000)
    } else if name == "Battle"@ {
        Some(0x10000)
    } else if name == "BattleSide"@ {
        Some(0x20000)
    } else if name == "Building"@ {
        Some(0x40000)
    } else if name == "BuildingType"@ {
        Some(0x80000)
    } else if name == "CanalType"@ {
        Some(0x100000)
    } else if name == "CivilWar"@ {
        Some(0x200000)
    } else if name == "CulturalCommunity"@ {
        Some(0x400000)
    } else if name == "NewCombatUnit"@ {
        Some(0x800000)
    } else if name == "CommanderOrderType"@ {
        Some(0x1000000)
    } else if name == "CountryCreation"@ {
        Some(0x2000000)
    } else if name == "CountryDefinition"@ {
        Some(0x4000000)
    } else if name == "CountryFormation"@ {
        Some(0x8000000)
    } else if name == "Decree"@ {
        Some(0x10000000)
    } else if name == "DiplomaticAction"@ {
        Some(0x20000000)
    } else if name == "DiplomaticPact"@ {
        Some(0x40000000)
    } else if name == "DiplomaticPlay"@ {
        Some(0x80000000)
    } else if name == "DiplomaticRelations"@ {
        Some(0x100000000)
    } else if name == "Front"@ {
        Some(0x200000000)
    } else if name == "Goods"@ {
        Some(0x400000000)
    } else if name == "Hq"@ {
        Some(0x800000000)
    } else if name == "Ideology"@ {
        Some(0x1000000000)
    } else if name == "Institution"@ {
        Some(0x2000000000)
    } else if name == "InstitutionType"@ {
        Some(0x4000000000)
    } else if name == "InterestMarker"@ {
        Some(0x8000000000)
    } else if name == "InterestGroup"@ {
        Some(0x10000000000)
    } else if name == "InterestGroupTrait"@ {
        Some(0x20000000000)
    } else if name == "InterestGroupType"@ {
        Some(0x40000000000)
    } else if name == "JournalEntry"@ {
        Some(0x80000000000)
    } else if name == "Law"@ {
        Some(0x100000000000)
    } else if name == "LawType"@ {
        Some(0x200000000000)
    } else if name == "Market"@ {
        Some(0x400000000000)
    } else if name == "MarketGoods"@ {
        Some(0x800000000000)
    } else if name == "Objective"@ {
        Some(0x1000000000000)
    } else if name == "PoliticalMovement"@ {
        Some(0x2000000000000)
    } else if name == "PopType"@ {
        Some(0x4000000000000)
    } else if name == "ShippingLane"@ {
        Some(0x8000000000000)
    } else if name == "StateRegion"@ {
        Some(0x10000000000000)
    } else if name == "StateTrait"@ {
        Some(0x20000000000000)
    } else if name == "StrategicRegion"@ {
        Some(0x40000000000000)
    } else if name == "Technology"@ {
        Some(0x80000000000000)
    } else if name == "TechnologyStatus"@ {
        Some(0x100000000000000)
    } else if name == "Theater"@ {
        Some(0x200000000000000)
    } else if name == "TradeRoute"@ {
        Some(0x400000000000000)
    } else if name == "CombatUnitType"@ {
        Some(0x1000000000000000)
    } else if name == "MilitaryFormation"@ {
        Some(0x2000000000000000)
    } else if name == "Sway"@ {
        Some(0x4000000000000000)
    } else if name == "StateGoods"@ {
        Some(0x8000000000000000)
    } else if name == "DiplomaticDemand"@ {
        Some(0x10000000000000000)
    } else if name == "Company"@ {
        Some(0x20000000000000000)
    } else if name == "CompanyType"@ {
        Some(0x40000000000000000)
    } else if name == "TravelNode"@ {
        Some(0x80000000000000000)
    } else if name == "TravelNodeDefinition"@ {
        Some(0x100000000000000000)
    } else if name == "TravelConnection"@ {
        Some(0x200000000000000000)
    } else if name == "TravelConnectionDefinition"@ {
        Some(0x400000000000000000)
    } else if name == "NavalInvasion"@ {
        Some(0x800000000000000000)
    } else if name == "MobilizationOption"@ {
        Some(0x1000000000000000000)
    } else if name == "PowerBlocPrincipleGroup"@ {
        Some(0x2000000000000000000)
    } else if name == "DiplomaticPlayType"@ {
        Some(0x4000000000000000000)
    } else if name == "DiplomaticCatalyst"@ {
        Some(0x8000000000000000000)
    } else if name == "DiplomaticCatalystType"@ {
        Some(0x10000000000000000000)
    } else if name == "DiplomaticCatalystCategory"@ {
        Some(0x20000000000000000000)
    } else if name == "PoliticalLobby"@ {
        Some(0x40000000000000000000)
    } else if name == "PoliticalLobbyType"@ {
        Some(0x80000000000000000000)
    } else if name == "PoliticalLobbyAppeasement"@ {
        Some(0x100000000000000000000)
    } else if name == "PowerBloc"@ {
        Some(0x200000000000000000000)
    } else if name == "PowerBlocIdentity"@ {
        Some(0x400000000000000000000)
    } else if name == "PowerBlocPrinciple"@ {
        Some(0x800000000000000000000)
    } else if name == "HarvestCondition"@ {
        Some(0x1000000000000000000000)
    } else if name == "PoliticalMovementType"@ {
        Some(0x2000000000000000000000)
    } else if name == "HarvestConditionType"@ {
        Some(0x4000000000000000000000)
    } else {
        None
    }
}

fn vic3_from_name(name: &str) -> (r: Option<u128>)
    ensures
        r == vic3_flag(name@),
{
    if str_eq(name, "None") {
        Some(0x1)
    } else if str_eq(name, "Value") {
        Some(0x2)
    } else if str_eq(name, "Bool") {
        Some(0x4)
    } else if str_eq(name, "Flag") {
        Some(0x8)
    } else if str_eq(name, "Color") {
        Some(0x10)
    } else if str_eq(name, "Country") {
        Some(0x20)
    } else if str_eq(name, "Character") {
        Some(0x40)
    } else if str_eq(name, "Culture") {
        Some(0x80)
    } else if str_eq(name, "Province") {
        Some(0x100)
    } else if str_eq(name, "Pop") {
        Some(0x200)
    } else if str_eq(name, "Party") {
        Some(0x400)
    } else if str_eq(name, "Religion") {
        Some(0x800)
    } else if str_eq(name, "State") {
        Some(0x1000)
    } else if str_eq(name, "War") {
        Some(0x2000)
    } else if str_eq(name, "Battle") {
        Some(0x10000)
    } else if str_eq(name, "BattleSide") {
        Some(0x20000)
    } else if str_eq(name, "Building") {
        Some(0x40000)
    } else if str_eq(name, "BuildingType") {
        Some(0x80000)
    } else if str_eq(name, "CanalType") {
        Some(0x100000)
    } else if str_eq(name, "CivilWar") {
        Some(0x200000)
    } else if str_eq(name, "CulturalCommunity") {
        Some(0x400000)
    } else if str_eq(name, "NewCombatUnit") {
        Some(0x800000)
    } else if str_eq(name, "CommanderOrderType") {
        Some(0x1000000)
    } else if str_eq(name, "CountryCreation") {
        Some(0x2000000)
    } else if str_eq(name, "CountryDefinition") {
        Some(0x4000000)
    } else if str_eq(name, "CountryFormation") {
        Some(0x8000000)
    } else if str_eq(name, "Decree") {
        Some(0x10000000)
    } else if str_eq(name, "DiplomaticAction") {
        Some(0x20000000)
    } else if str_eq(name, "DiplomaticPact") {
        Some(0x40000000)
    } else if str_eq(name, "DiplomaticPlay") {
        Some(0x80000000)
    } else if str_eq(name, "DiplomaticRelations") {
        Some(0x100000000)
    } else if str_eq(name, "Front") {
        Some(0x200000000)
    } else if str_eq(name, "Goods") {
        Some(0x400000000)
    } else if str_eq(name, "Hq") {
        Some(0x800000000)
    } else if str_eq(name, "Ideology") {
        Some(0x1000000000)
    } else if str_eq(name, "Institution") {
        Some(0x2000000000)
    } else if str_eq(name, "InstitutionType") {
        Some(0x4000000000)
    } else if str_eq(name, "InterestMarker") {
        Some(0x8000000000)
    } else if str_eq(name, "InterestGroup") {
        Some(0x10000000000)
    } else if str_eq(name, "InterestGroupTrait") {
        Some(0x20000000000)
    } else if str_eq(name, "InterestGroupType") {
        Some(0x40000000000)
    } else if str_eq(name, "JournalEntry") {
        Some(0x80000000000)
    } else if str_eq(name, "Law") {
        Some(0x100000000000)
    } else if str_eq(name, "LawType") {
        Some(0x200000000000)
    } else if str_eq(name, "Market") {
        Some(0x400000000000)
    } else if str_eq(name, "MarketGoods") {
        Some(0x800000000000)
    } else if str_eq(name, "Objective") {
        Some(0x1000000000000)
    } else if str_eq(name, "PoliticalMovement") {
        Some(0x2000000000000)
    } else if str_eq(name, "PopType") {
        Some(0x4000000000000)
    } else if str_eq(name, "ShippingLane") {
        Some(0x8000000000000)
    } else if str_eq(name, "StateRegion") {
        Some(0x10000000000000)
    } else if str_eq(name, "StateTrait") {
        Some(0x20000000000000)
    } else if str_eq(name, "StrategicRegion") {
        Some(0x40000000000000)
    } else if str_eq(name, "Technology") {
        Some(0x80000000000000)
    } else if str_eq(name, "TechnologyStatus") {
        Some(0x100000000000000)
    } else if str_eq(name, "Theater") {
        Some(0x200000000000000)
    } else if str_eq(name, "TradeRoute") {
        Some(0x400000000000000)
    } else if str_eq(name, "CombatUnitType") {
        Some(0x1000000000000000)
    } else if str_eq(name, "MilitaryFormation") {
        Some(0x2000000000000000)
    } else if str_eq(name, "Sway") {
        Some(0x4000000000000000)
    } else if str_eq(name, "StateGoods") {
        Some(0x8000000000000000)
    } else if str_eq(name, "DiplomaticDemand") {
        Some(0x10000000000000000)
    } else if str_eq(name, "Company") {
        Some(0x20000000000000000)
    } else if str_eq(name, "CompanyType") {
        Some(0x40000000000000000)
    } else if str_eq(name, "TravelNode") {
        Some(0x80000000000000000)
    } else if str_eq(name, "TravelNodeDefinition") {
        Some(0x100000000000000000)
    } else if str_eq(name, "TravelConnection") {
        Some(0x200000000000000000)
    } else if str_eq(name, "TravelConnectionDefinition") {
        Some(0x400000000000000000)
    } else if str_eq(name, "NavalInvasion") {
        Some(0x800000000000000000)
    } else if str_eq(name, "MobilizationOption") {
        Some(0x1000000000000000000)
    } else if str_eq(name, "PowerBlocPrincipleGroup") {
        Some(0x2000000000000000000)
    } else if str_eq(name, "DiplomaticPlayType") {
        Some(0x4000000000000000000)
    } else if str_eq(name, "DiplomaticCatalyst") {
        Some(0x8000000000000000000)
    } else if str_eq(name, "DiplomaticCatalystType") {
        Some(0x10000000000000000000)
    } else if str_eq(name, "DiplomaticCatalystCategory") {
        Some(0x20000000000000000000)
    } else if str_eq(name, "PoliticalLobby") {
        Some(0x40000000000000000000)
    } else if str_eq(name, "PoliticalLobbyType") {
        Some(0x80000000000000000000)
    } else if str_eq(name, "PoliticalLobbyAppeasement") {
        Some(0x100000000000000000000)
    } else if str_eq(name, "PowerBloc") {
        Some(0x200000000000000000000)
    } else if str_eq(name, "PowerBlocIdentity") {
        Some(0x400000000000000000000)
    } else if str_eq(name, "PowerBlocPrinciple") {
        Some(0x800000000000000000000)
    } else if str_eq(name, "HarvestCondition") {
        Some(0x1000000000000000000000)
    } else if str_eq(name, "PoliticalMovementType") {
        Some(0x2000000000000000000000)
    } else if str_eq(name, "HarvestConditionType") {
        Some(0x4000000000000000000000)
    } else {
        None
    }
}

/// The bit of the scope type named `name` in Imperator, by the type's name in camel case.
pub open spec fn imperator_flag(name: Seq<char>) -> Option<u128> {
    if name == "None"@ {
        Some(0x1)
    } else if name == "Value"@ {
        Some(0x2)
    } else if name == "Bool"@ {
        Some(0x4)
    } else if name == "Flag"@ {
        Some(0x8)
    } else if name == "Color"@ {
        Some(0x10)
    } else if name == "Country"@ {
        Some(0x20)
    } else if name == "Character"@ {
        Some(0x40)
    } else if name == "Culture"@ {
        Some(0x80)
    } else if name == "Province"@ {
        Some(0x100)
    } else if name == "Pop"@ {
        Some(0x200)
    } else if name == "Party"@ {
        Some(0x400)
    } else if name == "Religion"@ {
        Some(0x800)
    } else if name == "State"@ {
        Some(0x1000)
    } else if name == "War"@ {
        Some(0x2000)
    } else if name == "Area"@ {
        Some(0x10000)
    } else if name == "CountryCulture"@ {
        Some(0x20000)
    } else if name == "CultureGroup"@ {
        Some(0x40000)
    } else if name == "Deity"@ {
        Some(0x80000)
    } else if name == "Family"@ {
        Some(0x100000)
    } else if name == "Governorship"@ {
        Some(0x200000)
    } else if name == "GreatWork"@ {
        Some(0x400000)
    } else if name == "Job"@ {
        Some(0x800000)
    } else if name == "Legion"@ {
        Some(0x1000000)
    } else if name == "LevyTemplate"@ {
        Some(0x2000000)
    } else if name == "Region"@ {
        Some(0x4000000)
    } else if name == "Siege"@ {
        Some(0x8000000)
    } else if name == "SubUnit"@ {
        Some(0x10000000)
    } else if name == "Treasure"@ {
        Some(0x20000000)
    } else if name == "Unit"@ {
        Some(0x40000000)
    } else {
        None
    }
}

fn imperator_from_name(name: &str) -> (r: Option<u128>)
    ensures
        r == imperator_flag(name@),
{
    if str_eq(name, "None") {
        Some(0x1)
    } else if str_eq(name, "Value") {
        Some(0x2)
    } else if str_eq(name, "Bool") {
        Some(0x4)
    } else if str_eq(name, "Flag") {
        Some(0x8)
    } else if str_eq(name, "Color") {
        Some(0x10)
    } else if str_eq(name, "Country") {
        Some(0x20)
    } else if str_eq(name, "Character") {
        Some(0x40)
    } else if str_eq(name, "Culture") {
        Some(0x80)
    } else if str_eq(name, "Province") {
        Some(0x100)
    } else if str_eq(name, "Pop") {
        Some(0x200)
    } else if str_eq(name, "Party") {
        Some(0x400)
    } else if str_eq(name, "Religion") {
        Some(0x800)
    } else if str_eq(name, "State") {
        Some(0x1000)
    } else if str_eq(name, "War") {
        Some(0x2000)
    } else if str_eq(name, "Area") {
        Some(0x10000)
    } else if str_eq(name, "CountryCulture") {
        Some(0x20000)
    } else if str_eq(name, "CultureGroup") {
        Some(0x40000)
    } else if str_eq(name, "Deity") {
        Some(0x80000)
    } else if str_eq(name, "Family") {
        Some(0x100000)
    } else if str_eq(name, "Governorship") {
        Some(0x200000)
    } else if str_eq(name, "GreatWork") {
        Some(0x400000)
    } else if str_eq(name, "Job") {
        Some(0x800000)
    } else if str_eq(name, "Legion") {
        Some(0x1000000)
    } else if str_eq(name, "LevyTemplate") {
        Some(0x2000000)
    } else if str_eq(name, "Region") {
        Some(0x4000000)
    } else if str_eq(name, "Siege") {
        Some(0x8000000)
    } else if str_eq(name, "SubUnit") {
        Some(0x10000000)
    } else if str_eq(name, "Treasure") {
        Some(0x20000000)
    } else if str_eq(name, "Unit") {
        Some(0x40000000)
    } else {
        None
    }
}

/// The bit of the scope type named `name` in Hoi4, by the type's name in camel case.
pub open spec fn hoi4_flag(name: Seq<char>) -> Option<u128> {
    if name == "None"@ {
        Some(0x1)
    } else if name == "Value"@ {
        Some(0x2)
    } else if name == "Bool"@ {
        Some(0x4)
    } else if name == "Flag"@ {
        Some(0x8)
    } else if name == "Country"@ {
        Some(0x20)
    } else if name == "Character"@ {
        Some(0x40)
    } else if name == "State"@ {
        Some(0x1000)
    } else if name == "Ace"@ {
        Some(0x10000)
    } else if name == "Combatant"@ {
        Some(0x20000)
    } else if name == "Division"@ {
        Some(0x40000)
    } else if name == "IndustrialOrg"@ {
        Some(0x80000)
    } else if name == "Operation"@ {
        Some(0x100000)
    } else if name == "PurchaseContract"@ {
        Some(0x200000)
    } else if name == "RaidInstance"@ {
        Some(0x400000)
    } else if name == "SpecialProject"@ {
        Some(0x800000)
    } else if name == "StrategicRegion"@ {
        Some(0x1000000)
    } else if name == "CombinedCountryAndState"@ {
        Some(0x2000000)
    } else if name == "CombinedCountryAndCharacter"@ {
        Some(0x4000000)
    } else {
        None
    }
}

fn hoi4_from_name(name: &str) -> (r: Option<u128>)
    ensures
        r == hoi4_flag(name@),
{
    if str_eq(name, "None") {
        Some(0x1)
    } else if str_eq(name, "Value") {
        Some(0x2)
    } else if str_eq(name, "Bool") {
        Some(0x4)
    } else if str_eq(name, "Flag") {
        Some(0x8)
    } else if str_eq(name, "Country") {
        Some(0x20)
    } else if str_eq(name, "Character") {
        Some(0x40)
    } else if str_eq(name, "State") {
        Some(0x1000)
    } else if str_eq(name, "Ace") {
        Some(0x10000)
    } else if str_eq(name, "Combatant") {
        Some(0x20000)
    } else if str_eq(name, "Division") {
        Some(0x40000)
    } else if str_eq(name, "IndustrialOrg") {
        Some(0x80000)
    } else if str_eq(name, "Operation") {
        Some(0x100000)
    } else if str_eq(name, "PurchaseContract") {
        Some(0x200000)
    } else if str_eq(name, "RaidInstance") {
        Some(0x400000)
    } else if str_eq(name, "SpecialProject") {
        Some(0x800000)
    } else if str_eq(name, "StrategicRegion") {
        Some(0x1000000)
    } else if str_eq(name, "CombinedCountryAndState") {
        Some(0x2000000)
    } else if str_eq(name, "CombinedCountryAndCharacter") {
        Some(0x4000000)
    } else {
        None
    }
}

/// The bit of the scope type of `game` whose name in camel case is `name`.
pub open spec fn scope_flag(game: Game, name: Seq<char>) -> Option<u128> {
    match game {
        Game::Ck3 => ck3_flag(name),
        Game::Vic3 => vic3_flag(name),
        Game::Imperator => imperator_flag(name),
        Game::Hoi4 => hoi4_flag(name),
    }
}

/// The Ck3 scope type name whose bit is `b`.
spec fn ck3_name_of(b: u128) -> Seq<char> {
    if b == 0x1 {
        "None"@
    } else if b == 0x2 {
        "Value"@
    } else if b == 0x4 {
        "Bool"@
    } else if b == 0x8 {
        "Flag"@
    } else if b == 0x40 {
        "Character"@
    } else if b == 0x80 {
        "Culture"@
    } else if b == 0x100 {
        "Province"@
    } else if b == 0x800 {
        "Religion"@
    } else if b == 0x2000 {
        "War"@
    } else if b == 0x10000 {
        "Accolade"@
    } else if b == 0x20000 {
        "AccoladeType"@
    } else if b == 0x40000 {
        "Activity"@
    } else if b == 0x80000 {
        "ActivityType"@
    } else if b == 0x100000 {
        "Army"@
    } else if b == 0x200000 {
        "Artifact"@
    } else if b == 0x400000 {
        "CasusBelli"@
    } else if b == 0x800000 {
        "CharacterMemory"@
    } else if b == 0x1000000 {
        "Combat"@
    } else if b == 0x2000000 {
        "CombatSide"@
    } else if b == 0x4000000 {
        "CouncilTask"@
    } else if b == 0x8000000 {
        "CulturePillar"@
    } else if b == 0x10000000 {
        "CultureTradition"@
    } else if b == 0x20000000 {
        "Decision"@
    } else if b == 0x40000000 {
        "Doctrine"@
    } else if b == 0x80000000 {
        "Dynasty"@
    } else if b == 0x100000000 {
        "DynastyHouse"@
    } else if b == 0x200000000 {
        "Faction"@
    } else if b == 0x400000000 {
        "Faith"@
    } else if b == 0x800000000 {
        "GovernmentType"@
    } else if b == 0x1000000000 {
        "GreatHolyWar"@
    } else if b == 0x2000000000 {
        "HolyOrder"@
    } else if b == 0x4000000000 {
        "Inspiration"@
    } else if b == 0x8000000000 {
        "LandedTitle"@
    } else if b == 0x10000000000 {
        "MercenaryCompany"@
    } else if b == 0x20000000000 {
        "Scheme"@
    } else if b == 0x40000000000 {
        "Secret"@
    } else if b == 0x80000000000 {
        "StoryCycle"@
    } else if b == 0x100000000000 {
        "Struggle"@
    } else if b == 0x200000000000 {
        "TitleAndVassalChange"@
    } else if b == 0x400000000000 {
        "Trait"@
    } else if b == 0x800000000000 {
        "TravelPlan"@
    } else if b == 0x1000000000000 {
        "VassalContract"@
    } else if b == 0x2000000000000 {
        "VassalObligationLevel"@
    } else if b == 0x4000000000000 {
        "HoldingType"@
    } else if b == 0x8000000000000 {
        "TaxSlot"@
    } else if b == 0x10000000000000 {
        "EpidemicType"@
    } else if b == 0x20000000000000 {
        "Epidemic"@
    } else if b == 0x40000000000000 {
        "LegendType"@
    } else if b == 0x80000000000000 {
        "Legend"@
    } else if b == 0x100000000000000 {
        "GeographicalRegion"@
    } else if b == 0x200000000000000 {
        "Domicile"@
    } else if b == 0x400000000000000 {
        "AgentSlot"@
    } else if b == 0x800000000000000 {
        "TaskContract"@
    } else if b == 0x1000000000000000 {
        "TaskContractType"@
    } else if b == 0x2000000000000000 {
        "Regiment"@
    } else if b == 0x4000000000000000 {
        "CasusBelliType"@
    } else if b == 0x8000000000000000 {
        "CourtPosition"@
    } else if b == 0x10000000000000000 {
        "CourtPositionType"@
    } else if b == 0x20000000000000000 {
        "Situation"@
    } else if b == 0x40000000000000000 {
        "SituationParticipantGroup"@
    } else if b == 0x80000000000000000 {
        "SituationSubRegion"@
    } else if b == 0x100000000000000000 {
        "Confederation"@
    } else {
        Seq::empty()
    }
}

proof fn lemma_ck3_name_of(name: Seq<char>, b: u128)
    requires
        ck3_flag(name) == Some(b),
    ensures
        ck3_name_of(b) == name,
{
}

/// The Vic3 scope type name whose bit is `b`.
spec fn vic3_name_of(b: u128) -> Seq<char> {
    if b == 0x1 {
        "None"@
    } else if b == 0x2 {
        "Value"@
    } else if b == 0x4 {
        "Bool"@
    } else if b == 0x8 {
        "Flag"@
    } else if b == 0x10 {
        "Color"@
    } else if b == 0x20 {
        "Country"@
    } else if b == 0x40 {
        "Character"@
    } else if b == 0x80 {
        "Culture"@
    } else if b == 0x100 {
        "Province"@
    } else if b == 0x200 {
        "Pop"@
    } else if b == 0x400 {
        "Party"@
    } else if b == 0x800 {
        "Religion"@
    } else if b == 0x1000 {
        "State"@
    } else if b == 0x2000 {
        "War"@
    } else if b == 0x10000 {
        "Battle"@
    } else if b == 0x20000 {
        "BattleSide"@
    } else if b == 0x40000 {
        "Building"@
    } else if b == 0x80000 {
        "BuildingType"@
    } else if b == 0x100000 {
        "CanalType"@
    } else if b == 0x200000 {
        "CivilWar"@
    } else if b == 0x400000 {
        "CulturalCommunity"@
    } else if b == 0x800000 {
        "NewCombatUnit"@
    } else if b == 0x1000000 {
        "CommanderOrderType"@
    } else if b == 0x2000000 {
        "CountryCreation"@
    } else if b == 0x4000000 {
        "CountryDefinition"@
    } else if b == 0x8000000 {
        "CountryFormation"@
    } else if b == 0x10000000 {
        "Decree"@
    } else if b == 0x20000000 {
        "DiplomaticAction"@
    } else if b == 0x40000000 {
        "DiplomaticPact"@
    } else if b == 0x80000000 {
        "DiplomaticPlay"@
    } else if b == 0x100000000 {
        "DiplomaticRelations"@
    } else if b == 0x200000000 {
        "Front"@
    } else if b == 0x400000000 {
        "Goods"@
    } else if b == 0x800000000 {
        "Hq"@
    } else if b == 0x1000000000 {
        "Ideology"@
    } else if b == 0x2000000000 {
        "Institution"@
    } else if b == 0x4000000000 {
        "InstitutionType"@
    } else if b == 0x8000000000 {
        "InterestMarker"@
    } else if b == 0x10000000000 {
        "InterestGroup"@
    } else if b == 0x20000000000 {
        "InterestGroupTrait"@
    } else if b == 0x40000000000 {
        "InterestGroupType"@
    } else if b == 0x80000000000 {
        "JournalEntry"@
    } else if b == 0x100000000000 {
        "Law"@
    } else if b == 0x200000000000 {
        "LawType"@
    } else if b == 0x400000000000 {
        "Market"@
    } else if b == 0x800000000000 {
        "MarketGoods"@
    } else if b == 0x1000000000000 {
        "Objective"@
    } else if b == 0x2000000000000 {
        "PoliticalMovement"@
    } else if b == 0x4000000000000 {
        "PopType"@
    } else if b == 0x8000000000000 {
        "ShippingLane"@
    } else if b == 0x10000000000000 {
        "StateRegion"@
    } else if b == 0x20000000000000 {
        "StateTrait"@
    } else if b == 0x40000000000000 {
        "StrategicRegion"@
    } else if b == 0x80000000000000 {
        "Technology"@
    } else if b == 0x100000000000000 {
        "TechnologyStatus"@
    } else if b == 0x200000000000000 {
        "Theater"@
    } else if b == 0x400000000000000 {
        "TradeRoute"@
    } else if b == 0x1000000000000000 {
        "CombatUnitType"@
    } else if b == 0x2000000000000000 {
        "MilitaryFormation"@
    } else if b == 0x4000000000000000 {
        "Sway"@
    } else if b == 0x8000000000000000 {
        "StateGoods"@
    } else if b == 0x10000000000000000 {
        "DiplomaticDemand"@
    } else if b == 0x20000000000000000 {
        "Company"@
    } else if b == 0x40000000000000000 {
        "CompanyType"@
    } else if b == 0x80000000000000000 {
        "TravelNode"@
    } else if b == 0x100000000000000000 {
        "TravelNodeDefinition"@
    } else if b == 0x200000000000000000 {
        "TravelConnection"@
    } else if b == 0x400000000000000000 {
        "TravelConnectionDefinition"@
    } else if b == 0x800000000000000000 {
        "NavalInvasion"@
    } else if b == 0x1000000000000000000 {
        "MobilizationOption"@
    } else if b == 0x2000000000000000000 {
        "PowerBlocPrincipleGroup"@
    } else if b == 0x4000000000000000000 {
        "DiplomaticPlayType"@
    } else if b == 0x8000000000000000000 {
        "DiplomaticCatalyst"@
    } else if b == 0x10000000000000000000 {
        "DiplomaticCatalystType"@
    } else if b == 0x20000000000000000000 {
        "DiplomaticCatalystCategory"@
    } else if b == 0x40000000000000000000 {
        "PoliticalLobby"@
    } else if b == 0x80000000000000000000 {
        "PoliticalLobbyType"@
    } else if b == 0x100000000000000000000 {
        "PoliticalLobbyAppeasement"@
    } else if b == 0x200000000000000000000 {
        "PowerBloc"@
    } else if b == 0x400000000000000000000 {
        "PowerBlocIdentity"@
    } else if b == 0x800000000000000000000 {
        "PowerBlocPrinciple"@
    } else if b == 0x1000000000000000000000 {
        "HarvestCondition"@
    } else if b == 0x2000000000000000000000 {
        "PoliticalMovementType"@
    } else if b == 0x4000000000000000000000 {
        "HarvestConditionType"@
    } else {
        Seq::empty()
    }
}

proof fn lemma_vic3_name_of(name: Seq<char>, b: u128)
    requires
        vic3_flag(name) == Some(b),
    ensures
        vic3_name_of(b) == name,
{
}

/// The Imperator scope type name whose bit is `b`.
spec fn imperator_name_of(b: u128) -> Seq<char> {
    if b == 0x1 {
        "None"@
    } else if b == 0x2 {
        "Value"@
    } else if b == 0x4 {
        "Bool"@
    } else if b == 0x8 {
        "Flag"@
    } else if b == 0x10 {
        "Color"@
    } else if b == 0x20 {
        "Country"@
    } else if b == 0x40 {
        "Character"@
    } else if b == 0x80 {
        "Culture"@
    } else if b == 0x100 {
        "Province"@
    } else if b == 0x200 {
        "Pop"@
    } else if b == 0x400 {
        "Party"@
    } else if b == 0x800 {
        "Religion"@
    } else if b == 0x1000 {
        "State"@
    } else if b == 0x2000 {
        "War"@
    } else if b == 0x10000 {
        "Area"@
    } else if b == 0x20000 {
        "CountryCulture"@
    } else if b == 0x40000 {
        "CultureGroup"@
    } else if b == 0x80000 {
        "Deity"@
    } else if b == 0x100000 {
        "Family"@
    } else if b == 0x200000 {
        "Governorship"@
    } else if b == 0x400000 {
        "GreatWork"@
    } else if b == 0x800000 {
        "Job"@
    } else if b == 0x1000000 {
        "Legion"@
    } else if b == 0x2000000 {
        "LevyTemplate"@
    } else if b == 0x4000000 {
        "Region"@
    } else if b == 0x8000000 {
        "Siege"@
    } else if b == 0x10000000 {
        "SubUnit"@
    } else if b == 0x20000000 {
        "Treasure"@
    } else if b == 0x40000000 {
        "Unit"@
    } else {
        Seq::empty()
    }
}

proof fn lemma_imperator_name_of(name: Seq<char>, b: u128)
    requires
        imperator_flag(name) == Some(b),
    ensures
        imperator_name_of(b) == name,
{
}

/// The Hoi4 scope type name whose bit is `b`.
spec fn hoi4_name_of(b: u128) -> Seq<char> {
    if b == 0x1 {
        "None"@
    } else if b == 0x2 {
        "Value"@
    } else if b == 0x4 {
        "Bool"@
    } else if b == 0x8 {
        "Flag"@
    } else if b == 0x20 {
        "Country"@
    } else if b == 0x40 {
        "Character"@
    } else if b == 0x1000 {
        "State"@
    } else if b == 0x10000 {
        "Ace"@
    } else if b == 0x20000 {
        "Combatant"@
    } else if b == 0x40000 {
        "Division"@
    } else if b == 0x80000 {
        "IndustrialOrg"@
    } else if b == 0x100000 {
        "Operation"@
    } else if b == 0x200000 {
        "PurchaseContract"@
    } else if b == 0x400000 {
        "RaidInstance"@
    } else if b == 0x800000 {
        "SpecialProject"@
    } else if b == 0x1000000 {
        "StrategicRegion"@
    } else if b == 0x2000000 {
        "CombinedCountryAndState"@
    } else if b == 0x4000000 {
        "CombinedCountryAndCharacter"@
    } else {
        Seq::empty()
    }
}

proof fn lemma_hoi4_name_of(name: Seq<char>, b: u128)
    requires
        hoi4_flag(name) == Some(b),
    ensures
        hoi4_name_of(b) == name,
{
}

/// Within one game, different scope type names have different bits: no two scope types of a
/// game are confused with each other.
pub proof fn law_scope_names_distinct(game: Game, a: Seq<char>, c: Seq<char>, b: u128)
    requires
        scope_flag(game, a) == Some(b),
        scope_flag(game, c) == Some(b),
    ensures
        a == c,
{
    match game {
        Game::Ck3 => {
            lemma_ck3_name_of(a, b);
            lemma_ck3_name_of(c, b);
        },
        Game::Vic3 => {
            lemma_vic3_name_of(a, b);
            lemma_vic3_name_of(c, b);
        },
        Game::Imperator => {
            lemma_imperator_name_of(a, b);
            lemma_imperator_name_of(c, b);
        },
        Game::Hoi4 => {
            lemma_hoi4_name_of(a, b);
            lemma_hoi4_name_of(c, b);
        },
    }
}

/// The camel case form of the snake case text `s`, from where the next char starts a word when
/// `upper` holds: the `_` are dropped, and the first char of each word is made ASCII uppercase.
pub open spec fn camel_from(s: Seq<char>, upper: bool) -> Seq<char>
    decreases s.len(),
{
    if s.len() == 0 {
        Seq::empty()
    } else if s[0] == '_' {
        camel_from(s.skip(1), true)
    } else {
        seq![if upper { spec_upper_char(s[0]) } else { s[0] }] + camel_from(s.skip(1), false)
    }
}

/// The camel case form of the snake case text `s`.
pub open spec fn spec_camel_case(s: Seq<char>) -> Seq<char> {
    camel_from(s, true)
}

/// The camel case form of the snake case text `s`.
fn snake_case_to_camel_case(s: &str) -> (r: String)
    ensures
        r@ == spec_camel_case(s@),
{
    let v = chars_of(s);
    let mut out: Vec<char> = Vec::new();
    let mut upper = true;
    let mut i: usize = 0;
    proof {
        assert(v@.skip(0) =~= v@);
        assert(out@ + camel_from(v@.skip(0), true) =~= camel_from(v@, true));
    }
    while i < v.len()
        invariant
            i <= v@.len(),
            out@ + camel_from(v@.skip(i as int), upper) == spec_camel_case(v@),
        decreases v@.len() - i,
    {
        let c = v[i];
        proof {
            assert(v@.skip(i as int).skip(1) =~= v@.skip(i + 1));
            assert(v@.skip(i as int)[0] == c);
        }
        if c == '_' {
            upper = true;
        } else {
            let d = if upper { to_ascii_uppercase_char(c) } else { c };
            let ghost before = out@;
            out.push(d);
            proof {
                assert(out@ == before + seq![d]);
                assert(before + (seq![d] + camel_from(v@.skip(i + 1), false)) =~= out@ + camel_from(v@.skip(i + 1), false));
            }
            upper = false;
        }
        i = i + 1;
    }
    proof {
        assert(v@.skip(i as int) =~= Seq::<char>::empty());
        assert(out@ + Seq::<char>::empty() =~= out@);
    }
    string_from_chars(out.as_slice(), 0, out.len())
}

/// What `Scopes::from_snake_case` reads `s` as, in `game`: the scope type whose camel case name
/// is the camel case form of `s`. CK3 has the short forms `ghw` and `story`, and refuses the long
/// forms `great_holy_war` and `story_cycle`.
pub open spec fn spec_from_snake_case(game: Game, s: Seq<char>) -> Option<u128> {
    if game == Game::Ck3 && s == "ghw"@ {
        ck3_flag("GreatHolyWar"@)
    } else if game == Game::Ck3 && s == "story"@ {
        ck3_flag("StoryCycle"@)
    } else if game == Game::Ck3 && (s == "great_holy_war"@ || s == "story_cycle"@) {
        None
    } else {
        scope_flag(game, spec_camel_case(s))
    }
}

/// Reading the `|`-separated scope types of `s`, the current one having `cur` so far: the union
/// of their bits, if every one of them is a scope type.
pub open spec fn multi_from(game: Game, s: Seq<char>, cur: Seq<char>) -> Option<u128>
    decreases s.len(),
{
    if s.len() == 0 {
        spec_from_snake_case(game, cur)
    } else if s[0] == '|' {
        match (spec_from_snake_case(game, cur), multi_from(game, s.skip(1), Seq::empty())) {
            (Some(a), Some(b)) => Some(a | b),
            _ => None,
        }
    } else {
        multi_from(game, s.skip(1), cur.push(s[0]))
    }
}

/// What `Scopes::from_snake_case_multi` reads `s` as: the union of its `|`-separated scope
/// types, if every one is one and the union is not empty.
pub open spec fn spec_from_snake_case_multi(game: Game, s: Seq<char>) -> Option<u128> {
    match multi_from(game, s, Seq::empty()) {
        Some(b) => if b == 0 {
            None
        } else {
            Some(b)
        },
        None => None,
    }
}

/// Every scope type has a bit.
proof fn lemma_flag_nonzero(game: Game, name: Seq<char>)
    ensures
        scope_flag(game, name) matches Some(b) ==> b != 0,
{
}

proof fn lemma_multi_without_bar(game: Game, s: Seq<char>, cur: Seq<char>)
    requires
        forall|i: int| 0 <= i < s.len() ==> s[i] != '|',
    ensures
        multi_from(game, s, cur) == spec_from_snake_case(game, cur + s),
    decreases s.len(),
{
    if s.len() == 0 {
        assert(cur + s =~= cur);
    } else {
        let rest = s.skip(1);
        assert forall|i: int| 0 <= i < rest.len() implies rest[i] != '|' by {
            assert(rest[i] == s[i + 1]);
        }
        lemma_multi_without_bar(game, rest, cur.push(s[0]));
        assert(cur.push(s[0]) + rest =~= cur + s);
    }
}

/// A single scope type, without `|`, reads the same by `Scopes::from_snake_case_multi` as by
/// `Scopes::from_snake_case`.
pub proof fn law_multi_of_one_type(game: Game, s: Seq<char>)
    requires
        forall|i: int| 0 <= i < s.len() ==> s[i] != '|',
    ensures
        spec_from_snake_case_multi(game, s) == spec_from_snake_case(game, s),
{
    lemma_multi_without_bar(game, s, Seq::empty());
    assert(Seq::<char>::empty() + s =~= s);
    lemma_flag_nonzero(game, spec_camel_case(s));
    lemma_flag_nonzero(game, "GreatHolyWar"@);
    lemma_flag_nonzero(game, "StoryCycle"@);
}

impl Scopes {
    /// The set with no scope types.
    pub fn empty() -> (s: Scopes)
        ensures
            s.bits == 0,
    {
        Scopes { bits: 0 }
    }

    /// All the scope types of `game`.
    pub fn all(game: Game) -> (s: Scopes)
        ensures
            s.bits == all_bits(game),
    {
        Scopes { bits: all_bits_exec(game) }
    }

    /// All the scope types of `game` except `None`, `Value`, `Bool` and `Flag`.
    pub fn non_primitive(game: Game) -> (s: Scopes)
        ensures
            s.bits == all_bits(game) & !generic_bits(),
    {
        Scopes { bits: all_bits_exec(game) & !0xfu128 }
    }

    /// The scope types `Value`, `Bool` and `Flag`.
    pub fn primitive() -> (s: Scopes)
        ensures
            s.bits == generic_bits() & !none_bit(),
    {
        assert(0xfu128 & !0x1u128 == 0xeu128) by (bit_vector);
        Scopes { bits: 0xeu128 }
    }

    /// All the scope types of `game` except `None`.
    pub fn all_but_none(game: Game) -> (s: Scopes)
        ensures
            s.bits == all_bits(game) & !none_bit(),
    {
        Scopes { bits: all_bits_exec(game) & !0x1u128 }
    }

    /// The union of the two sets.
    pub fn union(self, other: Scopes) -> (s: Scopes)
        ensures
            s.bits == self.bits | other.bits,
    {
        Scopes { bits: self.bits | other.bits }
    }

    /// Whether every scope type of `other` is in this set.
    pub fn contains(self, other: Scopes) -> (b: bool)
        ensures
            b == (self.bits & other.bits == other.bits),
    {
        self.bits & other.bits == other.bits
    }

    /// The scope type of `game` whose name in camel case is `name`.
    pub fn from_name(game: Game, name: &str) -> (r: Option<Scopes>)
        ensures
            match r {
                Some(s) => scope_flag(game, name@) == Some(s.bits),
                None => scope_flag(game, name@) is None,
            },
    {
        let bits = match game {
            Game::Ck3 => ck3_from_name(name),
            Game::Vic3 => vic3_from_name(name),
            Game::Imperator => imperator_from_name(name),
            Game::Hoi4 => hoi4_from_name(name),
        };
        match bits {
            Some(b) => Some(Scopes { bits: b }),
            None => None,
        }
    }

    /// Read a scope type of `game` in snake case.
    pub fn from_snake_case(game: Game, s: &str) -> (r: Option<Scopes>)
        ensures
            match r {
                Some(sc) => spec_from_snake_case(game, s@) == Some(sc.bits),
                None => spec_from_snake_case(game, s@) is None,
            },
    {
        if game == Game::Ck3 {
            if str_eq(s, "ghw") {
                return Self::from_name(game, "GreatHolyWar");
            } else if str_eq(s, "story") {
                return Self::from_name(game, "StoryCycle");
            } else if str_eq(s, "great_holy_war") || str_eq(s, "story_cycle") {
                return None;
            }
        }
        Self::from_name(game, snake_case_to_camel_case(s).as_str())
    }

    /// Read scope types of `game` in snake case, separated by `|`: their union, unless one of them
    /// is not a scope type or there are none.
    pub fn from_snake_case_multi(game: Game, s: &str) -> (r: Option<Scopes>)
        ensures
            match r {
                Some(sc) => spec_from_snake_case_multi(game, s@) == Some(sc.bits),
                None => spec_from_snake_case_multi(game, s@) is None,
            },
    {
        let v = chars_of(s);
        let mut acc: u128 = 0;
        let mut cur: Vec<char> = Vec::new();
        let mut i: usize = 0;
        proof {
            assert(v@.skip(0) =~= v@);
            assert(cur@ =~= Seq::<char>::empty());
            let m = multi_from(game, v@, Seq::empty());
            if m is Some {
                let b = m->0;
                assert(0u128 | b == b) by (bit_vector);
            }
        }
        while i < v.len()
            invariant
                i <= v@.len(),
                v@ == s@,
                multi_from(game, s@, Seq::empty()) == match multi_from(game, v@.skip(i as int), cur@) {
                    Some(b) => Some(acc | b),
                    None => None,
                },
            decreases v@.len() - i,
        {
            let c = v[i];
            proof {
                assert(v@.skip(i as int).skip(1) =~= v@.skip(i + 1));
                assert(v@.skip(i as int)[0] == c);
            }
            if c == '|' {
                let part = string_from_chars(cur.as_slice(), 0, cur.len());
                proof {
                    assert(cur@.subrange(0, cur@.len() as int) =~= cur@);
                }
                match Self::from_snake_case(game, part.as_str()) {
                    None => {
                        return None;
                    },
                    Some(sc) => {
                        proof {
                            let a = sc.bits;
                            let rest = multi_from(game, v@.skip(i + 1), Seq::empty());
                            if rest is Some {
                                let b = rest->0;
                                let x = acc;
                                assert(x | (a | b) == (x | a) | b) by (bit_vector);
                            }
                        }
                        acc = acc | sc.bits;
                        cur = Vec::new();
                        proof {
                            assert(cur@ =~= Seq::<char>::empty());
                        }
                    },
                }
            } else {
                cur.push(c);
            }
            i = i + 1;
        }
        let part = string_from_chars(cur.as_slice(), 0, cur.len());
        proof {
            assert(cur@.subrange(0, cur@.len() as int) =~= cur@);
            assert(v@.skip(i as int) =~= Seq::<char>::empty());
        }
        match Self::from_snake_case(game, part.as_str()) {
            None => None,
            Some(sc) => {
                let bits = acc | sc.bits;
                if bits == 0 {
                    None
                } else {
                    Some(Scopes { bits })
                }
            },
        }
    }
}

/// What the value after a prefix such as `var:` or `list_size:` must be.
#[derive(Clone, Copy, Debug)]
pub enum ArgumentValue {
    /// An expression that gives a scope of one of these types.
    Scope(Scopes),
    /// The name of an item of this type.
    Item(Item),
    /// Either of the two.
    ScopeOrItem(Scopes, Item),
    /// A trait name, or `trait|track`.
    TraitTrack,
    /// The name of a modif.
    Modif,
    /// A single word.
    Identifier(&'static str),
    /// Anything.
    UncheckedValue,
}

} // verus!
