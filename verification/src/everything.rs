//! The database of game items that script can refer to.
use vstd::prelude::*;

use crate::report::builder::{report, simple_report};
use crate::report::error_key::ErrorKey;
use crate::report::errors::{lemma_logged_nothing, Errors};
use crate::report::report_struct::{Confidence, ReportView, Severity};
use crate::text::{concat_str, str_eq};
use crate::token::Token;

verus! {

/// The kinds of items in the game database.
#[derive(Clone, Copy, Debug, PartialEq, Eq, Structural)]
pub enum Item {
    Character,
    Culture,
    Decision,
    Define,
    Event,
    Faith,
    File,
    GameConcept,
    Localization,
    Modifier,
    OnAction,
    Province,
    Religion,
    ScriptedEffect,
    ScriptedModifier,
    ScriptedTrigger,
    ScriptValue,
    Title,
    Trait,
    GovernmentType,
    Holding,
    Lifestyle,
    MenAtArmsBase,
    Region,
    Relation,
    ReligionFamily,
    Scheme,
    Terrain,
    TraitTrack,
    VassalStance,
}

impl Item {
    /// The name of the item kind, as used in reports.
    pub open spec fn spec_name(self) -> Seq<char> {
        match self {
            Item::Character => "character"@,
            Item::Culture => "culture"@,
            Item::Decision => "decision"@,
            Item::Define => "define"@,
            Item::Event => "event"@,
            Item::Faith => "faith"@,
            Item::File => "file"@,
            Item::GameConcept => "game concept"@,
            Item::Localization => "localization"@,
            Item::Modifier => "modifier"@,
            Item::OnAction => "on-action"@,
            Item::Province => "province"@,
            Item::Religion => "religion"@,
            Item::ScriptedEffect => "scripted effect"@,
            Item::ScriptedModifier => "scripted modifier"@,
            Item::ScriptedTrigger => "scripted trigger"@,
            Item::ScriptValue => "script value"@,
            Item::Title => "title"@,
            Item::Trait => "trait"@,
            Item::GovernmentType => "government type"@,
            Item::Holding => "holding"@,
            Item::Lifestyle => "lifestyle"@,
            Item::MenAtArmsBase => "men-at-arms base type"@,
            Item::Region => "region"@,
            Item::Relation => "relation"@,
            Item::ReligionFamily => "religion family"@,
            Item::Scheme => "scheme"@,
            Item::Terrain => "terrain"@,
            Item::TraitTrack => "trait track"@,
            Item::VassalStance => "vassal stance"@,
        }
    }

    /// The name of the item kind, as used in reports.
    pub fn name(self) -> (s: &'static str)
        ensures
            s@ == self.spec_name(),
    {
        match self {
            Item::Character => "character",
            Item::Culture => "culture",
            Item::Decision => "decision",
            Item::Define => "define",
            Item::Event => "event",
            Item::Faith => "faith",
            Item::File => "file",
            Item::GameConcept => "game concept",
            Item::Localization => "localization",
            Item::Modifier => "modifier",
            Item::OnAction => "on-action",
            Item::Province => "province",
            Item::Religion => "religion",
            Item::ScriptedEffect => "scripted effect",
            Item::ScriptedModifier => "scripted modifier",
            Item::ScriptedTrigger => "scripted trigger",
            Item::ScriptValue => "script value",
            Item::Title => "title",
            Item::Trait => "trait",
            Item::GovernmentType => "government type",
            Item::Holding => "holding",
            Item::Lifestyle => "lifestyle",
            Item::MenAtArmsBase => "men-at-arms base type",
            Item::Region => "region",
            Item::Relation => "relation",
            Item::ReligionFamily => "religion family",
            Item::Scheme => "scheme",
            Item::Terrain => "terrain",
            Item::TraitTrack => "trait track",
            Item::VassalStance => "vassal stance",
        }
    }
}

/// The report about a reference to an item that does not exist.
pub open spec fn missing_item_report(itype: Item, t: &Token, max_sev: Severity) -> ReportView {
    simple_report(
        ErrorKey::MissingItem,
        Severity::Error.spec_at_most(max_sev),
        Confidence::Reasonable,
        itype.spec_name() + " "@ + t@ + " not defined"@,
        None,
        t.loc,
    )
}

/// The report about an item named by `key`, which `t` implies, that does not exist.
pub open spec fn implied_item_report(itype: Item, key: Seq<char>, t: &Token) -> ReportView {
    simple_report(
        ErrorKey::MissingItem,
        Severity::Error,
        Confidence::Reasonable,
        itype.spec_name() + " "@ + key + " not defined"@,
        None,
        t.loc,
    )
}

/// All the loaded items that script can refer to.
#[derive(Debug)]
pub struct Everything {
    items: Vec<(Item, String)>,
    /// Properties of items, as (kind, key, property): a region that generates modifiers has the
    /// property `generates_modifiers`, and a trait with an xp track has the property `track`.
    properties: Vec<(Item, String, String)>,
}

impl Everything {
    /// The defined items, as (kind, key) pairs.
    pub closed spec fn entries(&self) -> Seq<(Item, Seq<char>)> {
        self.items@.map_values(|p: (Item, String)| (p.0, p.1@))
    }

    /// Whether an item of kind `itype` with key `key` is defined.
    pub open spec fn spec_item_exists(&self, itype: Item, key: Seq<char>) -> bool {
        self.entries().contains((itype, key))
    }

    pub fn new() -> (e: Self)
        ensures
            e.entries() == Seq::<(Item, Seq<char>)>::empty(),
            e.property_entries() == Seq::<(Item, Seq<char>, Seq<char>)>::empty(),
    {
        let e = Everything { items: Vec::new(), properties: Vec::new() };
        assert(e.entries() =~= Seq::<(Item, Seq<char>)>::empty());
        assert(e.property_entries() =~= Seq::<(Item, Seq<char>, Seq<char>)>::empty());
        e
    }

    /// Define an item.
    pub fn add_item(&mut self, itype: Item, key: &str)
        ensures
            final(self).entries() == old(self).entries().push((itype, key@)),
            final(self).property_entries() == old(self).property_entries(),
    {
        self.items.push((itype, key.to_owned()));
        assert(self.entries() =~= old(self).entries().push((itype, key@)));
    }

    /// Whether an item of kind `itype` with key `key` is defined.
    pub fn item_exists(&self, itype: Item, key: &str) -> (b: bool)
        ensures
            b == self.spec_item_exists(itype, key@),
    {
        let mut i: usize = 0;
        while i < self.items.len()
            invariant
                i <= self.items@.len(),
                forall|j: int| 0 <= j < i ==> #[trigger] self.entries()[j] != (itype, key@),
            decreases self.items.len() - i,
        {
            if self.items[i].0 == itype && str_eq(self.items[i].1.as_str(), key) {
                assert(self.entries()[i as int] == (itype, key@));
                return true;
            }
            assert(self.entries()[i as int] == (self.items@[i as int].0, self.items@[i as int].1@));
            i = i + 1;
        }
        false
    }

    /// The recorded properties of items, as (kind, key, property).
    pub closed spec fn property_entries(&self) -> Seq<(Item, Seq<char>, Seq<char>)> {
        self.properties@.map_values(|p: (Item, String, String)| (p.0, p.1@, p.2@))
    }

    /// Whether the item of kind `itype` with key `key` has the property `property`.
    pub open spec fn spec_item_has_property(&self, itype: Item, key: Seq<char>, property: Seq<char>) -> bool {
        self.property_entries().contains((itype, key, property))
    }

    /// Record a property of an item.
    pub fn add_property(&mut self, itype: Item, key: &str, property: &str)
        ensures
            final(self).entries() == old(self).entries(),
            final(self).property_entries() == old(self).property_entries().push((itype, key@, property@)),
    {
        self.properties.push((itype, key.to_owned(), property.to_owned()));
        assert(self.property_entries() =~= old(self).property_entries().push((itype, key@, property@)));
        assert(self.entries() =~= old(self).entries());
    }

    /// Whether the item of kind `itype` with key `key` has the property `property`.
    pub fn item_has_property(&self, itype: Item, key: &str, property: &str) -> (b: bool)
        ensures
            b == self.spec_item_has_property(itype, key@, property@),
    {
        let mut i: usize = 0;
        while i < self.properties.len()
            invariant
                i <= self.properties@.len(),
                forall|j: int| 0 <= j < i ==> #[trigger] self.property_entries()[j] != (itype, key@, property@),
            decreases self.properties.len() - i,
        {
            let p = &self.properties[i];
            assert(self.property_entries()[i as int] == (p.0, p.1@, p.2@));
            if p.0 == itype && str_eq(p.1.as_str(), key) && str_eq(p.2.as_str(), property) {
                return true;
            }
            i = i + 1;
        }
        false
    }

    /// Whether the trait `key` has an xp track.
    pub fn has_track(&self, key: &str) -> (b: bool)
        ensures
            b == self.spec_item_has_property(Item::Trait, key@, "track"@),
    {
        self.item_has_property(Item::Trait, key, "track")
    }

    /// Report at `token` if `key`, which `token` implies, is not the key of an item of kind
    /// `itype`.
    pub fn verify_exists_implied(&self, itype: Item, key: &str, token: &Token, errors: &mut Errors)
        ensures
            final(errors).logged(
                old(errors),
                if self.spec_item_exists(itype, key@) {
                    Seq::empty()
                } else {
                    seq![implied_item_report(itype, key@, token)]
                },
            ),
    {
        if !self.item_exists(itype, key) {
            let a = concat_str(itype.name(), " ");
            let b = concat_str(a.as_str(), key);
            let msg = concat_str(b.as_str(), " not defined");
            report(ErrorKey::MissingItem, Severity::Error).msg(msg.as_str()).loc(token).push(errors);
        } else {
            proof {
                lemma_logged_nothing(errors);
            }
        }
    }

    /// Report if `token` is not the key of an item of kind `itype`, at no more than `max_sev`.
    pub fn verify_exists_max_sev(&self, itype: Item, token: &Token, max_sev: Severity, errors: &mut Errors)
        ensures
            final(errors).logged(
                old(errors),
                if self.spec_item_exists(itype, token@) {
                    Seq::empty()
                } else {
                    seq![missing_item_report(itype, token, max_sev)]
                },
            ),
    {
        if !self.item_exists(itype, token.as_str()) {
            let a = concat_str(itype.name(), " ");
            let b = concat_str(a.as_str(), token.as_str());
            let msg = concat_str(b.as_str(), " not defined");
            let sev = Severity::Error.at_most(max_sev);
            report(ErrorKey::MissingItem, sev).msg(msg.as_str()).loc(token).push(errors);
        }
    }
}

} // verus!
