//! A registry of all the script variables and variable lists that are set somewhere.
use vstd::prelude::*;

use crate::block::{BV, Block, BlockItem, Comparator, EqKind, Field, first_assignment, last_field_bv};
use crate::report::builder::report;
use crate::report::error_key::ErrorKey;
use crate::report::errors::{Errors, lemma_logged_nothing};
use crate::report::report_struct::{Confidence, ReportView, Severity};
use crate::report::builder::simple_report;
use crate::text::{chars_of, concat_str, spec_ascii_upper, str_eq, string_from_chars, string_of};
use crate::token::{Token, first_index, has_char, lemma_first_index};

verus! {

/// The game whose script is checked.
#[derive(Clone, Copy, Debug, PartialEq, Eq, Structural)]
pub enum Game {
    Ck3,
    Vic3,
    Imperator,
    Hoi4,
}

/// Where the name of a variable is in the effect that sets it.
#[derive(Clone, Copy, Debug)]
pub enum Extract {
    /// In the field of that name of the effect's block.
    Field(&'static str),
    /// The effect's value, or the field of that name of its block.
    AssignOrField(&'static str),
    /// The field of that name of the effect's block, or else the key of the block's only item
    /// if that item is an assignment.
    InternalAssignOrField(&'static str),
}

/// Whether the game is one of the Jomini engine games.
pub open spec fn is_jomini(game: Game) -> bool {
    game != Game::Hoi4
}

/// The effect `key` sets a variable, and this is where its name is.
pub open spec fn spec_create_variable(game: Game, key: Seq<char>) -> Option<Extract> {
    if key == "set_dead_character_variable"@ && game == Game::Ck3 {
        Some(Extract::Field("name"))
    } else if (key == "set_global_variable"@ || key == "set_local_variable"@) && is_jomini(game) {
        Some(Extract::AssignOrField("name"))
    } else if key == "set_temp_variable"@ && game == Game::Hoi4 {
        Some(Extract::InternalAssignOrField("var"))
    } else if key == "set_temp_variable_to_random"@ && game == Game::Hoi4 {
        Some(Extract::AssignOrField("var"))
    } else if key == "set_variable"@ && is_jomini(game) {
        Some(Extract::AssignOrField("name"))
    } else if key == "set_variable"@ && game == Game::Hoi4 {
        Some(Extract::InternalAssignOrField("var"))
    } else if key == "set_variable_to_random"@ && game == Game::Hoi4 {
        Some(Extract::AssignOrField("var"))
    } else {
        None
    }
}

/// The effect `key` adds to a variable list, and this is where the list's name is.
pub open spec fn spec_create_list(game: Game, key: Seq<char>) -> Option<Extract> {
    if (key == "add_to_array"@ || key == "add_to_temp_array"@) && game == Game::Hoi4 {
        Some(Extract::InternalAssignOrField("array"))
    } else if (key == "add_to_global_variable_list"@ || key == "add_to_local_variable_list"@
        || key == "add_to_variable_list"@) && is_jomini(game) {
        Some(Extract::Field("name"))
    } else {
        None
    }
}

/// The name that the effect's value holds, if any.
pub open spec fn spec_extract(ex: Extract, bv: BV) -> Option<Seq<char>> {
    match ex {
        Extract::Field(f) => match bv {
            BV::Block(b) => match last_field_bv(b.v@, f@) {
                Some(BV::Value(t)) => Some(t@),
                _ => None,
            },
            BV::Value(_) => None,
        },
        Extract::AssignOrField(f) => match bv {
            BV::Value(t) => Some(t@),
            BV::Block(b) => match last_field_bv(b.v@, f@) {
                Some(BV::Value(t)) => Some(t@),
                _ => None,
            },
        },
        Extract::InternalAssignOrField(f) => match bv {
            BV::Block(b) => match last_field_bv(b.v@, f@) {
                Some(BV::Value(t)) => Some(t@),
                _ => if b.v@.len() == 1 {
                    match first_assignment(b.v@) {
                        Some((k, _)) => Some(k@),
                        None => None,
                    }
                } else {
                    None
                },
            },
            BV::Value(_) => None,
        },
    }
}

impl Extract {
    /// The name that the effect's value holds, if any.
    pub fn extract<'b>(&self, bv: &'b BV) -> (r: Option<&'b str>)
        ensures
            match r {
                Some(s) => spec_extract(*self, *bv) == Some(s@),
                None => spec_extract(*self, *bv) is None,
            },
    {
        match self {
            Extract::Field(field) => {
                if let Some(block) = bv.get_block() {
                    if let Some(name) = block.get_field_value(field) {
                        return Some(name.as_str());
                    }
                }
            },
            Extract::AssignOrField(field) => match bv {
                BV::Value(name) => {
                    return Some(name.as_str());
                },
                BV::Block(block) => {
                    if let Some(name) = block.get_field_value(field) {
                        return Some(name.as_str());
                    }
                },
            },
            Extract::InternalAssignOrField(field) => {
                if let Some(block) = bv.get_block() {
                    if let Some(name) = block.get_field_value(field) {
                        return Some(name.as_str());
                    } else if block.num_items() == 1 {
                        if let Some((name, _)) = block.first_assignment() {
                            return Some(name.as_str());
                        }
                    }
                }
            },
        }
        None
    }
}

/// The effect `key` sets a variable, and this is where its name is.
fn create_variable(game: Game, key: &str) -> (r: Option<Extract>)
    ensures
        r == spec_create_variable(game, key@),
{
    let hoi4 = game == Game::Hoi4;
    if str_eq(key, "set_dead_character_variable") && game == Game::Ck3 {
        Some(Extract::Field("name"))
    } else if (str_eq(key, "set_global_variable") || str_eq(key, "set_local_variable")) && !hoi4 {
        Some(Extract::AssignOrField("name"))
    } else if str_eq(key, "set_temp_variable") && hoi4 {
        Some(Extract::InternalAssignOrField("var"))
    } else if str_eq(key, "set_temp_variable_to_random") && hoi4 {
        Some(Extract::AssignOrField("var"))
    } else if str_eq(key, "set_variable") && !hoi4 {
        Some(Extract::AssignOrField("name"))
    } else if str_eq(key, "set_variable") && hoi4 {
        Some(Extract::InternalAssignOrField("var"))
    } else if str_eq(key, "set_variable_to_random") && hoi4 {
        Some(Extract::AssignOrField("var"))
    } else {
        None
    }
}

/// The effect `key` adds to a variable list, and this is where the list's name is.
fn create_list(game: Game, key: &str) -> (r: Option<Extract>)
    ensures
        r == spec_create_list(game, key@),
{
    let hoi4 = game == Game::Hoi4;
    if (str_eq(key, "add_to_array") || str_eq(key, "add_to_temp_array")) && hoi4 {
        Some(Extract::InternalAssignOrField("array"))
    } else if (str_eq(key, "add_to_global_variable_list") || str_eq(key, "add_to_local_variable_list")
        || str_eq(key, "add_to_variable_list")) && !hoi4 {
        Some(Extract::Field("name"))
    } else {
        None
    }
}

// ---------------------------------------------------------------------------------------------
// Names
// ---------------------------------------------------------------------------------------------

/// The position of the last `.` in `s`, or -1.
pub open spec fn last_dot(s: Seq<char>) -> int
    decreases s.len(),
{
    if s.len() == 0 {
        -1
    } else if s.last() == '.' {
        s.len() - 1
    } else {
        last_dot(s.drop_last())
    }
}

/// The name without the scopes it is qualified with: what follows the last `.`.
pub open spec fn remove_qualifiers(s: Seq<char>) -> Seq<char> {
    s.skip(last_dot(s) + 1)
}

/// The name without a country tag at its end: three ASCII capitals after at least one char.
pub open spec fn remove_suffix_tag(s: Seq<char>) -> Option<Seq<char>> {
    if s.len() > 3 && spec_ascii_upper(s[s.len() - 1]) && spec_ascii_upper(s[s.len() - 2])
        && spec_ascii_upper(s[s.len() - 3]) {
        Some(s.take(s.len() - 3))
    } else {
        None
    }
}

proof fn lemma_last_dot(s: Seq<char>)
    ensures
        -1 <= last_dot(s) < s.len(),
    decreases s.len(),
{
    if s.len() > 0 {
        lemma_last_dot(s.drop_last());
    }
}

/// The name without the scopes it is qualified with.
fn remove_qualifiers_exec(v: &Vec<char>, start: usize, end: usize) -> (r: String)
    requires
        start <= end <= v@.len(),
    ensures
        r@ == remove_qualifiers(v@.subrange(start as int, end as int)),
{
    let ghost s = v@.subrange(start as int, end as int);
    let mut i = end;
    while i > start && v[i - 1] != '.'
        invariant
            start <= i <= end,
            end <= v@.len(),
            last_dot(s) == last_dot(v@.subrange(start as int, i as int)),
        decreases i,
    {
        proof {
            assert(v@.subrange(start as int, i as int).drop_last() =~= v@.subrange(start as int, i - 1));
        }
        i = i - 1;
    }
    proof {
        let t = v@.subrange(start as int, i as int);
        if i > start {
            assert(t.last() == '.');
            assert(last_dot(t) == i - start - 1);
        } else {
            assert(t.len() == 0);
        }
        assert(s.skip(last_dot(s) + 1) =~= v@.subrange(i as int, end as int));
    }
    string_from_chars(v.as_slice(), i, end)
}

/// The name without a country tag at its end, if it has one.
fn remove_suffix_tag_exec(s: &str) -> (r: Option<String>)
    ensures
        match r {
            Some(p) => remove_suffix_tag(s@) == Some(p@),
            None => remove_suffix_tag(s@) is None,
        },
{
    let v = chars_of(s);
    let n = v.len();
    if n > 3 && 'A' <= v[n - 1] && v[n - 1] <= 'Z' && 'A' <= v[n - 2] && v[n - 2] <= 'Z' && 'A' <= v[n - 3] && v[n - 3] <= 'Z' {
        let p = string_from_chars(v.as_slice(), 0, n - 3);
        assert(v@.subrange(0, n - 3) =~= v@.take(n - 3));
        Some(p)
    } else {
        None
    }
}

/// A set of names.
#[derive(Debug)]
struct NameSet {
    v: Vec<String>,
}

impl NameSet {
    /// The names.
    closed spec fn elems(&self) -> Set<Seq<char>> {
        Set::new(|x: Seq<char>| exists|i: int| 0 <= i < self.v@.len() && #[trigger] self.v@[i]@ == x)
    }

    fn new() -> (r: NameSet)
        ensures
            r.elems() == Set::<Seq<char>>::empty(),
    {
        let r = NameSet { v: Vec::new() };
        assert(r.elems() =~= Set::<Seq<char>>::empty());
        r
    }

    fn insert(&mut self, s: String)
        ensures
            final(self).elems() == old(self).elems().insert(s@),
    {
        let ghost sv = s@;
        self.v.push(s);
        assert forall|x: Seq<char>| #[trigger] self.elems().contains(x) == old(self).elems().insert(sv).contains(x) by {
            if old(self).elems().contains(x) {
                let i = choose|i: int| 0 <= i < old(self).v@.len() && #[trigger] old(self).v@[i]@ == x;
                assert(self.v@[i]@ == x);
            }
            if x == sv {
                assert(self.v@[self.v@.len() - 1]@ == x);
            }
            if self.elems().contains(x) {
                let i = choose|i: int| 0 <= i < self.v@.len() && #[trigger] self.v@[i]@ == x;
                if i < old(self).v@.len() {
                    assert(old(self).v@[i]@ == x);
                }
            }
        }
        assert(self.elems() =~= old(self).elems().insert(sv));
    }

    fn contains(&self, s: &str) -> (b: bool)
        ensures
            b == self.elems().contains(s@),
    {
        let mut i: usize = 0;
        while i < self.v.len()
            invariant
                i <= self.v@.len(),
                forall|j: int| 0 <= j < i ==> (#[trigger] self.v@[j])@ != s@,
            decreases self.v.len() - i,
        {
            if str_eq(self.v[i].as_str(), s) {
                return true;
            }
            i = i + 1;
        }
        false
    }
}

/// What the registry holds.
pub struct VariablesView {
    pub names: Set<Seq<char>>,
    pub name_prefixes: Set<Seq<char>>,
    pub name_speculative_prefixes: Set<Seq<char>>,
    pub lists: Set<Seq<char>>,
    pub list_prefixes: Set<Seq<char>>,
    pub list_speculative_prefixes: Set<Seq<char>>,
}

/// The name sets after registering `name`, for the full names, the prefixes given with `@`,
/// and the prefixes before a country tag.
pub open spec fn register_in(
    game: Game,
    name: Seq<char>,
    full: Set<Seq<char>>,
    prefixes: Set<Seq<char>>,
    speculative: Set<Seq<char>>,
) -> (Set<Seq<char>>, Set<Seq<char>>, Set<Seq<char>>) {
    if game == Game::Hoi4 {
        if has_char(name, '@') {
            (full, prefixes.insert(remove_qualifiers(name.take(first_index(name, '@')))), speculative)
        } else {
            let n = remove_qualifiers(name);
            (full.insert(n), prefixes, match remove_suffix_tag(n) {
                Some(p) => speculative.insert(p),
                None => speculative,
            })
        }
    } else {
        (full.insert(name), prefixes, speculative)
    }
}

/// The registry after registering the variable `name`.
pub open spec fn register_variable_view(game: Game, v: VariablesView, name: Seq<char>) -> VariablesView {
    let (a, b, c) = register_in(game, name, v.names, v.name_prefixes, v.name_speculative_prefixes);
    VariablesView { names: a, name_prefixes: b, name_speculative_prefixes: c, ..v }
}

/// The registry after registering the variable list `name`.
pub open spec fn register_list_view(game: Game, v: VariablesView, name: Seq<char>) -> VariablesView {
    let (a, b, c) = register_in(game, name, v.lists, v.list_prefixes, v.list_speculative_prefixes);
    VariablesView { lists: a, list_prefixes: b, list_speculative_prefixes: c, ..v }
}

/// A name that a scan registers.
pub enum Registration {
    Variable(Seq<char>),
    List(Seq<char>),
}

/// The names that scanning the items registers, in order.
pub open spec fn scan_items(game: Game, items: Seq<BlockItem>) -> Seq<Registration>
    decreases items,
{
    if items.len() == 0 {
        Seq::empty()
    } else {
        scan_items(game, items.drop_last()) + scan_item(game, items[items.len() - 1])
    }
}

/// The names that scanning one item registers: a `key = value` field whose key is an effect
/// that sets a variable or adds to a list registers its name; any other such field with a block
/// is scanned in turn.
pub open spec fn scan_item(game: Game, it: BlockItem) -> Seq<Registration>
    decreases it,
{
    match it {
        BlockItem::Field(f) => if f.1 == Comparator::Equals(EqKind::Single) {
            match spec_create_variable(game, f.0@) {
                Some(ex) => match spec_extract(ex, f.2) {
                    Some(n) => seq![Registration::Variable(n)],
                    None => Seq::empty(),
                },
                None => match spec_create_list(game, f.0@) {
                    Some(ex) => match spec_extract(ex, f.2) {
                        Some(n) => seq![Registration::List(n)],
                        None => Seq::empty(),
                    },
                    None => match f.2 {
                        BV::Block(b) => scan_items(game, b.v@),
                        BV::Value(_) => Seq::empty(),
                    },
                },
            }
        } else {
            Seq::empty()
        },
        _ => Seq::empty(),
    }
}

/// The registry after the registrations, in order.
pub open spec fn apply_registrations(game: Game, v: VariablesView, regs: Seq<Registration>) -> VariablesView
    decreases regs.len(),
{
    if regs.len() == 0 {
        v
    } else {
        let w = apply_registrations(game, v, regs.drop_last());
        match regs.last() {
            Registration::Variable(n) => register_variable_view(game, w, n),
            Registration::List(n) => register_list_view(game, w, n),
        }
    }
}

/// The report that a variable is not set anywhere.
pub open spec fn variable_report(name: &Token, sev: Severity, msg: Seq<char>) -> ReportView {
    simple_report(ErrorKey::Variables, sev, Confidence::Reasonable, msg, None, name.loc)
}

/// All the script variables and variable lists that are set somewhere.
#[derive(Debug)]
pub struct Variables {
    game: Game,
    names: NameSet,
    name_prefixes: NameSet,
    name_speculative_prefixes: NameSet,
    lists: NameSet,
    list_prefixes: NameSet,
    list_speculative_prefixes: NameSet,
}

impl Variables {
    /// The game whose script is scanned.
    pub closed spec fn game(&self) -> Game {
        self.game
    }

    /// What the registry holds.
    pub closed spec fn view(&self) -> VariablesView {
        VariablesView {
            names: self.names.elems(),
            name_prefixes: self.name_prefixes.elems(),
            name_speculative_prefixes: self.name_speculative_prefixes.elems(),
            lists: self.lists.elems(),
            list_prefixes: self.list_prefixes.elems(),
            list_speculative_prefixes: self.list_speculative_prefixes.elems(),
        }
    }

    /// An empty registry for script of `game`.
    pub fn new(game: Game) -> (r: Variables)
        ensures
            r.game() == game,
            r.view() == (VariablesView {
                names: Set::empty(),
                name_prefixes: Set::empty(),
                name_speculative_prefixes: Set::empty(),
                lists: Set::empty(),
                list_prefixes: Set::empty(),
                list_speculative_prefixes: Set::empty(),
            }),
    {
        Variables {
            game,
            names: NameSet::new(),
            name_prefixes: NameSet::new(),
            name_speculative_prefixes: NameSet::new(),
            lists: NameSet::new(),
            list_prefixes: NameSet::new(),
            list_speculative_prefixes: NameSet::new(),
        }
    }

    /// Register `name` in one group of sets.
    fn register_in_sets(game: Game, name: &str, full: &mut NameSet, prefixes: &mut NameSet, speculative: &mut NameSet)
        ensures
            (final(full).elems(), final(prefixes).elems(), final(speculative).elems()) == register_in(
                game,
                name@,
                old(full).elems(),
                old(prefixes).elems(),
                old(speculative).elems(),
            ),
    {
        if game == Game::Hoi4 {
            let v = chars_of(name);
            let mut i: usize = 0;
            while i < v.len() && v[i] != '@'
                invariant
                    i <= v@.len(),
                    v@ == name@,
                    forall|j: int| 0 <= j < i ==> v@[j] != '@',
                decreases v.len() - i,
            {
                i = i + 1;
            }
            if i < v.len() {
                proof {
                    lemma_first_index(v@, '@', i as int);
                    assert(v@.subrange(0, i as int) =~= v@.take(i as int));
                }
                prefixes.insert(remove_qualifiers_exec(&v, 0, i));
            } else {
                assert(v@.subrange(0, v@.len() as int) =~= v@);
                let n = remove_qualifiers_exec(&v, 0, v.len());
                if let Some(p) = remove_suffix_tag_exec(n.as_str()) {
                    speculative.insert(p);
                }
                full.insert(n);
            }
        } else {
            full.insert(string_of(name));
        }
    }

    /// Register that the variable `name` is set.
    pub fn register_variable(&mut self, name: &str)
        ensures
            final(self).game() == old(self).game(),
            final(self).view() == register_variable_view(old(self).game(), old(self).view(), name@),
    {
        Self::register_in_sets(self.game, name, &mut self.names, &mut self.name_prefixes, &mut self.name_speculative_prefixes);
    }

    /// Register that the variable list `name` is added to.
    pub fn register_list(&mut self, name: &str)
        ensures
            final(self).game() == old(self).game(),
            final(self).view() == register_list_view(old(self).game(), old(self).view(), name@),
    {
        Self::register_in_sets(self.game, name, &mut self.lists, &mut self.list_prefixes, &mut self.list_speculative_prefixes);
    }

    /// Register every variable and list that the script in `block` sets.
    pub fn scan(&mut self, block: &Block)
        ensures
            final(self).game() == old(self).game(),
            final(self).view() == apply_registrations(old(self).game(), old(self).view(), scan_items(old(self).game(), block.v@)),
        decreases block,
    {
        let ghost start = self.view();
        let ghost game = self.game;
        let mut i: usize = 0;
        assert(block.v@.take(0) =~= Seq::<BlockItem>::empty());
        while i < block.v.len()
            invariant
                i <= block.v@.len(),
                self.game == game,
                self.view() == apply_registrations(game, start, scan_items(game, block.v@.take(i as int))),
            decreases block.v.len() - i,
        {
            proof {
                assert(block.v@.take(i + 1).drop_last() =~= block.v@.take(i as int));
                assert(block.v@.take(i + 1)[i as int] == block.v@[i as int]);
                lemma_apply_append(game, start, scan_items(game, block.v@.take(i as int)), scan_item(game, block.v@[i as int]));
            }
            let ghost before = self.view();
            match &block.v[i] {
                BlockItem::Field(f) => {
                    if f.1 == Comparator::Equals(EqKind::Single) {
                        if let Some(ex) = create_variable(self.game, f.0.as_str()) {
                            if let Some(name) = ex.extract(&f.2) {
                                self.register_variable(name);
                                assert(seq![Registration::Variable(name@)].drop_last() =~= Seq::<Registration>::empty());
                                assert(apply_registrations(game, before, Seq::empty()) == before);
                                assert(scan_item(game, block.v@[i as int]) == seq![Registration::Variable(name@)]);
                                assert(self.view() == apply_registrations(game, before, scan_item(game, block.v@[i as int])));
                            } else {
                                assert(apply_registrations(game, before, Seq::empty()) == before);
                            }
                        } else if let Some(ex) = create_list(self.game, f.0.as_str()) {
                            if let Some(name) = ex.extract(&f.2) {
                                self.register_list(name);
                                assert(seq![Registration::List(name@)].drop_last() =~= Seq::<Registration>::empty());
                                assert(apply_registrations(game, before, Seq::empty()) == before);
                                assert(scan_item(game, block.v@[i as int]) == seq![Registration::List(name@)]);
                                assert(self.view() == apply_registrations(game, before, scan_item(game, block.v@[i as int])));
                            } else {
                                assert(apply_registrations(game, before, Seq::empty()) == before);
                            }
                        } else if let Some(inner) = f.2.get_block() {
                            proof {
                                assert(decreases_to!(*block => block.v));
                                assert(decreases_to!(block.v => block.v@));
                                assert(decreases_to!(block.v@ => block.v@[i as int]));
                            }
                            self.scan(inner);
                            assert(self.view() == apply_registrations(game, before, scan_item(game, block.v@[i as int])));
                        } else {
                            assert(apply_registrations(game, before, Seq::empty()) == before);
                        }
                    } else {
                        assert(apply_registrations(game, before, Seq::empty()) == before);
                    }
                },
                _ => {
                    assert(apply_registrations(game, before, Seq::empty()) == before);
                },
            }
            assert(self.view() == apply_registrations(game, before, scan_item(game, block.v@[i as int])));
            i = i + 1;
        }
        assert(block.v@.take(block.v@.len() as int) =~= block.v@);
    }

    /// Report if the variable `name` is set nowhere, neither by itself nor, if it ends in a
    /// country tag, as a prefix given with `@`.
    pub fn verify_variable_exists(&self, name: &Token, sev: Severity, errors: &mut Errors)
        ensures
            final(errors).logged(
                old(errors),
                match remove_suffix_tag(name@) {
                    Some(p) => if !self.view().name_prefixes.contains(p) && !self.view().names.contains(name@) {
                        seq![variable_report(name, sev, "variable `"@ + name@ + "` or `"@ + name@ + "@TAG` was not set anywhere"@)]
                    } else {
                        Seq::empty()
                    },
                    None => if !self.view().names.contains(name@) {
                        seq![variable_report(name, sev, "variable `"@ + name@ + "` was not set anywhere"@)]
                    } else {
                        Seq::empty()
                    },
                },
            ),
    {
        if let Some(prefix) = remove_suffix_tag_exec(name.as_str()) {
            if !self.name_prefixes.contains(prefix.as_str()) && !self.names.contains(name.as_str()) {
                let a = concat_str("variable `", name.as_str());
                let b = concat_str(a.as_str(), "` or `");
                let c = concat_str(b.as_str(), name.as_str());
                let msg = concat_str(c.as_str(), "@TAG` was not set anywhere");
                report(ErrorKey::Variables, sev).msg(msg.as_str()).loc(name).push(errors);
            } else {
                proof {
                    lemma_logged_nothing(errors);
                }
            }
        } else if !self.names.contains(name.as_str()) {
            let a = concat_str("variable `", name.as_str());
            let msg = concat_str(a.as_str(), "` was not set anywhere");
            report(ErrorKey::Variables, sev).msg(msg.as_str()).loc(name).push(errors);
        } else {
            proof {
                lemma_logged_nothing(errors);
            }
        }
    }

    /// Report if no variable was set with `prefix` given with `@`, or before a country tag.
    pub fn verify_variable_prefix_exists(&self, prefix: &Token, sev: Severity, errors: &mut Errors)
        ensures
            final(errors).logged(
                old(errors),
                if !self.view().name_prefixes.contains(prefix@) && !self.view().name_speculative_prefixes.contains(prefix@) {
                    seq![variable_report(prefix, sev, "a variable with prefix `"@ + prefix@ + "` was not set anywhere"@)]
                } else {
                    Seq::empty()
                },
            ),
    {
        if !self.name_prefixes.contains(prefix.as_str()) && !self.name_speculative_prefixes.contains(prefix.as_str()) {
            let a = concat_str("a variable with prefix `", prefix.as_str());
            let msg = concat_str(a.as_str(), "` was not set anywhere");
            report(ErrorKey::Variables, sev).msg(msg.as_str()).loc(prefix).push(errors);
        } else {
            proof {
                lemma_logged_nothing(errors);
            }
        }
    }

    /// What variable lists are called in the game's reports.
    pub open spec fn list_word(&self) -> Seq<char> {
        if self.game() == Game::Hoi4 {
            "array"@
        } else {
            "variable list"@
        }
    }

    /// Report if the variable list `name` is created nowhere, neither by itself nor, if it ends
    /// in a country tag, as a prefix given with `@`.
    pub fn verify_list_exists(&self, name: &Token, sev: Severity, errors: &mut Errors)
        ensures
            final(errors).logged(
                old(errors),
                match remove_suffix_tag(name@) {
                    Some(p) => if !self.view().list_prefixes.contains(p) && !self.view().lists.contains(name@) {
                        seq![variable_report(name, sev, self.list_word() + " `"@ + name@ + "` or `"@ + name@ + "@TAG` was not created anywhere"@)]
                    } else {
                        Seq::empty()
                    },
                    None => if !self.view().lists.contains(name@) {
                        seq![variable_report(name, sev, self.list_word() + " `"@ + name@ + "` was not created anywhere"@)]
                    } else {
                        Seq::empty()
                    },
                },
            ),
    {
        let thing = if self.game == Game::Hoi4 {
            "array"
        } else {
            "variable list"
        };
        if let Some(prefix) = remove_suffix_tag_exec(name.as_str()) {
            if !self.list_prefixes.contains(prefix.as_str()) && !self.lists.contains(name.as_str()) {
                let a = concat_str(thing, " `");
                let b = concat_str(a.as_str(), name.as_str());
                let c = concat_str(b.as_str(), "` or `");
                let d = concat_str(c.as_str(), name.as_str());
                let msg = concat_str(d.as_str(), "@TAG` was not created anywhere");
                report(ErrorKey::Variables, sev).msg(msg.as_str()).loc(name).push(errors);
            } else {
                proof {
                    lemma_logged_nothing(errors);
                }
            }
        } else if !self.lists.contains(name.as_str()) {
            let a = concat_str(thing, " `");
            let b = concat_str(a.as_str(), name.as_str());
            let msg = concat_str(b.as_str(), "` was not created anywhere");
            report(ErrorKey::Variables, sev).msg(msg.as_str()).loc(name).push(errors);
        } else {
            proof {
                lemma_logged_nothing(errors);
            }
        }
    }

    /// Report if no array was created with `prefix` given with `@`, or before a country tag.
    pub fn verify_list_prefix_exists(&self, prefix: &Token, sev: Severity, errors: &mut Errors)
        ensures
            final(errors).logged(
                old(errors),
                if !self.view().list_prefixes.contains(prefix@) && !self.view().list_speculative_prefixes.contains(prefix@) {
                    seq![variable_report(prefix, sev, "an array with prefix `"@ + prefix@ + "` was not set anywhere"@)]
                } else {
                    Seq::empty()
                },
            ),
    {
        if !self.list_prefixes.contains(prefix.as_str()) && !self.list_speculative_prefixes.contains(prefix.as_str()) {
            let a = concat_str("an array with prefix `", prefix.as_str());
            let msg = concat_str(a.as_str(), "` was not set anywhere");
            report(ErrorKey::Variables, sev).msg(msg.as_str()).loc(prefix).push(errors);
        } else {
            proof {
                lemma_logged_nothing(errors);
            }
        }
    }
}

/// Applying two lists of registrations is applying one after the other.
proof fn lemma_apply_append(game: Game, v: VariablesView, a: Seq<Registration>, b: Seq<Registration>)
    ensures
        apply_registrations(game, v, a + b) == apply_registrations(game, apply_registrations(game, v, a), b),
    decreases b.len(),
{
    if b.len() == 0 {
        assert(a + b =~= a);
    } else {
        assert((a + b).drop_last() =~= a + b.drop_last());
        assert((a + b).last() == b.last());
        lemma_apply_append(game, v, a, b.drop_last());
    }
}

/// In the Jomini games a registered variable is known by its full name, so checking it reports
/// nothing; registering never forgets a name.
pub proof fn law_registered_variable_is_known(game: Game, v: VariablesView, name: Seq<char>, other: Seq<char>)
    requires
        game != Game::Hoi4,
    ensures
        register_variable_view(game, v, name).names.contains(name),
        v.names.contains(other) ==> register_variable_view(game, v, name).names.contains(other),
        register_list_view(game, v, name).lists.contains(name),
{
}

/// In Hearts of Iron, a variable name with `@` registers what comes before it as a prefix, and
/// any other name is registered without its scope qualifiers.
pub proof fn law_hoi4_registration(v: VariablesView, name: Seq<char>)
    ensures
        has_char(name, '@') ==> register_variable_view(Game::Hoi4, v, name).name_prefixes.contains(
            remove_qualifiers(name.take(first_index(name, '@'))),
        ),
        !has_char(name, '@') ==> register_variable_view(Game::Hoi4, v, name).names.contains(
            remove_qualifiers(name),
        ),
{
}

} // verus!
