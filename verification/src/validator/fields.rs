//! The field checks of the [`Validator`] that callers use.
use vstd::prelude::*;

use crate::block::{BV, Block, Field, last_key_index, loose_blocks, loose_values};
use crate::everything::Item;
use crate::report::builder::{fatal, report};
use crate::report::error_key::ErrorKey;
use crate::report::errors::Errors;
use crate::report::report_struct::{ReportView, Severity};
use crate::text::{concat_str, join_strs, spec_join, strs_view};
use crate::token::Token;
use crate::validator::{
    FieldCheck, FieldMode, Limit, TokenKind, Validator, check_wf, deref_fields, matching, named_fields,
    plain_report, range_wf,
};

verus! {

/// One field of the name, with `=` as its comparator; later ones are reported as duplicates.
pub open spec fn one_mode() -> FieldMode {
    FieldMode { unique: true, check_eq: true, eq_first: false }
}

/// Any number of fields of the name, with `=` as their comparator.
pub open spec fn many_mode() -> FieldMode {
    FieldMode { unique: false, check_eq: true, eq_first: false }
}

/// One field of the name, with `=` as its comparator, which is checked before duplicates.
pub open spec fn one_eq_first_mode() -> FieldMode {
    FieldMode { unique: true, check_eq: true, eq_first: true }
}

/// One field of the name, with any comparator.
pub open spec fn one_any_mode() -> FieldMode {
    FieldMode { unique: true, check_eq: false, eq_first: false }
}

/// Any number of fields of the name, with any comparator.
pub open spec fn many_any_mode() -> FieldMode {
    FieldMode { unique: false, check_eq: false, eq_first: false }
}

/// The values of the fields that are assignments, in order.
pub open spec fn field_values(fs: Seq<Field>) -> Seq<Token>
    decreases fs.len(),
{
    if fs.len() == 0 {
        Seq::empty()
    } else {
        field_values(fs.drop_last()) + match fs.last().2 {
            BV::Value(t) => seq![t],
            BV::Block(_) => Seq::empty(),
        }
    }
}

/// The keys and values of the fields that are assignments, in order.
pub open spec fn keyed_values(fs: Seq<Field>) -> Seq<(Token, Token)>
    decreases fs.len(),
{
    if fs.len() == 0 {
        Seq::empty()
    } else {
        keyed_values(fs.drop_last()) + match fs.last().2 {
            BV::Value(t) => seq![(fs.last().0, t)],
            BV::Block(_) => Seq::empty(),
        }
    }
}

/// The blocks of the fields that are definitions, in order.
pub open spec fn field_blocks(fs: Seq<Field>) -> Seq<Block>
    decreases fs.len(),
{
    if fs.len() == 0 {
        Seq::empty()
    } else {
        field_blocks(fs.drop_last()) + match fs.last().2 {
            BV::Block(b) => seq![b],
            BV::Value(_) => Seq::empty(),
        }
    }
}

/// The keys and blocks of the fields that are definitions, in order.
pub open spec fn keyed_blocks(fs: Seq<Field>) -> Seq<(Token, Block)>
    decreases fs.len(),
{
    if fs.len() == 0 {
        Seq::empty()
    } else {
        keyed_blocks(fs.drop_last()) + match fs.last().2 {
            BV::Block(b) => seq![(fs.last().0, b)],
            BV::Value(_) => Seq::empty(),
        }
    }
}

/// The loose values of the blocks of the fields that are definitions, in order.
pub open spec fn list_values(fs: Seq<Field>) -> Seq<Token>
    decreases fs.len(),
{
    if fs.len() == 0 {
        Seq::empty()
    } else {
        list_values(fs.drop_last()) + match fs.last().2 {
            BV::Block(b) => loose_values(b.v@),
            BV::Value(_) => Seq::empty(),
        }
    }
}

/// The values of the fields that are assignments.
pub(crate) fn values_of<'b>(fs: &Vec<&'b Field>) -> (r: Vec<&'b Token>)
    ensures
        r@.map_values(|t: &Token| *t) == field_values(deref_fields(fs@)),
{
    let ghost s = deref_fields(fs@);
    let mut r: Vec<&'b Token> = Vec::new();
    let mut i: usize = 0;
    assert(r@.map_values(|t: &Token| *t) =~= field_values(s.take(0)));
    while i < fs.len()
        invariant
            i <= fs@.len(),
            s == deref_fields(fs@),
            r@.map_values(|t: &Token| *t) == field_values(s.take(i as int)),
        decreases fs.len() - i,
    {
        proof {
            assert(s.take(i + 1).drop_last() =~= s.take(i as int));
        }
        let f: &'b Field = fs[i];
        assert(s.take(i + 1).last() == *f);
        let ghost before = r@;
        match &f.2 {
            BV::Value(t) => {
                r.push(t);
                assert(r@.map_values(|t: &Token| *t) =~= before.map_values(|t: &Token| *t) + seq![*t]);
            },
            BV::Block(_) => {
                assert(r@.map_values(|t: &Token| *t) =~= before.map_values(|t: &Token| *t) + Seq::<Token>::empty());
            },
        }
        i = i + 1;
    }
    assert(s.take(s.len() as int) =~= s);
    r
}

/// The keys and values of the fields that are assignments.
pub(crate) fn keyed_values_of<'b>(fs: &Vec<&'b Field>) -> (r: Vec<(&'b Token, &'b Token)>)
    ensures
        r@.map_values(|p: (&Token, &Token)| (*p.0, *p.1)) == keyed_values(deref_fields(fs@)),
{
    let ghost s = deref_fields(fs@);
    let mut r: Vec<(&'b Token, &'b Token)> = Vec::new();
    let mut i: usize = 0;
    assert(r@.map_values(|p: (&Token, &Token)| (*p.0, *p.1)) =~= keyed_values(s.take(0)));
    while i < fs.len()
        invariant
            i <= fs@.len(),
            s == deref_fields(fs@),
            r@.map_values(|p: (&Token, &Token)| (*p.0, *p.1)) == keyed_values(s.take(i as int)),
        decreases fs.len() - i,
    {
        proof {
            assert(s.take(i + 1).drop_last() =~= s.take(i as int));
        }
        let f: &'b Field = fs[i];
        assert(s.take(i + 1).last() == *f);
        let ghost before = r@;
        match &f.2 {
            BV::Value(t) => {
                r.push((&f.0, t));
                assert(r@.map_values(|p: (&Token, &Token)| (*p.0, *p.1)) =~= before.map_values(|p: (&Token, &Token)| (*p.0, *p.1)) + seq![(f.0, *t)]);
            },
            BV::Block(_) => {
                assert(r@.map_values(|p: (&Token, &Token)| (*p.0, *p.1)) =~= before.map_values(|p: (&Token, &Token)| (*p.0, *p.1)) + Seq::<(Token, Token)>::empty());
            },
        }
        i = i + 1;
    }
    assert(s.take(s.len() as int) =~= s);
    r
}

/// The blocks of the fields that are definitions.
pub(crate) fn blocks_of<'b>(fs: &Vec<&'b Field>) -> (r: Vec<&'b Block>)
    ensures
        r@.map_values(|b: &Block| *b) == field_blocks(deref_fields(fs@)),
{
    let ghost s = deref_fields(fs@);
    let mut r: Vec<&'b Block> = Vec::new();
    let mut i: usize = 0;
    assert(r@.map_values(|b: &Block| *b) =~= field_blocks(s.take(0)));
    while i < fs.len()
        invariant
            i <= fs@.len(),
            s == deref_fields(fs@),
            r@.map_values(|b: &Block| *b) == field_blocks(s.take(i as int)),
        decreases fs.len() - i,
    {
        proof {
            assert(s.take(i + 1).drop_last() =~= s.take(i as int));
        }
        let f: &'b Field = fs[i];
        assert(s.take(i + 1).last() == *f);
        let ghost before = r@;
        match &f.2 {
            BV::Block(b) => {
                r.push(b);
                assert(r@.map_values(|b: &Block| *b) =~= before.map_values(|b: &Block| *b) + seq![*b]);
            },
            BV::Value(_) => {
                assert(r@.map_values(|b: &Block| *b) =~= before.map_values(|b: &Block| *b) + Seq::<Block>::empty());
            },
        }
        i = i + 1;
    }
    assert(s.take(s.len() as int) =~= s);
    r
}

/// The keys and blocks of the fields that are definitions.
pub(crate) fn keyed_blocks_of<'b>(fs: &Vec<&'b Field>) -> (r: Vec<(&'b Token, &'b Block)>)
    ensures
        r@.map_values(|p: (&Token, &Block)| (*p.0, *p.1)) == keyed_blocks(deref_fields(fs@)),
{
    let ghost s = deref_fields(fs@);
    let mut r: Vec<(&'b Token, &'b Block)> = Vec::new();
    let mut i: usize = 0;
    assert(r@.map_values(|p: (&Token, &Block)| (*p.0, *p.1)) =~= keyed_blocks(s.take(0)));
    while i < fs.len()
        invariant
            i <= fs@.len(),
            s == deref_fields(fs@),
            r@.map_values(|p: (&Token, &Block)| (*p.0, *p.1)) == keyed_blocks(s.take(i as int)),
        decreases fs.len() - i,
    {
        proof {
            assert(s.take(i + 1).drop_last() =~= s.take(i as int));
        }
        let f: &'b Field = fs[i];
        assert(s.take(i + 1).last() == *f);
        let ghost before = r@;
        match &f.2 {
            BV::Block(b) => {
                r.push((&f.0, b));
                assert(r@.map_values(|p: (&Token, &Block)| (*p.0, *p.1)) =~= before.map_values(|p: (&Token, &Block)| (*p.0, *p.1)) + seq![(f.0, *b)]);
            },
            BV::Value(_) => {
                assert(r@.map_values(|p: (&Token, &Block)| (*p.0, *p.1)) =~= before.map_values(|p: (&Token, &Block)| (*p.0, *p.1)) + Seq::<(Token, Block)>::empty());
            },
        }
        i = i + 1;
    }
    assert(s.take(s.len() as int) =~= s);
    r
}

/// The loose values of the blocks of the fields that are definitions.
pub(crate) fn list_values_of<'b>(fs: &Vec<&'b Field>) -> (r: Vec<&'b Token>)
    ensures
        r@.map_values(|t: &Token| *t) == list_values(deref_fields(fs@)),
{
    let ghost s = deref_fields(fs@);
    let mut r: Vec<&'b Token> = Vec::new();
    let mut i: usize = 0;
    assert(r@.map_values(|t: &Token| *t) =~= list_values(s.take(0)));
    while i < fs.len()
        invariant
            i <= fs@.len(),
            s == deref_fields(fs@),
            r@.map_values(|t: &Token| *t) == list_values(s.take(i as int)),
        decreases fs.len() - i,
    {
        proof {
            assert(s.take(i + 1).drop_last() =~= s.take(i as int));
        }
        let f: &'b Field = fs[i];
        assert(s.take(i + 1).last() == *f);
        match &f.2 {
            BV::Block(b) => {
                let vs = b.iter_values();
                let ghost before = r@;
                let mut j: usize = 0;
                while j < vs.len()
                    invariant
                        j <= vs@.len(),
                        r@.map_values(|t: &Token| *t) == before.map_values(|t: &Token| *t) + vs@.map_values(|t: &Token| *t).take(j as int),
                    decreases vs.len() - j,
                {
                    let ghost mid = r@;
                    r.push(vs[j]);
                    assert(r@.map_values(|t: &Token| *t) =~= mid.map_values(|t: &Token| *t).push(*vs@[j as int]));
                    assert(vs@.map_values(|t: &Token| *t).take(j + 1) =~= vs@.map_values(|t: &Token| *t).take(j as int).push(*vs@[j as int]));
                    j = j + 1;
                }
                assert(vs@.map_values(|t: &Token| *t).take(vs@.len() as int) =~= vs@.map_values(|t: &Token| *t));
            },
            BV::Value(_) => {
                assert(r@.map_values(|t: &Token| *t) =~= r@.map_values(|t: &Token| *t) + Seq::<Token>::empty());
            },
        }
        i = i + 1;
    }
    assert(s.take(s.len() as int) =~= s);
    r
}

/// The values of the fields.
pub(crate) fn bvs_of<'b>(fs: &Vec<&'b Field>) -> (r: Vec<&'b BV>)
    ensures
        r@.map_values(|b: &BV| *b) == deref_fields(fs@).map_values(|f: Field| f.2),
{
    let mut r: Vec<&'b BV> = Vec::new();
    let mut i: usize = 0;
    while i < fs.len()
        invariant
            i <= fs@.len(),
            r@.map_values(|b: &BV| *b) == deref_fields(fs@).map_values(|f: Field| f.2).take(i as int),
        decreases fs.len() - i,
    {
        let f: &'b Field = fs[i];
        let ghost before = r@;
        r.push(&f.2);
        assert(deref_fields(fs@)[i as int] == *f);
        assert(r@.map_values(|b: &BV| *b) =~= before.map_values(|b: &BV| *b).push(f.2));
        assert(r@.map_values(|b: &BV| *b) =~= deref_fields(fs@).map_values(|f: Field| f.2).take(i + 1));
        i = i + 1;
    }
    assert(deref_fields(fs@).map_values(|f: Field| f.2).take(fs@.len() as int) =~= deref_fields(fs@).map_values(|f: Field| f.2));
    r
}

/// The keys and values of the fields.
pub(crate) fn keyed_bvs_of<'b>(fs: &Vec<&'b Field>) -> (r: Vec<(&'b Token, &'b BV)>)
    ensures
        r@.map_values(|p: (&Token, &BV)| (*p.0, *p.1)) == deref_fields(fs@).map_values(|f: Field| (f.0, f.2)),
{
    let mut r: Vec<(&'b Token, &'b BV)> = Vec::new();
    let mut i: usize = 0;
    while i < fs.len()
        invariant
            i <= fs@.len(),
            r@.map_values(|p: (&Token, &BV)| (*p.0, *p.1)) == deref_fields(fs@).map_values(|f: Field| (f.0, f.2)).take(i as int),
        decreases fs.len() - i,
    {
        let f: &'b Field = fs[i];
        let ghost before = r@;
        r.push((&f.0, &f.2));
        assert(deref_fields(fs@)[i as int] == *f);
        assert(r@.map_values(|p: (&Token, &BV)| (*p.0, *p.1)) =~= before.map_values(|p: (&Token, &BV)| (*p.0, *p.1)).push((f.0, f.2)));
        assert(r@.map_values(|p: (&Token, &BV)| (*p.0, *p.1)) =~= deref_fields(fs@).map_values(|f: Field| (f.0, f.2)).take(i + 1));
        i = i + 1;
    }
    assert(deref_fields(fs@).map_values(|f: Field| (f.0, f.2)).take(fs@.len() as int) =~= deref_fields(fs@).map_values(|f: Field| (f.0, f.2)));
    r
}

/// Checking the fields named `name` with `mode` and `check` took the validator from `old` to
/// `new` and the log from `e0` to `e1`.
pub open spec fn fields_checked(
    new: &Validator,
    old: &Validator,
    e1: &Errors,
    e0: &Errors,
    name: Seq<char>,
    cs: bool,
    mode: FieldMode,
    check: FieldCheck,
) -> bool {
    &&& new.fields_recorded(old, name, cs)
    &&& e1.logged(e0, old.named_reports(name, cs, mode, check))
}

impl<'a> Validator<'a> {
    /// The fields named `name`, compared as the validator compares keys.
    pub open spec fn named(&self, name: Seq<char>) -> Seq<Field> {
        matching(self.block.v@, name, self.case_sensitive)
    }

    /// The fields named exactly `name`.
    pub open spec fn named_exactly(&self, name: Seq<char>) -> Seq<Field> {
        matching(self.block.v@, name, true)
    }

    /// Expect field `name`, if present, to be either an assignment (`= value`) or a definition
    /// (`= { block }`). Expect no more than one `name` field in the block.
    /// Returns true iff the field is present.
    pub fn field(&mut self, name: &str, errors: &mut Errors) -> (found: bool)
        ensures
            found == (old(self).named(name@).len() > 0),
            fields_checked(final(self), old(self), final(errors), old(errors), name@, old(self).case_sensitive, one_mode(), FieldCheck::Nothing),
    {
        let cs = self.case_sensitive;
        let fs = self.matched_fields(name, cs, FieldMode { unique: true, check_eq: true, eq_first: false }, &FieldCheck::Nothing, errors);
        fs.len() > 0
    }

    /// Just like [`Validator::field`], but expects any number of `name` fields in the block.
    pub fn multi_field(&mut self, name: &str, errors: &mut Errors) -> (found: bool)
        ensures
            found == (old(self).named(name@).len() > 0),
            fields_checked(final(self), old(self), final(errors), old(errors), name@, old(self).case_sensitive, many_mode(), FieldCheck::Nothing),
    {
        let cs = self.case_sensitive;
        let fs = self.matched_fields(name, cs, FieldMode { unique: false, check_eq: true, eq_first: false }, &FieldCheck::Nothing, errors);
        fs.len() > 0
    }

    /// Expect field `name`, if present, with any comparator. Expect no more than one `name` field
    /// in the block. Returns the value of the last such field, if there is one.
    pub fn field_any_cmp(&mut self, name: &str, errors: &mut Errors) -> (r: Option<&'a BV>)
        ensures
            match r { Some(b) => old(self).named(name@).len() > 0 && *b == old(self).named(name@).last().2, None => old(self).named(name@).len() == 0 },
            fields_checked(final(self), old(self), final(errors), old(errors), name@, old(self).case_sensitive, one_any_mode(), FieldCheck::Nothing),
    {
        let cs = self.case_sensitive;
        let fs = self.matched_fields(name, cs, FieldMode { unique: true, check_eq: false, eq_first: false }, &FieldCheck::Nothing, errors);
        if fs.len() > 0 {
            let f: &'a Field = fs[fs.len() - 1];
            Some(&f.2)
        } else {
            None
        }
    }

    /// Expect field `name`, if present, to be an assignment (`name = value`).
    /// Expect no more than one `name` field in the block.
    /// Returns the value of the last such field that is an assignment, if there is one.
    pub fn field_value(&mut self, name: &str, errors: &mut Errors) -> (r: Option<&'a Token>)
        ensures
            match r { Some(t) => field_values(old(self).named(name@)).len() > 0 && *t == field_values(old(self).named(name@)).last(), None => field_values(old(self).named(name@)).len() == 0 },
            fields_checked(final(self), old(self), final(errors), old(errors), name@, old(self).case_sensitive, one_mode(), FieldCheck::Value),
    {
        let cs = self.case_sensitive;
        let fs = self.matched_fields(name, cs, FieldMode { unique: true, check_eq: true, eq_first: false }, &FieldCheck::Value, errors);
        let vs = values_of(&fs);
        if vs.len() > 0 {
            Some(vs[vs.len() - 1])
        } else {
            None
        }
    }

    /// Expect field `name`, if present, to be an assignment (`name = value`).
    /// Expect no more than one `name` field in the block.
    /// Returns whether the field is present, and the key and value of each such assignment, for
    /// the caller to validate each value further.
    pub fn field_validated_value(&mut self, name: &str, errors: &mut Errors) -> (r: (bool, Vec<(&'a Token, &'a Token)>))
        ensures
            r.0 == (old(self).named(name@).len() > 0),
            r.1@.map_values(|p: (&Token, &Token)| (*p.0, *p.1)) == keyed_values(old(self).named(name@)),
            fields_checked(final(self), old(self), final(errors), old(errors), name@, old(self).case_sensitive, one_mode(), FieldCheck::Value),
    {
        let cs = self.case_sensitive;
        let fs = self.matched_fields(name, cs, FieldMode { unique: true, check_eq: true, eq_first: false }, &FieldCheck::Value, errors);
        (fs.len() > 0, keyed_values_of(&fs))
    }

    /// Just like [`Validator::field_validated_value`], but expect any number of `name` fields in
    /// the block.
    pub fn multi_field_validated_value(&mut self, name: &str, errors: &mut Errors) -> (r: (bool, Vec<(&'a Token, &'a Token)>))
        ensures
            r.0 == (old(self).named(name@).len() > 0),
            r.1@.map_values(|p: (&Token, &Token)| (*p.0, *p.1)) == keyed_values(old(self).named(name@)),
            fields_checked(final(self), old(self), final(errors), old(errors), name@, old(self).case_sensitive, many_mode(), FieldCheck::Value),
    {
        let cs = self.case_sensitive;
        let fs = self.matched_fields(name, cs, FieldMode { unique: false, check_eq: true, eq_first: false }, &FieldCheck::Value, errors);
        (fs.len() > 0, keyed_values_of(&fs))
    }

    /// Expect field `name`, if present, to be set to the key of an `itype` item the game database.
    /// Expect no more than one `name` field in the block.
    /// Returns true iff the field is present.
    pub fn field_item(&mut self, name: &str, itype: Item, errors: &mut Errors) -> (found: bool)
        ensures
            found == (old(self).named(name@).len() > 0),
            fields_checked(final(self), old(self), final(errors), old(errors), name@, old(self).case_sensitive, one_mode(), FieldCheck::Item(itype)),
    {
        let cs = self.case_sensitive;
        let fs = self.matched_fields(name, cs, FieldMode { unique: true, check_eq: true, eq_first: false }, &FieldCheck::Item(itype), errors);
        fs.len() > 0
    }

    /// Expect field `name`, if present, to be set to the key of an `itype` item the game database,
    /// or be the empty string. Expect no more than one `name` field in the block.
    /// Returns true iff the field is present.
    pub fn field_item_or_empty(&mut self, name: &str, itype: Item, errors: &mut Errors) -> (found: bool)
        ensures
            found == (old(self).named(name@).len() > 0),
            fields_checked(final(self), old(self), final(errors), old(errors), name@, old(self).case_sensitive, one_mode(), FieldCheck::ItemOrEmpty(itype)),
    {
        let cs = self.case_sensitive;
        let fs = self.matched_fields(name, cs, FieldMode { unique: true, check_eq: true, eq_first: false }, &FieldCheck::ItemOrEmpty(itype), errors);
        fs.len() > 0
    }

    /// Expect field `name`, if present, to be a definition `name = { block }`.
    /// Expect no more than one `name` field. Returns true iff the field is present.
    pub fn field_block(&mut self, name: &str, errors: &mut Errors) -> (found: bool)
        ensures
            found == (old(self).named(name@).len() > 0),
            fields_checked(final(self), old(self), final(errors), old(errors), name@, old(self).case_sensitive, one_mode(), FieldCheck::Block),
    {
        let cs = self.case_sensitive;
        let fs = self.matched_fields(name, cs, FieldMode { unique: true, check_eq: true, eq_first: false }, &FieldCheck::Block, errors);
        fs.len() > 0
    }

    /// Expect field `name`, if present, to be `name = yes` or `name = no`.
    /// Expect no more than one `name` field. Returns true iff the field is present.
    pub fn field_bool(&mut self, name: &str, errors: &mut Errors) -> (found: bool)
        ensures
            found == (old(self).named(name@).len() > 0),
            fields_checked(final(self), old(self), final(errors), old(errors), name@, old(self).case_sensitive, one_mode(), FieldCheck::Bool),
    {
        let cs = self.case_sensitive;
        let fs = self.matched_fields(name, cs, FieldMode { unique: true, check_eq: true, eq_first: false }, &FieldCheck::Bool, errors);
        fs.len() > 0
    }

    /// Expect field `name`, if present, to be set to an integer.
    /// Expect no more than one `name` field. Returns true iff the field is present.
    pub fn field_integer(&mut self, name: &str, errors: &mut Errors) -> (found: bool)
        ensures
            found == (old(self).named(name@).len() > 0),
            fields_checked(final(self), old(self), final(errors), old(errors), name@, old(self).case_sensitive, one_mode(), FieldCheck::Integer),
    {
        let cs = self.case_sensitive;
        let fs = self.matched_fields(name, cs, FieldMode { unique: true, check_eq: true, eq_first: false }, &FieldCheck::Integer, errors);
        fs.len() > 0
    }

    /// Expect field `name`, if present, to be set to an integer between `low` and `high`.
    /// Expect no more than one `name` field. Returns true iff the field is present.
    pub fn field_integer_range(&mut self, name: &str, low: Limit, high: Limit, errors: &mut Errors) -> (found: bool)
        requires
            range_wf(low, high),
        ensures
            found == (old(self).named(name@).len() > 0),
            fields_checked(final(self), old(self), final(errors), old(errors), name@, old(self).case_sensitive, one_mode(), FieldCheck::IntegerRange(low, high)),
    {
        let cs = self.case_sensitive;
        let fs = self.matched_fields(name, cs, FieldMode { unique: true, check_eq: true, eq_first: false }, &FieldCheck::IntegerRange(low, high), errors);
        fs.len() > 0
    }

    /// Expect field `name`, if present, to be set to a number with up to 5 decimals.
    /// Expect no more than one `name` field. Returns true iff the field is present.
    pub fn field_numeric(&mut self, name: &str, errors: &mut Errors) -> (found: bool)
        ensures
            found == (old(self).named(name@).len() > 0),
            fields_checked(final(self), old(self), final(errors), old(errors), name@, old(self).case_sensitive, one_mode(), FieldCheck::Numeric),
    {
        let cs = self.case_sensitive;
        let fs = self.matched_fields(name, cs, FieldMode { unique: true, check_eq: true, eq_first: false }, &FieldCheck::Numeric, errors);
        fs.len() > 0
    }

    /// Expect field `name`, if present, to be set to a number with any number of decimals.
    /// Expect no more than one `name` field. Returns true iff the field is present.
    pub fn field_precise_numeric(&mut self, name: &str, errors: &mut Errors) -> (found: bool)
        ensures
            found == (old(self).named(name@).len() > 0),
            fields_checked(final(self), old(self), final(errors), old(errors), name@, old(self).case_sensitive, one_mode(), FieldCheck::PreciseNumeric),
    {
        let cs = self.case_sensitive;
        let fs = self.matched_fields(name, cs, FieldMode { unique: true, check_eq: true, eq_first: false }, &FieldCheck::PreciseNumeric, errors);
        fs.len() > 0
    }

    /// Expect field `name`, if present, to be set to one of the listed strings in `choices`.
    /// Expect no more than one `name` field in the block. Returns true iff the field is present.
    pub fn field_choice(&mut self, name: &str, choices: &[&str], errors: &mut Errors) -> (found: bool)
        ensures
            found == (old(self).named(name@).len() > 0),
            fields_checked(final(self), old(self), final(errors), old(errors), name@, old(self).case_sensitive, one_mode(), FieldCheck::Choice(choices)),
    {
        let cs = self.case_sensitive;
        let fs = self.matched_fields(name, cs, FieldMode { unique: true, check_eq: true, eq_first: false }, &FieldCheck::Choice(choices), errors);
        fs.len() > 0
    }

    /// Just like [`Validator::field_choice`], but expect any number of `name` fields in the block.
    pub fn multi_field_choice(&mut self, name: &str, choices: &[&str], errors: &mut Errors) -> (found: bool)
        ensures
            found == (old(self).named(name@).len() > 0),
            fields_checked(final(self), old(self), final(errors), old(errors), name@, old(self).case_sensitive, many_mode(), FieldCheck::Choice(choices)),
    {
        let cs = self.case_sensitive;
        let fs = self.matched_fields(name, cs, FieldMode { unique: false, check_eq: true, eq_first: false }, &FieldCheck::Choice(choices), errors);
        fs.len() > 0
    }

    /// Expect field `name`, if present, to be of the form `name = { value value value ... }`.
    /// Expect no more than one `name` field in the block. Returns true iff the field is present.
    pub fn field_list(&mut self, name: &str, errors: &mut Errors) -> (found: bool)
        ensures
            found == (old(self).named(name@).len() > 0),
            fields_checked(final(self), old(self), final(errors), old(errors), name@, old(self).case_sensitive, one_mode(), FieldCheck::List),
    {
        let cs = self.case_sensitive;
        let fs = self.matched_fields(name, cs, FieldMode { unique: true, check_eq: true, eq_first: false }, &FieldCheck::List, errors);
        fs.len() > 0
    }

    /// Expect field `name`, if present, to be of the form `name = { value value value ... }`.
    /// Expect no more than one `name` field in the block.
    /// Returns whether the field is present, and every value in the lists, for the caller to
    /// validate further.
    pub fn field_validated_list(&mut self, name: &str, errors: &mut Errors) -> (r: (bool, Vec<&'a Token>))
        ensures
            r.0 == (old(self).named(name@).len() > 0),
            r.1@.map_values(|t: &Token| *t) == list_values(old(self).named(name@)),
            fields_checked(final(self), old(self), final(errors), old(errors), name@, old(self).case_sensitive, one_mode(), FieldCheck::List),
    {
        let cs = self.case_sensitive;
        let fs = self.matched_fields(name, cs, FieldMode { unique: true, check_eq: true, eq_first: false }, &FieldCheck::List, errors);
        (fs.len() > 0, list_values_of(&fs))
    }

    /// Expect field `name`, if present, to be a list of `itype` items of the game database.
    /// Expect no more than one `name` field in the block. Returns true iff the field is present.
    pub fn field_list_items(&mut self, name: &str, item: Item, errors: &mut Errors) -> (found: bool)
        ensures
            found == (old(self).named(name@).len() > 0),
            fields_checked(final(self), old(self), final(errors), old(errors), name@, old(self).case_sensitive, one_mode(), FieldCheck::ListItems(item)),
    {
        let cs = self.case_sensitive;
        let fs = self.matched_fields(name, cs, FieldMode { unique: true, check_eq: true, eq_first: false }, &FieldCheck::ListItems(item), errors);
        fs.len() > 0
    }

    /// Expect field `name`, if present, to be a list of entries from `choices`.
    /// Expect no more than one `name` field in the block. Returns true iff the field is present.
    pub fn field_list_choice(&mut self, name: &str, choices: &[&str], errors: &mut Errors) -> (found: bool)
        ensures
            found == (old(self).named(name@).len() > 0),
            fields_checked(final(self), old(self), final(errors), old(errors), name@, old(self).case_sensitive, one_mode(), FieldCheck::ListChoice(choices)),
    {
        let cs = self.case_sensitive;
        let fs = self.matched_fields(name, cs, FieldMode { unique: true, check_eq: true, eq_first: false }, &FieldCheck::ListChoice(choices), errors);
        fs.len() > 0
    }

    /// Just like [`Validator::field_validated_list`], but expect any number of `name` fields in
    /// the block.
    pub fn multi_field_validated_list(&mut self, name: &str, errors: &mut Errors) -> (r: (bool, Vec<&'a Token>))
        ensures
            r.0 == (old(self).named(name@).len() > 0),
            r.1@.map_values(|t: &Token| *t) == list_values(old(self).named(name@)),
            fields_checked(final(self), old(self), final(errors), old(errors), name@, old(self).case_sensitive, many_mode(), FieldCheck::List),
    {
        let cs = self.case_sensitive;
        let fs = self.matched_fields(name, cs, FieldMode { unique: false, check_eq: true, eq_first: false }, &FieldCheck::List, errors);
        (fs.len() > 0, list_values_of(&fs))
    }

    /// Just like [`Validator::field_list_items`], but expect any number of `name` fields in the
    /// block.
    pub fn multi_field_list_items(&mut self, name: &str, item: Item, errors: &mut Errors) -> (found: bool)
        ensures
            found == (old(self).named(name@).len() > 0),
            fields_checked(final(self), old(self), final(errors), old(errors), name@, old(self).case_sensitive, many_mode(), FieldCheck::ListItems(item)),
    {
        let cs = self.case_sensitive;
        let fs = self.matched_fields(name, cs, FieldMode { unique: false, check_eq: true, eq_first: false }, &FieldCheck::ListItems(item), errors);
        fs.len() > 0
    }

    /// Just like [`Validator::field_value`], but expect any number of `name` fields in the block,
    /// matched case-sensitively. Returns the values of all such assignments.
    pub fn multi_field_value(&mut self, name: &str, errors: &mut Errors) -> (r: Vec<&'a Token>)
        ensures
            r@.map_values(|t: &Token| *t) == field_values(old(self).named_exactly(name@)),
            fields_checked(final(self), old(self), final(errors), old(errors), name@, true, many_mode(), FieldCheck::Value),
    {
        let cs = true;
        let fs = self.matched_fields(name, cs, FieldMode { unique: false, check_eq: true, eq_first: false }, &FieldCheck::Value, errors);
        values_of(&fs)
    }

    /// Just like [`Validator::field_item`], but expect any number of `name` fields in the block,
    /// matched case-sensitively.
    pub fn multi_field_item(&mut self, name: &str, itype: Item, errors: &mut Errors)
        ensures
            fields_checked(final(self), old(self), final(errors), old(errors), name@, true, many_mode(), FieldCheck::Item(itype)),
    {
        let cs = true;
        let _fs = self.matched_fields(name, cs, FieldMode { unique: false, check_eq: true, eq_first: false }, &FieldCheck::Item(itype), errors);
    }

    /// Just like [`Validator::field_any_cmp`], but expect any number of `name` fields in the block,
    /// matched case-sensitively. Returns true iff the field is present.
    pub fn multi_field_any_cmp(&mut self, name: &str, errors: &mut Errors) -> (found: bool)
        ensures
            found == (old(self).named_exactly(name@).len() > 0),
            fields_checked(final(self), old(self), final(errors), old(errors), name@, true, many_any_mode(), FieldCheck::Nothing),
    {
        let cs = true;
        let fs = self.matched_fields(name, cs, FieldMode { unique: false, check_eq: false, eq_first: false }, &FieldCheck::Nothing, errors);
        fs.len() > 0
    }

    /// Expect field `name`, if present, to be either an assignment or a definition.
    /// Expect no more than one `name` field in the block, matched case-sensitively.
    /// Returns the value of every such field, for the caller to validate further.
    pub fn field_validated(&mut self, name: &str, errors: &mut Errors) -> (r: Vec<&'a BV>)
        ensures
            r@.map_values(|b: &BV| *b) == old(self).named_exactly(name@).map_values(|f: Field| f.2),
            fields_checked(final(self), old(self), final(errors), old(errors), name@, true, one_eq_first_mode(), FieldCheck::Nothing),
    {
        let cs = true;
        let fs = self.matched_fields(name, cs, FieldMode { unique: true, check_eq: true, eq_first: true }, &FieldCheck::Nothing, errors);
        bvs_of(&fs)
    }

    /// Just like [`Validator::field_validated`], but returns the keys too.
    pub fn field_validated_key(&mut self, name: &str, errors: &mut Errors) -> (r: Vec<(&'a Token, &'a BV)>)
        ensures
            r@.map_values(|p: (&Token, &BV)| (*p.0, *p.1)) == old(self).named_exactly(name@).map_values(|f: Field| (f.0, f.2)),
            fields_checked(final(self), old(self), final(errors), old(errors), name@, true, one_eq_first_mode(), FieldCheck::Nothing),
    {
        let cs = true;
        let fs = self.matched_fields(name, cs, FieldMode { unique: true, check_eq: true, eq_first: true }, &FieldCheck::Nothing, errors);
        keyed_bvs_of(&fs)
    }

    /// Just like [`Validator::field_validated`], but expect any number of `name` fields in the block.
    pub fn multi_field_validated(&mut self, name: &str, errors: &mut Errors) -> (r: Vec<&'a BV>)
        ensures
            r@.map_values(|b: &BV| *b) == old(self).named_exactly(name@).map_values(|f: Field| f.2),
            fields_checked(final(self), old(self), final(errors), old(errors), name@, true, many_mode(), FieldCheck::Nothing),
    {
        let cs = true;
        let fs = self.matched_fields(name, cs, FieldMode { unique: false, check_eq: true, eq_first: false }, &FieldCheck::Nothing, errors);
        bvs_of(&fs)
    }

    /// Just like [`Validator::field_validated_key`], but expect any number of `name` fields in the
    /// block.
    pub fn multi_field_validated_key(&mut self, name: &str, errors: &mut Errors) -> (r: Vec<(&'a Token, &'a BV)>)
        ensures
            r@.map_values(|p: (&Token, &BV)| (*p.0, *p.1)) == old(self).named_exactly(name@).map_values(|f: Field| (f.0, f.2)),
            fields_checked(final(self), old(self), final(errors), old(errors), name@, true, many_mode(), FieldCheck::Nothing),
    {
        let cs = true;
        let fs = self.matched_fields(name, cs, FieldMode { unique: false, check_eq: true, eq_first: false }, &FieldCheck::Nothing, errors);
        keyed_bvs_of(&fs)
    }

    /// Expect any number of fields `name`, matched case-sensitively, to be definitions.
    /// Returns whether there is such a field, and the block of each that is a definition.
    pub fn multi_field_validated_block(&mut self, name: &str, errors: &mut Errors) -> (r: (bool, Vec<&'a Block>))
        ensures
            r.0 == (old(self).named_exactly(name@).len() > 0),
            r.1@.map_values(|b: &Block| *b) == field_blocks(old(self).named_exactly(name@)),
            fields_checked(final(self), old(self), final(errors), old(errors), name@, true, many_mode(), FieldCheck::Block),
    {
        let cs = true;
        let fs = self.matched_fields(name, cs, FieldMode { unique: false, check_eq: true, eq_first: false }, &FieldCheck::Block, errors);
        (fs.len() > 0, blocks_of(&fs))
    }

    /// Expect field `name`, if present, to be a definition `name = { block }`, matched
    /// case-sensitively. Expect no more than one `name` field in the block.
    /// Returns whether the field is present, and the block of each such definition.
    pub fn field_validated_block(&mut self, name: &str, errors: &mut Errors) -> (r: (bool, Vec<&'a Block>))
        ensures
            r.0 == (old(self).named_exactly(name@).len() > 0),
            r.1@.map_values(|b: &Block| *b) == field_blocks(old(self).named_exactly(name@)),
            fields_checked(final(self), old(self), final(errors), old(errors), name@, true, one_mode(), FieldCheck::Block),
    {
        let cs = true;
        let fs = self.matched_fields(name, cs, FieldMode { unique: true, check_eq: true, eq_first: false }, &FieldCheck::Block, errors);
        (fs.len() > 0, blocks_of(&fs))
    }

    /// Just like [`Validator::field_validated_block`], but returns the keys too.
    pub fn field_validated_key_block(&mut self, name: &str, errors: &mut Errors) -> (r: (bool, Vec<(&'a Token, &'a Block)>))
        ensures
            r.0 == (old(self).named_exactly(name@).len() > 0),
            r.1@.map_values(|p: (&Token, &Block)| (*p.0, *p.1)) == keyed_blocks(old(self).named_exactly(name@)),
            fields_checked(final(self), old(self), final(errors), old(errors), name@, true, one_mode(), FieldCheck::Block),
    {
        let cs = true;
        let fs = self.matched_fields(name, cs, FieldMode { unique: true, check_eq: true, eq_first: false }, &FieldCheck::Block, errors);
        (fs.len() > 0, keyed_blocks_of(&fs))
    }

    /// Just like [`Validator::field_validated_key_block`], but expect any number of `name` fields
    /// in the block.
    pub fn multi_field_validated_key_block(&mut self, name: &str, errors: &mut Errors) -> (r: (bool, Vec<(&'a Token, &'a Block)>))
        ensures
            r.0 == (old(self).named_exactly(name@).len() > 0),
            r.1@.map_values(|p: (&Token, &Block)| (*p.0, *p.1)) == keyed_blocks(old(self).named_exactly(name@)),
            fields_checked(final(self), old(self), final(errors), old(errors), name@, true, many_mode(), FieldCheck::Block),
    {
        let cs = true;
        let fs = self.matched_fields(name, cs, FieldMode { unique: false, check_eq: true, eq_first: false }, &FieldCheck::Block, errors);
        (fs.len() > 0, keyed_blocks_of(&fs))
    }

    /// Expect any number of fields `name`, matched case-sensitively, to be definitions.
    /// Returns true iff the field is present.
    pub fn multi_field_block(&mut self, name: &str, errors: &mut Errors) -> (found: bool)
        ensures
            found == (old(self).named_exactly(name@).len() > 0),
            fields_checked(final(self), old(self), final(errors), old(errors), name@, true, many_mode(), FieldCheck::Block),
    {
        let cs = true;
        let fs = self.matched_fields(name, cs, FieldMode { unique: false, check_eq: true, eq_first: false }, &FieldCheck::Block, errors);
        fs.len() > 0
    }

    /// Expect field `name`, if present, to be a list of exactly `expect` numbers with up to 5
    /// decimals, and nothing else. Expect no more than one `name` field, matched case-sensitively.
    pub fn field_list_numeric_exactly(&mut self, name: &str, expect: usize, errors: &mut Errors)
        ensures
            fields_checked(final(self), old(self), final(errors), old(errors), name@, true, one_mode(), FieldCheck::ListExactly(TokenKind::Numbers, expect)),
    {
        let cs = true;
        let _fs = self.matched_fields(name, cs, FieldMode { unique: true, check_eq: true, eq_first: false }, &FieldCheck::ListExactly(TokenKind::Numbers, expect), errors);
    }

    /// Expect field `name`, if present, to be a list of exactly `expect` numbers, and nothing else.
    /// Expect no more than one `name` field, matched case-sensitively.
    pub fn field_list_precise_numeric_exactly(&mut self, name: &str, expect: usize, errors: &mut Errors)
        ensures
            fields_checked(final(self), old(self), final(errors), old(errors), name@, true, one_mode(), FieldCheck::ListExactly(TokenKind::PreciseNumbers, expect)),
    {
        let cs = true;
        let _fs = self.matched_fields(name, cs, FieldMode { unique: true, check_eq: true, eq_first: false }, &FieldCheck::ListExactly(TokenKind::PreciseNumbers, expect), errors);
    }

    /// Expect field `name`, if present, to be a list of exactly `expect` integers, and nothing else.
    /// Expect no more than one `name` field, matched case-sensitively.
    pub fn field_list_integers_exactly(&mut self, name: &str, expect: usize, errors: &mut Errors)
        ensures
            fields_checked(final(self), old(self), final(errors), old(errors), name@, true, one_mode(), FieldCheck::ListExactly(TokenKind::Integers, expect)),
    {
        let cs = true;
        let _fs = self.matched_fields(name, cs, FieldMode { unique: true, check_eq: true, eq_first: false }, &FieldCheck::ListExactly(TokenKind::Integers, expect), errors);
    }

    /// Require field `name` to not be in the block, and report each one found as being only for
    /// what `only_for` describes.
    pub fn ban_field(&mut self, name: &str, only_for: &str, errors: &mut Errors)
        ensures
            fields_checked(final(self), old(self), final(errors), old(errors), name@, old(self).case_sensitive, many_mode(), FieldCheck::Banned(name, only_for)),
    {
        let cs = self.case_sensitive;
        let _fs = self.matched_fields(name, cs, FieldMode { unique: false, check_eq: true, eq_first: false }, &FieldCheck::Banned(name, only_for), errors);
    }

    /// Require field `name` to not be in the block, and report each one found as replaced by
    /// `replaced_by`.
    pub fn replaced_field(&mut self, name: &str, replaced_by: &str, errors: &mut Errors)
        ensures
            fields_checked(final(self), old(self), final(errors), old(errors), name@, old(self).case_sensitive, many_mode(), FieldCheck::Replaced(name, replaced_by)),
    {
        let cs = self.case_sensitive;
        let _fs = self.matched_fields(name, cs, FieldMode { unique: false, check_eq: true, eq_first: false }, &FieldCheck::Replaced(name, replaced_by), errors);
    }
}

/// The report that the required field `name` is missing from the block.
pub open spec fn missing_field_report(b: &Block, name: Seq<char>, sev: Severity) -> ReportView {
    plain_report(ErrorKey::FieldMissing, sev, "required field `"@ + name + "` missing"@, b.loc)
}

impl<'a> Validator<'a> {
    /// The number of `names` that name a field of the block.
    pub open spec fn present_count(&self, names: Seq<&str>) -> int
        decreases names.len(),
    {
        if names.len() == 0 {
            0
        } else {
            self.present_count(names.drop_last()) + if self.named(names.last()@).len() > 0 {
                1int
            } else {
                0int
            }
        }
    }

    /// The keys of the first fields named by each of `names`, in order.
    pub open spec fn first_keys(&self, names: Seq<&str>) -> Seq<Seq<char>>
        decreases names.len(),
    {
        if names.len() == 0 {
            Seq::empty()
        } else {
            self.first_keys(names.drop_last()) + self.first_key(names.last()@, self.case_sensitive)
        }
    }

    /// The report of requiring exactly one of `names`.
    pub open spec fn one_of_reports(&self, names: Seq<&str>) -> Seq<ReportView> {
        let count = self.present_count(names);
        if count == 1 {
            Seq::empty()
        } else {
            seq![
                plain_report(
                    if count == 0 {
                        ErrorKey::FieldMissing
                    } else {
                        ErrorKey::Validation
                    },
                    Severity::Error.spec_at_most(self.max_severity),
                    "expected exactly 1 of "@ + spec_join(strs_view(names), ", "@),
                    self.block.loc,
                ),
            ]
        }
    }

    /// Require field `name`, reporting at `sev` if it is missing.
    fn require(&mut self, name: &str, sev: Severity, errors: &mut Errors) -> (found: bool)
        ensures
            found == (old(self).named(name@).len() > 0),
            final(self).same_settings(old(self)),
            final(self).same_flags(old(self)),
            final(self).known() == old(self).known() + old(self).first_key(name@, old(self).case_sensitive),
            final(errors).logged(
                old(errors),
                if found {
                    Seq::empty()
                } else {
                    seq![missing_field_report(old(self).block, name@, sev)]
                },
            ),
    {
        let cs = self.case_sensitive;
        let found = self.check_key(name, cs);
        if !found {
            let a = concat_str("required field `", name);
            let msg = concat_str(a.as_str(), "` missing");
            report(ErrorKey::FieldMissing, sev).msg(msg.as_str()).loc(self.block).push(errors);
        }
        found
    }

    /// Require field `name` to be present in the block, and warn if it isn't there.
    /// Returns true iff the field is present.
    pub fn req_field(&mut self, name: &str, errors: &mut Errors) -> (found: bool)
        ensures
            found == (old(self).named(name@).len() > 0),
            final(self).same_settings(old(self)),
            final(self).same_flags(old(self)),
            final(self).known() == old(self).known() + old(self).first_key(name@, old(self).case_sensitive),
            final(errors).logged(
                old(errors),
                if found {
                    Seq::empty()
                } else {
                    seq![missing_field_report(old(self).block, name@, Severity::Error.spec_at_most(old(self).max_severity))]
                },
            ),
    {
        let sev = Severity::Error.at_most(self.max_severity);
        self.require(name, sev, errors)
    }

    /// Require field `name` to be present in the block, and warn if it isn't there, at a lower
    /// severity than [`Validator::req_field`]. Returns true iff the field is present.
    pub fn req_field_warn(&mut self, name: &str, errors: &mut Errors) -> (found: bool)
        ensures
            found == (old(self).named(name@).len() > 0),
            final(self).same_settings(old(self)),
            final(self).same_flags(old(self)),
            final(self).known() == old(self).known() + old(self).first_key(name@, old(self).case_sensitive),
            final(errors).logged(
                old(errors),
                if found {
                    Seq::empty()
                } else {
                    seq![missing_field_report(old(self).block, name@, Severity::Warning.spec_at_most(old(self).max_severity))]
                },
            ),
    {
        let sev = Severity::Warning.at_most(self.max_severity);
        self.require(name, sev, errors)
    }

    /// Require field `name` to be present in the block, and report it at [`Severity::Fatal`] if
    /// it isn't there. Returns true iff the field is present.
    pub fn req_field_fatal(&mut self, name: &str, errors: &mut Errors) -> (found: bool)
        ensures
            found == (old(self).named(name@).len() > 0),
            final(self).same_settings(old(self)),
            final(self).same_flags(old(self)),
            final(self).known() == old(self).known() + old(self).first_key(name@, old(self).case_sensitive),
            final(errors).logged(
                old(errors),
                if found {
                    Seq::empty()
                } else {
                    seq![missing_field_report(old(self).block, name@, Severity::Fatal)]
                },
            ),
    {
        let cs = self.case_sensitive;
        let found = self.check_key(name, cs);
        if !found {
            let a = concat_str("required field `", name);
            let msg = concat_str(a.as_str(), "` missing");
            fatal(ErrorKey::FieldMissing).msg(msg.as_str()).loc(self.block).push(errors);
        }
        found
    }

    /// Require exactly one of the fields in `names` to be present in the block, and warn if
    /// they are missing or there is more than one. Returns true iff it found exactly one.
    pub fn req_field_one_of(&mut self, names: &[&str], errors: &mut Errors) -> (found: bool)
        ensures
            found == (old(self).present_count(names@) == 1),
            final(self).same_settings(old(self)),
            final(self).same_flags(old(self)),
            final(self).known() == old(self).known() + old(self).first_keys(names@),
            final(errors).logged(old(errors), old(self).one_of_reports(names@)),
    {
        let mut count: usize = 0;
        let mut i: usize = 0;
        assert(names@.take(0) =~= Seq::<&str>::empty());
        assert(old(self).known() + old(self).first_keys(names@.take(0)) =~= old(self).known());
        while i < names.len()
            invariant
                i <= names@.len(),
                count <= i,
                self.same_settings(old(self)),
                self.same_flags(old(self)),
                count == old(self).present_count(names@.take(i as int)),
                self.known() == old(self).known() + old(self).first_keys(names@.take(i as int)),
                *errors == *old(errors),
            decreases names.len() - i,
        {
            proof {
                assert(names@.take(i + 1).drop_last() =~= names@.take(i as int));
            }
            let cs = self.case_sensitive;
            let ghost k0 = self.known();
            if self.check_key(names[i], cs) {
                count = count + 1;
            }
            assert(self.known() =~= old(self).known() + old(self).first_keys(names@.take(i + 1)));
            i = i + 1;
        }
        assert(names@.take(names@.len() as int) =~= names@);
        if count != 1 {
            let joined = join_strs(names, ", ");
            let msg = concat_str("expected exactly 1 of ", joined.as_str());
            let key = if count == 0 {
                ErrorKey::FieldMissing
            } else {
                ErrorKey::Validation
            };
            let sev = Severity::Error.at_most(self.max_severity);
            report(key, sev).msg(msg.as_str()).loc(self.block).push(errors);
        } else {
            proof {
                crate::report::errors::lemma_logged_nothing(errors);
            }
        }
        count == 1
    }

    /// Report the last field `name`, if there is one, as unneeded with the message `msg`.
    pub fn advice_field(&mut self, name: &str, msg: &str, errors: &mut Errors)
        ensures
            final(self).same_settings(old(self)),
            final(self).same_flags(old(self)),
            match last_key_index(old(self).block.v@, name@) {
                Some(i) => {
                    let key = old(self).block.v@[i]->Field_0.0;
                    &&& final(self).known() == old(self).known().push(key@)
                    &&& final(errors).logged(
                        old(errors),
                        seq![plain_report(ErrorKey::Unneeded, Severity::Untidy.spec_at_most(old(self).max_severity), msg@, key.loc)],
                    )
                },
                None => {
                    &&& final(self).known() == old(self).known()
                    &&& final(errors).logged(old(errors), Seq::empty())
                },
            },
    {
        if let Some(key) = self.block.get_key(name) {
            let ghost k0 = self.known();
            self.known_fields.push(key.s.clone());
            assert(self.known() =~= k0.push(key@));
            let sev = Severity::Untidy.at_most(self.max_severity);
            report(ErrorKey::Unneeded, sev).msg(msg).loc(key).push(errors);
        } else {
            proof {
                crate::report::errors::lemma_logged_nothing(errors);
            }
        }
    }

    /// Expect loose values in the block, and return them.
    pub fn values(&mut self) -> (r: Vec<&'a Token>)
        ensures
            *final(self) == (Validator { accepted_tokens: true, ..*old(self) }),
            r@.map_values(|t: &Token| *t) == loose_values(old(self).block.v@),
    {
        self.accepted_tokens = true;
        let block: &'a Block = self.block;
        block.iter_values()
    }

    /// Expect loose sub-blocks in the block, and return them.
    pub fn blocks(&mut self) -> (r: Vec<&'a Block>)
        ensures
            *final(self) == (Validator { accepted_blocks: true, ..*old(self) }),
            r@.map_values(|b: &Block| *b) == loose_blocks(old(self).block.v@),
    {
        self.accepted_blocks = true;
        let block: &'a Block = self.block;
        block.iter_blocks()
    }

    /// Expect loose sub-blocks in the block, and return them for the caller to validate.
    pub fn validated_blocks(&mut self) -> (r: Vec<&'a Block>)
        ensures
            *final(self) == (Validator { accepted_blocks: true, ..*old(self) }),
            r@.map_values(|b: &Block| *b) == loose_blocks(old(self).block.v@),
    {
        self.blocks()
    }
}

} // verus!
