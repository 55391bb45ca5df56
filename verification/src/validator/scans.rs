//! The checks of the [`Validator`] that select fields by the shape of their keys, or by whether
//! nothing asked for them yet.
use vstd::prelude::*;

use crate::block::{BV, Block, BlockItem, Comparator, Field};
use crate::number::{spec_float_syntax, spec_parse_i64};
use crate::report::errors::{Errors, lemma_logged_trans};
use crate::report::report_struct::ReportView;
use crate::token::Token;
use crate::validator::fields::{keyed_blocks, keyed_blocks_of, keyed_bvs_of, keyed_values, keyed_values_of};
use crate::validator::{FieldCheck, Validator, check_reports, deref_fields, eq_reports};

verus! {

/// Whether a key is selected: an integer, or a number if `numeric`.
pub open spec fn key_selected(key: Seq<char>, numeric: bool) -> bool {
    if numeric {
        spec_float_syntax(key)
    } else {
        spec_parse_i64(key) is Some
    }
}

/// The fields of `items` whose keys are selected, in order.
pub open spec fn selected_fields(items: Seq<BlockItem>, numeric: bool) -> Seq<Field>
    decreases items.len(),
{
    if items.len() == 0 {
        Seq::empty()
    } else {
        selected_fields(items.drop_last(), numeric) + match items.last() {
            BlockItem::Field(f) => if key_selected(f.0@, numeric) {
                seq![f]
            } else {
                Seq::empty()
            },
            _ => Seq::empty(),
        }
    }
}

/// The reports of checking the comparator and the value of each of the fields.
pub open spec fn scan_reports(
    fs: Seq<Field>,
    allow_q: bool,
    ms: crate::report::report_struct::Severity,
    check: FieldCheck,
    data: &crate::everything::Everything,
) -> Seq<ReportView>
    decreases fs.len(),
{
    if fs.len() == 0 {
        Seq::empty()
    } else {
        scan_reports(fs.drop_last(), allow_q, ms, check, data) + one_scan_reports(fs.last(), allow_q, ms, check, data)
    }
}

/// The reports of checking the comparator and the value of the field.
pub open spec fn one_scan_reports(
    f: Field,
    allow_q: bool,
    ms: crate::report::report_struct::Severity,
    check: FieldCheck,
    data: &crate::everything::Everything,
) -> Seq<ReportView> {
    eq_reports(allow_q, ms, &f.0, f.1) + check_reports(check, &f.0, &f.2, data, ms)
}

/// The keys of the fields.
pub open spec fn keys_of(fs: Seq<Field>) -> Seq<Seq<char>> {
    fs.map_values(|f: Field| f.0@)
}

impl<'a> Validator<'a> {
    /// Record the key of `f` as known, and check its comparator and its value.
    fn scan_one(&mut self, f: &Field, check: &FieldCheck, errors: &mut Errors)
        requires
            crate::validator::check_wf(*check),
        ensures
            final(self).same_settings(old(self)),
            final(self).same_flags(old(self)),
            final(self).known() == old(self).known().push(f.0@),
            final(errors).logged(
                old(errors),
                one_scan_reports(*f, old(self).allow_questionmark_equals, old(self).max_severity, *check, old(self).data),
            ),
    {
        let ghost k0 = self.known();
        self.known_fields.push(f.0.s.clone());
        assert(self.known() =~= k0.push(f.0@));
        let ghost e0 = *errors;
        self.expect_eq_qeq(&f.0, f.1, errors);
        let ghost e1 = *errors;
        self.check_bv(check, &f.0, &f.2, errors);
        proof {
            lemma_logged_trans(&e0, &e1, errors, eq_reports(self.allow_questionmark_equals, self.max_severity, &f.0, f.1), check_reports(*check, &f.0, &f.2, self.data, self.max_severity));
        }
    }

    /// Check the comparator and the value of every field whose key is an integer, or a number
    /// if `numeric`, record its key as known, and return the fields.
    fn scan_number_keys(&mut self, numeric: bool, check: &FieldCheck, errors: &mut Errors) -> (r: Vec<&'a Field>)
        requires
            crate::validator::check_wf(*check),
        ensures
            deref_fields(r@) == selected_fields(old(self).block.v@, numeric),
            final(self).same_settings(old(self)),
            final(self).same_flags(old(self)),
            final(self).known() == old(self).known() + keys_of(selected_fields(old(self).block.v@, numeric)),
            final(errors).logged(
                old(errors),
                scan_reports(
                    selected_fields(old(self).block.v@, numeric),
                    old(self).allow_questionmark_equals,
                    old(self).max_severity,
                    *check,
                    old(self).data,
                ),
            ),
    {
        let block: &'a Block = self.block;
        let ghost items = block.v@;
        let mut r: Vec<&'a Field> = Vec::new();
        let mut i: usize = 0;
        assert(items.take(0) =~= Seq::<BlockItem>::empty());
        assert(old(self).known() + keys_of(Seq::empty()) =~= old(self).known());
        while i < block.v.len()
            invariant
                items == block.v@,
                block == self.block,
                i <= items.len(),
                crate::validator::check_wf(*check),
                self.same_settings(old(self)),
                self.same_flags(old(self)),
                deref_fields(r@) == selected_fields(items.take(i as int), numeric),
                self.known() == old(self).known() + keys_of(selected_fields(items.take(i as int), numeric)),
                errors.logged(
                    old(errors),
                    scan_reports(selected_fields(items.take(i as int), numeric), self.allow_questionmark_equals, self.max_severity, *check, self.data),
                ),
            decreases block.v.len() - i,
        {
            proof {
                assert(items.take(i + 1).drop_last() =~= items.take(i as int));
            }
            let ghost before = r@;
            let ghost sel0 = selected_fields(items.take(i as int), numeric);
            match &block.v[i] {
                BlockItem::Field(f) => {
                    let sel = if numeric {
                        f.0.is_number()
                    } else {
                        f.0.is_integer()
                    };
                    if sel {
                        let ghost e0 = *errors;
                        self.scan_one(f, check, errors);
                        r.push(f);
                        proof {
                            assert(selected_fields(items.take(i + 1), numeric) =~= sel0.push(*f));
                            assert(sel0.push(*f).drop_last() =~= sel0);
                            assert(deref_fields(r@) =~= deref_fields(before).push(*f));
                            assert(keys_of(sel0.push(*f)) =~= keys_of(sel0).push(f.0@));
                            lemma_logged_trans(old(errors), &e0, errors, scan_reports(sel0, self.allow_questionmark_equals, self.max_severity, *check, self.data), one_scan_reports(*f, self.allow_questionmark_equals, self.max_severity, *check, self.data));
                        }
                    } else {
                        assert(selected_fields(items.take(i + 1), numeric) =~= sel0);
                    }
                },
                _ => {
                    assert(selected_fields(items.take(i + 1), numeric) =~= sel0);
                },
            }
            i = i + 1;
        }
        assert(items.take(items.len() as int) =~= items);
        r
    }
}

impl<'a> Validator<'a> {
    /// Expect every field whose key is an integer to be a definition, record its key as known,
    /// and return the keys and blocks of those that are.
    pub fn integer_blocks(&mut self, errors: &mut Errors) -> (r: Vec<(&'a Token, &'a Block)>)
        ensures
            r@.map_values(|p: (&Token, &Block)| (*p.0, *p.1)) == keyed_blocks(selected_fields(old(self).block.v@, false)),
            final(self).same_settings(old(self)),
            final(self).same_flags(old(self)),
            final(self).known() == old(self).known() + keys_of(selected_fields(old(self).block.v@, false)),
            final(errors).logged(
                old(errors),
                scan_reports(selected_fields(old(self).block.v@, false), old(self).allow_questionmark_equals, old(self).max_severity, FieldCheck::Block, old(self).data),
            ),
    {
        let fs = self.scan_number_keys(false, &FieldCheck::Block, errors);
        keyed_blocks_of(&fs)
    }

    /// Expect every field whose key is an integer to be an assignment, record its key as known,
    /// and return the keys and values of those that are.
    pub fn integer_values(&mut self, errors: &mut Errors) -> (r: Vec<(&'a Token, &'a Token)>)
        ensures
            r@.map_values(|p: (&Token, &Token)| (*p.0, *p.1)) == keyed_values(selected_fields(old(self).block.v@, false)),
            final(self).same_settings(old(self)),
            final(self).same_flags(old(self)),
            final(self).known() == old(self).known() + keys_of(selected_fields(old(self).block.v@, false)),
            final(errors).logged(
                old(errors),
                scan_reports(selected_fields(old(self).block.v@, false), old(self).allow_questionmark_equals, old(self).max_severity, FieldCheck::Value, old(self).data),
            ),
    {
        let fs = self.scan_number_keys(false, &FieldCheck::Value, errors);
        keyed_values_of(&fs)
    }

    /// Record as known every field whose key is an integer, and return their keys and values
    /// for the caller to validate.
    pub fn integer_keys(&mut self, errors: &mut Errors) -> (r: Vec<(&'a Token, &'a BV)>)
        ensures
            r@.map_values(|p: (&Token, &BV)| (*p.0, *p.1)) == selected_fields(old(self).block.v@, false).map_values(|f: Field| (f.0, f.2)),
            final(self).same_settings(old(self)),
            final(self).same_flags(old(self)),
            final(self).known() == old(self).known() + keys_of(selected_fields(old(self).block.v@, false)),
            final(errors).logged(
                old(errors),
                scan_reports(selected_fields(old(self).block.v@, false), old(self).allow_questionmark_equals, old(self).max_severity, FieldCheck::Nothing, old(self).data),
            ),
    {
        let fs = self.scan_number_keys(false, &FieldCheck::Nothing, errors);
        keyed_bvs_of(&fs)
    }

    /// Record as known every field whose key is a number, and return their keys and values for
    /// the caller to validate.
    pub fn numeric_keys(&mut self, errors: &mut Errors) -> (r: Vec<(&'a Token, &'a BV)>)
        ensures
            r@.map_values(|p: (&Token, &BV)| (*p.0, *p.1)) == selected_fields(old(self).block.v@, true).map_values(|f: Field| (f.0, f.2)),
            final(self).same_settings(old(self)),
            final(self).same_flags(old(self)),
            final(self).known() == old(self).known() + keys_of(selected_fields(old(self).block.v@, true)),
            final(errors).logged(
                old(errors),
                scan_reports(selected_fields(old(self).block.v@, true), old(self).allow_questionmark_equals, old(self).max_severity, FieldCheck::Nothing, old(self).data),
            ),
    {
        let fs = self.scan_number_keys(true, &FieldCheck::Nothing, errors);
        keyed_bvs_of(&fs)
    }
}

/// Which fields a scan for unknown fields looks at.
#[derive(Clone, Copy, Debug, PartialEq, Eq, Structural)]
pub enum FieldKinds {
    /// Every field.
    Any,
    /// The definitions.
    Blocks,
    /// The assignments.
    Values,
}

/// When a scan for unknown fields checks the comparator of a field.
#[derive(Clone, Copy, Debug, PartialEq, Eq, Structural)]
pub enum EqWhen {
    /// For every field it looks at.
    Always,
    /// For the unknown fields.
    Unknown,
    /// Never.
    Never,
}

/// Whether the value is of the kind that the scan looks at.
pub open spec fn kind_ok(bv: BV, kinds: FieldKinds) -> bool {
    match kinds {
        FieldKinds::Any => true,
        FieldKinds::Blocks => bv is Block,
        FieldKinds::Values => bv is Value,
    }
}

/// The fields of `items` of the kind whose keys are not among `known`, in order.
pub open spec fn unknown_of(items: Seq<BlockItem>, known: Seq<Seq<char>>, kinds: FieldKinds) -> Seq<Field>
    decreases items.len(),
{
    if items.len() == 0 {
        Seq::empty()
    } else {
        unknown_of(items.drop_last(), known, kinds) + match items.last() {
            BlockItem::Field(f) => if kind_ok(f.2, kinds) && !known.contains(f.0@) {
                seq![f]
            } else {
                Seq::empty()
            },
            _ => Seq::empty(),
        }
    }
}

/// The reports about the comparators of the fields that a scan for unknown fields checks.
pub open spec fn unknown_scan_reports(
    items: Seq<BlockItem>,
    known: Seq<Seq<char>>,
    kinds: FieldKinds,
    eq: EqWhen,
    allow_q: bool,
    ms: crate::report::report_struct::Severity,
) -> Seq<ReportView>
    decreases items.len(),
{
    if items.len() == 0 {
        Seq::empty()
    } else {
        unknown_scan_reports(items.drop_last(), known, kinds, eq, allow_q, ms) + match items.last() {
            BlockItem::Field(f) => if kind_ok(f.2, kinds) && (eq == EqWhen::Always || (eq
                == EqWhen::Unknown && !known.contains(f.0@))) {
                eq_reports(allow_q, ms, &f.0, f.1)
            } else {
                Seq::empty()
            },
            _ => Seq::empty(),
        }
    }
}

/// The keys, comparators and values of the fields.
fn keyed_op_bvs_of<'b>(fs: &Vec<&'b Field>) -> (r: Vec<(&'b Token, Comparator, &'b BV)>)
    ensures
        r@.map_values(|p: (&Token, Comparator, &BV)| (*p.0, p.1, *p.2)) == deref_fields(fs@).map_values(|f: Field| (f.0, f.1, f.2)),
{
    let mut r: Vec<(&'b Token, Comparator, &'b BV)> = Vec::new();
    let mut i: usize = 0;
    while i < fs.len()
        invariant
            i <= fs@.len(),
            r@.map_values(|p: (&Token, Comparator, &BV)| (*p.0, p.1, *p.2)) == deref_fields(fs@).map_values(|f: Field| (f.0, f.1, f.2)).take(i as int),
        decreases fs.len() - i,
    {
        let f: &'b Field = fs[i];
        let ghost before = r@;
        r.push((&f.0, f.1, &f.2));
        assert(deref_fields(fs@)[i as int] == *f);
        assert(r@.map_values(|p: (&Token, Comparator, &BV)| (*p.0, p.1, *p.2)) =~= before.map_values(|p: (&Token, Comparator, &BV)| (*p.0, p.1, *p.2)).push((f.0, f.1, f.2)));
        assert(r@.map_values(|p: (&Token, Comparator, &BV)| (*p.0, p.1, *p.2)) =~= deref_fields(fs@).map_values(|f: Field| (f.0, f.1, f.2)).take(i + 1));
        i = i + 1;
    }
    assert(deref_fields(fs@).map_values(|f: Field| (f.0, f.1, f.2)).take(fs@.len() as int) =~= deref_fields(fs@).map_values(|f: Field| (f.0, f.1, f.2)));
    r
}

impl<'a> Validator<'a> {
    /// Return the fields of the kind whose keys are not known, checking comparators as `eq`
    /// says.
    fn scan_unknown(&self, kinds: FieldKinds, eq: EqWhen, errors: &mut Errors) -> (r: Vec<&'a Field>)
        ensures
            deref_fields(r@) == unknown_of(self.block.v@, self.known(), kinds),
            final(errors).logged(
                old(errors),
                unknown_scan_reports(self.block.v@, self.known(), kinds, eq, self.allow_questionmark_equals, self.max_severity),
            ),
    {
        let block: &'a Block = self.block;
        let ghost items = block.v@;
        let ghost known = self.known();
        let mut r: Vec<&'a Field> = Vec::new();
        let mut i: usize = 0;
        assert(items.take(0) =~= Seq::<BlockItem>::empty());
        while i < block.v.len()
            invariant
                items == block.v@,
                block == self.block,
                known == self.known(),
                i <= items.len(),
                deref_fields(r@) == unknown_of(items.take(i as int), known, kinds),
                errors.logged(
                    old(errors),
                    unknown_scan_reports(items.take(i as int), known, kinds, eq, self.allow_questionmark_equals, self.max_severity),
                ),
            decreases block.v.len() - i,
        {
            proof {
                assert(items.take(i + 1).drop_last() =~= items.take(i as int));
            }
            let ghost before = r@;
            let ghost e0 = *errors;
            match &block.v[i] {
                BlockItem::Field(f) => {
                    let kind = match kinds {
                        FieldKinds::Any => true,
                        FieldKinds::Blocks => f.2.get_block().is_some(),
                        FieldKinds::Values => f.2.get_value().is_some(),
                    };
                    if kind {
                        let unknown = !self.is_known(&f.0);
                        let check = match eq {
                            EqWhen::Always => true,
                            EqWhen::Unknown => unknown,
                            EqWhen::Never => false,
                        };
                        if check {
                            self.expect_eq_qeq(&f.0, f.1, errors);
                        } else {
                            proof {
                                crate::report::errors::lemma_logged_nothing(errors);
                            }
                        }
                        if unknown {
                            r.push(f);
                            assert(deref_fields(r@) =~= deref_fields(before).push(*f));
                        }
                    } else {
                        proof {
                            crate::report::errors::lemma_logged_nothing(errors);
                        }
                    }
                },
                _ => {
                    proof {
                        crate::report::errors::lemma_logged_nothing(errors);
                    }
                },
            }
            proof {
                let here = match items[i as int] {
                    BlockItem::Field(f) => if kind_ok(f.2, kinds) && (eq == EqWhen::Always || (eq
                        == EqWhen::Unknown && !known.contains(f.0@))) {
                        eq_reports(self.allow_questionmark_equals, self.max_severity, &f.0, f.1)
                    } else {
                        Seq::empty()
                    },
                    _ => Seq::empty(),
                };
                lemma_logged_trans(old(errors), &e0, errors, unknown_scan_reports(items.take(i as int), known, kinds, eq, self.allow_questionmark_equals, self.max_severity), here);
            }
            i = i + 1;
        }
        assert(items.take(items.len() as int) =~= items);
        r
    }

    /// Accept every field, checking the comparator of each, and return the keys and values of
    /// those that nothing asked for, for the caller to validate.
    pub fn unknown_fields(&mut self, errors: &mut Errors) -> (r: Vec<(&'a Token, &'a BV)>)
        ensures
            *final(self) == (Validator { accepted_block_fields: true, accepted_value_fields: true, ..*old(self) }),
            r@.map_values(|p: (&Token, &BV)| (*p.0, *p.1)) == unknown_of(old(self).block.v@, old(self).known(), FieldKinds::Any).map_values(|f: Field| (f.0, f.2)),
            final(errors).logged(
                old(errors),
                unknown_scan_reports(old(self).block.v@, old(self).known(), FieldKinds::Any, EqWhen::Always, old(self).allow_questionmark_equals, old(self).max_severity),
            ),
    {
        self.accepted_block_fields = true;
        self.accepted_value_fields = true;
        let fs = self.scan_unknown(FieldKinds::Any, EqWhen::Always, errors);
        keyed_bvs_of(&fs)
    }

    /// Accept every definition, checking the comparator of each, and return the keys and blocks
    /// of those that nothing asked for, for the caller to validate.
    pub fn unknown_block_fields(&mut self, errors: &mut Errors) -> (r: Vec<(&'a Token, &'a Block)>)
        ensures
            *final(self) == (Validator { accepted_block_fields: true, ..*old(self) }),
            r@.map_values(|p: (&Token, &Block)| (*p.0, *p.1)) == keyed_blocks(unknown_of(old(self).block.v@, old(self).known(), FieldKinds::Blocks)),
            final(errors).logged(
                old(errors),
                unknown_scan_reports(old(self).block.v@, old(self).known(), FieldKinds::Blocks, EqWhen::Always, old(self).allow_questionmark_equals, old(self).max_severity),
            ),
    {
        self.accepted_block_fields = true;
        let fs = self.scan_unknown(FieldKinds::Blocks, EqWhen::Always, errors);
        keyed_blocks_of(&fs)
    }

    /// Accept every assignment, checking the comparator of each, and return the keys and values
    /// of those that nothing asked for, for the caller to validate.
    pub fn unknown_value_fields(&mut self, errors: &mut Errors) -> (r: Vec<(&'a Token, &'a Token)>)
        ensures
            *final(self) == (Validator { accepted_value_fields: true, ..*old(self) }),
            r@.map_values(|p: (&Token, &Token)| (*p.0, *p.1)) == keyed_values(unknown_of(old(self).block.v@, old(self).known(), FieldKinds::Values)),
            final(errors).logged(
                old(errors),
                unknown_scan_reports(old(self).block.v@, old(self).known(), FieldKinds::Values, EqWhen::Always, old(self).allow_questionmark_equals, old(self).max_severity),
            ),
    {
        self.accepted_value_fields = true;
        let fs = self.scan_unknown(FieldKinds::Values, EqWhen::Always, errors);
        keyed_values_of(&fs)
    }

    /// Accept every field, and return the keys, comparators and values of those that nothing
    /// asked for, checking their comparators.
    pub fn unknown_fields_cmp(&mut self, errors: &mut Errors) -> (r: Vec<(&'a Token, Comparator, &'a BV)>)
        ensures
            *final(self) == (Validator { accepted_block_fields: true, accepted_value_fields: true, ..*old(self) }),
            r@.map_values(|p: (&Token, Comparator, &BV)| (*p.0, p.1, *p.2)) == unknown_of(old(self).block.v@, old(self).known(), FieldKinds::Any).map_values(|f: Field| (f.0, f.1, f.2)),
            final(errors).logged(
                old(errors),
                unknown_scan_reports(old(self).block.v@, old(self).known(), FieldKinds::Any, EqWhen::Unknown, old(self).allow_questionmark_equals, old(self).max_severity),
            ),
    {
        self.accepted_block_fields = true;
        self.accepted_value_fields = true;
        let fs = self.scan_unknown(FieldKinds::Any, EqWhen::Unknown, errors);
        keyed_op_bvs_of(&fs)
    }

    /// Accept every field, and return the keys, comparators and values of those that nothing
    /// asked for, whatever their comparators.
    pub fn unknown_fields_any_cmp(&mut self, errors: &mut Errors) -> (r: Vec<(&'a Token, Comparator, &'a BV)>)
        ensures
            *final(self) == (Validator { accepted_block_fields: true, accepted_value_fields: true, ..*old(self) }),
            r@.map_values(|p: (&Token, Comparator, &BV)| (*p.0, p.1, *p.2)) == unknown_of(old(self).block.v@, old(self).known(), FieldKinds::Any).map_values(|f: Field| (f.0, f.1, f.2)),
            final(errors).logged(
                old(errors),
                unknown_scan_reports(old(self).block.v@, old(self).known(), FieldKinds::Any, EqWhen::Never, old(self).allow_questionmark_equals, old(self).max_severity),
            ),
    {
        self.accepted_block_fields = true;
        self.accepted_value_fields = true;
        let fs = self.scan_unknown(FieldKinds::Any, EqWhen::Never, errors);
        keyed_op_bvs_of(&fs)
    }
}

} // verus!
