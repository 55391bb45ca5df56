//! The [`Validator`] checks the contents of one [`Block`] field by field.
use vstd::prelude::*;

use crate::block::{
    BV, Block, BlockItem, Comparator, EqKind, Field, expect_block_reports, expect_value_reports,
    last_key_index, loose_blocks, loose_values, values_warn_reports,
};
use crate::everything::{Everything, Item, missing_item_report};
use crate::number::spec_parse_i64;
use crate::report::builder::{fatal, report, simple_report, warn};
use crate::report::error_key::ErrorKey;
use crate::report::errors::{Errors, lemma_logged_trans};
use crate::report::report_struct::{Confidence, PointerView, ReportView, Severity};
use crate::text::{
    concat_str, i64_to_string, int_decimal, join_strs, nat_decimal, spec_join, str_eq, strs_view,
    unicode_lowercase, usize_to_string,
};
use crate::token::{Loc, Token, integer_reports, number_reports};

pub mod fields;
pub mod scans;
pub mod value_validator;

verus! {

// ---------------------------------------------------------------------------------------------
// Reports shared by the field checks
// ---------------------------------------------------------------------------------------------

/// A report at `loc` with reasonable confidence and no info.
pub open spec fn plain_report(key: ErrorKey, sev: Severity, msg: Seq<char>, loc: Loc) -> ReportView {
    simple_report(key, sev, Confidence::Reasonable, msg, None, loc)
}

/// The report about a field `key` that was already given as `other`.
pub open spec fn dup_report(key: &Token, other: &Token) -> ReportView {
    ReportView {
        severity: Severity::Warning,
        confidence: Confidence::Reasonable,
        key: ErrorKey::Duplicate,
        msg: "`"@ + other@ + "` is redefined in a following line"@,
        info: None,
        pointers: seq![
            PointerView { loc: Loc { link_idx: None, ..other.loc }, length: 1, msg: None },
            PointerView {
                loc: Loc { link_idx: None, ..key.loc },
                length: 1,
                msg: Some("the other one is here"@),
            },
        ],
    }
}

/// Report that field `key` is a duplicate of the earlier field `other`.
pub fn dup_assign_error(key: &Token, other: &Token, errors: &mut Errors)
    ensures
        final(errors).logged(old(errors), seq![dup_report(key, other)]),
{
    let mut key_loc = key.loc;
    key_loc.link_idx = None;
    let mut other_loc = other.loc;
    other_loc.link_idx = None;
    let a = concat_str("`", other.as_str());
    let msg = concat_str(a.as_str(), "` is redefined in a following line");
    let b = warn(ErrorKey::Duplicate).msg(msg.as_str()).loc(other_loc).loc(
        key_loc,
        "the other one is here",
    );
    assert(b@.pointers =~= dup_report(key, other).pointers);
    b.push(errors);
}

/// The reports about a field whose comparator should be `=`, or also `?=` if `allow_q`.
pub open spec fn eq_reports(allow_q: bool, ms: Severity, key: &Token, op: Comparator) -> Seq<ReportView> {
    let sev = Severity::Error.spec_at_most(ms);
    if allow_q {
        if op == Comparator::Equals(EqKind::Single) || op == Comparator::Equals(EqKind::Question) {
            Seq::empty()
        } else {
            seq![
                plain_report(
                    ErrorKey::Validation,
                    sev,
                    "expected `"@ + key@ + " =` or `?=`, found `"@ + op.spec_text() + "`"@,
                    key.loc,
                ),
            ]
        }
    } else {
        if op == Comparator::Equals(EqKind::Single) {
            Seq::empty()
        } else {
            seq![
                plain_report(
                    ErrorKey::Validation,
                    sev,
                    "expected `"@ + key@ + " =`, found `"@ + op.spec_text() + "`"@,
                    key.loc,
                ),
            ]
        }
    }
}

/// A bound of an integer range.
#[derive(Clone, Copy, Debug, PartialEq, Eq, Structural)]
pub enum Limit {
    Unbounded,
    Included(i64),
    Excluded(i64),
}

/// Whether `i` is above the lower bound.
pub open spec fn above_low(low: Limit, i: int) -> bool {
    match low {
        Limit::Unbounded => true,
        Limit::Included(n) => i >= n,
        Limit::Excluded(n) => i > n,
    }
}

/// Whether `i` is below the upper bound.
pub open spec fn below_high(high: Limit, i: int) -> bool {
    match high {
        Limit::Unbounded => true,
        Limit::Included(n) => i <= n,
        Limit::Excluded(n) => i < n,
    }
}

/// The lowest value in range, if the range has a lower bound.
pub open spec fn low_value(low: Limit) -> Option<int> {
    match low {
        Limit::Unbounded => None,
        Limit::Included(n) => Some(n as int),
        Limit::Excluded(n) => Some(n + 1),
    }
}

/// The highest value in range, if the range has an upper bound.
pub open spec fn high_value(high: Limit) -> Option<int> {
    match high {
        Limit::Unbounded => None,
        Limit::Included(n) => Some(n as int),
        Limit::Excluded(n) => Some(n - 1),
    }
}

/// A range whose bounds can be written as inclusive `i64` bounds.
pub open spec fn range_wf(low: Limit, high: Limit) -> bool {
    !(low == Limit::Excluded(i64::MAX)) && !(high == Limit::Excluded(i64::MIN))
}

/// The message about a value outside the range.
pub open spec fn range_msg(low: Limit, high: Limit) -> Seq<char> {
    match (low_value(low), high_value(high)) {
        (Some(l), Some(h)) => "should be between "@ + int_decimal(l) + " and "@ + int_decimal(h)
            + " (inclusive)"@,
        (Some(l), None) => "should be at least "@ + int_decimal(l),
        (None, Some(h)) => "should be at most "@ + int_decimal(h),
        (None, None) => Seq::empty(),
    }
}

/// The reports about a value that should be an integer within the range.
pub open spec fn integer_range_reports(t: &Token, low: Limit, high: Limit, sev: Severity) -> Seq<ReportView> {
    integer_reports(t) + match spec_parse_i64(t@) {
        Some(i) => if above_low(low, i) && below_high(high, i) {
            Seq::empty()
        } else {
            seq![plain_report(ErrorKey::Range, sev, range_msg(low, high), t.loc)]
        },
        None => Seq::empty(),
    }
}

/// Whether `t` is one of the choices.
pub open spec fn is_choice(choices: Seq<&str>, t: Seq<char>) -> bool {
    exists|i: int| 0 <= i < choices.len() && (#[trigger] choices[i])@ == t
}

/// The report about a value that is not one of the choices.
pub open spec fn choice_reports(choices: Seq<&str>, t: &Token, sev: Severity) -> Seq<ReportView> {
    if is_choice(choices, t@) {
        Seq::empty()
    } else {
        seq![
            plain_report(
                ErrorKey::Choice,
                sev,
                "expected one of "@ + spec_join(strs_view(choices), ", "@),
                t.loc,
            ),
        ]
    }
}

/// Whether `t` is a yes or no value.
pub open spec fn is_yes_no(t: Seq<char>) -> bool {
    t == "yes"@ || t == "no"@ || t == "YES"@ || t == "NO"@
}

/// The kinds of loose values that a list of exactly so many values can hold.
#[derive(Clone, Copy, Debug, PartialEq, Eq, Structural)]
pub enum TokenKind {
    /// Numbers with at most 5 decimals.
    Numbers,
    /// Numbers with any number of decimals.
    PreciseNumbers,
    /// Integers.
    Integers,
}

impl TokenKind {
    /// Whether `t` is of this kind.
    pub open spec fn accepts(self, t: Seq<char>) -> bool {
        match self {
            TokenKind::Numbers | TokenKind::PreciseNumbers => crate::number::spec_float_syntax(t),
            TokenKind::Integers => spec_parse_i64(t) is Some,
        }
    }

    /// The reports about a loose value that should be of this kind.
    pub open spec fn reports(self, t: &Token) -> Seq<ReportView> {
        match self {
            TokenKind::Numbers => number_reports(t, false),
            TokenKind::PreciseNumbers => number_reports(t, true),
            TokenKind::Integers => integer_reports(t),
        }
    }

    /// What the kind is called in reports.
    pub open spec fn plural(self) -> Seq<char> {
        match self {
            TokenKind::Numbers | TokenKind::PreciseNumbers => " numbers"@,
            TokenKind::Integers => " integers"@,
        }
    }
}

/// The number of values among `ts` that are of the kind.
pub open spec fn count_kind(kind: TokenKind, ts: Seq<Token>) -> int
    decreases ts.len(),
{
    if ts.len() == 0 {
        0
    } else {
        count_kind(kind, ts.drop_last()) + if kind.accepts(ts.last()@) {
            1int
        } else {
            0int
        }
    }
}

/// The reports about each value of `ts` that should be of the kind.
pub open spec fn kind_reports(kind: TokenKind, ts: Seq<Token>) -> Seq<ReportView>
    decreases ts.len(),
{
    if ts.len() == 0 {
        Seq::empty()
    } else {
        kind_reports(kind, ts.drop_last()) + kind.reports(&ts.last())
    }
}

/// The reports of requiring exactly `n` loose values of the kind in the block, reporting at
/// no more than `ms`.
pub open spec fn tokens_exactly_reports(kind: TokenKind, n: usize, b: &Block, ms: Severity) -> Seq<ReportView> {
    let ts = loose_values(b.v@);
    kind_reports(kind, ts) + if count_kind(kind, ts) == n {
        Seq::empty()
    } else {
        seq![
            plain_report(
                ErrorKey::Validation,
                Severity::Error.spec_at_most(ms),
                "expected "@ + nat_decimal(n as nat) + kind.plural(),
                b.loc,
            ),
        ]
    }
}

/// The report about an item of a block that nothing asked for, if there is one.
pub open spec fn remaining_item_reports(
    it: &BlockItem,
    known: Seq<Seq<char>>,
    tokens: bool,
    blocks: bool,
    block_fields: bool,
    value_fields: bool,
    ms: Severity,
) -> Seq<ReportView> {
    let sev = Severity::Error.spec_at_most(ms);
    match it {
        BlockItem::Field(Field(key, _, bv)) => {
            let accepted = match bv {
                BV::Value(_) => value_fields,
                BV::Block(_) => block_fields,
            };
            if !accepted && !known.contains(key@) {
                seq![
                    simple_report(
                        ErrorKey::UnknownField,
                        sev,
                        Confidence::Weak,
                        "unknown field `"@ + key@ + "`"@,
                        None,
                        key.loc,
                    ),
                ]
            } else {
                Seq::empty()
            }
        },
        BlockItem::Value(t) => if !tokens {
            seq![
                plain_report(
                    ErrorKey::Structure,
                    sev,
                    "found loose value "@ + t@ + ", expected only `key =`"@,
                    t.loc,
                ),
            ]
        } else {
            Seq::empty()
        },
        BlockItem::Block(b) => if !blocks {
            seq![
                plain_report(
                    ErrorKey::Structure,
                    sev,
                    "found sub-block, expected only `key =`"@,
                    b.loc,
                ),
            ]
        } else {
            Seq::empty()
        },
    }
}

/// The reports about all the items of a block that nothing asked for.
pub open spec fn remaining_reports(
    items: Seq<BlockItem>,
    known: Seq<Seq<char>>,
    tokens: bool,
    blocks: bool,
    block_fields: bool,
    value_fields: bool,
    ms: Severity,
) -> Seq<ReportView>
    decreases items.len(),
{
    if items.len() == 0 {
        Seq::empty()
    } else {
        remaining_reports(items.drop_last(), known, tokens, blocks, block_fields, value_fields, ms)
            + remaining_item_reports(
            &items.last(),
            known,
            tokens,
            blocks,
            block_fields,
            value_fields,
            ms,
        )
    }
}

/// The reports of a fresh validator of `b` that requires exactly `n` loose values of the kind
/// and then reports whatever else is in the block.
pub open spec fn list_exactly_reports(kind: TokenKind, n: usize, b: &Block) -> Seq<ReportView> {
    tokens_exactly_reports(kind, n, b, Severity::Error) + remaining_reports(
        b.v@,
        Seq::empty(),
        true,
        false,
        false,
        false,
        Severity::Error,
    )
}

// ---------------------------------------------------------------------------------------------
// Field checks
// ---------------------------------------------------------------------------------------------

/// What to check of the value of each matching field.
#[derive(Clone, Copy, Debug)]
pub enum FieldCheck<'c> {
    /// Nothing.
    Nothing,
    /// That it is a value.
    Value,
    /// That it is a block.
    Block,
    /// That it is `yes` or `no`.
    Bool,
    /// That it is an integer.
    Integer,
    /// That it is an integer within the range.
    IntegerRange(Limit, Limit),
    /// That it is a number with at most 5 decimals.
    Numeric,
    /// That it is a number.
    PreciseNumeric,
    /// That it is one of the choices.
    Choice(&'c [&'c str]),
    /// That it is an item of the kind.
    Item(Item),
    /// That it is an item of the kind or empty.
    ItemOrEmpty(Item),
    /// That it is a block of loose values.
    List,
    /// That it is a block of loose values that are items of the kind.
    ListItems(Item),
    /// That it is a block of loose values that are among the choices.
    ListChoice(&'c [&'c str]),
    /// That it is a block of exactly so many loose values of the kind.
    ListExactly(TokenKind, usize),
    /// Report every field named by the first string as being only for what the second says.
    Banned(&'c str, &'c str),
    /// Report every field named by the first string as replaced by what the second says.
    Replaced(&'c str, &'c str),
}

/// The reports about each value of a list that should be an item of the kind.
pub open spec fn list_item_reports(items: Seq<BlockItem>, data: &Everything, itype: Item, ms: Severity) -> Seq<ReportView>
    decreases items.len(),
{
    if items.len() == 0 {
        Seq::empty()
    } else {
        list_item_reports(items.drop_last(), data, itype, ms) + match items.last() {
            BlockItem::Value(t) => item_reports(data, itype, &t, ms),
            _ => crate::block::not_value_reports(&items.last()),
        }
    }
}

/// The reports about each value of a list that should be one of the choices.
pub open spec fn list_choice_reports(items: Seq<BlockItem>, choices: Seq<&str>, ms: Severity) -> Seq<ReportView>
    decreases items.len(),
{
    if items.len() == 0 {
        Seq::empty()
    } else {
        list_choice_reports(items.drop_last(), choices, ms) + match items.last() {
            BlockItem::Value(t) => choice_reports(choices, &t, ms),
            _ => crate::block::not_value_reports(&items.last()),
        }
    }
}

/// The report about a value that is not an item of the kind.
pub open spec fn item_reports(data: &Everything, itype: Item, t: &Token, ms: Severity) -> Seq<ReportView> {
    if data.spec_item_exists(itype, t@) {
        Seq::empty()
    } else {
        seq![missing_item_report(itype, t, ms)]
    }
}

/// The reports of checking a value.
pub open spec fn value_check_reports(check: FieldCheck, t: &Token, data: &Everything, ms: Severity) -> Seq<ReportView> {
    let sev = Severity::Error.spec_at_most(ms);
    match check {
        FieldCheck::Bool => if is_yes_no(t@) {
            Seq::empty()
        } else {
            seq![plain_report(ErrorKey::Validation, sev, "expected yes or no"@, t.loc)]
        },
        FieldCheck::Integer => integer_reports(t),
        FieldCheck::IntegerRange(low, high) => integer_range_reports(t, low, high, sev),
        FieldCheck::Numeric => number_reports(t, false),
        FieldCheck::PreciseNumeric => number_reports(t, true),
        FieldCheck::Choice(choices) => choice_reports(choices@, t, sev),
        FieldCheck::Item(itype) => item_reports(data, itype, t, ms),
        FieldCheck::ItemOrEmpty(itype) => if t@.len() == 0 {
            Seq::empty()
        } else {
            item_reports(data, itype, t, ms)
        },
        _ => Seq::empty(),
    }
}

/// Whether the check looks at a value.
pub open spec fn wants_value(check: FieldCheck) -> bool {
    match check {
        FieldCheck::Value | FieldCheck::Bool | FieldCheck::Integer | FieldCheck::IntegerRange(_, _)
        | FieldCheck::Numeric | FieldCheck::PreciseNumeric | FieldCheck::Choice(_)
        | FieldCheck::Item(_) | FieldCheck::ItemOrEmpty(_) => true,
        _ => false,
    }
}

/// Whether the check looks at a block.
pub open spec fn wants_block(check: FieldCheck) -> bool {
    match check {
        FieldCheck::Block | FieldCheck::List | FieldCheck::ListItems(_)
        | FieldCheck::ListChoice(_) | FieldCheck::ListExactly(_, _) => true,
        _ => false,
    }
}

/// The reports of checking a block.
pub open spec fn block_check_reports(check: FieldCheck, b: &Block, data: &Everything, ms: Severity) -> Seq<ReportView> {
    match check {
        FieldCheck::List => values_warn_reports(b.v@),
        FieldCheck::ListItems(itype) => list_item_reports(b.v@, data, itype, ms),
        FieldCheck::ListChoice(choices) => list_choice_reports(b.v@, choices@, ms),
        FieldCheck::ListExactly(kind, n) => list_exactly_reports(kind, n, b),
        _ => Seq::empty(),
    }
}

/// The reports of checking the value of the field `key`.
pub open spec fn check_reports(check: FieldCheck, key: &Token, bv: &BV, data: &Everything, ms: Severity) -> Seq<ReportView> {
    if wants_value(check) {
        expect_value_reports(bv) + match bv {
            BV::Value(t) => value_check_reports(check, &t, data, ms),
            BV::Block(_) => Seq::empty(),
        }
    } else if wants_block(check) {
        expect_block_reports(bv) + match bv {
            BV::Block(b) => block_check_reports(check, &b, data, ms),
            BV::Value(_) => Seq::empty(),
        }
    } else {
        match check {
            FieldCheck::Banned(name, only_for) => seq![
                plain_report(
                    ErrorKey::Validation,
                    Severity::Error.spec_at_most(ms),
                    "`"@ + name@ + " = ` is only for "@ + only_for@,
                    key.loc,
                ),
            ],
            FieldCheck::Replaced(name, replaced_by) => seq![
                plain_report(
                    ErrorKey::Validation,
                    Severity::Error.spec_at_most(ms),
                    "`"@ + name@ + "` has been replaced by "@ + replaced_by@,
                    key.loc,
                ),
            ],
            _ => Seq::empty(),
        }
    }
}

/// Whether the check can be carried out without overflow.
pub open spec fn check_wf(check: FieldCheck) -> bool {
    match check {
        FieldCheck::IntegerRange(low, high) => range_wf(low, high),
        _ => true,
    }
}

/// Whether `t` is one of the choices.
pub fn choices_contain(choices: &[&str], t: &str) -> (b: bool)
    ensures
        b == is_choice(choices@, t@),
{
    let mut i: usize = 0;
    while i < choices.len()
        invariant
            i <= choices@.len(),
            forall|j: int| 0 <= j < i ==> (#[trigger] choices@[j])@ != t@,
        decreases choices.len() - i,
    {
        if str_eq(choices[i], t) {
            return true;
        }
        i = i + 1;
    }
    false
}

/// Report if `t` is not one of the choices.
pub(crate) fn check_choice(choices: &[&str], t: &Token, sev: Severity, errors: &mut Errors)
    ensures
        final(errors).logged(old(errors), choice_reports(choices@, t, sev)),
{
    if !choices_contain(choices, t.as_str()) {
        let joined = join_strs(choices, ", ");
        let msg = concat_str("expected one of ", joined.as_str());
        report(ErrorKey::Choice, sev).msg(msg.as_str()).loc(t).push(errors);
    }
}

/// The message about a value outside the range.
fn range_message(low: Limit, high: Limit) -> (s: String)
    requires
        range_wf(low, high),
    ensures
        s@ == range_msg(low, high),
{
    let lo: Option<i64> = match low {
        Limit::Unbounded => None,
        Limit::Included(n) => Some(n),
        Limit::Excluded(n) => Some(n + 1),
    };
    let hi: Option<i64> = match high {
        Limit::Unbounded => None,
        Limit::Included(n) => Some(n),
        Limit::Excluded(n) => Some(n - 1),
    };
    match (lo, hi) {
        (Some(l), Some(h)) => {
            let a = concat_str("should be between ", i64_to_string(l).as_str());
            let b = concat_str(a.as_str(), " and ");
            let c = concat_str(b.as_str(), i64_to_string(h).as_str());
            concat_str(c.as_str(), " (inclusive)")
        },
        (Some(l), None) => concat_str("should be at least ", i64_to_string(l).as_str()),
        (None, Some(h)) => concat_str("should be at most ", i64_to_string(h).as_str()),
        (None, None) => String::new(),
    }
}

/// Report if `t` is not an integer, or not one within the range.
pub(crate) fn check_integer_range(t: &Token, low: Limit, high: Limit, sev: Severity, errors: &mut Errors)
    requires
        range_wf(low, high),
    ensures
        final(errors).logged(old(errors), integer_range_reports(t, low, high, sev)),
{
    let ghost e0 = *errors;
    let r = t.expect_integer(errors);
    let ghost e1 = *errors;
    if let Some(i) = r {
        let above = match low {
            Limit::Unbounded => true,
            Limit::Included(n) => i >= n,
            Limit::Excluded(n) => i > n,
        };
        let below = match high {
            Limit::Unbounded => true,
            Limit::Included(n) => i <= n,
            Limit::Excluded(n) => i < n,
        };
        if !(above && below) {
            let msg = range_message(low, high);
            report(ErrorKey::Range, sev).msg(msg.as_str()).loc(t).push(errors);
        }
    }
    proof {
        let rest = match spec_parse_i64(t@) {
            Some(i) => if above_low(low, i) && below_high(high, i) {
                Seq::empty()
            } else {
                seq![plain_report(ErrorKey::Range, sev, range_msg(low, high), t.loc)]
            },
            None => Seq::empty(),
        };
        lemma_logged_trans(&e0, &e1, errors, integer_reports(t), rest);
    }
}

/// Report every item of the block that is not a loose value that is an item of the kind.
fn check_list_items(b: &Block, data: &Everything, itype: Item, ms: Severity, errors: &mut Errors)
    ensures
        final(errors).logged(old(errors), list_item_reports(b.v@, data, itype, ms)),
{
    let mut i: usize = 0;
    assert(b.v@.take(0) =~= Seq::<BlockItem>::empty());
    while i < b.v.len()
        invariant
            i <= b.v@.len(),
            errors.logged(old(errors), list_item_reports(b.v@.take(i as int), data, itype, ms)),
        decreases b.v.len() - i,
    {
        proof {
            assert(b.v@.take(i + 1).drop_last() =~= b.v@.take(i as int));
        }
        let ghost e0 = *errors;
        match &b.v[i] {
            BlockItem::Value(t) => data.verify_exists_max_sev(itype, t, ms, errors),
            BlockItem::Block(bb) => {
                crate::report::builder::err(ErrorKey::Structure).msg("unexpected block").loc(bb).push(errors);
            },
            BlockItem::Field(f) => {
                crate::report::builder::err(ErrorKey::Structure).msg("unexpected field").loc(&f.0).push(errors);
            },
        }
        proof {
            let here = match b.v@[i as int] {
                BlockItem::Value(t) => item_reports(data, itype, &t, ms),
                _ => crate::block::not_value_reports(&b.v@[i as int]),
            };
            lemma_logged_trans(old(errors), &e0, errors, list_item_reports(b.v@.take(i as int), data, itype, ms), here);
        }
        i = i + 1;
    }
    assert(b.v@.take(b.v@.len() as int) =~= b.v@);
}

/// Report every item of the block that is not a loose value among the choices.
fn check_list_choice(b: &Block, choices: &[&str], ms: Severity, errors: &mut Errors)
    ensures
        final(errors).logged(old(errors), list_choice_reports(b.v@, choices@, ms)),
{
    let mut i: usize = 0;
    assert(b.v@.take(0) =~= Seq::<BlockItem>::empty());
    while i < b.v.len()
        invariant
            i <= b.v@.len(),
            errors.logged(old(errors), list_choice_reports(b.v@.take(i as int), choices@, ms)),
        decreases b.v.len() - i,
    {
        proof {
            assert(b.v@.take(i + 1).drop_last() =~= b.v@.take(i as int));
        }
        let ghost e0 = *errors;
        match &b.v[i] {
            BlockItem::Value(t) => check_choice(choices, t, ms, errors),
            BlockItem::Block(bb) => {
                crate::report::builder::err(ErrorKey::Structure).msg("unexpected block").loc(bb).push(errors);
            },
            BlockItem::Field(f) => {
                crate::report::builder::err(ErrorKey::Structure).msg("unexpected field").loc(&f.0).push(errors);
            },
        }
        proof {
            let here = match b.v@[i as int] {
                BlockItem::Value(t) => choice_reports(choices@, &t, ms),
                _ => crate::block::not_value_reports(&b.v@[i as int]),
            };
            lemma_logged_trans(old(errors), &e0, errors, list_choice_reports(b.v@.take(i as int), choices@, ms), here);
        }
        i = i + 1;
    }
    assert(b.v@.take(b.v@.len() as int) =~= b.v@);
}

// ---------------------------------------------------------------------------------------------
// Selecting fields
// ---------------------------------------------------------------------------------------------

/// Whether `key` names the field `name`: exactly, or after Unicode lowercasing when not case
/// sensitive.
pub open spec fn key_matches(key: Seq<char>, name: Seq<char>, cs: bool) -> bool {
    if cs {
        key == name
    } else {
        unicode_lowercase(key) == name
    }
}

/// Whether the item is a field named `name`.
pub open spec fn is_named_field(it: BlockItem, name: Seq<char>, cs: bool) -> bool {
    match it {
        BlockItem::Field(f) => key_matches(f.0@, name, cs),
        _ => false,
    }
}

/// The indexes of the fields named `name`, in order.
pub open spec fn named_fields(items: Seq<BlockItem>, name: Seq<char>, cs: bool) -> Seq<int>
    decreases items.len(),
{
    if items.len() == 0 {
        Seq::empty()
    } else {
        let rest = named_fields(items.drop_last(), name, cs);
        if is_named_field(items.last(), name, cs) {
            rest.push(items.len() - 1)
        } else {
            rest
        }
    }
}

/// The field at index `i`.
pub open spec fn field_at(items: Seq<BlockItem>, i: int) -> Field {
    items[i]->Field_0
}

/// The fields of `items` named `name`, in order.
pub open spec fn matching(items: Seq<BlockItem>, name: Seq<char>, cs: bool) -> Seq<Field> {
    named_fields(items, name, cs).map_values(|i: int| field_at(items, i))
}

/// The fields that the references point to.
pub open spec fn deref_fields(fs: Seq<&Field>) -> Seq<Field> {
    fs.map_values(|f: &Field| *f)
}

/// The keys of the fields at the indexes.
pub open spec fn keys_at(items: Seq<BlockItem>, idxs: Seq<int>) -> Seq<Seq<char>> {
    idxs.map_values(|i: int| field_at(items, i).0@)
}

proof fn lemma_named_fields(items: Seq<BlockItem>, name: Seq<char>, cs: bool)
    ensures
        forall|p: int|
            0 <= p < named_fields(items, name, cs).len() ==> 0 <= #[trigger] named_fields(
                items,
                name,
                cs,
            )[p] < items.len() && is_named_field(items[named_fields(items, name, cs)[p]], name, cs),
        forall|p: int, q: int|
            0 <= p < q < named_fields(items, name, cs).len() ==> #[trigger] named_fields(
                items,
                name,
                cs,
            )[p] < #[trigger] named_fields(items, name, cs)[q],
    decreases items.len(),
{
    if items.len() > 0 {
        let d = items.drop_last();
        lemma_named_fields(d, name, cs);
        let rest = named_fields(d, name, cs);
        let nf = named_fields(items, name, cs);
        assert forall|p: int| 0 <= p < nf.len() implies 0 <= #[trigger] nf[p] < items.len()
            && is_named_field(items[nf[p]], name, cs) by {
            if p < rest.len() {
                assert(nf[p] == rest[p]);
                assert(items[rest[p]] == d[rest[p]]);
            }
        }
        assert forall|p: int, q: int| 0 <= p < q < nf.len() implies #[trigger] nf[p] < #[trigger] nf[q] by {
            assert(nf[p] == rest[p]);
            if q < rest.len() {
                assert(nf[q] == rest[q]);
            }
        }
    }
}

proof fn lemma_named_fields_prefix(items: Seq<BlockItem>, name: Seq<char>, cs: bool, i: int)
    requires
        0 <= i < items.len(),
    ensures
        named_fields(items.take(i + 1), name, cs) == if is_named_field(items[i], name, cs) {
            named_fields(items.take(i), name, cs).push(i)
        } else {
            named_fields(items.take(i), name, cs)
        },
{
    assert(items.take(i + 1).drop_last() =~= items.take(i));
}

/// How the fields of one name are checked.
#[derive(Clone, Copy, Debug, PartialEq, Eq, Structural)]
pub struct FieldMode {
    /// Report every field after the first as a duplicate of the one before it.
    pub unique: bool,
    /// Report fields whose comparator is not `=` (or `?=` where allowed).
    pub check_eq: bool,
    /// Check the comparator before reporting a duplicate.
    pub eq_first: bool,
}

/// The reports about one matching field `f`, where `prev` is the matching field before it.
pub open spec fn one_field_reports(
    f: Field,
    prev: Option<Token>,
    mode: FieldMode,
    allow_q: bool,
    ms: Severity,
    check: FieldCheck,
    data: &Everything,
) -> Seq<ReportView> {
    let d = if mode.unique && prev is Some {
        seq![dup_report(&f.0, &prev->0)]
    } else {
        Seq::empty()
    };
    let q = if mode.check_eq {
        eq_reports(allow_q, ms, &f.0, f.1)
    } else {
        Seq::empty()
    };
    (if mode.eq_first {
        q + d
    } else {
        d + q
    }) + check_reports(check, &f.0, &f.2, data, ms)
}

/// The matching field before position `p`, if there is one.
pub open spec fn prev_key(items: Seq<BlockItem>, idxs: Seq<int>, p: int) -> Option<Token> {
    if p > 0 {
        Some(field_at(items, idxs[p - 1]).0)
    } else {
        None
    }
}

/// The token that the reference points to, if any.
pub open spec fn opt_token(t: Option<&Token>) -> Option<Token> {
    match t {
        Some(t) => Some(*t),
        None => None,
    }
}

/// The reports about the field at position `p` of the matching fields.
pub open spec fn field_reports(
    items: Seq<BlockItem>,
    idxs: Seq<int>,
    p: int,
    mode: FieldMode,
    allow_q: bool,
    ms: Severity,
    check: FieldCheck,
    data: &Everything,
) -> Seq<ReportView> {
    one_field_reports(field_at(items, idxs[p]), prev_key(items, idxs, p), mode, allow_q, ms, check, data)
}

/// The reports about the first `n` matching fields.
pub open spec fn fields_reports(
    items: Seq<BlockItem>,
    idxs: Seq<int>,
    n: int,
    mode: FieldMode,
    allow_q: bool,
    ms: Severity,
    check: FieldCheck,
    data: &Everything,
) -> Seq<ReportView>
    decreases n,
{
    if n <= 0 {
        Seq::empty()
    } else {
        fields_reports(items, idxs, n - 1, mode, allow_q, ms, check, data)
            + field_reports(items, idxs, n - 1, mode, allow_q, ms, check, data)
    }
}

// ---------------------------------------------------------------------------------------------
// The validator
// ---------------------------------------------------------------------------------------------

/// A validator for one `Block`.
///
/// The intended usage is that you wrap the `Block` in a validator, then call validation
/// functions on it until you've validated all the possible legitimate contents of the `Block`,
/// and then call [`Validator::warn_remaining`] to warn about anything left over.
///
/// The validator is mostly for checking "fields" (`key = value` and `key = { block }` items in
/// the block), but it can validate loose blocks and loose values as well.
#[derive(Debug)]
pub struct Validator<'a> {
    /// The block being validated.
    pub block: &'a Block,
    /// All the loaded game items.
    pub data: &'a Everything,
    /// The keys of the fields that have been requested so far.
    pub known_fields: Vec<String>,
    /// Whether loose tokens are expected.
    pub accepted_tokens: bool,
    /// Whether subblocks are expected.
    pub accepted_blocks: bool,
    /// Whether unknown block fields are expected.
    pub accepted_block_fields: bool,
    /// Whether unknown value fields are expected.
    pub accepted_value_fields: bool,
    /// Whether key comparisons should be done case-sensitively.
    pub case_sensitive: bool,
    /// Whether this block can have `?=` operators.
    pub allow_questionmark_equals: bool,
    /// Maximum severity of problems reported by this `Validator`, except `Fatal` ones.
    pub max_severity: Severity,
}

impl<'a> Validator<'a> {
    /// The keys of the fields that have been requested so far.
    pub open spec fn known(&self) -> Seq<Seq<char>> {
        self.known_fields@.map_values(|s: String| s@)
    }

    /// Everything but the requested keys and the acceptance flags is the same.
    pub open spec fn same_settings(&self, other: &Validator) -> bool {
        &&& self.block == other.block
        &&& self.data == other.data
        &&& self.case_sensitive == other.case_sensitive
        &&& self.allow_questionmark_equals == other.allow_questionmark_equals
        &&& self.max_severity == other.max_severity
    }

    /// The acceptance flags are the same.
    pub open spec fn same_flags(&self, other: &Validator) -> bool {
        &&& self.accepted_tokens == other.accepted_tokens
        &&& self.accepted_blocks == other.accepted_blocks
        &&& self.accepted_block_fields == other.accepted_block_fields
        &&& self.accepted_value_fields == other.accepted_value_fields
    }

    /// The reports about the fields named `name`.
    pub open spec fn named_reports(
        &self,
        name: Seq<char>,
        cs: bool,
        mode: FieldMode,
        check: FieldCheck,
    ) -> Seq<ReportView> {
        let idxs = named_fields(self.block.v@, name, cs);
        fields_reports(
            self.block.v@,
            idxs,
            idxs.len() as int,
            mode,
            self.allow_questionmark_equals,
            self.max_severity,
            check,
            self.data,
        )
    }

    /// Construct a new `Validator` for a [`Block`].
    pub fn new(block: &'a Block, data: &'a Everything) -> (vd: Self)
        ensures
            vd.block == block,
            vd.data == data,
            vd.known() == Seq::<Seq<char>>::empty(),
            !vd.accepted_tokens,
            !vd.accepted_blocks,
            !vd.accepted_block_fields,
            !vd.accepted_value_fields,
            vd.case_sensitive,
            !vd.allow_questionmark_equals,
            vd.max_severity == Severity::Error,
    {
        let vd = Validator {
            block,
            data,
            known_fields: Vec::new(),
            accepted_tokens: false,
            accepted_blocks: false,
            accepted_block_fields: false,
            accepted_value_fields: false,
            case_sensitive: true,
            allow_questionmark_equals: false,
            max_severity: Severity::Error,
        };
        assert(vd.known() =~= Seq::<Seq<char>>::empty());
        vd
    }

    /// Control whether the fields in this `Block` will be matched case-sensitively or not.
    pub fn set_case_sensitive(&mut self, cs: bool)
        ensures
            *final(self) == (Validator { case_sensitive: cs, ..*old(self) }),
    {
        self.case_sensitive = cs;
    }

    /// Whether this block can contain `?=` as well as `=` for assignments and definitions.
    pub fn set_allow_questionmark_equals(&mut self, allow_questionmark_equals: bool)
        ensures
            *final(self) == (Validator { allow_questionmark_equals, ..*old(self) }),
    {
        self.allow_questionmark_equals = allow_questionmark_equals;
    }

    pub fn set_max_severity(&mut self, max_severity: Severity)
        ensures
            *final(self) == (Validator { max_severity, ..*old(self) }),
    {
        self.max_severity = max_severity;
    }

    /// Report a field whose comparator is not `=` (or `?=` where that is allowed).
    pub(crate) fn expect_eq_qeq(&self, key: &Token, op: Comparator, errors: &mut Errors)
        ensures
            final(errors).logged(
                old(errors),
                eq_reports(self.allow_questionmark_equals, self.max_severity, key, op),
            ),
    {
        let sev = Severity::Error.at_most(self.max_severity);
        if self.allow_questionmark_equals {
            if !(op == Comparator::Equals(EqKind::Single) || op == Comparator::Equals(EqKind::Question)) {
                let a = concat_str("expected `", key.as_str());
                let b = concat_str(a.as_str(), " =` or `?=`, found `");
                let c = concat_str(b.as_str(), op.text());
                let msg = concat_str(c.as_str(), "`");
                report(ErrorKey::Validation, sev).msg(msg.as_str()).loc(key).push(errors);
            }
        } else {
            if op != Comparator::Equals(EqKind::Single) {
                let a = concat_str("expected `", key.as_str());
                let b = concat_str(a.as_str(), " =`, found `");
                let c = concat_str(b.as_str(), op.text());
                let msg = concat_str(c.as_str(), "`");
                report(ErrorKey::Validation, sev).msg(msg.as_str()).loc(key).push(errors);
            }
        }
    }

    /// Check a value.
    fn check_value(&self, check: &FieldCheck, t: &Token, errors: &mut Errors)
        requires
            check_wf(*check),
        ensures
            final(errors).logged(old(errors), value_check_reports(*check, t, self.data, self.max_severity)),
    {
        let sev = Severity::Error.at_most(self.max_severity);
        match check {
            FieldCheck::Bool => {
                if !(t.is("yes") || t.is("no") || t.is("YES") || t.is("NO")) {
                    report(ErrorKey::Validation, sev).msg("expected yes or no").loc(t).push(errors);
                }
            },
            FieldCheck::Integer => {
                t.expect_integer(errors);
            },
            FieldCheck::IntegerRange(low, high) => {
                check_integer_range(t, *low, *high, sev, errors);
            },
            FieldCheck::Numeric => {
                t.expect_number(errors);
            },
            FieldCheck::PreciseNumeric => {
                t.expect_precise_number(errors);
            },
            FieldCheck::Choice(choices) => {
                check_choice(choices, t, sev, errors);
            },
            FieldCheck::Item(itype) => {
                self.data.verify_exists_max_sev(*itype, t, self.max_severity, errors);
            },
            FieldCheck::ItemOrEmpty(itype) => {
                proof {
                    reveal_strlit("");
                }
                if !t.is("") {
                    proof {
                        if t@.len() == 0 {
                            assert(t@ =~= ""@);
                        }
                    }
                    self.data.verify_exists_max_sev(*itype, t, self.max_severity, errors);
                }
            },
            _ => {},
        }
    }

    /// Check a block.
    fn check_block(&self, check: &FieldCheck, b: &Block, errors: &mut Errors)
        requires
            check_wf(*check),
        ensures
            final(errors).logged(old(errors), block_check_reports(*check, b, self.data, self.max_severity)),
    {
        match check {
            FieldCheck::List => {
                b.iter_values_warn(errors);
            },
            FieldCheck::ListItems(itype) => {
                check_list_items(b, self.data, *itype, self.max_severity, errors);
            },
            FieldCheck::ListChoice(choices) => {
                check_list_choice(b, choices, self.max_severity, errors);
            },
            FieldCheck::ListExactly(kind, n) => {
                let mut vd = Validator::new(b, self.data);
                let ghost e0 = *errors;
                vd.req_tokens_exactly(*kind, *n, errors);
                let ghost e1 = *errors;
                vd.warn_remaining(errors);
                proof {
                    lemma_logged_trans(&e0, &e1, errors, tokens_exactly_reports(*kind, *n, b, Severity::Error), remaining_reports(b.v@, Seq::empty(), true, false, false, false, Severity::Error));
                }
            },
            _ => {},
        }
    }

    /// Check the value of a field.
    pub(crate) fn check_bv(&self, check: &FieldCheck, key: &Token, bv: &BV, errors: &mut Errors)
        requires
            check_wf(*check),
        ensures
            final(errors).logged(old(errors), check_reports(*check, key, bv, self.data, self.max_severity)),
    {
        let ghost start = *errors;
        match check {
            FieldCheck::Value | FieldCheck::Bool | FieldCheck::Integer
            | FieldCheck::IntegerRange(_, _) | FieldCheck::Numeric | FieldCheck::PreciseNumeric
            | FieldCheck::Choice(_) | FieldCheck::Item(_) | FieldCheck::ItemOrEmpty(_) => {
                let v = bv.expect_value(errors);
                let ghost mid = *errors;
                match v {
                    Some(t) => self.check_value(check, t, errors),
                    None => {},
                }
                proof {
                    let rest = match bv {
                        BV::Value(t) => value_check_reports(*check, &t, self.data, self.max_severity),
                        BV::Block(_) => Seq::empty(),
                    };
                    lemma_logged_trans(&start, &mid, errors, expect_value_reports(bv), rest);
                }
            },
            FieldCheck::Block | FieldCheck::List | FieldCheck::ListItems(_)
            | FieldCheck::ListChoice(_) | FieldCheck::ListExactly(_, _) => {
                let v = bv.expect_block(errors);
                let ghost mid = *errors;
                match v {
                    Some(b) => self.check_block(check, b, errors),
                    None => {},
                }
                proof {
                    let rest = match bv {
                        BV::Block(b) => block_check_reports(*check, &b, self.data, self.max_severity),
                        BV::Value(_) => Seq::empty(),
                    };
                    lemma_logged_trans(&start, &mid, errors, expect_block_reports(bv), rest);
                }
            },
            FieldCheck::Banned(name, only_for) => {
                let a = concat_str("`", name);
                let b = concat_str(a.as_str(), " = ` is only for ");
                let msg = concat_str(b.as_str(), only_for);
                let sev = Severity::Error.at_most(self.max_severity);
                report(ErrorKey::Validation, sev).msg(msg.as_str()).loc(key).push(errors);
            },
            FieldCheck::Replaced(name, replaced_by) => {
                let a = concat_str("`", name);
                let b = concat_str(a.as_str(), "` has been replaced by ");
                let msg = concat_str(b.as_str(), replaced_by);
                let sev = Severity::Error.at_most(self.max_severity);
                report(ErrorKey::Validation, sev).msg(msg.as_str()).loc(key).push(errors);
            },
            FieldCheck::Nothing => {},
        }
    }

    /// The indexes of the fields named `name`.
    fn named_field_indexes(&self, name: &str, cs: bool) -> (r: Vec<usize>)
        ensures
            r@.map_values(|i: usize| i as int) == named_fields(self.block.v@, name@, cs),
    {
        let mut r: Vec<usize> = Vec::new();
        let mut i: usize = 0;
        let ghost items = self.block.v@;
        while i < self.block.v.len()
            invariant
                items == self.block.v@,
                i <= items.len(),
                r@.map_values(|i: usize| i as int) == named_fields(items.take(i as int), name@, cs),
            decreases self.block.v.len() - i,
        {
            proof {
                lemma_named_fields_prefix(items, name@, cs, i as int);
            }
            let ghost before = r@;
            match &self.block.v[i] {
                BlockItem::Field(f) => {
                    let m = if cs {
                        f.0.is(name)
                    } else {
                        f.0.lowercase_is(name)
                    };
                    if m {
                        r.push(i);
                        assert(r@.map_values(|i: usize| i as int) =~= before.map_values(|i: usize| i as int).push(i as int));
                    }
                },
                _ => {},
            }
            i = i + 1;
        }
        assert(items.take(items.len() as int) =~= items);
        r
    }

    /// Report about one matching field `f`, where `prev` is the matching field before it, and
    /// check its value.
    fn check_one_field(
        &self,
        f: &Field,
        prev: Option<&Token>,
        mode: FieldMode,
        check: &FieldCheck,
        errors: &mut Errors,
    )
        requires
            check_wf(*check),
        ensures
            final(errors).logged(
                old(errors),
                one_field_reports(*f, opt_token(prev), mode, self.allow_questionmark_equals, self.max_severity, *check, self.data),
            ),
    {
        let ghost e0 = *errors;
        let ghost d = if mode.unique && prev is Some {
            seq![dup_report(&f.0, &opt_token(prev)->0)]
        } else {
            Seq::empty()
        };
        let ghost q = if mode.check_eq {
            eq_reports(self.allow_questionmark_equals, self.max_severity, &f.0, f.1)
        } else {
            Seq::empty()
        };
        if mode.eq_first {
            if mode.check_eq {
                self.expect_eq_qeq(&f.0, f.1, errors);
            }
            let ghost e1 = *errors;
            if mode.unique {
                if let Some(other) = prev {
                    dup_assign_error(&f.0, other, errors);
                }
            }
            proof {
                lemma_logged_trans(&e0, &e1, errors, q, d);
            }
        } else {
            if mode.unique {
                if let Some(other) = prev {
                    dup_assign_error(&f.0, other, errors);
                }
            }
            let ghost e1 = *errors;
            if mode.check_eq {
                self.expect_eq_qeq(&f.0, f.1, errors);
            }
            proof {
                lemma_logged_trans(&e0, &e1, errors, d, q);
            }
        }
        let ghost e2 = *errors;
        self.check_bv(check, &f.0, &f.2, errors);
        proof {
            let first = if mode.eq_first {
                q + d
            } else {
                d + q
            };
            lemma_logged_trans(&e0, &e2, errors, first, check_reports(*check, &f.0, &f.2, self.data, self.max_severity));
        }
    }

    /// Check all fields named `name`: record their keys as known, report duplicates and wrong
    /// comparators as `mode` says, and check their values.
    /// Returns the indexes of the fields.
    pub(crate) fn check_fields(
        &mut self,
        name: &str,
        cs: bool,
        mode: FieldMode,
        check: &FieldCheck,
        errors: &mut Errors,
    ) -> (r: Vec<usize>)
        requires
            check_wf(*check),
        ensures
            r@.map_values(|i: usize| i as int) == named_fields(old(self).block.v@, name@, cs),
            forall|q: int|
                0 <= q < r@.len() ==> (#[trigger] r@[q]) < old(self).block.v@.len()
                    && is_named_field(old(self).block.v@[r@[q] as int], name@, cs),
            final(self).same_settings(old(self)),
            final(self).same_flags(old(self)),
            final(self).known() == old(self).known() + keys_at(
                old(self).block.v@,
                named_fields(old(self).block.v@, name@, cs),
            ),
            final(errors).logged(old(errors), old(self).named_reports(name@, cs, mode, *check)),
    {
        let idxs = self.named_field_indexes(name, cs);
        let ghost items = self.block.v@;
        let ghost iv = idxs@.map_values(|i: usize| i as int);
        proof {
            lemma_named_fields(items, name@, cs);
        }
        let mut p: usize = 0;
        assert(keys_at(items, iv.take(0)) =~= Seq::<Seq<char>>::empty());
        assert(self.known() + keys_at(items, iv.take(0)) =~= self.known());
        while p < idxs.len()
            invariant
                items == self.block.v@,
                iv == idxs@.map_values(|i: usize| i as int),
                iv == named_fields(items, name@, cs),
                p <= idxs@.len(),
                check_wf(*check),
                self.same_settings(old(self)),
                self.same_flags(old(self)),
                forall|q: int|
                    0 <= q < iv.len() ==> 0 <= #[trigger] iv[q] < items.len() && is_named_field(items[iv[q]], name@, cs),
                self.known() == old(self).known() + keys_at(items, iv.take(p as int)),
                errors.logged(
                    old(errors),
                    fields_reports(items, iv, p as int, mode, self.allow_questionmark_equals, self.max_severity, *check, self.data),
                ),
            decreases idxs.len() - p,
        {
            let i = idxs[p];
            assert(iv[p as int] == i as int);
            let block: &'a Block = self.block;
            let prev: Option<&Token> = if p > 0 {
                let j = idxs[p - 1];
                assert(iv[p - 1] == j as int);
                match &block.v[j] {
                    BlockItem::Field(g) => Some(&g.0),
                    _ => None,
                }
            } else {
                None
            };
            assert(opt_token(prev) == prev_key(items, iv, p as int));
            match &block.v[i] {
                BlockItem::Field(f) => {
                    let ghost e0 = *errors;
                    let ghost k0 = self.known();
                    self.known_fields.push(f.0.s.clone());
                    proof {
                        assert(iv.take(p + 1) =~= iv.take(p as int).push(i as int));
                        assert(keys_at(items, iv.take(p + 1)) =~= keys_at(items, iv.take(p as int)).push(f.0@));
                        assert(self.known() =~= k0.push(f.0@));
                    }
                    self.check_one_field(f, prev, mode, check, errors);
                    proof {
                        let prior = fields_reports(items, iv, p as int, mode, self.allow_questionmark_equals, self.max_severity, *check, self.data);
                        lemma_logged_trans(old(errors), &e0, errors, prior, field_reports(items, iv, p as int, mode, self.allow_questionmark_equals, self.max_severity, *check, self.data));
                    }
                },
                _ => {
                    assert(false);
                },
            }
            p = p + 1;
        }
        assert(iv.take(iv.len() as int) =~= iv);
        assert forall|q: int| 0 <= q < idxs@.len() implies (#[trigger] idxs@[q]) < items.len()
            && is_named_field(items[idxs@[q] as int], name@, cs) by {
            assert(iv[q] == idxs@[q] as int);
        }
        idxs
    }

    /// The key of the first field named `name`, as a sequence of at most one key.
    pub open spec fn first_key(&self, name: Seq<char>, cs: bool) -> Seq<Seq<char>> {
        let nf = named_fields(self.block.v@, name, cs);
        if nf.len() > 0 {
            seq![field_at(self.block.v@, nf[0]).0@]
        } else {
            Seq::empty()
        }
    }

    /// Record the key of the first field named `name` as known.
    /// Returns true iff there is such a field.
    pub(crate) fn check_key(&mut self, name: &str, cs: bool) -> (found: bool)
        ensures
            found == (named_fields(old(self).block.v@, name@, cs).len() > 0),
            final(self).same_settings(old(self)),
            final(self).same_flags(old(self)),
            final(self).known() == old(self).known() + old(self).first_key(name@, cs),
    {
        let idxs = self.named_field_indexes(name, cs);
        let ghost items = self.block.v@;
        proof {
            lemma_named_fields(items, name@, cs);
        }
        let ghost k0 = self.known();
        if idxs.len() > 0 {
            let i = idxs[0];
            assert(idxs@.map_values(|i: usize| i as int)[0] == i as int);
            let block: &'a Block = self.block;
            match &block.v[i] {
                BlockItem::Field(f) => {
                    self.known_fields.push(f.0.s.clone());
                    assert(self.known() =~= k0 + seq![f.0@]);
                },
                _ => {
                    assert(false);
                },
            }
            true
        } else {
            assert(k0 + Seq::<Seq<char>>::empty() =~= k0);
            false
        }
    }

    /// Check all fields named `name` as [`Validator::check_fields`] does, and return them.
    pub(crate) fn matched_fields(
        &mut self,
        name: &str,
        cs: bool,
        mode: FieldMode,
        check: &FieldCheck,
        errors: &mut Errors,
    ) -> (r: Vec<&'a Field>)
        requires
            check_wf(*check),
        ensures
            deref_fields(r@) == matching(old(self).block.v@, name@, cs),
            final(self).block == old(self).block,
            final(self).fields_recorded(old(self), name@, cs),
            final(errors).logged(old(errors), old(self).named_reports(name@, cs, mode, *check)),
    {
        let block: &'a Block = self.block;
        let idxs = self.check_fields(name, cs, mode, check, errors);
        let ghost items = block.v@;
        let ghost nf = named_fields(items, name@, cs);
        let mut r: Vec<&'a Field> = Vec::new();
        let mut p: usize = 0;
        while p < idxs.len()
            invariant
                items == block.v@,
                p <= idxs@.len(),
                nf == named_fields(items, name@, cs),
                idxs@.map_values(|i: usize| i as int) == nf,
                forall|q: int|
                    0 <= q < idxs@.len() ==> (#[trigger] idxs@[q]) < items.len()
                        && is_named_field(items[idxs@[q] as int], name@, cs),
                r@.map_values(|f: &Field| *f) == matching(items, name@, cs).take(p as int),
            decreases idxs.len() - p,
        {
            let i = idxs[p];
            assert(idxs@.map_values(|i: usize| i as int).len() == idxs@.len());
            assert(nf[p as int] == i as int);
            let ghost before = r@;
            match &block.v[i] {
                BlockItem::Field(f) => {
                    r.push(f);
                    assert(matching(items, name@, cs)[p as int] == field_at(items, i as int));
                    assert(r@.map_values(|f: &Field| *f) =~= before.map_values(|f: &Field| *f).push(*f));
                    assert(r@.map_values(|f: &Field| *f) =~= matching(items, name@, cs).take(p + 1));
                },
                _ => {
                    assert(false);
                },
            }
            p = p + 1;
        }
        assert(idxs@.map_values(|i: usize| i as int).len() == idxs@.len());
        assert(matching(items, name@, cs).take(nf.len() as int) =~= matching(items, name@, cs));
        r
    }

    /// After checking the fields named `name`: the settings and acceptance flags are the same,
    /// and the keys of those fields have been added to the known ones.
    pub open spec fn fields_recorded(&self, old: &Validator, name: Seq<char>, cs: bool) -> bool {
        &&& self.same_settings(old)
        &&& self.same_flags(old)
        &&& self.known() == old.known() + keys_at(old.block.v@, named_fields(old.block.v@, name, cs))
    }

    /// Expect the block to hold exactly `expect` loose values of the kind, and report each that
    /// is not of the kind.
    pub fn req_tokens_exactly(&mut self, kind: TokenKind, expect: usize, errors: &mut Errors)
        ensures
            *final(self) == (Validator { accepted_tokens: true, ..*old(self) }),
            final(errors).logged(old(errors), tokens_exactly_reports(kind, expect, old(self).block, old(self).max_severity)),
    {
        self.accepted_tokens = true;
        let values = self.block.iter_values();
        let ghost ts = loose_values(self.block.v@);
        let mut found: usize = 0;
        let mut i: usize = 0;
        assert(ts.take(0) =~= Seq::<Token>::empty());
        while i < values.len()
            invariant
                i <= values@.len(),
                values@.map_values(|t: &Token| *t) == ts,
                found == count_kind(kind, ts.take(i as int)),
                found <= i,
                errors.logged(old(errors), kind_reports(kind, ts.take(i as int))),
            decreases values.len() - i,
        {
            proof {
                assert(ts.take(i + 1).drop_last() =~= ts.take(i as int));
                assert(ts[i as int] == *values@[i as int]);
            }
            let ghost e0 = *errors;
            let t = values[i];
            let ok = match kind {
                TokenKind::Numbers => t.expect_number(errors),
                TokenKind::PreciseNumbers => t.expect_precise_number(errors),
                TokenKind::Integers => t.expect_integer(errors).is_some(),
            };
            if ok {
                found = found + 1;
            }
            proof {
                lemma_logged_trans(old(errors), &e0, errors, kind_reports(kind, ts.take(i as int)), kind.reports(t));
            }
            i = i + 1;
        }
        assert(ts.take(values@.len() as int) =~= ts);
        let ghost e1 = *errors;
        if found != expect {
            let a = concat_str("expected ", usize_to_string(expect).as_str());
            let msg = match kind {
                TokenKind::Numbers | TokenKind::PreciseNumbers => concat_str(a.as_str(), " numbers"),
                TokenKind::Integers => concat_str(a.as_str(), " integers"),
            };
            let sev = Severity::Error.at_most(self.max_severity);
            report(ErrorKey::Validation, sev).msg(msg.as_str()).loc(self.block).push(errors);
        }
        proof {
            let rest = if count_kind(kind, ts) == expect {
                Seq::empty()
            } else {
                seq![
                    plain_report(
                        ErrorKey::Validation,
                        Severity::Error.spec_at_most(old(self).max_severity),
                        "expected "@ + nat_decimal(expect as nat) + kind.plural(),
                        old(self).block.loc,
                    ),
                ]
            };
            lemma_logged_trans(old(errors), &e1, errors, kind_reports(kind, ts), rest);
        }
    }

    /// Expect the block to hold exactly `expect` loose integers.
    pub fn req_tokens_integers_exactly(&mut self, expect: usize, errors: &mut Errors)
        ensures
            *final(self) == (Validator { accepted_tokens: true, ..*old(self) }),
            final(errors).logged(old(errors), tokens_exactly_reports(TokenKind::Integers, expect, old(self).block, old(self).max_severity)),
    {
        self.req_tokens_exactly(TokenKind::Integers, expect, errors)
    }

    /// Expect the block to hold exactly `expect` loose numbers with at most 5 decimals.
    pub fn req_tokens_numbers_exactly(&mut self, expect: usize, errors: &mut Errors)
        ensures
            *final(self) == (Validator { accepted_tokens: true, ..*old(self) }),
            final(errors).logged(old(errors), tokens_exactly_reports(TokenKind::Numbers, expect, old(self).block, old(self).max_severity)),
    {
        self.req_tokens_exactly(TokenKind::Numbers, expect, errors)
    }

    /// Expect the block to hold exactly `expect` loose numbers with any number of decimals.
    pub fn req_tokens_precise_numbers_exactly(&mut self, expect: usize, errors: &mut Errors)
        ensures
            *final(self) == (Validator { accepted_tokens: true, ..*old(self) }),
            final(errors).logged(old(errors), tokens_exactly_reports(TokenKind::PreciseNumbers, expect, old(self).block, old(self).max_severity)),
    {
        self.req_tokens_exactly(TokenKind::PreciseNumbers, expect, errors)
    }

    /// Does not warn about any unknown block contents anymore.
    pub fn no_warn_remaining(&mut self)
        ensures
            *final(self) == (Validator {
                accepted_tokens: true,
                accepted_blocks: true,
                accepted_block_fields: true,
                accepted_value_fields: true,
                ..*old(self)
            }),
    {
        self.accepted_block_fields = true;
        self.accepted_value_fields = true;
        self.accepted_tokens = true;
        self.accepted_blocks = true;
    }

    /// The reports about the items of the block that nothing asked for.
    pub open spec fn spec_remaining_reports(&self) -> Seq<ReportView> {
        remaining_reports(
            self.block.v@,
            self.known(),
            self.accepted_tokens,
            self.accepted_blocks,
            self.accepted_block_fields,
            self.accepted_value_fields,
            self.max_severity,
        )
    }

    /// Whether `key` has been requested.
    pub(crate) fn is_known(&self, key: &Token) -> (b: bool)
        ensures
            b == self.known().contains(key@),
    {
        let mut i: usize = 0;
        while i < self.known_fields.len()
            invariant
                i <= self.known_fields@.len(),
                forall|j: int| 0 <= j < i ==> #[trigger] self.known()[j] != key@,
            decreases self.known_fields.len() - i,
        {
            if str_eq(self.known_fields[i].as_str(), key.as_str()) {
                assert(self.known()[i as int] == key@);
                return true;
            }
            i = i + 1;
        }
        false
    }

    /// Warn about one item of the block if nothing asked for it.
    fn warn_remaining_item(&self, item: &BlockItem, sev: Severity, errors: &mut Errors) -> (warned: bool)
        requires
            sev == Severity::Error.spec_at_most(self.max_severity),
        ensures
            warned == (remaining_item_reports(item, self.known(), self.accepted_tokens, self.accepted_blocks, self.accepted_block_fields, self.accepted_value_fields, self.max_severity).len() > 0),
            final(errors).logged(old(errors), remaining_item_reports(item, self.known(), self.accepted_tokens, self.accepted_blocks, self.accepted_block_fields, self.accepted_value_fields, self.max_severity)),
    {
        match item {
            BlockItem::Field(Field(key, _, bv)) => {
                let accepted = match bv {
                    BV::Value(_) => self.accepted_value_fields,
                    BV::Block(_) => self.accepted_block_fields,
                };
                if !accepted && !self.is_known(key) {
                    let a = concat_str("unknown field `", key.as_str());
                    let msg = concat_str(a.as_str(), "`");
                    report(ErrorKey::UnknownField, sev).weak().msg(msg.as_str()).loc(key).push(errors);
                    true
                } else {
                    false
                }
            },
            BlockItem::Value(t) => {
                if !self.accepted_tokens {
                    let a = concat_str("found loose value ", t.as_str());
                    let msg = concat_str(a.as_str(), ", expected only `key =`");
                    report(ErrorKey::Structure, sev).msg(msg.as_str()).loc(t).push(errors);
                    true
                } else {
                    false
                }
            },
            BlockItem::Block(b) => {
                if !self.accepted_blocks {
                    report(ErrorKey::Structure, sev).msg("found sub-block, expected only `key =`").loc(b).push(errors);
                    true
                } else {
                    false
                }
            },
        }
    }

    /// Warn about any block contents that nothing asked for, and then no more.
    /// Returns true iff any warnings were emitted.
    #[verifier::rlimit(40)]
    pub fn warn_remaining(&mut self, errors: &mut Errors) -> (warned: bool)
        ensures
            *final(self) == (Validator {
                accepted_tokens: true,
                accepted_blocks: true,
                accepted_block_fields: true,
                accepted_value_fields: true,
                ..*old(self)
            }),
            warned == (old(self).spec_remaining_reports().len() > 0),
            final(errors).logged(old(errors), old(self).spec_remaining_reports()),
    {
        let mut warned = false;
        let sev = Severity::Error.at_most(self.max_severity);
        let items = &self.block.v;
        let mut i: usize = 0;
        let ghost known = self.known();
        assert(items@.take(0) =~= Seq::<BlockItem>::empty());
        while i < items.len()
            invariant
                i <= items@.len(),
                known == self.known(),
                *self == *old(self),
                items@ == self.block.v@,
                sev == Severity::Error.spec_at_most(self.max_severity),
                warned == (remaining_reports(items@.take(i as int), known, self.accepted_tokens, self.accepted_blocks, self.accepted_block_fields, self.accepted_value_fields, self.max_severity).len() > 0),
                errors.logged(old(errors), remaining_reports(items@.take(i as int), known, self.accepted_tokens, self.accepted_blocks, self.accepted_block_fields, self.accepted_value_fields, self.max_severity)),
            decreases items.len() - i,
        {
            proof {
                assert(items@.take(i + 1).drop_last() =~= items@.take(i as int));
            }
            let ghost e0 = *errors;
            let w = self.warn_remaining_item(&items[i], sev, errors);
            warned = warned || w;
            proof {
                let here = remaining_item_reports(&items@[i as int], known, self.accepted_tokens, self.accepted_blocks, self.accepted_block_fields, self.accepted_value_fields, self.max_severity);
                lemma_logged_trans(old(errors), &e0, errors, remaining_reports(items@.take(i as int), known, self.accepted_tokens, self.accepted_blocks, self.accepted_block_fields, self.accepted_value_fields, self.max_severity), here);
            }
            i = i + 1;
        }
        assert(items@.take(items@.len() as int) =~= items@);
        self.no_warn_remaining();
        warned
    }
}

/// Once everything is accepted, as [`Validator::no_warn_remaining`] leaves it, nothing in the
/// block is reported as remaining.
pub proof fn law_nothing_remains_when_all_accepted(items: Seq<BlockItem>, known: Seq<Seq<char>>, ms: Severity)
    ensures
        remaining_reports(items, known, true, true, true, true, ms) == Seq::<ReportView>::empty(),
    decreases items.len(),
{
    if items.len() > 0 {
        law_nothing_remains_when_all_accepted(items.drop_last(), known, ms);
        assert(remaining_reports(items, known, true, true, true, true, ms) =~= Seq::<ReportView>::empty());
    }
}

/// A field whose key a check has asked for is never reported as remaining.
pub proof fn law_known_fields_not_remaining(
    items: Seq<BlockItem>,
    known: Seq<Seq<char>>,
    tokens: bool,
    blocks: bool,
    ms: Severity,
)
    requires
        forall|i: int| 0 <= i < items.len() ==> (#[trigger] items[i]) is Field && known.contains(items[i]->Field_0.0@),
    ensures
        remaining_reports(items, known, tokens, blocks, false, false, ms) == Seq::<ReportView>::empty(),
    decreases items.len(),
{
    if items.len() > 0 {
        assert(items[items.len() - 1] == items.last());
        law_known_fields_not_remaining(items.drop_last(), known, tokens, blocks, ms);
        assert(remaining_reports(items, known, tokens, blocks, false, false, ms) =~= Seq::<ReportView>::empty());
    }
}

/// Every key that a check of the fields named `name` recorded as known names such a field.
pub proof fn law_recorded_keys_match(items: Seq<BlockItem>, name: Seq<char>, cs: bool)
    ensures
        forall|p: int|
            0 <= p < keys_at(items, named_fields(items, name, cs)).len() ==> key_matches(
                #[trigger] keys_at(items, named_fields(items, name, cs))[p],
                name,
                cs,
            ),
{
    lemma_named_fields(items, name, cs);
    let nf = named_fields(items, name, cs);
    assert forall|p: int| 0 <= p < keys_at(items, nf).len() implies key_matches(
        #[trigger] keys_at(items, nf)[p],
        name,
        cs,
    ) by {
        assert(is_named_field(items[nf[p]], name, cs));
    }
}

} // verus!
