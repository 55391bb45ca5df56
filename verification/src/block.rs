//! The parsed form of game script: blocks of fields, loose values and loose sub-blocks.
use vstd::prelude::*;

use crate::report::builder::{err, simple_report};
use crate::report::error_key::ErrorKey;
use crate::report::errors::{Errors, lemma_logged_trans};
use crate::report::report_struct::{Confidence, ReportView, Severity};
use crate::token::{Loc, Token};

verus! {

/// The kinds of `=` comparator.
#[derive(Clone, Copy, Debug, PartialEq, Eq, Structural)]
pub enum EqKind {
    /// `=`
    Single,
    /// `==`
    Double,
    /// `?=`
    Question,
}

/// The comparator between a key and its value.
#[derive(Clone, Copy, Debug, PartialEq, Eq, Structural)]
pub enum Comparator {
    Equals(EqKind),
    /// `!=`
    NotEquals,
    /// `<`
    LessThan,
    /// `>`
    GreaterThan,
    /// `<=`
    AtMost,
    /// `>=`
    AtLeast,
}

impl Comparator {
    /// How the comparator is written in script.
    pub open spec fn spec_text(self) -> Seq<char> {
        match self {
            Comparator::Equals(EqKind::Single) => "="@,
            Comparator::Equals(EqKind::Double) => "=="@,
            Comparator::Equals(EqKind::Question) => "?="@,
            Comparator::NotEquals => "!="@,
            Comparator::LessThan => "<"@,
            Comparator::GreaterThan => ">"@,
            Comparator::AtMost => "<="@,
            Comparator::AtLeast => ">="@,
        }
    }

    /// How the comparator is written in script.
    pub fn text(self) -> (s: &'static str)
        ensures
            s@ == self.spec_text(),
    {
        match self {
            Comparator::Equals(EqKind::Single) => "=",
            Comparator::Equals(EqKind::Double) => "==",
            Comparator::Equals(EqKind::Question) => "?=",
            Comparator::NotEquals => "!=",
            Comparator::LessThan => "<",
            Comparator::GreaterThan => ">",
            Comparator::AtMost => "<=",
            Comparator::AtLeast => ">=",
        }
    }
}

/// A block or a value.
#[derive(Debug)]
pub enum BV {
    Value(Token),
    Block(Block),
}

/// A `key = value` or `key = { block }` item.
#[derive(Debug)]
pub struct Field(pub Token, pub Comparator, pub BV);

/// One item of a block.
#[derive(Debug)]
pub enum BlockItem {
    /// A loose value.
    Value(Token),
    /// A loose sub-block.
    Block(Block),
    /// A field with a key.
    Field(Field),
}

/// A `{ ... }` block of script, or a whole file.
#[derive(Debug)]
pub struct Block {
    /// The items in the order they appear.
    pub v: Vec<BlockItem>,
    /// The location of the opening brace, or of the file.
    pub loc: Loc,
}

impl Block {
    pub fn new(loc: Loc) -> (b: Block)
        ensures
            b.v@ == Seq::<BlockItem>::empty(),
            b.loc == loc,
    {
        Block { v: Vec::new(), loc }
    }

    /// Add a loose value.
    pub fn add_value(&mut self, value: Token)
        ensures
            final(self).v@ == old(self).v@.push(BlockItem::Value(value)),
            final(self).loc == old(self).loc,
    {
        self.v.push(BlockItem::Value(value));
    }

    /// Add a loose sub-block.
    pub fn add_block(&mut self, block: Block)
        ensures
            final(self).v@ == old(self).v@.push(BlockItem::Block(block)),
            final(self).loc == old(self).loc,
    {
        self.v.push(BlockItem::Block(block));
    }

    /// Add a field.
    pub fn add_key_bv(&mut self, key: Token, op: Comparator, value: BV)
        ensures
            final(self).v@ == old(self).v@.push(BlockItem::Field(Field(key, op, value))),
            final(self).loc == old(self).loc,
    {
        self.v.push(BlockItem::Field(Field(key, op, value)));
    }

    /// Number of items in the block.
    pub fn num_items(&self) -> (n: usize)
        ensures
            n == self.v@.len(),
    {
        self.v.len()
    }
}

/// The index of the last field of `items` whose key is `name`, if any, with its value.
pub open spec fn last_field_bv(items: Seq<BlockItem>, name: Seq<char>) -> Option<BV> {
    match last_key_index(items, name) {
        Some(i) => Some(items[i]->Field_0.2),
        None => None,
    }
}

/// The first `key = value` assignment among `items`, if any.
pub open spec fn first_assignment(items: Seq<BlockItem>) -> Option<(Token, Token)>
    decreases items.len(),
{
    if items.len() == 0 {
        None
    } else {
        match items[0] {
            BlockItem::Field(Field(key, Comparator::Equals(EqKind::Single), BV::Value(t))) => Some((key, t)),
            _ => first_assignment(items.drop_first()),
        }
    }
}

/// The values of the assignments `name = value` among `items`, in order.
pub open spec fn field_values(items: Seq<BlockItem>, name: Seq<char>) -> Seq<Token>
    decreases items.len(),
{
    if items.len() == 0 {
        Seq::empty()
    } else {
        let rest = field_values(items.drop_last(), name);
        match items.last() {
            BlockItem::Field(Field(k, _, BV::Value(t))) => if k@ == name {
                rest.push(t)
            } else {
                rest
            },
            _ => rest,
        }
    }
}

impl Block {
    /// The value of the last field `name`, if that field is an assignment `name = value`.
    pub fn get_field_value(&self, name: &str) -> (r: Option<&Token>)
        ensures
            match r {
                Some(t) => last_field_bv(self.v@, name@) == Some(BV::Value(*t)),
                None => !(last_field_bv(self.v@, name@) matches Some(BV::Value(_))),
            },
    {
        let mut i = self.v.len();
        assert(self.v@.take(self.v@.len() as int) =~= self.v@);
        while i > 0
            invariant
                i <= self.v@.len(),
                last_key_index(self.v@, name@) == last_key_index(self.v@.take(i as int), name@),
            decreases i,
        {
            proof {
                assert(self.v@.take(i as int).drop_last() =~= self.v@.take(i - 1));
            }
            match &self.v[i - 1] {
                BlockItem::Field(f) => {
                    if f.0.is(name) {
                        return match &f.2 {
                            BV::Value(t) => Some(t),
                            BV::Block(_) => None,
                        };
                    }
                },
                _ => {},
            }
            i = i - 1;
        }
        None
    }

    /// The values of all the assignments `name = value`, in order.
    pub fn get_field_values(&self, name: &str) -> (r: Vec<&Token>)
        ensures
            r@.map_values(|t: &Token| *t) == field_values(self.v@, name@),
    {
        let mut r: Vec<&Token> = Vec::new();
        let mut i: usize = 0;
        assert(r@.map_values(|t: &Token| *t) =~= Seq::<Token>::empty());
        while i < self.v.len()
            invariant
                i <= self.v@.len(),
                r@.map_values(|t: &Token| *t) == field_values(self.v@.take(i as int), name@),
            decreases self.v.len() - i,
        {
            proof {
                assert(self.v@.take(i + 1).drop_last() =~= self.v@.take(i as int));
            }
            let ghost before = r@;
            match &self.v[i] {
                BlockItem::Field(Field(key, _, BV::Value(t))) => {
                    if key.is(name) {
                        r.push(t);
                        assert(r@.map_values(|t: &Token| *t) =~= before.map_values(|t: &Token| *t).push(*t));
                    }
                },
                _ => {},
            }
            i = i + 1;
        }
        assert(self.v@.take(self.v@.len() as int) =~= self.v@);
        r
    }

    /// The block of the last field `name`, if that field has a block.
    pub fn get_field_block(&self, name: &str) -> (r: Option<&Block>)
        ensures
            match r {
                Some(b) => last_field_bv(self.v@, name@) == Some(BV::Block(*b)),
                None => !(last_field_bv(self.v@, name@) matches Some(BV::Block(_))),
            },
    {
        let mut i = self.v.len();
        assert(self.v@.take(self.v@.len() as int) =~= self.v@);
        while i > 0
            invariant
                i <= self.v@.len(),
                last_key_index(self.v@, name@) == last_key_index(self.v@.take(i as int), name@),
            decreases i,
        {
            proof {
                assert(self.v@.take(i as int).drop_last() =~= self.v@.take(i - 1));
            }
            match &self.v[i - 1] {
                BlockItem::Field(f) => {
                    if f.0.is(name) {
                        return match &f.2 {
                            BV::Value(_) => None,
                            BV::Block(b) => Some(b),
                        };
                    }
                },
                _ => {},
            }
            i = i - 1;
        }
        None
    }

    /// The loose values of the block of the last field `name`, if that field has a block.
    pub fn get_field_list(&self, name: &str) -> (r: Option<Vec<Token>>)
        ensures
            match last_field_bv(self.v@, name@) {
                Some(BV::Block(b)) => r matches Some(v) && v@ == loose_values(b.v@),
                _ => r is None,
            },
    {
        match self.get_field_block(name) {
            Some(b) => {
                let values = b.iter_values();
                let mut v: Vec<Token> = Vec::new();
                let mut i: usize = 0;
                while i < values.len()
                    invariant
                        i <= values@.len(),
                        v@ == values@.map_values(|t: &Token| *t).take(i as int),
                    decreases values@.len() - i,
                {
                    v.push(values[i].clone());
                    proof {
                        assert(v@ =~= values@.map_values(|t: &Token| *t).take(i + 1));
                    }
                    i = i + 1;
                }
                proof {
                    assert(values@.map_values(|t: &Token| *t).take(i as int) =~= values@.map_values(|t: &Token| *t));
                }
                Some(v)
            },
            None => None,
        }
    }

    /// The first `key = value` assignment of the block, if any.
    pub fn first_assignment(&self) -> (r: Option<(&Token, &Token)>)
        ensures
            match r {
                Some((k, t)) => first_assignment(self.v@) == Some((*k, *t)),
                None => first_assignment(self.v@) is None,
            },
    {
        let mut i: usize = 0;
        assert(self.v@.skip(0) =~= self.v@);
        while i < self.v.len()
            invariant
                i <= self.v@.len(),
                first_assignment(self.v@) == first_assignment(self.v@.skip(i as int)),
            decreases self.v.len() - i,
        {
            proof {
                assert(self.v@.skip(i as int).drop_first() =~= self.v@.skip(i + 1));
                assert(self.v@.skip(i as int)[0] == self.v@[i as int]);
            }
            match &self.v[i] {
                BlockItem::Field(Field(key, Comparator::Equals(EqKind::Single), BV::Value(t))) => {
                    return Some((key, t));
                },
                _ => {},
            }
            i = i + 1;
        }
        assert(self.v@.skip(i as int) =~= Seq::<BlockItem>::empty());
        None
    }
}

impl BV {
    pub open spec fn spec_value(&self) -> Option<&Token> {
        match self {
            BV::Value(t) => Some(t),
            BV::Block(_) => None,
        }
    }

    pub fn get_value(&self) -> (r: Option<&Token>)
        ensures
            r == self.spec_value(),
    {
        match self {
            BV::Value(t) => Some(t),
            BV::Block(_) => None,
        }
    }

    pub fn get_block(&self) -> (r: Option<&Block>)
        ensures
            r == (match self {
                BV::Value(_) => None,
                BV::Block(b) => Some(b),
            }),
    {
        match self {
            BV::Value(_) => None,
            BV::Block(b) => Some(b),
        }
    }

    /// The loc of the value or block.
    pub open spec fn spec_loc(&self) -> Loc {
        match self {
            BV::Value(t) => t.loc,
            BV::Block(b) => b.loc,
        }
    }
}

/// A structure report at `loc`.
pub open spec fn structure_report(msg: Seq<char>, loc: Loc) -> ReportView {
    simple_report(ErrorKey::Structure, Severity::Error, Confidence::Reasonable, msg, None, loc)
}

/// The reports of expecting a value where `bv` is.
pub open spec fn expect_value_reports(bv: &BV) -> Seq<ReportView> {
    match bv {
        BV::Value(_) => Seq::empty(),
        BV::Block(b) => seq![structure_report("expected value, not block"@, b.loc)],
    }
}

/// The reports of expecting a block where `bv` is.
pub open spec fn expect_block_reports(bv: &BV) -> Seq<ReportView> {
    match bv {
        BV::Value(t) => seq![structure_report("expected block, not value"@, t.loc)],
        BV::Block(_) => Seq::empty(),
    }
}

/// The report about a block item that is not a loose value, if `it` is not one.
pub open spec fn not_value_reports(it: &BlockItem) -> Seq<ReportView> {
    match it {
        BlockItem::Value(_) => Seq::empty(),
        BlockItem::Block(b) => seq![structure_report("unexpected block"@, b.loc)],
        BlockItem::Field(f) => seq![structure_report("unexpected field"@, f.0.loc)],
    }
}

/// The loose values among `items`.
pub open spec fn loose_values(items: Seq<BlockItem>) -> Seq<Token>
    decreases items.len(),
{
    if items.len() == 0 {
        Seq::empty()
    } else {
        let rest = loose_values(items.drop_last());
        match items.last() {
            BlockItem::Value(t) => rest.push(t),
            _ => rest,
        }
    }
}

/// The loose sub-blocks among `items`.
pub open spec fn loose_blocks(items: Seq<BlockItem>) -> Seq<Block>
    decreases items.len(),
{
    if items.len() == 0 {
        Seq::empty()
    } else {
        let rest = loose_blocks(items.drop_last());
        match items.last() {
            BlockItem::Block(b) => rest.push(b),
            _ => rest,
        }
    }
}

/// The reports about the items of `items` that are not loose values.
pub open spec fn values_warn_reports(items: Seq<BlockItem>) -> Seq<ReportView>
    decreases items.len(),
{
    if items.len() == 0 {
        Seq::empty()
    } else {
        values_warn_reports(items.drop_last()) + not_value_reports(&items.last())
    }
}

/// The index of the last field of `items` whose key is `name`, if any.
pub open spec fn last_key_index(items: Seq<BlockItem>, name: Seq<char>) -> Option<int>
    decreases items.len(),
{
    if items.len() == 0 {
        None
    } else {
        match items.last() {
            BlockItem::Field(f) => if f.0@ == name {
                Some(items.len() - 1)
            } else {
                last_key_index(items.drop_last(), name)
            },
            _ => last_key_index(items.drop_last(), name),
        }
    }
}

impl BV {
    /// The value, reporting if this is a block.
    pub fn expect_value(&self, errors: &mut Errors) -> (r: Option<&Token>)
        ensures
            r == self.spec_value(),
            final(errors).logged(old(errors), expect_value_reports(self)),
    {
        match self {
            BV::Value(t) => Some(t),
            BV::Block(b) => {
                err(ErrorKey::Structure).msg("expected value, not block").loc(b).push(errors);
                None
            },
        }
    }

    /// The block, reporting if this is a value.
    pub fn expect_block(&self, errors: &mut Errors) -> (r: Option<&Block>)
        ensures
            r == (match self {
                BV::Value(_) => None,
                BV::Block(b) => Some(b),
            }),
            final(errors).logged(old(errors), expect_block_reports(self)),
    {
        match self {
            BV::Value(t) => {
                err(ErrorKey::Structure).msg("expected block, not value").loc(t).push(errors);
                None
            },
            BV::Block(b) => Some(b),
        }
    }
}

impl Block {
    /// The loose values of the block.
    pub fn iter_values(&self) -> (r: Vec<&Token>)
        ensures
            r@.map_values(|t: &Token| *t) == loose_values(self.v@),
    {
        let mut r: Vec<&Token> = Vec::new();
        let mut i: usize = 0;
        assert(r@.map_values(|t: &Token| *t) =~= Seq::<Token>::empty());
        while i < self.v.len()
            invariant
                i <= self.v@.len(),
                r@.map_values(|t: &Token| *t) == loose_values(self.v@.take(i as int)),
            decreases self.v.len() - i,
        {
            proof {
                assert(self.v@.take(i + 1).drop_last() =~= self.v@.take(i as int));
            }
            let ghost before = r@;
            match &self.v[i] {
                BlockItem::Value(t) => {
                    r.push(t);
                    assert(r@.map_values(|t: &Token| *t) =~= before.map_values(|t: &Token| *t).push(*t));
                },
                _ => {},
            }
            i = i + 1;
        }
        assert(self.v@.take(self.v@.len() as int) =~= self.v@);
        r
    }

    /// The loose sub-blocks of the block.
    pub fn iter_blocks(&self) -> (r: Vec<&Block>)
        ensures
            r@.map_values(|b: &Block| *b) == loose_blocks(self.v@),
    {
        let mut r: Vec<&Block> = Vec::new();
        let mut i: usize = 0;
        assert(r@.map_values(|b: &Block| *b) =~= Seq::<Block>::empty());
        while i < self.v.len()
            invariant
                i <= self.v@.len(),
                r@.map_values(|b: &Block| *b) == loose_blocks(self.v@.take(i as int)),
            decreases self.v.len() - i,
        {
            proof {
                assert(self.v@.take(i + 1).drop_last() =~= self.v@.take(i as int));
            }
            let ghost before = r@;
            match &self.v[i] {
                BlockItem::Block(b) => {
                    r.push(b);
                    assert(r@.map_values(|b: &Block| *b) =~= before.map_values(|b: &Block| *b).push(*b));
                },
                _ => {},
            }
            i = i + 1;
        }
        assert(self.v@.take(self.v@.len() as int) =~= self.v@);
        r
    }

    /// The loose values of the block, reporting every other item.
    pub fn iter_values_warn(&self, errors: &mut Errors) -> (r: Vec<&Token>)
        ensures
            r@.map_values(|t: &Token| *t) == loose_values(self.v@),
            final(errors).logged(old(errors), values_warn_reports(self.v@)),
    {
        let mut r: Vec<&Token> = Vec::new();
        let mut i: usize = 0;
        assert(r@.map_values(|t: &Token| *t) =~= Seq::<Token>::empty());
        assert(self.v@.take(0) =~= Seq::<BlockItem>::empty());
        while i < self.v.len()
            invariant
                i <= self.v@.len(),
                r@.map_values(|t: &Token| *t) == loose_values(self.v@.take(i as int)),
                errors.logged(old(errors), values_warn_reports(self.v@.take(i as int))),
            decreases self.v.len() - i,
        {
            proof {
                assert(self.v@.take(i + 1).drop_last() =~= self.v@.take(i as int));
            }
            let ghost mid = *errors;
            let ghost before = r@;
            match &self.v[i] {
                BlockItem::Value(t) => {
                    r.push(t);
                    assert(r@.map_values(|t: &Token| *t) =~= before.map_values(|t: &Token| *t).push(*t));
                },
                BlockItem::Block(b) => {
                    err(ErrorKey::Structure).msg("unexpected block").loc(b).push(errors);
                },
                BlockItem::Field(f) => {
                    err(ErrorKey::Structure).msg("unexpected field").loc(&f.0).push(errors);
                },
            }
            proof {
                if self.v@[i as int] is Value {
                    assert(errors.logged(&mid, Seq::<ReportView>::empty()));
                }
                lemma_logged_trans(old(errors), &mid, errors, values_warn_reports(self.v@.take(i as int)), not_value_reports(&self.v@[i as int]));
            }
            i = i + 1;
        }
        assert(self.v@.take(self.v@.len() as int) =~= self.v@);
        r
    }

    /// The key of the last `name = ...` field.
    pub fn get_key(&self, name: &str) -> (r: Option<&Token>)
        ensures
            r == (match last_key_index(self.v@, name@) {
                Some(i) => Some(&self.v@[i]->Field_0.0),
                None => None,
            }),
    {
        let mut i = self.v.len();
        assert(self.v@.take(self.v@.len() as int) =~= self.v@);
        while i > 0
            invariant
                i <= self.v@.len(),
                last_key_index(self.v@, name@) == last_key_index(self.v@.take(i as int), name@),
            decreases i,
        {
            proof {
                assert(self.v@.take(i as int).drop_last() =~= self.v@.take(i - 1));
            }
            match &self.v[i - 1] {
                BlockItem::Field(f) => {
                    if f.0.is(name) {
                        return Some(&f.0);
                    }
                },
                _ => {},
            }
            i = i - 1;
        }
        None
    }
}

} // verus!
