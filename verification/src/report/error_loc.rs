//! The things that a report can point at.
use vstd::prelude::*;

use crate::block::{BV, Block, BlockItem, Field};
use crate::token::{Loc, Token};

verus! {

/// Something that a report can point at.
pub trait ErrorLoc: Sized {
    /// The location this points at.
    spec fn error_loc(&self) -> Loc;

    /// The length of the pointed-at text in chars, or 0 if unknown.
    fn loc_length(&self) -> usize;

    /// The location this points at.
    fn into_loc(self) -> (l: Loc)
        ensures
            l == self.error_loc(),
    ;
}

impl ErrorLoc for Loc {
    open spec fn error_loc(&self) -> Loc {
        *self
    }

    fn loc_length(&self) -> usize {
        0
    }

    fn into_loc(self) -> (l: Loc) {
        self
    }
}

impl ErrorLoc for &Token {
    open spec fn error_loc(&self) -> Loc {
        self.loc
    }

    fn loc_length(&self) -> (n: usize)
        ensures
            n == self@.len(),
    {
        self.char_len()
    }

    fn into_loc(self) -> (l: Loc) {
        self.loc
    }
}

impl ErrorLoc for &Block {
    open spec fn error_loc(&self) -> Loc {
        self.loc
    }

    fn loc_length(&self) -> usize {
        0
    }

    fn into_loc(self) -> (l: Loc) {
        self.loc
    }
}

impl ErrorLoc for &BV {
    open spec fn error_loc(&self) -> Loc {
        self.spec_loc()
    }

    fn loc_length(&self) -> (n: usize)
        ensures
            n == match self {
                BV::Value(t) => t@.len(),
                BV::Block(_) => 0,
            },
    {
        match self {
            BV::Value(t) => t.char_len(),
            BV::Block(_) => 0,
        }
    }

    fn into_loc(self) -> (l: Loc) {
        match self {
            BV::Value(t) => t.loc,
            BV::Block(b) => b.loc,
        }
    }
}

impl ErrorLoc for &Field {
    open spec fn error_loc(&self) -> Loc {
        self.0.loc
    }

    fn loc_length(&self) -> usize {
        0
    }

    fn into_loc(self) -> (l: Loc) {
        self.0.loc
    }
}

impl ErrorLoc for &BlockItem {
    open spec fn error_loc(&self) -> Loc {
        match self {
            BlockItem::Value(t) => t.loc,
            BlockItem::Block(b) => b.loc,
            BlockItem::Field(f) => f.0.loc,
        }
    }

    fn loc_length(&self) -> (n: usize)
        ensures
            n == match self {
                BlockItem::Value(t) => t@.len(),
                BlockItem::Block(_) => 0,
                BlockItem::Field(_) => 0,
            },
    {
        match self {
            BlockItem::Value(t) => t.char_len(),
            BlockItem::Block(_) => 0,
            BlockItem::Field(_) => 0,
        }
    }

    fn into_loc(self) -> (l: Loc) {
        match self {
            BlockItem::Value(t) => t.loc,
            BlockItem::Block(b) => b.loc,
            BlockItem::Field(f) => f.0.loc,
        }
    }
}

} // verus!
