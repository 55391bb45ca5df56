//! What kind of tooltipping to expect for effects and triggers. Some problems only matter if an
//! item is being tooltipped.
use vstd::prelude::*;

verus! {

/// The kind of tooltip that script is shown in.
#[derive(Copy, Clone, PartialEq, Eq, Debug, Hash, Structural)]
pub enum Tooltipped {
    /// Not tooltipped.
    No,
    /// Tooltipped in full.
    Yes,
    /// Only the failing conditions are tooltipped.
    FailuresOnly,
    /// Tooltipped in the past tense.
    Past,
}

impl Tooltipped {
    /// Whether there is a tooltip at all.
    pub fn is_tooltipped(self) -> (b: bool)
        ensures
            b == (self != Tooltipped::No),
    {
        !matches!(self, Tooltipped::No)
    }
}

} // verus!
