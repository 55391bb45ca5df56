//! [`MacroMap`] tracks [`Loc`] use across macro expansions.
use vstd::prelude::*;

use crate::token::Loc;

verus! {

/// An index into the [`MacroMap`]. Indexes start at 1.
#[derive(Debug, Clone, Copy, PartialEq, Eq, Structural)]
pub struct MacroMapIndex(pub u32);

/// A bijective map between link indexes and the locs of the macro invocations they stand for.
#[derive(Debug)]
pub struct MacroMap(MacroMapInner);

/// The storage of a [`MacroMap`]: the entry with index `i` is at position `i - 1`, so the next
/// index to hand out is one more than the number of entries; no loc is stored twice.
#[derive(Debug)]
pub struct MacroMapInner {
    locs: Vec<Loc>,
}

impl MacroMap {
    /// The stored locs; the loc with index `i` is at position `i - 1`.
    pub closed spec fn entries(&self) -> Seq<Loc> {
        self.0.locs@
    }

    pub closed spec fn wf(&self) -> bool {
        forall|i: int, j: int|
            0 <= i < j < self.0.locs@.len() ==> self.0.locs@[i] != self.0.locs@[j]
    }

    pub fn new() -> (m: Self)
        ensures
            m.wf(),
            m.entries() == Seq::<Loc>::empty(),
    {
        MacroMap(MacroMapInner { locs: Vec::new() })
    }

    /// Number of stored locs.
    pub fn len(&self) -> (n: usize)
        ensures
            n == self.entries().len(),
    {
        self.0.locs.len()
    }

    /// The loc stored under `index`, if any.
    pub open spec fn spec_get_loc(&self, index: MacroMapIndex) -> Option<Loc> {
        if 1 <= index.0 <= self.entries().len() {
            Some(self.entries()[index.0 - 1])
        } else {
            None
        }
    }

    /// The index under which `loc` is stored, if it is.
    pub open spec fn spec_get_index(&self, loc: Loc) -> Option<MacroMapIndex> {
        if self.entries().contains(loc) {
            Some(MacroMapIndex((self.entries().index_of(loc) + 1) as u32))
        } else {
            None
        }
    }

    /// Get the loc associated with the index.
    pub fn get_loc(&self, index: MacroMapIndex) -> (r: Option<Loc>)
        ensures
            r == self.spec_get_loc(index),
    {
        if index.0 >= 1 && (index.0 as usize) <= self.0.locs.len() {
            Some(self.0.locs[(index.0 - 1) as usize])
        } else {
            None
        }
    }

    /// Get the index associated with the loc.
    pub fn get_index(&self, loc: Loc) -> (r: Option<MacroMapIndex>)
        requires
            self.wf(),
            self.entries().len() < u32::MAX,
        ensures
            r == self.spec_get_index(loc),
            match r {
                Some(i) => 1 <= i.0 <= self.entries().len() && self.entries()[i.0 - 1] == loc,
                None => !self.entries().contains(loc),
            },
    {
        let mut i: usize = 0;
        while i < self.0.locs.len()
            invariant
                self.wf(),
                i <= self.0.locs@.len() < u32::MAX,
                forall|j: int| 0 <= j < i ==> self.0.locs@[j] != loc,
            decreases self.0.locs.len() - i,
        {
            if self.0.locs[i] == loc {
                proof {
                    lemma_index_of_unique(self, loc, i as int);
                }
                return Some(MacroMapIndex((i + 1) as u32));
            }
            i = i + 1;
        }
        None
    }

    /// Insert a loc and return its index. If the loc was already stored, return its existing
    /// index instead.
    pub fn insert_or_get_loc(&mut self, loc: Loc) -> (r: MacroMapIndex)
        requires
            old(self).wf(),
            old(self).entries().len() < u32::MAX - 1,
        ensures
            final(self).wf(),
            old(self).entries().contains(loc) ==> final(self).entries() == old(self).entries(),
            !old(self).entries().contains(loc) ==> final(self).entries() == old(
                self,
            ).entries().push(loc),
            1 <= r.0 <= final(self).entries().len(),
            final(self).entries()[r.0 - 1] == loc,
    {
        match self.get_index(loc) {
            Some(i) => i,
            None => {
                let n = self.0.locs.len();
                self.0.locs.push(loc);
                MacroMapIndex((n + 1) as u32)
            },
        }
    }

    /// Get the index of a loc, inserting it if it was not yet stored.
    pub fn get_or_insert_loc(&mut self, loc: Loc) -> (r: MacroMapIndex)
        requires
            old(self).wf(),
            old(self).entries().len() < u32::MAX - 1,
        ensures
            final(self).wf(),
            old(self).entries().contains(loc) ==> final(self).entries() == old(self).entries(),
            !old(self).entries().contains(loc) ==> final(self).entries() == old(
                self,
            ).entries().push(loc),
            1 <= r.0 <= final(self).entries().len(),
            final(self).entries()[r.0 - 1] == loc,
    {
        if let Some(index) = self.get_index(loc) {
            index
        } else {
            self.insert_or_get_loc(loc)
        }
    }

    /// Clear all entries. This invalidates all existing `MacroMapIndex` values.
    pub fn clear(&mut self)
        ensures
            final(self).wf(),
            final(self).entries() == Seq::<Loc>::empty(),
    {
        self.0.locs = Vec::new();
    }
}

/// In a well-formed map, the position of a stored loc is the one `index_of` gives.
proof fn lemma_index_of_unique(m: &MacroMap, loc: Loc, i: int)
    requires
        m.wf(),
        0 <= i < m.entries().len(),
        m.entries()[i] == loc,
    ensures
        m.entries().index_of(loc) == i,
{
    assert(m.entries().contains(loc));
    let j = m.entries().index_of(loc);
    assert(m.entries()[j] == loc);
    if j < i {
        assert(m.0.locs@[j] != m.0.locs@[i]);
    } else if i < j {
        assert(m.0.locs@[i] != m.0.locs@[j]);
    }
}

/// A loc stored in a well-formed map and the index it is stored under find each other: looking
/// up the index gives the loc, and looking up the loc gives the index.
pub proof fn law_store_then_look_up(m: &MacroMap, loc: Loc, index: MacroMapIndex)
    requires
        m.wf(),
        1 <= index.0 <= m.entries().len(),
        m.entries()[index.0 - 1] == loc,
    ensures
        m.spec_get_loc(index) == Some(loc),
        m.spec_get_index(loc) == Some(index),
{
    lemma_index_of_unique(m, loc, index.0 - 1);
}

/// In a well-formed map, two different stored locs have different indexes.
pub proof fn law_distinct_locs_distinct_indexes(m: &MacroMap, a: Loc, b: Loc)
    requires
        m.wf(),
        m.entries().len() < u32::MAX,
        a != b,
        m.entries().contains(a),
        m.entries().contains(b),
    ensures
        m.spec_get_index(a) is Some,
        m.spec_get_index(b) is Some,
        m.spec_get_index(a) != m.spec_get_index(b),
{
    let i = m.entries().index_of(a);
    let j = m.entries().index_of(b);
    assert(m.entries()[i] == a);
    assert(m.entries()[j] == b);
}

} // verus!
