//! A table for the pathnames used in `Loc`.
//!
//! A `Loc` only holds an index into this table, which makes it cheap to copy and to compare.
//! The table is filled in the order the caller stores paths, so if the caller stores a sorted list
//! of paths then the indexes are sorted too.
use vstd::prelude::*;

verus! {

/// An index into the [`PathTable`].
#[derive(Debug, Clone, Copy, PartialEq, Eq, Structural)]
pub struct PathTableIndex(pub u32);

/// The pathnames referred to by `Loc` values.
///
/// Each entry holds two paths: one relative to the root of its `FileKind`, and the full
/// filesystem path.
#[derive(Debug)]
pub struct PathTable {
    paths: Vec<(String, String)>,
}

impl PathTable {
    /// The stored entries, as (relative path, full path) pairs of chars.
    pub closed spec fn entries(&self) -> Seq<(Seq<char>, Seq<char>)> {
        self.paths@.map_values(|p: (String, String)| (p.0@, p.1@))
    }

    pub fn new() -> (t: Self)
        ensures
            t.entries() == Seq::<(Seq<char>, Seq<char>)>::empty(),
    {
        let t = PathTable { paths: Vec::new() };
        assert(t.entries() =~= Seq::<(Seq<char>, Seq<char>)>::empty());
        t
    }

    /// Number of stored paths.
    pub fn len(&self) -> (n: usize)
        ensures
            n == self.entries().len(),
    {
        self.paths.len()
    }

    /// Stores a path in the table and returns the index of the new entry.
    /// Indexes are handed out in ascending order.
    pub fn store(&mut self, local: String, fullpath: String) -> (idx: PathTableIndex)
        requires
            old(self).entries().len() < u32::MAX,
        ensures
            idx.0 == old(self).entries().len(),
            final(self).entries() == old(self).entries().push((local@, fullpath@)),
    {
        let n = self.paths.len();
        let idx = PathTableIndex(n as u32);
        self.paths.push((local, fullpath));
        assert(self.entries() =~= old(self).entries().push((local@, fullpath@)));
        idx
    }

    /// The path of the entry at `idx`, relative to its root.
    pub fn lookup_path(&self, idx: PathTableIndex) -> (p: &String)
        requires
            (idx.0 as int) < self.entries().len(),
        ensures
            p@ == self.entries()[idx.0 as int].0,
    {
        &self.paths[idx.0 as usize].0
    }

    /// The full filesystem path of the entry at `idx`.
    pub fn lookup_fullpath(&self, idx: PathTableIndex) -> (p: &String)
        requires
            (idx.0 as int) < self.entries().len(),
        ensures
            p@ == self.entries()[idx.0 as int].1,
    {
        &self.paths[idx.0 as usize].1
    }
}

/// Later stores never change earlier entries. Say `(l1, f1)` was stored at `i1`, giving `t1`;
/// any further stores turned `t1` into `tm`; then `(l2, f2)` was stored at `i2`, giving `t2`.
/// The earlier index is the smaller one, and both indexes still give back their own paths.
pub proof fn law_store_keeps_earlier(
    t0: &PathTable,
    l1: Seq<char>,
    f1: Seq<char>,
    i1: PathTableIndex,
    t1: &PathTable,
    tm: &PathTable,
    l2: Seq<char>,
    f2: Seq<char>,
    i2: PathTableIndex,
    t2: &PathTable,
)
    requires
        i1.0 == t0.entries().len(),
        t1.entries() == t0.entries().push((l1, f1)),
        t1.entries().is_prefix_of(tm.entries()),
        i2.0 == tm.entries().len(),
        t2.entries() == tm.entries().push((l2, f2)),
    ensures
        i1.0 < i2.0,
        t2.entries()[i1.0 as int] == (l1, f1),
        t2.entries()[i2.0 as int] == (l2, f2),
{
    assert(tm.entries()[i1.0 as int] == t1.entries()[i1.0 as int]);
}

} // verus!
