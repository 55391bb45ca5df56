//! The parser's memory of `@values` and `@:` definitions, as maps from names.
use vstd::prelude::*;

use crate::block::Block;
use crate::text::str_eq;
use crate::token::Token;

verus! {

/// The map that a list of (name, value) entries stands for: later entries shadow earlier ones.
pub open spec fn assoc<V>(s: Seq<(String, V)>) -> Map<Seq<char>, V>
    decreases s.len(),
{
    if s.len() == 0 {
        Map::empty()
    } else {
        assoc(s.drop_last()).insert(s.last().0@, s.last().1)
    }
}

/// Entries after `i` do not have the name `k`, so they do not change what `k` maps to.
proof fn lemma_assoc_tail<V>(s: Seq<(String, V)>, i: int, k: Seq<char>)
    requires
        0 <= i <= s.len(),
        forall|j: int| i <= j < s.len() ==> (#[trigger] s[j]).0@ != k,
    ensures
        assoc(s).contains_key(k) == assoc(s.take(i)).contains_key(k),
        assoc(s).contains_key(k) ==> assoc(s)[k] == assoc(s.take(i))[k],
    decreases s.len() - i,
{
    if i < s.len() {
        assert(s.take(i + 1).drop_last() =~= s.take(i));
        lemma_assoc_tail(s, i + 1, k);
    } else {
        assert(s.take(i) =~= s);
    }
}

/// The map of two lists of entries, one after the other.
pub proof fn lemma_assoc_append<V>(a: Seq<(String, V)>, b: Seq<(String, V)>)
    ensures
        assoc(a + b) == assoc(a).union_prefer_right(assoc(b)),
    decreases b.len(),
{
    if b.len() == 0 {
        assert(a + b =~= a);
        assert(assoc(a).union_prefer_right(Map::empty()) =~= assoc(a));
    } else {
        assert((a + b).drop_last() =~= a + b.drop_last());
        lemma_assoc_append(a, b.drop_last());
        assert(assoc(a + b) =~= assoc(a).union_prefer_right(assoc(b)));
    }
}

/// The index of the last entry named `key`, if there is one.
fn find_last<V>(v: &Vec<(String, V)>, key: &str) -> (r: Option<usize>)
    ensures
        match r {
            Some(i) => i < v@.len() && v@[i as int].0@ == key@ && assoc(v@).contains_key(key@)
                && assoc(v@)[key@] == v@[i as int].1,
            None => !assoc(v@).contains_key(key@),
        },
{
    let mut i = v.len();
    while i > 0
        invariant
            i <= v@.len(),
            forall|j: int| i <= j < v@.len() ==> (#[trigger] v@[j]).0@ != key@,
        decreases i,
    {
        if str_eq(v[i - 1].0.as_str(), key) {
            proof {
                lemma_assoc_tail(v@, i as int, key@);
                assert(v@.take(i as int).drop_last() =~= v@.take(i - 1));
            }
            return Some(i - 1);
        }
        i = i - 1;
    }
    proof {
        lemma_assoc_tail(v@, 0, key@);
    }
    None
}

/// The `@values` and `@:` definitions that a parse has seen.
#[derive(Debug)]
pub struct PdxfileMemory {
    variables: Vec<(String, Token)>,
    blocks: Vec<(String, Block)>,
}

impl PdxfileMemory {
    /// The reader variables, by name.
    pub closed spec fn vars(&self) -> Map<Seq<char>, Token> {
        assoc(self.variables@)
    }

    /// The defined blocks, by name.
    pub closed spec fn defined_blocks(&self) -> Map<Seq<char>, Block> {
        assoc(self.blocks@)
    }

    /// An empty memory.
    pub fn new() -> (m: PdxfileMemory)
        ensures
            m.vars() == Map::<Seq<char>, Token>::empty(),
            m.defined_blocks() == Map::<Seq<char>, Block>::empty(),
    {
        PdxfileMemory { variables: Vec::new(), blocks: Vec::new() }
    }

    /// Add everything `other` holds; where both define a name, `other` wins.
    pub fn merge(&mut self, other: PdxfileMemory)
        ensures
            final(self).vars() == old(self).vars().union_prefer_right(other.vars()),
            final(self).defined_blocks() == old(self).defined_blocks().union_prefer_right(other.defined_blocks()),
    {
        let ghost v0 = self.variables@;
        let ghost b0 = self.blocks@;
        let PdxfileMemory { variables: mut ov, blocks: mut ob } = other;
        let ghost ov0 = ov@;
        let ghost ob0 = ob@;
        self.variables.append(&mut ov);
        self.blocks.append(&mut ob);
        proof {
            lemma_assoc_append(v0, ov0);
            lemma_assoc_append(b0, ob0);
        }
    }

    /// The value of the reader variable `key`.
    fn get_variable(&self, key: &str) -> (r: Option<&Token>)
        ensures
            match r {
                Some(t) => self.vars().contains_key(key@) && *t == self.vars()[key@],
                None => !self.vars().contains_key(key@),
            },
    {
        match find_last(&self.variables, key) {
            Some(i) => Some(&self.variables[i].1),
            None => None,
        }
    }

    /// The block defined as `key`.
    fn get_block(&self, key: &str) -> (r: Option<&Block>)
        ensures
            match r {
                Some(b) => self.defined_blocks().contains_key(key@) && *b == self.defined_blocks()[key@],
                None => !self.defined_blocks().contains_key(key@),
            },
    {
        match find_last(&self.blocks, key) {
            Some(i) => Some(&self.blocks[i].1),
            None => None,
        }
    }

    /// Set the reader variable `key`.
    fn set_variable(&mut self, key: String, value: Token)
        ensures
            final(self).vars() == old(self).vars().insert(key@, value),
            final(self).defined_blocks() == old(self).defined_blocks(),
    {
        let ghost v0 = self.variables@;
        self.variables.push((key, value));
        assert(self.variables@.drop_last() =~= v0);
    }

    /// Define the block `key`.
    fn define_block(&mut self, key: String, block: Block)
        ensures
            final(self).defined_blocks() == old(self).defined_blocks().insert(key@, block),
            final(self).vars() == old(self).vars(),
    {
        let ghost b0 = self.blocks@;
        self.blocks.push((key, block));
        assert(self.blocks@.drop_last() =~= b0);
    }
}

/// The memory of a parse: what earlier files defined, and what this one defines.
pub struct CombinedMemory<'global> {
    global: &'global PdxfileMemory,
    local: PdxfileMemory,
}

impl<'global> CombinedMemory<'global> {
    /// What earlier files defined.
    pub closed spec fn global(&self) -> &'global PdxfileMemory {
        self.global
    }

    /// What this file defines.
    pub closed spec fn local(&self) -> &PdxfileMemory {
        &self.local
    }

    /// The value of the reader variable `key`: the local one if there is one, else the global
    /// one.
    pub open spec fn var_lookup(&self, key: Seq<char>) -> Option<Token> {
        if self.local().vars().contains_key(key) {
            Some(self.local().vars()[key])
        } else if self.global().vars().contains_key(key) {
            Some(self.global().vars()[key])
        } else {
            None
        }
    }

    /// The block defined as `key`: the local one if there is one, else the global one.
    pub open spec fn block_lookup(&self, key: Seq<char>) -> Option<Block> {
        if self.local().defined_blocks().contains_key(key) {
            Some(self.local().defined_blocks()[key])
        } else if self.global().defined_blocks().contains_key(key) {
            Some(self.global().defined_blocks()[key])
        } else {
            None
        }
    }

    /// A memory with nothing defined locally yet.
    pub fn new(global: &'global PdxfileMemory) -> (m: Self)
        ensures
            m.global() == global,
            m.local().vars() == Map::<Seq<char>, Token>::empty(),
            m.local().defined_blocks() == Map::<Seq<char>, Block>::empty(),
    {
        CombinedMemory { global, local: PdxfileMemory::new() }
    }

    /// A memory with `local` as what this file defines.
    pub fn from_local(global: &'global PdxfileMemory, local: PdxfileMemory) -> (m: Self)
        ensures
            m.global() == global,
            *m.local() == local,
    {
        CombinedMemory { global, local }
    }

    /// The value of the reader variable `key`: the local one if there is one, else the global one.
    pub fn get_variable(&self, key: &str) -> (r: Option<&Token>)
        ensures
            match r {
                Some(t) => self.var_lookup(key@) == Some(*t),
                None => self.var_lookup(key@) is None,
            },
    {
        match self.local.get_variable(key) {
            Some(t) => Some(t),
            None => self.global.get_variable(key),
        }
    }

    /// Whether the reader variable `key` is defined, locally or globally.
    pub fn has_variable(&self, key: &str) -> (b: bool)
        ensures
            b == (self.local().vars().contains_key(key@) || self.global().vars().contains_key(key@)),
    {
        self.get_variable(key).is_some()
    }

    /// Set the reader variable `key` locally.
    pub fn set_variable(&mut self, key: String, value: Token)
        ensures
            final(self).global() == old(self).global(),
            final(self).local().vars() == old(self).local().vars().insert(key@, value),
            final(self).local().defined_blocks() == old(self).local().defined_blocks(),
    {
        self.local.set_variable(key, value);
    }

    /// The block defined as `key`: the local one if there is one, else the global one.
    pub fn get_block(&self, key: &str) -> (r: Option<&Block>)
        ensures
            match r {
                Some(b) => self.block_lookup(key@) == Some(*b),
                None => self.block_lookup(key@) is None,
            },
    {
        match self.local.get_block(key) {
            Some(b) => Some(b),
            None => self.global.get_block(key),
        }
    }

    /// Whether the block `key` is defined, locally or globally.
    pub fn has_block(&self, key: &str) -> (b: bool)
        ensures
            b == (self.local().defined_blocks().contains_key(key@) || self.global().defined_blocks().contains_key(key@)),
    {
        self.get_block(key).is_some()
    }

    /// Define the block `key` locally.
    pub fn define_block(&mut self, key: String, block: Block)
        ensures
            final(self).global() == old(self).global(),
            final(self).local().defined_blocks() == old(self).local().defined_blocks().insert(key@, block),
            final(self).local().vars() == old(self).local().vars(),
    {
        self.local.define_block(key, block);
    }

    /// What earlier files defined.
    pub fn as_global(&self) -> (g: &PdxfileMemory)
        ensures
            g == self.global(),
    {
        self.global
    }
}

/// After setting the reader variable `key` to `value`, looking it up gives `value`, and looking
/// up any other name gives what it gave before.
pub proof fn law_variable_read_after_write(
    before: &CombinedMemory,
    after: &CombinedMemory,
    key: Seq<char>,
    value: Token,
    other: Seq<char>,
)
    requires
        after.global() == before.global(),
        after.local().vars() == before.local().vars().insert(key, value),
    ensures
        after.var_lookup(key) == Some(value),
        other != key ==> after.var_lookup(other) == before.var_lookup(other),
{
}

/// After defining the block `key`, looking it up gives that block, and looking up any other
/// name gives what it gave before.
pub proof fn law_block_read_after_write(
    before: &CombinedMemory,
    after: &CombinedMemory,
    key: Seq<char>,
    block: Block,
    other: Seq<char>,
)
    requires
        after.global() == before.global(),
        after.local().defined_blocks() == before.local().defined_blocks().insert(key, block),
    ensures
        after.block_lookup(key) == Some(block),
        other != key ==> after.block_lookup(other) == before.block_lookup(other),
{
}

/// A local definition shadows a global one of the same name.
pub proof fn law_local_shadows_global(m: &CombinedMemory, key: Seq<char>)
    requires
        m.local().vars().contains_key(key),
    ensures
        m.var_lookup(key) == Some(m.local().vars()[key]),
{
}

} // verus!
