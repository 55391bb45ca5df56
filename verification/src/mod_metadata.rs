//! The `.metadata/metadata.json` files that describe Victoria 3 mods.
use vstd::prelude::*;

use crate::block::{Block, BV, last_field_bv, loose_values};
use crate::modfile::token_strings;
use crate::text::string_of;
use crate::token::Token;

verus! {

/// The texts of the tokens.
pub open spec fn token_texts(v: Seq<Token>) -> Seq<Seq<char>> {
    v.map_values(|t: Token| t@)
}

/// The paths that a mod's metadata says it replaces: the loose values of
/// `game_custom_data = { replace_paths = { ... } }`, where each is the last field of its name and
/// has a block; otherwise none.
pub open spec fn metadata_replace_paths(block: Block) -> Seq<Seq<char>> {
    match last_field_bv(block.v@, "game_custom_data"@) {
        Some(BV::Block(custom)) => match last_field_bv(custom.v@, "replace_paths"@) {
            Some(BV::Block(list)) => token_texts(loose_values(list.v@)),
            _ => Seq::empty(),
        },
        _ => Seq::empty(),
    }
}

/// A mod's metadata file, read into a block.
#[derive(Debug)]
pub struct ModMetadata {
    /// Path to the mod itself.
    pub modpath: String,
    /// The content of the metadata file.
    pub block: Block,
}

impl ModMetadata {
    /// The full path to the mod root.
    pub fn modpath(&self) -> (r: String)
        ensures
            r@ == self.modpath@,
    {
        string_of(self.modpath.as_str())
    }

    /// The paths that this mod fully replaces.
    pub fn replace_paths(&self) -> (r: Vec<String>)
        ensures
            r@.map_values(|s: String| s@) == metadata_replace_paths(self.block),
    {
        if let Some(custom_data) = self.block.get_field_block("game_custom_data") {
            if let Some(replace_paths) = custom_data.get_field_list("replace_paths") {
                return token_strings(replace_paths.as_slice());
            }
        }
        let r: Vec<String> = Vec::new();
        assert(r@.map_values(|s: String| s@) =~= Seq::<Seq<char>>::empty());
        r
    }

    /// The mod's name in human-friendly form, if available.
    pub fn display_name(&self) -> (r: Option<String>)
        ensures
            match last_field_bv(self.block.v@, "name"@) {
                Some(BV::Value(t)) => r matches Some(s) && s@ == t@,
                _ => r is None,
            },
    {
        match self.block.get_field_value("name") {
            Some(t) => Some(string_of(t.as_str())),
            None => None,
        }
    }
}

} // verus!
