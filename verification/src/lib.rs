//! Checks user mod files for the Paradox grand strategy games for mistakes and reports them.
use vstd::prelude::*;

pub mod block;
pub mod datatype;
pub mod everything;
pub mod fileset;
pub mod localization;
pub mod lowercase;
pub mod macros;
pub mod mod_metadata;
pub mod modfile;
pub mod modifs;
pub mod number;
pub mod parse;
pub mod pathtable;
pub mod pdxfile;
pub mod provinces;
pub mod report;
pub mod rivers;
pub mod scope;
pub mod scopes;
pub mod steam;
pub mod text;
pub mod token;
pub mod tooltipped;
pub mod trigger;
pub mod validate;
pub mod validator;
pub mod variables;

verus! {
} // verus!
