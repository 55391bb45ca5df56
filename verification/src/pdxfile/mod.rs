//! Reading script files.
pub mod parse;
