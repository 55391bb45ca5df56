//! Parsers for the text formats that mod files use.
pub mod ignore;
pub mod memory;
pub mod csv;
pub mod localization;
pub mod directives;
pub mod suppress;
