//! Error report collection.
pub mod builder;
pub mod error_key;
pub mod error_loc;
pub mod errors;
pub mod filter;
pub mod report_struct;
pub mod sort;
pub mod suppress;
pub mod writer;
