//! Scanner for compressed XML dumps of territory records: a streaming
//! record assembler and a configurable exclusion/inclusion rule engine.
//!
//! The library is organised leaf-first:
//! - [`error`] holds the failure taxonomy shared by assembly and parsing;
//! - [`text`] holds verified string utilities (equality, search, joining)
//!   and verified decimal integer parsing;
//! - [`models`] holds the record data model, capability bitsets, and the
//!   draft builders that validate records at their closing boundary;
//! - [`assembler`] turns a stream of structural events into records;
//! - [`patterns`] wraps compiled regular expressions for the rule engine;
//! - [`config`] holds the rule engine: exclusion and inclusion rule sets
//!   evaluated against one record at a time;
//! - [`matchers`] holds a pluggable matcher built from function values.

pub mod error;
pub mod text;
pub mod models;
pub mod assembler;
pub mod patterns;
pub mod config;
pub mod matchers;
