//! A lexical naming-convention linter: it extracts declaration candidates
//! from the lines of a source text and reports the names that break the
//! house rules.

pub mod parser;
pub mod patterns;
pub mod recommenders;
pub mod reports;
pub mod text;
