//! Lexical analysis for a small Fortran-like source language.
//!
//! The crate splits raw source text into physical lines, scans each line
//! into classified tokens — handling quoted string literals, end-of-line
//! comments and delimiter-driven word boundaries, with one layer of
//! context-sensitive reclassification — and assembles the result into a
//! [`program::Program`] container holding the tokenized lines, the
//! declared name and a variable table.

pub mod color;
pub mod errors;
pub mod file;
pub mod parser;
pub mod program;
pub mod text;
pub mod tokens;
