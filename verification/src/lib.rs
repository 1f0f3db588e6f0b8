//! Name resolution for a namespace-oriented, block-structured language.
//!
//! The crate builds a global symbol table from one or more packages and then
//! walks a package's syntax tree, deciding for every identifier occurrence
//! which declaration it denotes, or recording a `NotFound` or `Ambiguous`
//! error. Resolution follows five shadowing tiers in strict precedence order:
//! local bindings, items of the enclosing namespace, explicit opens, the
//! implicit prelude, and unopened globals.

pub mod ast;
pub mod laws;
pub mod names;
pub mod parse;
pub mod resolve;
pub mod resolver;
pub mod tables;
