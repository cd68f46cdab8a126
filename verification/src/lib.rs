//! Declaration-level diffing of two revisions of a source tree.
//!
//! The crate turns a parsed source file into a snapshot of its declarations,
//! compares two snapshots of one file, and, for functions whose text changed,
//! compares the calls and literals found in their bodies.
pub mod name_map;
pub mod syntax;
pub mod types;
pub mod ast_parser;
pub mod granular;
pub mod differ;
pub mod output;
pub mod git_ops;
