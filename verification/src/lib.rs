//! A parser for HOCON, a configuration language that extends JSON with
//! unquoted strings, optional commas and braces, and inclusion directives,
//! together with a registry of the documents that an editor has open.
//!
//! The library is verified, but for the one call into `nom` that recognises
//! a floating-point literal (see [`number`]). What the parser accepts is
//! stated once, as mathematics, in [`grammar`]; [`parser::parse`] returns what
//! the grammar yields for a text, or a failure with the line and column at
//! which the grammar halts. [`theorems`] holds facts that follow from the
//! definitions.
//!
//! * [`value`]: the value tree, whose strings borrow from the parsed text.
//! * [`parser`]: parsing a text, as a whole or rule by rule.
//! * [`error`]: the failure of a parse and its diagnostic.
//! * [`workspace`]: open documents, each owning its text and its tree.
//! * [`session`]: what an editor session asks of a workspace.
//! * [`de`]: reading a value tree as a record, step by step.
//! * [`chars`], [`text`], [`number`], [`tree`], [`scan`], [`rules`]: the
//!   layers below the parser, from character classes up to the rules that run
//!   on a cursor.

pub mod chars;
pub mod de;
pub mod error;
pub mod grammar;
pub mod number;
pub mod parser;
pub mod rules;
pub mod scan;
pub mod session;
pub mod text;
pub mod theorems;
pub mod tree;
pub mod value;
pub mod workspace;
