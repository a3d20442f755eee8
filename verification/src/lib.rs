//! A compiler front end for the `mat` language: a parser from source text
//! to a syntax tree, and the semantic checks that run on it.
pub mod ast;
pub mod dereference_checker;
pub mod diag;
pub mod entity;
pub mod eq;
pub mod expr;
pub mod hir;
pub mod lex;
pub mod literal;
pub mod local;
pub mod local_resolver;
pub mod parser;
pub mod scope;
pub mod sema;
pub mod span;
pub mod stmt;
pub mod toplevel_scope;
pub mod type_resolver;
pub mod type_table;
pub mod util;
