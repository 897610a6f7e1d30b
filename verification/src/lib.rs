//! High-level intermediate representation for IDL compilation: core type
//! definitions, constant-expression evaluation with C-style integer
//! promotions, annotation decoding and definition bookkeeping.

pub mod hir;
pub mod interp;
pub mod lower;
pub mod text;
pub mod annotation;
pub mod annotations;
pub mod ctx;
pub mod deps;
pub mod diag;
pub mod eval;
pub mod fold;
pub mod graph;

