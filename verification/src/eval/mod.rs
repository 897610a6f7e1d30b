//! Constant expression evaluation with C-like integer promotions and
//! table-driven operator dispatch.

pub mod arith;
pub mod cast;
pub mod evaluator;
pub mod expr;
pub mod laws;
pub mod ops;
pub mod rank;
pub mod typed;
pub mod value;
