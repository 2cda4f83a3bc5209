//! A recursive-descent grammar for the primary expressions of an expression
//! language: variable references, qualified names, scalar literals, and the
//! three intrinsic constructs `echo`, `unset` and `empty`.
//!
//! The grammar is defined twice. The spec functions in [`model`] say, as
//! mathematics over byte sequences and offsets, what each rule recognizes and
//! with which positioned failure it rejects; the executable rules in
//! [`tokens`], [`literals`] and [`primaries`] are proved to return exactly
//! what the model says, for every input.

pub mod ast;
pub mod internal;
pub mod laws;
pub mod lexical;
pub mod literals;
pub mod model;
pub mod primaries;
pub mod tokens;
