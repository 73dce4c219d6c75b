//! Token-stream parsing for compile-time code generation.
//!
//! Two independent pipelines share one shape: a raw sequence is wrapped in a
//! bounds-checked cursor, a recursive-descent parser turns it into a typed
//! data model, and the model can be re-emitted as a flat token sequence.
//!
//! The first pipeline reads a struct definition given as lexical tokens
//! (`struct Name<'a, T: Bound> { field: Type, .. }`) and builds a
//! [`struct_def::StructDef`]; the second is a small JSON scanner that turns
//! source text into typed tokens with byte spans.

pub mod error;
pub mod fn_def;
pub mod generics;
pub mod grammar;
pub mod impl_block;
pub mod iters;
pub mod laws;
pub mod lexer;
pub mod lifetime;
pub mod marker;
pub mod optvec;
pub mod parser;
pub mod span;
pub mod stream;
pub mod struct_def;
pub mod tree;
pub mod ty;
