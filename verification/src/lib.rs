//! Macro-expansion core of a C preprocessor.
//!
//! The crate consumes a stream of preprocessing tokens together with a table
//! of object-like and function-like macros, and produces the stream that
//! results from recursively expanding every macro invocation, with hide-set
//! bookkeeping to stop self-referential expansion, argument substitution,
//! stringizing (`#`) and token pasting (`##`), exactly in the order given by
//! leftmost, depth-first rescanning.

pub mod expand;
pub mod laws;
pub mod model;
pub mod source;
pub mod table;
pub mod token;
