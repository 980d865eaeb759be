//! Turns a quoted token template into the code of a function that rebuilds it.
//!
//! - `token`: the token trees of a template and their canonical text;
//! - `translate`: one construction call per token, with the laws it obeys;
//! - `emit`: the generated function's code, as token trees.
pub mod token;
pub mod translate;
pub mod emit;

pub use emit::quote_one_token_func;
