//! The source text of derived `Encode`, `fixed::Encode` and `Decode`
//! implementations, generated from an [`Input`](crate::ir::Input).
//!
//! Each writer appends a piece of Rust source to a `String` and states the
//! exact text it appends; the text is then lexed into tokens by the caller.
pub mod decode;
pub mod encode;
pub mod fields;
pub mod laws;
pub mod text;
