//! A deterministic, zero-copy binary serialization library.
//!
//! Values are encoded by the [`Encode`] trait into a growable [`BufMut`]
//! (or, through [`fixed::Encode`], into a fixed-capacity
//! [`fixed::BufMut`]), and decoded by the [`Decode`] trait from a [`Buf`].
//! Numbers are big-endian; sequences and strings carry their length as a
//! `u64`; enums carry a one-byte tag.
//!
//! Every encoding is a function of the value alone, and every value of the
//! types this crate implements the traits for decodes back from its encoding
//! whatever bytes follow it (see [`laws`]). What each encoding is, in terms
//! of the values it is made of, is stated in [`encodings`].
//!
//! Implementations for structs and enums are derived from a description of
//! the type ([`ir`]) as source text ([`expand`]). The text is specified
//! exactly, but the code it becomes is not verified: a derived or
//! hand-written implementation outside this crate keeps the defaults of
//! `encoding`, `model` and `spec_decode`, one fixed value each, which its
//! code does not meet, so nothing proved here holds of such a type.
pub mod __private;
pub mod bytes;
pub mod decode;
pub mod encode;
pub mod encodings;
pub mod expand;
pub mod fixed;
pub mod impls;
pub mod ir;
pub mod laws;
pub mod private;

pub use decode::{Buf, Decode, DecodeError, DecodeFailure, DecodeResult};
pub use encode::{BufMut, Encode, ToBytes, VecExt};
pub use fixed::{EncodeResult, Overflow};
pub use impls::bound::Bound;
pub use impls::ordering::{decode_ordering, encode_ordering, ordering_len, try_encode_ordering};
