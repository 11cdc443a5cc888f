//! What derived implementations name, under names that do not depend on the
//! user's imports.
pub use crate::decode::{Buf, Decode, DecodeError, DecodeResult};
pub use crate::encode::{BufMut, Encode};
pub use crate::fixed::{BufMut as FixedBufMut, Encode as FixedEncode, EncodeResult};
pub use core::mem::size_of;
