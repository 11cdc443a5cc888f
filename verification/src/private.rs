//! Sealing traits: they keep [`crate::VecExt`] and [`crate::ToBytes`] from
//! being implemented outside this crate.
//!
//! Two traits are used because a blanket impl over `E: Encode` could conflict
//! with an `Encode` impl for `Vec<u8>`.
use crate::encode::Encode;
use vstd::prelude::*;

verus! {

pub trait VecExtSealed {}

pub trait ToBytesSealed {}

impl VecExtSealed for Vec<u8> {}

impl<E: Encode + ?Sized> ToBytesSealed for E {}

} // verus!
