//! Clone-on-write pointers encode as what they hold, whether borrowed or
//! owned, and decode as a borrow of the input buffer.
use crate::decode::{Buf, Decode, DecodeResult, Decoded};
use crate::encode::{BufMut, Encode};
use crate::fixed::{self, EncodeResult};
use std::borrow::{Cow, ToOwned};
use vstd::prelude::*;

verus! {

/// A borrowed value encodes as itself and an owned one as its owned form,
/// which for `str`, slices and `Clone` types writes the same bytes.
impl<'a, E> Encode for Cow<'a, E> where E: Encode + ToOwned + ?Sized, E::Owned: Encode {
    open spec fn encoding(&self) -> Seq<u8> {
        match self {
            Cow::Borrowed(b) => b.encoding(),
            Cow::Owned(o) => o.encoding(),
        }
    }

    fn len(&self) -> (n: usize) {
        match self {
            Cow::Borrowed(b) => b.len(),
            Cow::Owned(o) => o.len(),
        }
    }

    fn encode(&self, buf: &mut BufMut) {
        match self {
            Cow::Borrowed(b) => b.encode(buf),
            Cow::Owned(o) => o.encode(buf),
        }
    }
}

impl<'a, E> fixed::Encode for Cow<'a, E> where
    E: fixed::Encode + ToOwned + ?Sized,
    E::Owned: fixed::Encode,
 {
    open spec fn pieces(&self) -> Seq<Seq<u8>> {
        match self {
            Cow::Borrowed(b) => b.pieces(),
            Cow::Owned(o) => o.pieces(),
        }
    }

    fn try_encode(&self, buf: &mut fixed::BufMut) -> (r: EncodeResult<()>) {
        match self {
            Cow::Borrowed(b) => b.try_encode(buf),
            Cow::Owned(o) => o.try_encode(buf),
        }
    }
}

/// Decodes a borrow of the input buffer. The model of a borrowed value is
/// that of the borrow; that of an owned value is not stated.
impl<'buf, D> Decode<'buf> for Cow<'buf, D> where D: ToOwned + ?Sized, &'buf D: Decode<'buf> {
    type Model = <&'buf D as Decode<'buf>>::Model;

    open spec fn model(&self) -> Self::Model {
        match self {
            Cow::Borrowed(b) => b.model(),
            Cow::Owned(_) => arbitrary(),
        }
    }

    open spec fn spec_decode(input: Seq<u8>) -> Decoded<Self::Model> {
        <&'buf D>::spec_decode(input)
    }

    fn decode(buf: &mut Buf<'buf>) -> (r: DecodeResult<Self>) {
        match buf.decode::<&'buf D>() {
            Ok(b) => Ok(Cow::Borrowed(b)),
            Err(e) => Err(e),
        }
    }
}

} // verus!
