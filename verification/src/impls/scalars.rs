//! `bool` as one byte `0` or `1`; `char` as the big-endian `u32` of its
//! code point.
use crate::bytes::{be_bytes, lemma_be_bytes_len};
use crate::decode::{Buf, Decode, DecodeError, DecodeFailure, DecodeResult, Decoded};
use crate::encode::{BufMut, Encode};
use crate::fixed::{self, EncodeResult};
use vstd::prelude::*;
use vstd::utf8::is_scalar;

verus! {

broadcast use vstd::layout::layout_of_primitives;

impl Encode for bool {
    open spec fn encoding(&self) -> Seq<u8> {
        seq![if *self { 1u8 } else { 0u8 }]
    }

    fn len(&self) -> (n: usize) {
        core::mem::size_of::<u8>()
    }

    fn encode(&self, buf: &mut BufMut) {
        proof {
            reveal_with_fuel(be_bytes, 2);
            assert(be_bytes((*self as u8) as int, 1) =~= self.encoding());
        }
        buf.encode(&(*self as u8));
    }
}

impl fixed::Encode for bool {
    fn try_encode(&self, buf: &mut fixed::BufMut) -> (r: EncodeResult<()>)
        ensures
            r is Err ==> *final(buf) == *old(buf),
    {
        proof {
            reveal_with_fuel(be_bytes, 2);
            assert(be_bytes((*self as u8) as int, 1) =~= self.encoding());
        }
        fixed::Encode::try_encode(&(*self as u8), buf)
    }
}

impl<'buf> Decode<'buf> for bool {
    type Model = bool;

    open spec fn model(&self) -> bool {
        *self
    }

    open spec fn spec_decode(input: Seq<u8>) -> Decoded<bool> {
        match u8::spec_decode(input) {
            (Ok(0u8), c) => (Ok(false), c),
            (Ok(1u8), c) => (Ok(true), c),
            (Ok(_), c) => (Err(DecodeFailure::InvalidBool), c),
            (Err(f), c) => (Err(f), c),
        }
    }

    fn decode(buf: &mut Buf<'buf>) -> (r: DecodeResult<Self>) {
        match buf.decode::<u8>() {
            Ok(0) => Ok(false),
            Ok(1) => Ok(true),
            Ok(_) => Err(DecodeError::InvalidBool),
            Err(e) => Err(e),
        }
    }
}

impl Encode for char {
    open spec fn encoding(&self) -> Seq<u8> {
        be_bytes((*self as u32) as int, 4)
    }

    fn len(&self) -> (n: usize) {
        proof {
            lemma_be_bytes_len((*self as u32) as int, 4);
        }
        core::mem::size_of::<u32>()
    }

    fn encode(&self, buf: &mut BufMut) {
        buf.encode(&(*self as u32));
    }
}

impl fixed::Encode for char {
    fn try_encode(&self, buf: &mut fixed::BufMut) -> (r: EncodeResult<()>)
        ensures
            r is Err ==> *final(buf) == *old(buf),
    {
        fixed::Encode::try_encode(&(*self as u32), buf)
    }
}

/// `char::from_u32`: the character whose code point is `v`, or `None` when
/// `v` is a surrogate or above `0x10FFFF`.
#[verifier::external_body]
fn char_from_u32(v: u32) -> (r: Option<char>)
    ensures
        r is Some <==> is_scalar(v),
        r matches Some(c) ==> c as u32 == v,
{
    char::from_u32(v)
}

impl<'buf> Decode<'buf> for char {
    type Model = char;

    open spec fn model(&self) -> char {
        *self
    }

    open spec fn spec_decode(input: Seq<u8>) -> Decoded<char> {
        match u32::spec_decode(input) {
            (Ok(v), c) => if is_scalar(v) {
                (Ok(v as char), c)
            } else {
                (Err(DecodeFailure::InvalidChar), c)
            },
            (Err(f), c) => (Err(f), c),
        }
    }

    fn decode(buf: &mut Buf<'buf>) -> (r: DecodeResult<Self>) {
        match buf.decode::<u32>() {
            Ok(codepoint) => match char_from_u32(codepoint) {
                Some(c) => {
                    proof {
                        vstd::utf8::char_u32_cast(c, codepoint);
                    }
                    Ok(c)
                },
                None => Err(DecodeError::InvalidChar),
            },
            Err(e) => Err(e),
        }
    }
}

} // verus!
