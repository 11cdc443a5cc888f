//! `Result`: a tag byte, `0` for `Ok` and `1` for `Err`, then the value.
use crate::bytes::lemma_be_bytes_byte;
use crate::decode::{
    discriminant_failure, lemma_skip_skip, Buf, Decode, DecodeError, DecodeResult, Decoded,
};
use crate::encode::{BufMut, Encode};
use crate::fixed::{self, try_encode_pair, EncodeResult};
use vstd::prelude::*;

verus! {

broadcast use vstd::layout::layout_of_primitives;

impl<T: Encode, E: Encode> Encode for Result<T, E> {
    open spec fn encoding(&self) -> Seq<u8> {
        match self {
            Ok(v) => seq![0u8] + v.encoding(),
            Err(e) => seq![1u8] + e.encoding(),
        }
    }

    fn len(&self) -> (n: usize) {
        core::mem::size_of::<u8>() + match self {
            Ok(v) => v.len(),
            Err(e) => e.len(),
        }
    }

    fn encode(&self, buf: &mut BufMut) {
        proof {
            lemma_be_bytes_byte(0);
            lemma_be_bytes_byte(1);
        }
        match self {
            Ok(v) => {
                buf.encode(&0u8).encode(v);
            },
            Err(e) => {
                buf.encode(&1u8).encode(e);
            },
        }
    }
}

impl<T: fixed::Encode, E: fixed::Encode> fixed::Encode for Result<T, E> {
    /// The tag byte, then the pieces of the value.
    open spec fn pieces(&self) -> Seq<Seq<u8>> {
        match self {
            Ok(v) => seq![seq![0u8]] + v.pieces(),
            Err(e) => seq![seq![1u8]] + e.pieces(),
        }
    }

    fn try_encode(&self, buf: &mut fixed::BufMut) -> (r: EncodeResult<()>) {
        proof {
            lemma_be_bytes_byte(0);
            lemma_be_bytes_byte(1);
        }
        match self {
            Ok(v) => try_encode_pair(buf, &0u8, v),
            Err(e) => try_encode_pair(buf, &1u8, e),
        }
    }
}

impl<'buf, T: Decode<'buf>, E: Decode<'buf>> Decode<'buf> for Result<T, E> {
    type Model = Result<T::Model, E::Model>;

    open spec fn model(&self) -> Result<T::Model, E::Model> {
        match self {
            Ok(v) => Ok(v.model()),
            Err(e) => Err(e.model()),
        }
    }

    open spec fn spec_decode(input: Seq<u8>) -> Decoded<Result<T::Model, E::Model>> {
        match u8::spec_decode(input) {
            (Err(f), n) => (Err(f), n),
            (Ok(0u8), n) => match T::spec_decode(input.skip(n as int)) {
                (Ok(v), m) => (Ok(Ok(v)), n + m),
                (Err(f), m) => (Err(f), n + m),
            },
            (Ok(1u8), n) => match E::spec_decode(input.skip(n as int)) {
                (Ok(v), m) => (Ok(Err(v)), n + m),
                (Err(f), m) => (Err(f), n + m),
            },
            (Ok(d), n) => (Err(discriminant_failure(d)), n),
        }
    }

    fn decode(buf: &mut Buf<'buf>) -> (r: DecodeResult<Self>) {
        let ghost start = buf@;
        match buf.decode::<u8>() {
            Err(e) => Err(e),
            Ok(0) => {
                let ghost mid = buf@;
                let r = buf.decode::<T>();
                proof {
                    lemma_skip_skip(start, 1, T::spec_decode(mid).1);
                }
                match r {
                    Ok(v) => Ok(Ok(v)),
                    Err(e) => Err(e),
                }
            },
            Ok(1) => {
                let ghost mid = buf@;
                let r = buf.decode::<E>();
                proof {
                    lemma_skip_skip(start, 1, E::spec_decode(mid).1);
                }
                match r {
                    Ok(v) => Ok(Err(v)),
                    Err(e) => Err(e),
                }
            },
            Ok(d) => Err(DecodeError::invalid_discriminant(d)),
        }
    }
}

} // verus!
