//! `Option`: a tag byte, `0` for `None` and `1` for `Some`, then the value.
use crate::bytes::lemma_be_bytes_byte;
use crate::decode::{
    discriminant_failure, lemma_skip_skip, Buf, Decode, DecodeError, DecodeResult, Decoded,
};
use crate::encode::{BufMut, Encode};
use crate::fixed::{self, try_encode_pair, EncodeResult};
use vstd::prelude::*;

verus! {

broadcast use vstd::layout::layout_of_primitives;

impl<E: Encode> Encode for Option<E> {
    open spec fn encoding(&self) -> Seq<u8> {
        match self {
            None => seq![0u8],
            Some(v) => seq![1u8] + v.encoding(),
        }
    }

    fn len(&self) -> (n: usize) {
        core::mem::size_of::<u8>() + match self {
            None => 0,
            Some(v) => v.len(),
        }
    }

    fn encode(&self, buf: &mut BufMut) {
        proof {
            lemma_be_bytes_byte(0);
            lemma_be_bytes_byte(1);
        }
        match self {
            None => {
                buf.encode(&0u8);
            },
            Some(v) => {
                buf.encode(&1u8).encode(v);
            },
        }
    }
}

impl<E: fixed::Encode> fixed::Encode for Option<E> {
    /// The tag byte, then the pieces of the value if there is one.
    open spec fn pieces(&self) -> Seq<Seq<u8>> {
        match self {
            None => seq![seq![0u8]],
            Some(v) => seq![seq![1u8]] + v.pieces(),
        }
    }

    fn try_encode(&self, buf: &mut fixed::BufMut) -> (r: EncodeResult<()>) {
        proof {
            lemma_be_bytes_byte(0);
            lemma_be_bytes_byte(1);
        }
        match self {
            None => fixed::Encode::try_encode(&0u8, buf),
            Some(v) => try_encode_pair(buf, &1u8, v),
        }
    }
}

impl<'buf, D: Decode<'buf>> Decode<'buf> for Option<D> {
    type Model = Option<D::Model>;

    open spec fn model(&self) -> Option<D::Model> {
        match self {
            None => None,
            Some(v) => Some(v.model()),
        }
    }

    open spec fn spec_decode(input: Seq<u8>) -> Decoded<Option<D::Model>> {
        match u8::spec_decode(input) {
            (Err(f), n) => (Err(f), n),
            (Ok(0u8), n) => (Ok(None), n),
            (Ok(1u8), n) => match D::spec_decode(input.skip(n as int)) {
                (Ok(v), m) => (Ok(Some(v)), n + m),
                (Err(f), m) => (Err(f), n + m),
            },
            (Ok(d), n) => (Err(discriminant_failure(d)), n),
        }
    }

    fn decode(buf: &mut Buf<'buf>) -> (r: DecodeResult<Self>) {
        let ghost start = buf@;
        match buf.decode::<u8>() {
            Err(e) => Err(e),
            Ok(0) => Ok(None),
            Ok(1) => {
                let ghost mid = buf@;
                let r = buf.decode::<D>();
                proof {
                    lemma_skip_skip(start, 1, D::spec_decode(mid).1);
                }
                match r {
                    Ok(v) => Ok(Some(v)),
                    Err(e) => Err(e),
                }
            },
            Ok(d) => Err(DecodeError::invalid_discriminant(d)),
        }
    }
}

} // verus!
