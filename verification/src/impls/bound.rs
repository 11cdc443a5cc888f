//! Range bounds: a tag byte, `0` for `Included`, `1` for `Excluded` and `2`
//! for `Unbounded`, then the endpoint if there is one.
use crate::bytes::lemma_be_bytes_byte;
use crate::decode::{
    discriminant_failure, lemma_skip_skip, Buf, Decode, DecodeError, DecodeResult, Decoded,
};
use crate::encode::{BufMut, Encode};
use crate::fixed::{self, try_encode_pair, EncodeResult};
use vstd::prelude::*;

verus! {

broadcast use vstd::layout::layout_of_primitives;

/// An endpoint of a range of keys, as `core::ops::Bound` has it.
#[derive(Debug, Clone, Copy, PartialEq, Eq, Hash)]
pub enum Bound<T> {
    /// An inclusive bound.
    Included(T),
    /// An exclusive bound.
    Excluded(T),
    /// An infinite endpoint.
    Unbounded,
}

impl<E: Encode> Encode for Bound<E> {
    open spec fn encoding(&self) -> Seq<u8> {
        match self {
            Bound::Included(v) => seq![0u8] + v.encoding(),
            Bound::Excluded(v) => seq![1u8] + v.encoding(),
            Bound::Unbounded => seq![2u8],
        }
    }

    fn len(&self) -> (n: usize) {
        core::mem::size_of::<u8>() + match self {
            Bound::Included(v) | Bound::Excluded(v) => v.len(),
            Bound::Unbounded => 0usize,
        }
    }

    fn encode(&self, buf: &mut BufMut) {
        proof {
            lemma_be_bytes_byte(0);
            lemma_be_bytes_byte(1);
            lemma_be_bytes_byte(2);
        }
        match self {
            Bound::Included(v) => {
                buf.encode(&0u8).encode(v);
            },
            Bound::Excluded(v) => {
                buf.encode(&1u8).encode(v);
            },
            Bound::Unbounded => {
                buf.encode(&2u8);
            },
        }
    }
}

impl<E: fixed::Encode> fixed::Encode for Bound<E> {
    /// The tag byte, then the pieces of the endpoint if there is one.
    open spec fn pieces(&self) -> Seq<Seq<u8>> {
        match self {
            Bound::Included(v) => seq![seq![0u8]] + v.pieces(),
            Bound::Excluded(v) => seq![seq![1u8]] + v.pieces(),
            Bound::Unbounded => seq![seq![2u8]],
        }
    }

    fn try_encode(&self, buf: &mut fixed::BufMut) -> (r: EncodeResult<()>) {
        proof {
            lemma_be_bytes_byte(0);
            lemma_be_bytes_byte(1);
            lemma_be_bytes_byte(2);
        }
        match self {
            Bound::Included(v) => try_encode_pair(buf, &0u8, v),
            Bound::Excluded(v) => try_encode_pair(buf, &1u8, v),
            Bound::Unbounded => fixed::Encode::try_encode(&2u8, buf),
        }
    }
}

impl<'buf, D: Decode<'buf>> Decode<'buf> for Bound<D> {
    type Model = Bound<D::Model>;

    open spec fn model(&self) -> Bound<D::Model> {
        match self {
            Bound::Included(v) => Bound::Included(v.model()),
            Bound::Excluded(v) => Bound::Excluded(v.model()),
            Bound::Unbounded => Bound::Unbounded,
        }
    }

    open spec fn spec_decode(input: Seq<u8>) -> Decoded<Bound<D::Model>> {
        match u8::spec_decode(input) {
            (Err(f), n) => (Err(f), n),
            (Ok(0u8), n) => match D::spec_decode(input.skip(n as int)) {
                (Ok(v), m) => (Ok(Bound::Included(v)), n + m),
                (Err(f), m) => (Err(f), n + m),
            },
            (Ok(1u8), n) => match D::spec_decode(input.skip(n as int)) {
                (Ok(v), m) => (Ok(Bound::Excluded(v)), n + m),
                (Err(f), m) => (Err(f), n + m),
            },
            (Ok(2u8), n) => (Ok(Bound::Unbounded), n),
            (Ok(d), n) => (Err(discriminant_failure(d)), n),
        }
    }

    fn decode(buf: &mut Buf<'buf>) -> (r: DecodeResult<Self>) {
        let ghost start = buf@;
        match buf.decode::<u8>() {
            Err(e) => Err(e),
            Ok(0) => {
                let ghost mid = buf@;
                let r = buf.decode::<D>();
                proof {
                    lemma_skip_skip(start, 1, D::spec_decode(mid).1);
                }
                match r {
                    Ok(v) => Ok(Bound::Included(v)),
                    Err(e) => Err(e),
                }
            },
            Ok(1) => {
                let ghost mid = buf@;
                let r = buf.decode::<D>();
                proof {
                    lemma_skip_skip(start, 1, D::spec_decode(mid).1);
                }
                match r {
                    Ok(v) => Ok(Bound::Excluded(v)),
                    Err(e) => Err(e),
                }
            },
            Ok(2) => Ok(Bound::Unbounded),
            Ok(d) => Err(DecodeError::invalid_discriminant(d)),
        }
    }
}

} // verus!
