//! Orderings: one byte, `0` for `Less`, `1` for `Equal`, `2` for `Greater`.
use crate::bytes::lemma_be_bytes_byte;
use crate::decode::{discriminant_failure, Buf, Decode, DecodeError, DecodeResult, Decoded};
use crate::encode::{BufMut, Encode};
use crate::fixed::{self, EncodeResult};
use core::cmp::Ordering;
use vstd::prelude::*;

verus! {

/// The byte that stands for `ordering`.
pub open spec fn ordering_byte(ordering: Ordering) -> u8 {
    match ordering {
        Ordering::Less => 0u8,
        Ordering::Equal => 1u8,
        Ordering::Greater => 2u8,
    }
}

/// The encoding of `ordering`.
pub open spec fn ordering_encoding(ordering: Ordering) -> Seq<u8> {
    seq![ordering_byte(ordering)]
}

/// What decoding an ordering from `input` yields.
pub open spec fn ordering_decoding(input: Seq<u8>) -> Decoded<Ordering> {
    match u8::spec_decode(input) {
        (Ok(0u8), c) => (Ok(Ordering::Less), c),
        (Ok(1u8), c) => (Ok(Ordering::Equal), c),
        (Ok(2u8), c) => (Ok(Ordering::Greater), c),
        (Ok(d), c) => (Err(discriminant_failure(d)), c),
        (Err(f), c) => (Err(f), c),
    }
}

fn byte_of(ordering: &Ordering) -> (b: u8)
    ensures
        b == ordering_byte(*ordering),
        b.encoding() == ordering_encoding(*ordering),
{
    proof {
        lemma_be_bytes_byte(ordering_byte(*ordering));
    }
    match ordering {
        Ordering::Less => 0u8,
        Ordering::Equal => 1u8,
        Ordering::Greater => 2u8,
    }
}

/// The number of bytes that encoding an ordering writes.
pub fn ordering_len(ordering: &Ordering) -> (n: usize)
    ensures
        n == ordering_encoding(*ordering).len(),
{
    core::mem::size_of::<u8>()
}

/// Encodes `ordering` into `buf`.
pub fn encode_ordering(ordering: &Ordering, buf: &mut BufMut)
    requires
        old(buf)@.len() + 1 <= usize::MAX,
    ensures
        final(buf)@ == old(buf)@ + ordering_encoding(*ordering),
        final(final(buf).target())@ == final(old(buf).target())@,
{
    let b = byte_of(ordering);
    buf.encode(&b);
}

/// Encodes `ordering` into a fixed buffer, failing when there is no room.
pub fn try_encode_ordering(ordering: &Ordering, buf: &mut fixed::BufMut) -> (r: EncodeResult<()>)
    ensures
        old(buf).wrote(*final(buf), ordering_encoding(*ordering), r is Ok),
        r is Err ==> *final(buf) == *old(buf),
        final(final(buf).target())@ == final(old(buf).target())@,
{
    let b = byte_of(ordering);
    fixed::Encode::try_encode(&b, buf)
}

/// Decodes an ordering from `buf`.
pub fn decode_ordering(buf: &mut Buf) -> (r: DecodeResult<Ordering>)
    ensures
        crate::decode::decoded_as(
            old(buf)@,
            final(buf)@,
            match r {
                Ok(o) => Ok(o),
                Err(e) => Err(e.failure()),
            },
            ordering_decoding(old(buf)@),
        ),
{
    match buf.decode::<u8>() {
        Ok(0) => Ok(Ordering::Less),
        Ok(1) => Ok(Ordering::Equal),
        Ok(2) => Ok(Ordering::Greater),
        Ok(d) => Err(DecodeError::invalid_discriminant(d)),
        Err(e) => Err(e),
    }
}

} // verus!
