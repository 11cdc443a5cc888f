//! Integers: big-endian, in as many bytes as the type has (`usize` and
//! `isize` in eight, as `u64` and `i64`).
use crate::bytes::{
    be_bytes, be_bytes_of, be_signed_value, be_value, be_value_of, lemma_be_bytes_len,
    lemma_pow256_values, signed_be_bytes_of, signed_value_of,
};
use crate::decode::{spec_take, Buf, Decode, DecodeResult, Decoded};
use crate::encode::{BufMut, Encode};
use crate::fixed::{self, EncodeResult};
use vstd::prelude::*;

verus! {

broadcast use vstd::layout::layout_of_primitives;

impl Encode for u8 {
    open spec fn encoding(&self) -> Seq<u8> {
        be_bytes(*self as int, 1)
    }

    fn len(&self) -> (n: usize) {
        proof {
            lemma_be_bytes_len(*self as int, 1);
        }
        core::mem::size_of::<Self>()
    }

    fn encode(&self, buf: &mut BufMut) {
        proof {
            lemma_pow256_values();
            lemma_be_bytes_len(*self as int, 1);
        }
        let bytes = be_bytes_of(*self as u128, 1);
        buf.put(bytes.as_slice());
    }
}

impl fixed::Encode for u8 {
    fn try_encode(&self, buf: &mut fixed::BufMut) -> (r: EncodeResult<()>)
        ensures
            r is Err ==> *final(buf) == *old(buf),
    {
        proof {
            lemma_pow256_values();
        }
        let bytes = be_bytes_of(*self as u128, 1);
        buf.put(bytes.as_slice())
    }
}

impl<'buf> Decode<'buf> for u8 {
    type Model = u8;

    open spec fn model(&self) -> u8 {
        *self
    }

    open spec fn spec_decode(input: Seq<u8>) -> Decoded<u8> {
        match spec_take(input, 1) {
            (Ok(b), c) => (Ok(be_value(b) as u8), c),
            (Err(f), c) => (Err(f), c),
        }
    }

    fn decode(buf: &mut Buf<'buf>) -> (r: DecodeResult<Self>) {
        match buf.take(1) {
            Ok(b) => Ok(be_value_of(b) as u8),
            Err(e) => Err(e),
        }
    }
}

impl Encode for u16 {
    open spec fn encoding(&self) -> Seq<u8> {
        be_bytes(*self as int, 2)
    }

    fn len(&self) -> (n: usize) {
        proof {
            lemma_be_bytes_len(*self as int, 2);
        }
        core::mem::size_of::<Self>()
    }

    fn encode(&self, buf: &mut BufMut) {
        proof {
            lemma_pow256_values();
            lemma_be_bytes_len(*self as int, 2);
        }
        let bytes = be_bytes_of(*self as u128, 2);
        buf.put(bytes.as_slice());
    }
}

impl fixed::Encode for u16 {
    fn try_encode(&self, buf: &mut fixed::BufMut) -> (r: EncodeResult<()>)
        ensures
            r is Err ==> *final(buf) == *old(buf),
    {
        proof {
            lemma_pow256_values();
        }
        let bytes = be_bytes_of(*self as u128, 2);
        buf.put(bytes.as_slice())
    }
}

impl<'buf> Decode<'buf> for u16 {
    type Model = u16;

    open spec fn model(&self) -> u16 {
        *self
    }

    open spec fn spec_decode(input: Seq<u8>) -> Decoded<u16> {
        match spec_take(input, 2) {
            (Ok(b), c) => (Ok(be_value(b) as u16), c),
            (Err(f), c) => (Err(f), c),
        }
    }

    fn decode(buf: &mut Buf<'buf>) -> (r: DecodeResult<Self>) {
        match buf.take(2) {
            Ok(b) => Ok(be_value_of(b) as u16),
            Err(e) => Err(e),
        }
    }
}

impl Encode for u32 {
    open spec fn encoding(&self) -> Seq<u8> {
        be_bytes(*self as int, 4)
    }

    fn len(&self) -> (n: usize) {
        proof {
            lemma_be_bytes_len(*self as int, 4);
        }
        core::mem::size_of::<Self>()
    }

    fn encode(&self, buf: &mut BufMut) {
        proof {
            lemma_pow256_values();
            lemma_be_bytes_len(*self as int, 4);
        }
        let bytes = be_bytes_of(*self as u128, 4);
        buf.put(bytes.as_slice());
    }
}

impl fixed::Encode for u32 {
    fn try_encode(&self, buf: &mut fixed::BufMut) -> (r: EncodeResult<()>)
        ensures
            r is Err ==> *final(buf) == *old(buf),
    {
        proof {
            lemma_pow256_values();
        }
        let bytes = be_bytes_of(*self as u128, 4);
        buf.put(bytes.as_slice())
    }
}

impl<'buf> Decode<'buf> for u32 {
    type Model = u32;

    open spec fn model(&self) -> u32 {
        *self
    }

    open spec fn spec_decode(input: Seq<u8>) -> Decoded<u32> {
        match spec_take(input, 4) {
            (Ok(b), c) => (Ok(be_value(b) as u32), c),
            (Err(f), c) => (Err(f), c),
        }
    }

    fn decode(buf: &mut Buf<'buf>) -> (r: DecodeResult<Self>) {
        match buf.take(4) {
            Ok(b) => Ok(be_value_of(b) as u32),
            Err(e) => Err(e),
        }
    }
}

impl Encode for u64 {
    open spec fn encoding(&self) -> Seq<u8> {
        be_bytes(*self as int, 8)
    }

    fn len(&self) -> (n: usize) {
        proof {
            lemma_be_bytes_len(*self as int, 8);
        }
        core::mem::size_of::<Self>()
    }

    fn encode(&self, buf: &mut BufMut) {
        proof {
            lemma_pow256_values();
            lemma_be_bytes_len(*self as int, 8);
        }
        let bytes = be_bytes_of(*self as u128, 8);
        buf.put(bytes.as_slice());
    }
}

impl fixed::Encode for u64 {
    fn try_encode(&self, buf: &mut fixed::BufMut) -> (r: EncodeResult<()>)
        ensures
            r is Err ==> *final(buf) == *old(buf),
    {
        proof {
            lemma_pow256_values();
        }
        let bytes = be_bytes_of(*self as u128, 8);
        buf.put(bytes.as_slice())
    }
}

impl<'buf> Decode<'buf> for u64 {
    type Model = u64;

    open spec fn model(&self) -> u64 {
        *self
    }

    open spec fn spec_decode(input: Seq<u8>) -> Decoded<u64> {
        match spec_take(input, 8) {
            (Ok(b), c) => (Ok(be_value(b) as u64), c),
            (Err(f), c) => (Err(f), c),
        }
    }

    fn decode(buf: &mut Buf<'buf>) -> (r: DecodeResult<Self>) {
        match buf.take(8) {
            Ok(b) => Ok(be_value_of(b) as u64),
            Err(e) => Err(e),
        }
    }
}

impl Encode for u128 {
    open spec fn encoding(&self) -> Seq<u8> {
        be_bytes(*self as int, 16)
    }

    fn len(&self) -> (n: usize) {
        proof {
            lemma_be_bytes_len(*self as int, 16);
        }
        core::mem::size_of::<Self>()
    }

    fn encode(&self, buf: &mut BufMut) {
        proof {
            lemma_pow256_values();
            lemma_be_bytes_len(*self as int, 16);
        }
        let bytes = be_bytes_of(*self as u128, 16);
        buf.put(bytes.as_slice());
    }
}

impl fixed::Encode for u128 {
    fn try_encode(&self, buf: &mut fixed::BufMut) -> (r: EncodeResult<()>)
        ensures
            r is Err ==> *final(buf) == *old(buf),
    {
        proof {
            lemma_pow256_values();
        }
        let bytes = be_bytes_of(*self as u128, 16);
        buf.put(bytes.as_slice())
    }
}

impl<'buf> Decode<'buf> for u128 {
    type Model = u128;

    open spec fn model(&self) -> u128 {
        *self
    }

    open spec fn spec_decode(input: Seq<u8>) -> Decoded<u128> {
        match spec_take(input, 16) {
            (Ok(b), c) => (Ok(be_value(b) as u128), c),
            (Err(f), c) => (Err(f), c),
        }
    }

    fn decode(buf: &mut Buf<'buf>) -> (r: DecodeResult<Self>) {
        match buf.take(16) {
            Ok(b) => Ok(be_value_of(b) as u128),
            Err(e) => Err(e),
        }
    }
}

impl Encode for i8 {
    open spec fn encoding(&self) -> Seq<u8> {
        be_bytes(*self as int, 1)
    }

    fn len(&self) -> (n: usize) {
        proof {
            lemma_be_bytes_len(*self as int, 1);
        }
        core::mem::size_of::<Self>()
    }

    fn encode(&self, buf: &mut BufMut) {
        proof {
            lemma_pow256_values();
            lemma_be_bytes_len(*self as int, 1);
        }
        let bytes = signed_be_bytes_of(*self as i128, 1);
        buf.put(bytes.as_slice());
    }
}

impl fixed::Encode for i8 {
    fn try_encode(&self, buf: &mut fixed::BufMut) -> (r: EncodeResult<()>)
        ensures
            r is Err ==> *final(buf) == *old(buf),
    {
        proof {
            lemma_pow256_values();
        }
        let bytes = signed_be_bytes_of(*self as i128, 1);
        buf.put(bytes.as_slice())
    }
}

impl<'buf> Decode<'buf> for i8 {
    type Model = i8;

    open spec fn model(&self) -> i8 {
        *self
    }

    open spec fn spec_decode(input: Seq<u8>) -> Decoded<i8> {
        match spec_take(input, 1) {
            (Ok(b), c) => (Ok(be_signed_value(b) as i8), c),
            (Err(f), c) => (Err(f), c),
        }
    }

    fn decode(buf: &mut Buf<'buf>) -> (r: DecodeResult<Self>) {
        match buf.take(1) {
            Ok(b) => Ok(signed_value_of(b) as i8),
            Err(e) => Err(e),
        }
    }
}

impl Encode for i16 {
    open spec fn encoding(&self) -> Seq<u8> {
        be_bytes(*self as int, 2)
    }

    fn len(&self) -> (n: usize) {
        proof {
            lemma_be_bytes_len(*self as int, 2);
        }
        core::mem::size_of::<Self>()
    }

    fn encode(&self, buf: &mut BufMut) {
        proof {
            lemma_pow256_values();
            lemma_be_bytes_len(*self as int, 2);
        }
        let bytes = signed_be_bytes_of(*self as i128, 2);
        buf.put(bytes.as_slice());
    }
}

impl fixed::Encode for i16 {
    fn try_encode(&self, buf: &mut fixed::BufMut) -> (r: EncodeResult<()>)
        ensures
            r is Err ==> *final(buf) == *old(buf),
    {
        proof {
            lemma_pow256_values();
        }
        let bytes = signed_be_bytes_of(*self as i128, 2);
        buf.put(bytes.as_slice())
    }
}

impl<'buf> Decode<'buf> for i16 {
    type Model = i16;

    open spec fn model(&self) -> i16 {
        *self
    }

    open spec fn spec_decode(input: Seq<u8>) -> Decoded<i16> {
        match spec_take(input, 2) {
            (Ok(b), c) => (Ok(be_signed_value(b) as i16), c),
            (Err(f), c) => (Err(f), c),
        }
    }

    fn decode(buf: &mut Buf<'buf>) -> (r: DecodeResult<Self>) {
        match buf.take(2) {
            Ok(b) => Ok(signed_value_of(b) as i16),
            Err(e) => Err(e),
        }
    }
}

impl Encode for i32 {
    open spec fn encoding(&self) -> Seq<u8> {
        be_bytes(*self as int, 4)
    }

    fn len(&self) -> (n: usize) {
        proof {
            lemma_be_bytes_len(*self as int, 4);
        }
        core::mem::size_of::<Self>()
    }

    fn encode(&self, buf: &mut BufMut) {
        proof {
            lemma_pow256_values();
            lemma_be_bytes_len(*self as int, 4);
        }
        let bytes = signed_be_bytes_of(*self as i128, 4);
        buf.put(bytes.as_slice());
    }
}

impl fixed::Encode for i32 {
    fn try_encode(&self, buf: &mut fixed::BufMut) -> (r: EncodeResult<()>)
        ensures
            r is Err ==> *final(buf) == *old(buf),
    {
        proof {
            lemma_pow256_values();
        }
        let bytes = signed_be_bytes_of(*self as i128, 4);
        buf.put(bytes.as_slice())
    }
}

impl<'buf> Decode<'buf> for i32 {
    type Model = i32;

    open spec fn model(&self) -> i32 {
        *self
    }

    open spec fn spec_decode(input: Seq<u8>) -> Decoded<i32> {
        match spec_take(input, 4) {
            (Ok(b), c) => (Ok(be_signed_value(b) as i32), c),
            (Err(f), c) => (Err(f), c),
        }
    }

    fn decode(buf: &mut Buf<'buf>) -> (r: DecodeResult<Self>) {
        match buf.take(4) {
            Ok(b) => Ok(signed_value_of(b) as i32),
            Err(e) => Err(e),
        }
    }
}

impl Encode for i64 {
    open spec fn encoding(&self) -> Seq<u8> {
        be_bytes(*self as int, 8)
    }

    fn len(&self) -> (n: usize) {
        proof {
            lemma_be_bytes_len(*self as int, 8);
        }
        core::mem::size_of::<Self>()
    }

    fn encode(&self, buf: &mut BufMut) {
        proof {
            lemma_pow256_values();
            lemma_be_bytes_len(*self as int, 8);
        }
        let bytes = signed_be_bytes_of(*self as i128, 8);
        buf.put(bytes.as_slice());
    }
}

impl fixed::Encode for i64 {
    fn try_encode(&self, buf: &mut fixed::BufMut) -> (r: EncodeResult<()>)
        ensures
            r is Err ==> *final(buf) == *old(buf),
    {
        proof {
            lemma_pow256_values();
        }
        let bytes = signed_be_bytes_of(*self as i128, 8);
        buf.put(bytes.as_slice())
    }
}

impl<'buf> Decode<'buf> for i64 {
    type Model = i64;

    open spec fn model(&self) -> i64 {
        *self
    }

    open spec fn spec_decode(input: Seq<u8>) -> Decoded<i64> {
        match spec_take(input, 8) {
            (Ok(b), c) => (Ok(be_signed_value(b) as i64), c),
            (Err(f), c) => (Err(f), c),
        }
    }

    fn decode(buf: &mut Buf<'buf>) -> (r: DecodeResult<Self>) {
        match buf.take(8) {
            Ok(b) => Ok(signed_value_of(b) as i64),
            Err(e) => Err(e),
        }
    }
}

impl Encode for i128 {
    open spec fn encoding(&self) -> Seq<u8> {
        be_bytes(*self as int, 16)
    }

    fn len(&self) -> (n: usize) {
        proof {
            lemma_be_bytes_len(*self as int, 16);
        }
        core::mem::size_of::<Self>()
    }

    fn encode(&self, buf: &mut BufMut) {
        proof {
            lemma_pow256_values();
            lemma_be_bytes_len(*self as int, 16);
        }
        let bytes = signed_be_bytes_of(*self as i128, 16);
        buf.put(bytes.as_slice());
    }
}

impl fixed::Encode for i128 {
    fn try_encode(&self, buf: &mut fixed::BufMut) -> (r: EncodeResult<()>)
        ensures
            r is Err ==> *final(buf) == *old(buf),
    {
        proof {
            lemma_pow256_values();
        }
        let bytes = signed_be_bytes_of(*self as i128, 16);
        buf.put(bytes.as_slice())
    }
}

impl<'buf> Decode<'buf> for i128 {
    type Model = i128;

    open spec fn model(&self) -> i128 {
        *self
    }

    open spec fn spec_decode(input: Seq<u8>) -> Decoded<i128> {
        match spec_take(input, 16) {
            (Ok(b), c) => (Ok(be_signed_value(b) as i128), c),
            (Err(f), c) => (Err(f), c),
        }
    }

    fn decode(buf: &mut Buf<'buf>) -> (r: DecodeResult<Self>) {
        match buf.take(16) {
            Ok(b) => Ok(signed_value_of(b) as i128),
            Err(e) => Err(e),
        }
    }
}

impl Encode for usize {
    open spec fn encoding(&self) -> Seq<u8> {
        be_bytes(*self as int, 8)
    }

    fn len(&self) -> (n: usize) {
        proof {
            lemma_be_bytes_len(*self as int, 8);
        }
        core::mem::size_of::<u64>()
    }

    fn encode(&self, buf: &mut BufMut) {
        buf.encode(&(*self as u64));
    }
}

impl fixed::Encode for usize {
    fn try_encode(&self, buf: &mut fixed::BufMut) -> (r: EncodeResult<()>)
        ensures
            r is Err ==> *final(buf) == *old(buf),
    {
        fixed::Encode::try_encode(&(*self as u64), buf)
    }
}

impl<'buf> Decode<'buf> for usize {
    type Model = usize;

    open spec fn model(&self) -> usize {
        *self
    }

    open spec fn spec_decode(input: Seq<u8>) -> Decoded<usize> {
        match u64::spec_decode(input) {
            (Ok(v), c) => (Ok(v as usize), c),
            (Err(f), c) => (Err(f), c),
        }
    }

    fn decode(buf: &mut Buf<'buf>) -> (r: DecodeResult<Self>) {
        match buf.decode::<u64>() {
            Ok(v) => Ok(v as usize),
            Err(e) => Err(e),
        }
    }
}

impl Encode for isize {
    open spec fn encoding(&self) -> Seq<u8> {
        be_bytes(*self as int, 8)
    }

    fn len(&self) -> (n: usize) {
        proof {
            lemma_be_bytes_len(*self as int, 8);
        }
        core::mem::size_of::<i64>()
    }

    fn encode(&self, buf: &mut BufMut) {
        buf.encode(&(*self as i64));
    }
}

impl fixed::Encode for isize {
    fn try_encode(&self, buf: &mut fixed::BufMut) -> (r: EncodeResult<()>)
        ensures
            r is Err ==> *final(buf) == *old(buf),
    {
        fixed::Encode::try_encode(&(*self as i64), buf)
    }
}

impl<'buf> Decode<'buf> for isize {
    type Model = isize;

    open spec fn model(&self) -> isize {
        *self
    }

    open spec fn spec_decode(input: Seq<u8>) -> Decoded<isize> {
        match i64::spec_decode(input) {
            (Ok(v), c) => (Ok(v as isize), c),
            (Err(f), c) => (Err(f), c),
        }
    }

    fn decode(buf: &mut Buf<'buf>) -> (r: DecodeResult<Self>) {
        match buf.decode::<i64>() {
            Ok(v) => Ok(v as isize),
            Err(e) => Err(e),
        }
    }
}

} // verus!
