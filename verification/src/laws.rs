//! What holds across encoding and decoding: every value decodes back from its
//! own encoding, whatever bytes follow it.
use crate::bytes::{
    lemma_be_bytes_byte, lemma_be_bytes_len, lemma_be_signed_value_of_bytes,
    lemma_be_value_of_bytes, lemma_pow256_values,
};
use crate::decode::{Decode, DecodeFailure};
use crate::encode::{Encode, ToBytes};
use crate::fixed;
use crate::impls::bound::Bound;
use crate::impls::ordering::{ordering_byte, ordering_decoding, ordering_encoding};
use crate::impls::seqs::{
    concat_encodings, lemma_concat_bytes, lemma_concat_first, lemma_concat_split,
    lemma_concat_step, models, spec_decode_many,
};
use core::cmp::Ordering;
use std::borrow::{Cow, ToOwned};
use core::marker::PhantomData;
use std::rc::Rc;
use std::sync::Arc;
use vstd::string::StringSliceAdditionalSpecFns;
use vstd::prelude::*;

verus! {

/// Decoding from the encoding of `x` followed by `rest` yields the model of
/// `x` and consumes exactly the encoding.
pub open spec fn decodes_back<'buf, T: Encode + Decode<'buf>>(x: T, rest: Seq<u8>) -> bool {
    T::spec_decode(x.encoding() + rest) == (
        Ok::<T::Model, DecodeFailure>(x.model()),
        x.encoding().len(),
    )
}

/// Every value of `T` decodes back from its encoding, whatever follows it.
pub open spec fn always_decodes_back<'buf, T: Encode + Decode<'buf>>() -> bool {
    forall|x: T, rest: Seq<u8>| #[trigger] decodes_back::<'buf, T>(x, rest)
}

/// A `u8` decodes back from its encoding, whatever follows it.
pub proof fn lemma_u8_roundtrip(x: u8, rest: Seq<u8>)
    ensures
        decodes_back(x, rest),
{
    lemma_pow256_values();
    lemma_be_bytes_len(x as int, 1);
    lemma_be_value_of_bytes(x as int, 1);
    assert((x.encoding() + rest).take(1) =~= x.encoding());
}

/// A `u16` decodes back from its encoding, whatever follows it.
pub proof fn lemma_u16_roundtrip(x: u16, rest: Seq<u8>)
    ensures
        decodes_back(x, rest),
{
    lemma_pow256_values();
    lemma_be_bytes_len(x as int, 2);
    lemma_be_value_of_bytes(x as int, 2);
    assert((x.encoding() + rest).take(2) =~= x.encoding());
}

/// A `u32` decodes back from its encoding, whatever follows it.
pub proof fn lemma_u32_roundtrip(x: u32, rest: Seq<u8>)
    ensures
        decodes_back(x, rest),
{
    lemma_pow256_values();
    lemma_be_bytes_len(x as int, 4);
    lemma_be_value_of_bytes(x as int, 4);
    assert((x.encoding() + rest).take(4) =~= x.encoding());
}

/// A `u64` decodes back from its encoding, whatever follows it.
pub proof fn lemma_u64_roundtrip(x: u64, rest: Seq<u8>)
    ensures
        decodes_back(x, rest),
{
    lemma_pow256_values();
    lemma_be_bytes_len(x as int, 8);
    lemma_be_value_of_bytes(x as int, 8);
    assert((x.encoding() + rest).take(8) =~= x.encoding());
}

/// A `u128` decodes back from its encoding, whatever follows it.
pub proof fn lemma_u128_roundtrip(x: u128, rest: Seq<u8>)
    ensures
        decodes_back(x, rest),
{
    lemma_pow256_values();
    lemma_be_bytes_len(x as int, 16);
    lemma_be_value_of_bytes(x as int, 16);
    assert((x.encoding() + rest).take(16) =~= x.encoding());
}

/// A `i8` decodes back from its encoding, whatever follows it.
pub proof fn lemma_i8_roundtrip(x: i8, rest: Seq<u8>)
    ensures
        decodes_back(x, rest),
{
    lemma_pow256_values();
    lemma_be_bytes_len(x as int, 1);
    lemma_be_signed_value_of_bytes(x as int, 1);
    assert((x.encoding() + rest).take(1) =~= x.encoding());
}

/// A `i16` decodes back from its encoding, whatever follows it.
pub proof fn lemma_i16_roundtrip(x: i16, rest: Seq<u8>)
    ensures
        decodes_back(x, rest),
{
    lemma_pow256_values();
    lemma_be_bytes_len(x as int, 2);
    lemma_be_signed_value_of_bytes(x as int, 2);
    assert((x.encoding() + rest).take(2) =~= x.encoding());
}

/// A `i32` decodes back from its encoding, whatever follows it.
pub proof fn lemma_i32_roundtrip(x: i32, rest: Seq<u8>)
    ensures
        decodes_back(x, rest),
{
    lemma_pow256_values();
    lemma_be_bytes_len(x as int, 4);
    lemma_be_signed_value_of_bytes(x as int, 4);
    assert((x.encoding() + rest).take(4) =~= x.encoding());
}

/// A `i64` decodes back from its encoding, whatever follows it.
pub proof fn lemma_i64_roundtrip(x: i64, rest: Seq<u8>)
    ensures
        decodes_back(x, rest),
{
    lemma_pow256_values();
    lemma_be_bytes_len(x as int, 8);
    lemma_be_signed_value_of_bytes(x as int, 8);
    assert((x.encoding() + rest).take(8) =~= x.encoding());
}

/// A `i128` decodes back from its encoding, whatever follows it.
pub proof fn lemma_i128_roundtrip(x: i128, rest: Seq<u8>)
    ensures
        decodes_back(x, rest),
{
    lemma_pow256_values();
    lemma_be_bytes_len(x as int, 16);
    lemma_be_signed_value_of_bytes(x as int, 16);
    assert((x.encoding() + rest).take(16) =~= x.encoding());
}

/// A `usize` decodes back from its encoding, whatever follows it.
pub proof fn lemma_usize_roundtrip(x: usize, rest: Seq<u8>)
    ensures
        decodes_back(x, rest),
{
    lemma_u64_roundtrip(x as u64, rest);
}

/// A `isize` decodes back from its encoding, whatever follows it.
pub proof fn lemma_isize_roundtrip(x: isize, rest: Seq<u8>)
    ensures
        decodes_back(x, rest),
{
    lemma_i64_roundtrip(x as i64, rest);
}
/// A `bool` decodes back from its encoding, whatever follows it.
pub proof fn lemma_bool_roundtrip(x: bool, rest: Seq<u8>)
    ensures
        decodes_back(x, rest),
{
    lemma_u8_roundtrip(if x { 1u8 } else { 0u8 }, rest);
    lemma_be_bytes_byte(if x { 1u8 } else { 0u8 });
}

/// A `char` decodes back from its encoding, whatever follows it.
pub proof fn lemma_char_roundtrip(x: char, rest: Seq<u8>)
    ensures
        decodes_back(x, rest),
{
    lemma_u32_roundtrip(x as u32, rest);
    vstd::utf8::char_is_scalar(x);
    vstd::utf8::char_u32_cast(x, x as u32);
}

/// An `Option` decodes back from its encoding when its contents do.
pub proof fn lemma_option_roundtrip<'buf, T: Encode + Decode<'buf>>(x: Option<T>, rest: Seq<u8>)
    requires
        always_decodes_back::<'buf, T>(),
    ensures
        decodes_back::<'buf, Option<T>>(x, rest),
{
    let enc = x.encoding() + rest;
    match x {
        None => {
            lemma_u8_roundtrip(0, rest);
            lemma_be_bytes_byte(0);
        },
        Some(v) => {
            lemma_u8_roundtrip(1, v.encoding() + rest);
            lemma_be_bytes_byte(1);
            assert(enc =~= seq![1u8] + (v.encoding() + rest));
            assert(enc.skip(1) =~= v.encoding() + rest);
            assert(decodes_back::<'buf, T>(v, rest));
        },
    }
}

/// A `Result` decodes back from its encoding when both sides do.
pub proof fn lemma_result_roundtrip<'buf, T: Encode + Decode<'buf>, E: Encode + Decode<'buf>>(
    x: Result<T, E>,
    rest: Seq<u8>,
)
    requires
        always_decodes_back::<'buf, T>(),
        always_decodes_back::<'buf, E>(),
    ensures
        decodes_back::<'buf, Result<T, E>>(x, rest),
{
    let enc = x.encoding() + rest;
    match x {
        Ok(v) => {
            lemma_u8_roundtrip(0, v.encoding() + rest);
            lemma_be_bytes_byte(0);
            assert(enc =~= seq![0u8] + (v.encoding() + rest));
            assert(enc.skip(1) =~= v.encoding() + rest);
            assert(decodes_back::<'buf, T>(v, rest));
        },
        Err(e) => {
            lemma_u8_roundtrip(1, e.encoding() + rest);
            lemma_be_bytes_byte(1);
            assert(enc =~= seq![1u8] + (e.encoding() + rest));
            assert(enc.skip(1) =~= e.encoding() + rest);
            assert(decodes_back::<'buf, E>(e, rest));
        },
    }
}

/// Decoding `k` items from the encodings of a run of items that each decode
/// back, followed by anything, gives the models of the first `k` and
/// consumes exactly their encodings.
pub proof fn lemma_decode_many_roundtrip<'buf, T: Encode + Decode<'buf>>(
    items: Seq<T>,
    rest: Seq<u8>,
    k: nat,
)
    requires
        always_decodes_back::<'buf, T>(),
        k <= items.len(),
    ensures
        spec_decode_many::<T>(concat_encodings(items) + rest, k) == (
            Ok::<Seq<T::Model>, DecodeFailure>(models(items.take(k as int))),
            concat_encodings(items.take(k as int)).len(),
        ),
    decreases k,
{
    let input = concat_encodings(items) + rest;
    if k == 0 {
        assert(models(items.take(0)) =~= Seq::<T::Model>::empty());
        assert(items.take(0) =~= Seq::<T>::empty());
    } else {
        let j = (k - 1) as int;
        lemma_decode_many_roundtrip::<T>(items, rest, (k - 1) as nat);
        let done = concat_encodings(items.take(j));
        lemma_concat_split(items, j);
        lemma_concat_first(items.skip(j));
        assert(items.skip(j)[0] == items[j]);
        assert(items.skip(j).skip(1) =~= items.skip(j + 1));
        let after = concat_encodings(items.skip(j + 1)) + rest;
        assert(input.skip(done.len() as int) =~= items[j].encoding() + after);
        assert(decodes_back::<'buf, T>(items[j], after));
        lemma_concat_step(items, j);
        assert(models(items.take(k as int)) =~= models(items.take(j)).push(items[j].model()));
    }
}

/// A vector decodes back from its encoding when its items do.
pub proof fn lemma_vec_roundtrip<'buf, T: Encode + Decode<'buf>>(x: Vec<T>, rest: Seq<u8>)
    requires
        always_decodes_back::<'buf, T>(),
    ensures
        decodes_back::<'buf, Vec<T>>(x, rest),
{
    let n: usize = x.len();
    let body = concat_encodings(x@) + rest;
    lemma_usize_roundtrip(n, body);
    assert(x.encoding() + rest =~= n.encoding() + body);
    lemma_be_bytes_len(n as int, 8);
    assert((x.encoding() + rest).skip(8) =~= body);
    lemma_decode_many_roundtrip::<T>(x@, rest, n as nat);
    assert(x@.take(n as int) =~= x@);
}

/// An array decodes back from its encoding when its items do.
pub proof fn lemma_array_roundtrip<'buf, T: Encode + Decode<'buf>, const N: usize>(
    x: [T; N],
    rest: Seq<u8>,
)
    requires
        always_decodes_back::<'buf, T>(),
    ensures
        decodes_back::<'buf, [T; N]>(x, rest),
{
    lemma_decode_many_roundtrip::<T>(x@, rest, N as nat);
    assert(x@.take(N as int) =~= x@);
}

/// A byte slice decodes back, as a borrowed slice, from its encoding.
pub proof fn lemma_bytes_roundtrip(x: &[u8], rest: Seq<u8>)
    ensures
        <&[u8]>::spec_decode(x.encoding() + rest) == (
            Ok::<Seq<u8>, DecodeFailure>(x@),
            x.encoding().len(),
        ),
{
    let n: usize = x.len();
    lemma_concat_bytes(x@);
    let body = x@ + rest;
    lemma_usize_roundtrip(n, body);
    assert(x.encoding() + rest =~= n.encoding() + body);
    lemma_be_bytes_len(n as int, 8);
    assert((x.encoding() + rest).skip(8) =~= body);
    assert(body.take(n as int) =~= x@);
}

/// A string slice decodes back, as a borrowed string slice, from its encoding.
pub proof fn lemma_str_roundtrip(x: &str, rest: Seq<u8>)
    requires
        x.spec_bytes().len() <= usize::MAX,
    ensures
        <&str>::spec_decode(x.encoding() + rest) == (
            Ok::<Seq<char>, DecodeFailure>(x@),
            x.encoding().len(),
        ),
{
    let bytes = x.spec_bytes();
    let n = bytes.len();
    let body = bytes + rest;
    lemma_usize_roundtrip(n as usize, body);
    lemma_be_bytes_len(n as int, 8);
    assert(x.encoding() + rest =~= (n as usize).encoding() + body);
    assert((x.encoding() + rest).skip(8) =~= body);
    assert(body.take(n as int) =~= bytes);
    vstd::utf8::encode_utf8_valid_utf8(x@);
    vstd::utf8::encode_utf8_decode_utf8(x@);
}

/// A `String` decodes back from its encoding.
pub proof fn lemma_string_roundtrip(x: String, rest: Seq<u8>)
    requires
        vstd::utf8::encode_utf8(x@).len() <= usize::MAX,
    ensures
        decodes_back(x, rest),
{
    let bytes = vstd::utf8::encode_utf8(x@);
    let n = bytes.len();
    let body = bytes + rest;
    lemma_usize_roundtrip(n as usize, body);
    lemma_be_bytes_len(n as int, 8);
    assert(x.encoding() + rest =~= (n as usize).encoding() + body);
    assert((x.encoding() + rest).skip(8) =~= body);
    assert(body.take(n as int) =~= bytes);
    vstd::utf8::encode_utf8_valid_utf8(x@);
    vstd::utf8::encode_utf8_decode_utf8(x@);
}

/// A bound decodes back from its encoding when its endpoint does.
pub proof fn lemma_bound_roundtrip<'buf, T: Encode + Decode<'buf>>(x: Bound<T>, rest: Seq<u8>)
    requires
        always_decodes_back::<'buf, T>(),
    ensures
        decodes_back::<'buf, Bound<T>>(x, rest),
{
    let enc = x.encoding() + rest;
    match x {
        Bound::Included(v) => {
            lemma_u8_roundtrip(0, v.encoding() + rest);
            lemma_be_bytes_byte(0);
            assert(enc =~= seq![0u8] + (v.encoding() + rest));
            assert(enc.skip(1) =~= v.encoding() + rest);
            assert(decodes_back::<'buf, T>(v, rest));
        },
        Bound::Excluded(v) => {
            lemma_u8_roundtrip(1, v.encoding() + rest);
            lemma_be_bytes_byte(1);
            assert(enc =~= seq![1u8] + (v.encoding() + rest));
            assert(enc.skip(1) =~= v.encoding() + rest);
            assert(decodes_back::<'buf, T>(v, rest));
        },
        Bound::Unbounded => {
            lemma_u8_roundtrip(2, rest);
            lemma_be_bytes_byte(2);
        },
    }
}

/// An ordering decodes back from its encoding.
pub proof fn lemma_ordering_roundtrip(x: Ordering, rest: Seq<u8>)
    ensures
        ordering_decoding(ordering_encoding(x) + rest) == (
            Ok::<Ordering, DecodeFailure>(x),
            1nat,
        ),
{
    lemma_u8_roundtrip(ordering_byte(x), rest);
    lemma_be_bytes_byte(ordering_byte(x));
}

/// A boxed value decodes back from its encoding when the value does.
pub proof fn lemma_box_roundtrip<'buf, T: Encode + Decode<'buf>>(x: Box<T>, rest: Seq<u8>)
    requires
        always_decodes_back::<'buf, T>(),
    ensures
        decodes_back::<'buf, Box<T>>(x, rest),
{
    assert(decodes_back::<'buf, T>(*x, rest));
}

/// A reference-counted value decodes back from its encoding when the value
/// does.
pub proof fn lemma_rc_roundtrip<'buf, T: Encode + Decode<'buf>>(x: Rc<T>, rest: Seq<u8>)
    requires
        always_decodes_back::<'buf, T>(),
    ensures
        decodes_back::<'buf, Rc<T>>(x, rest),
{
    assert(decodes_back::<'buf, T>(*x, rest));
}

/// An atomically reference-counted value decodes back from its encoding when
/// the value does.
pub proof fn lemma_arc_roundtrip<'buf, T: Encode + Decode<'buf>>(x: Arc<T>, rest: Seq<u8>)
    requires
        always_decodes_back::<'buf, T>(),
    ensures
        decodes_back::<'buf, Arc<T>>(x, rest),
{
    assert(decodes_back::<'buf, T>(*x, rest));
}

/// A borrowed clone-on-write value decodes back, as a borrow, from its
/// encoding when the borrow does.
pub proof fn lemma_cow_roundtrip<'buf, D>(x: Cow<'buf, D>, rest: Seq<u8>)
    where
        D: Encode + ToOwned + ?Sized,
        D::Owned: Encode,
        &'buf D: Decode<'buf>,
    requires
        always_decodes_back::<'buf, &'buf D>(),
        x is Borrowed,
    ensures
        decodes_back::<'buf, Cow<'buf, D>>(x, rest),
{
    match x {
        Cow::Borrowed(b) => {
            assert(decodes_back::<'buf, &'buf D>(b, rest));
        },
        Cow::Owned(_) => {},
    }
}

/// `PhantomData` decodes back from its (empty) encoding.
pub proof fn lemma_phantom_data_roundtrip<T>(x: PhantomData<T>, rest: Seq<u8>)
    ensures
        decodes_back(x, rest),
{
    assert(x.encoding() + rest =~= rest);
}

/// A tuple of 0 elements decodes back from its encoding when its elements do.
pub proof fn lemma_tuple0_roundtrip<'buf>(x: (), rest: Seq<u8>)
    ensures
        decodes_back::<'buf, ()>(x, rest),
{
    assert(x.encoding() + rest =~= rest);
}

/// A tuple of 1 element decodes back from its encoding when its elements do.
pub proof fn lemma_tuple1_roundtrip<'buf, A: Encode + Decode<'buf>>(x: (A,), rest: Seq<u8>)
    requires
        always_decodes_back::<'buf, A>(),
    ensures
        decodes_back::<'buf, (A,)>(x, rest),
{
    let input = x.encoding() + rest;
    let r1 = rest;
    let r0 = x.0.encoding() + r1;
    let p0 = Seq::<u8>::empty();
    let p1 = p0 + x.0.encoding();
    assert(p0 + r0 =~= p1 + r1);
    assert(p1 =~= x.encoding());
    assert(input.skip(p0.len() as int) =~= r0);
    assert(decodes_back::<'buf, A>(x.0, r1));
}

/// A tuple of 2 elements decodes back from its encoding when its elements do.
pub proof fn lemma_tuple2_roundtrip<'buf, A: Encode + Decode<'buf>, B: Encode + Decode<'buf>>(x: (A, B), rest: Seq<u8>)
    requires
        always_decodes_back::<'buf, A>(),
        always_decodes_back::<'buf, B>(),
    ensures
        decodes_back::<'buf, (A, B)>(x, rest),
{
    let input = x.encoding() + rest;
    let r2 = rest;
    let r1 = x.1.encoding() + r2;
    let r0 = x.0.encoding() + r1;
    let p0 = Seq::<u8>::empty();
    let p1 = p0 + x.0.encoding();
    assert(p0 + r0 =~= p1 + r1);
    let p2 = p1 + x.1.encoding();
    assert(p1 + r1 =~= p2 + r2);
    assert(p2 =~= x.encoding());
    assert(input.skip(p0.len() as int) =~= r0);
    assert(decodes_back::<'buf, A>(x.0, r1));
    assert(input.skip(p1.len() as int) =~= r1);
    assert(decodes_back::<'buf, B>(x.1, r2));
}

/// A tuple of 3 elements decodes back from its encoding when its elements do.
pub proof fn lemma_tuple3_roundtrip<'buf, A: Encode + Decode<'buf>, B: Encode + Decode<'buf>, C: Encode + Decode<'buf>>(x: (A, B, C), rest: Seq<u8>)
    requires
        always_decodes_back::<'buf, A>(),
        always_decodes_back::<'buf, B>(),
        always_decodes_back::<'buf, C>(),
    ensures
        decodes_back::<'buf, (A, B, C)>(x, rest),
{
    let input = x.encoding() + rest;
    let r3 = rest;
    let r2 = x.2.encoding() + r3;
    let r1 = x.1.encoding() + r2;
    let r0 = x.0.encoding() + r1;
    let p0 = Seq::<u8>::empty();
    let p1 = p0 + x.0.encoding();
    assert(p0 + r0 =~= p1 + r1);
    let p2 = p1 + x.1.encoding();
    assert(p1 + r1 =~= p2 + r2);
    let p3 = p2 + x.2.encoding();
    assert(p2 + r2 =~= p3 + r3);
    assert(p3 =~= x.encoding());
    assert(input.skip(p0.len() as int) =~= r0);
    assert(decodes_back::<'buf, A>(x.0, r1));
    assert(input.skip(p1.len() as int) =~= r1);
    assert(decodes_back::<'buf, B>(x.1, r2));
    assert(input.skip(p2.len() as int) =~= r2);
    assert(decodes_back::<'buf, C>(x.2, r3));
}

/// A tuple of 4 elements decodes back from its encoding when its elements do.
pub proof fn lemma_tuple4_roundtrip<'buf, A: Encode + Decode<'buf>, B: Encode + Decode<'buf>, C: Encode + Decode<'buf>, D: Encode + Decode<'buf>>(x: (A, B, C, D), rest: Seq<u8>)
    requires
        always_decodes_back::<'buf, A>(),
        always_decodes_back::<'buf, B>(),
        always_decodes_back::<'buf, C>(),
        always_decodes_back::<'buf, D>(),
    ensures
        decodes_back::<'buf, (A, B, C, D)>(x, rest),
{
    let input = x.encoding() + rest;
    let r4 = rest;
    let r3 = x.3.encoding() + r4;
    let r2 = x.2.encoding() + r3;
    let r1 = x.1.encoding() + r2;
    let r0 = x.0.encoding() + r1;
    let p0 = Seq::<u8>::empty();
    let p1 = p0 + x.0.encoding();
    assert(p0 + r0 =~= p1 + r1);
    let p2 = p1 + x.1.encoding();
    assert(p1 + r1 =~= p2 + r2);
    let p3 = p2 + x.2.encoding();
    assert(p2 + r2 =~= p3 + r3);
    let p4 = p3 + x.3.encoding();
    assert(p3 + r3 =~= p4 + r4);
    assert(p4 =~= x.encoding());
    assert(input.skip(p0.len() as int) =~= r0);
    assert(decodes_back::<'buf, A>(x.0, r1));
    assert(input.skip(p1.len() as int) =~= r1);
    assert(decodes_back::<'buf, B>(x.1, r2));
    assert(input.skip(p2.len() as int) =~= r2);
    assert(decodes_back::<'buf, C>(x.2, r3));
    assert(input.skip(p3.len() as int) =~= r3);
    assert(decodes_back::<'buf, D>(x.3, r4));
}

/// A tuple of 5 elements decodes back from its encoding when its elements do.
pub proof fn lemma_tuple5_roundtrip<'buf, A: Encode + Decode<'buf>, B: Encode + Decode<'buf>, C: Encode + Decode<'buf>, D: Encode + Decode<'buf>, E: Encode + Decode<'buf>>(x: (A, B, C, D, E), rest: Seq<u8>)
    requires
        always_decodes_back::<'buf, A>(),
        always_decodes_back::<'buf, B>(),
        always_decodes_back::<'buf, C>(),
        always_decodes_back::<'buf, D>(),
        always_decodes_back::<'buf, E>(),
    ensures
        decodes_back::<'buf, (A, B, C, D, E)>(x, rest),
{
    let input = x.encoding() + rest;
    let r5 = rest;
    let r4 = x.4.encoding() + r5;
    let r3 = x.3.encoding() + r4;
    let r2 = x.2.encoding() + r3;
    let r1 = x.1.encoding() + r2;
    let r0 = x.0.encoding() + r1;
    let p0 = Seq::<u8>::empty();
    let p1 = p0 + x.0.encoding();
    assert(p0 + r0 =~= p1 + r1);
    let p2 = p1 + x.1.encoding();
    assert(p1 + r1 =~= p2 + r2);
    let p3 = p2 + x.2.encoding();
    assert(p2 + r2 =~= p3 + r3);
    let p4 = p3 + x.3.encoding();
    assert(p3 + r3 =~= p4 + r4);
    let p5 = p4 + x.4.encoding();
    assert(p4 + r4 =~= p5 + r5);
    assert(p5 =~= x.encoding());
    assert(input.skip(p0.len() as int) =~= r0);
    assert(decodes_back::<'buf, A>(x.0, r1));
    assert(input.skip(p1.len() as int) =~= r1);
    assert(decodes_back::<'buf, B>(x.1, r2));
    assert(input.skip(p2.len() as int) =~= r2);
    assert(decodes_back::<'buf, C>(x.2, r3));
    assert(input.skip(p3.len() as int) =~= r3);
    assert(decodes_back::<'buf, D>(x.3, r4));
    assert(input.skip(p4.len() as int) =~= r4);
    assert(decodes_back::<'buf, E>(x.4, r5));
}

/// A tuple of 6 elements decodes back from its encoding when its elements do.
pub proof fn lemma_tuple6_roundtrip<'buf, A: Encode + Decode<'buf>, B: Encode + Decode<'buf>, C: Encode + Decode<'buf>, D: Encode + Decode<'buf>, E: Encode + Decode<'buf>, F: Encode + Decode<'buf>>(x: (A, B, C, D, E, F), rest: Seq<u8>)
    requires
        always_decodes_back::<'buf, A>(),
        always_decodes_back::<'buf, B>(),
        always_decodes_back::<'buf, C>(),
        always_decodes_back::<'buf, D>(),
        always_decodes_back::<'buf, E>(),
        always_decodes_back::<'buf, F>(),
    ensures
        decodes_back::<'buf, (A, B, C, D, E, F)>(x, rest),
{
    let input = x.encoding() + rest;
    let r6 = rest;
    let r5 = x.5.encoding() + r6;
    let r4 = x.4.encoding() + r5;
    let r3 = x.3.encoding() + r4;
    let r2 = x.2.encoding() + r3;
    let r1 = x.1.encoding() + r2;
    let r0 = x.0.encoding() + r1;
    let p0 = Seq::<u8>::empty();
    let p1 = p0 + x.0.encoding();
    assert(p0 + r0 =~= p1 + r1);
    let p2 = p1 + x.1.encoding();
    assert(p1 + r1 =~= p2 + r2);
    let p3 = p2 + x.2.encoding();
    assert(p2 + r2 =~= p3 + r3);
    let p4 = p3 + x.3.encoding();
    assert(p3 + r3 =~= p4 + r4);
    let p5 = p4 + x.4.encoding();
    assert(p4 + r4 =~= p5 + r5);
    let p6 = p5 + x.5.encoding();
    assert(p5 + r5 =~= p6 + r6);
    assert(p6 =~= x.encoding());
    assert(input.skip(p0.len() as int) =~= r0);
    assert(decodes_back::<'buf, A>(x.0, r1));
    assert(input.skip(p1.len() as int) =~= r1);
    assert(decodes_back::<'buf, B>(x.1, r2));
    assert(input.skip(p2.len() as int) =~= r2);
    assert(decodes_back::<'buf, C>(x.2, r3));
    assert(input.skip(p3.len() as int) =~= r3);
    assert(decodes_back::<'buf, D>(x.3, r4));
    assert(input.skip(p4.len() as int) =~= r4);
    assert(decodes_back::<'buf, E>(x.4, r5));
    assert(input.skip(p5.len() as int) =~= r5);
    assert(decodes_back::<'buf, F>(x.5, r6));
}

/// A tuple of 7 elements decodes back from its encoding when its elements do.
pub proof fn lemma_tuple7_roundtrip<'buf, A: Encode + Decode<'buf>, B: Encode + Decode<'buf>, C: Encode + Decode<'buf>, D: Encode + Decode<'buf>, E: Encode + Decode<'buf>, F: Encode + Decode<'buf>, G: Encode + Decode<'buf>>(x: (A, B, C, D, E, F, G), rest: Seq<u8>)
    requires
        always_decodes_back::<'buf, A>(),
        always_decodes_back::<'buf, B>(),
        always_decodes_back::<'buf, C>(),
        always_decodes_back::<'buf, D>(),
        always_decodes_back::<'buf, E>(),
        always_decodes_back::<'buf, F>(),
        always_decodes_back::<'buf, G>(),
    ensures
        decodes_back::<'buf, (A, B, C, D, E, F, G)>(x, rest),
{
    let input = x.encoding() + rest;
    let r7 = rest;
    let r6 = x.6.encoding() + r7;
    let r5 = x.5.encoding() + r6;
    let r4 = x.4.encoding() + r5;
    let r3 = x.3.encoding() + r4;
    let r2 = x.2.encoding() + r3;
    let r1 = x.1.encoding() + r2;
    let r0 = x.0.encoding() + r1;
    let p0 = Seq::<u8>::empty();
    let p1 = p0 + x.0.encoding();
    assert(p0 + r0 =~= p1 + r1);
    let p2 = p1 + x.1.encoding();
    assert(p1 + r1 =~= p2 + r2);
    let p3 = p2 + x.2.encoding();
    assert(p2 + r2 =~= p3 + r3);
    let p4 = p3 + x.3.encoding();
    assert(p3 + r3 =~= p4 + r4);
    let p5 = p4 + x.4.encoding();
    assert(p4 + r4 =~= p5 + r5);
    let p6 = p5 + x.5.encoding();
    assert(p5 + r5 =~= p6 + r6);
    let p7 = p6 + x.6.encoding();
    assert(p6 + r6 =~= p7 + r7);
    assert(p7 =~= x.encoding());
    assert(input.skip(p0.len() as int) =~= r0);
    assert(decodes_back::<'buf, A>(x.0, r1));
    assert(input.skip(p1.len() as int) =~= r1);
    assert(decodes_back::<'buf, B>(x.1, r2));
    assert(input.skip(p2.len() as int) =~= r2);
    assert(decodes_back::<'buf, C>(x.2, r3));
    assert(input.skip(p3.len() as int) =~= r3);
    assert(decodes_back::<'buf, D>(x.3, r4));
    assert(input.skip(p4.len() as int) =~= r4);
    assert(decodes_back::<'buf, E>(x.4, r5));
    assert(input.skip(p5.len() as int) =~= r5);
    assert(decodes_back::<'buf, F>(x.5, r6));
    assert(input.skip(p6.len() as int) =~= r6);
    assert(decodes_back::<'buf, G>(x.6, r7));
}

/// A tuple of 8 elements decodes back from its encoding when its elements do.
#[verifier::spinoff_prover]
#[verifier::rlimit(100)]
pub proof fn lemma_tuple8_roundtrip<'buf, A: Encode + Decode<'buf>, B: Encode + Decode<'buf>, C: Encode + Decode<'buf>, D: Encode + Decode<'buf>, E: Encode + Decode<'buf>, F: Encode + Decode<'buf>, G: Encode + Decode<'buf>, H: Encode + Decode<'buf>>(x: (A, B, C, D, E, F, G, H), rest: Seq<u8>)
    requires
        always_decodes_back::<'buf, A>(),
        always_decodes_back::<'buf, B>(),
        always_decodes_back::<'buf, C>(),
        always_decodes_back::<'buf, D>(),
        always_decodes_back::<'buf, E>(),
        always_decodes_back::<'buf, F>(),
        always_decodes_back::<'buf, G>(),
        always_decodes_back::<'buf, H>(),
    ensures
        decodes_back::<'buf, (A, B, C, D, E, F, G, H)>(x, rest),
{
    let input = x.encoding() + rest;
    let r8 = rest;
    let r7 = x.7.encoding() + r8;
    let r6 = x.6.encoding() + r7;
    let r5 = x.5.encoding() + r6;
    let r4 = x.4.encoding() + r5;
    let r3 = x.3.encoding() + r4;
    let r2 = x.2.encoding() + r3;
    let r1 = x.1.encoding() + r2;
    let r0 = x.0.encoding() + r1;
    let p0 = Seq::<u8>::empty();
    let p1 = p0 + x.0.encoding();
    assert(p0 + r0 =~= p1 + r1);
    let p2 = p1 + x.1.encoding();
    assert(p1 + r1 =~= p2 + r2);
    let p3 = p2 + x.2.encoding();
    assert(p2 + r2 =~= p3 + r3);
    let p4 = p3 + x.3.encoding();
    assert(p3 + r3 =~= p4 + r4);
    let p5 = p4 + x.4.encoding();
    assert(p4 + r4 =~= p5 + r5);
    let p6 = p5 + x.5.encoding();
    assert(p5 + r5 =~= p6 + r6);
    let p7 = p6 + x.6.encoding();
    assert(p6 + r6 =~= p7 + r7);
    let p8 = p7 + x.7.encoding();
    assert(p7 + r7 =~= p8 + r8);
    assert(p8 =~= x.encoding());
    assert(input.skip(p0.len() as int) =~= r0);
    assert(decodes_back::<'buf, A>(x.0, r1));
    assert(input.skip(p1.len() as int) =~= r1);
    assert(decodes_back::<'buf, B>(x.1, r2));
    assert(input.skip(p2.len() as int) =~= r2);
    assert(decodes_back::<'buf, C>(x.2, r3));
    assert(input.skip(p3.len() as int) =~= r3);
    assert(decodes_back::<'buf, D>(x.3, r4));
    assert(input.skip(p4.len() as int) =~= r4);
    assert(decodes_back::<'buf, E>(x.4, r5));
    assert(input.skip(p5.len() as int) =~= r5);
    assert(decodes_back::<'buf, F>(x.5, r6));
    assert(input.skip(p6.len() as int) =~= r6);
    assert(decodes_back::<'buf, G>(x.6, r7));
    assert(input.skip(p7.len() as int) =~= r7);
    assert(decodes_back::<'buf, H>(x.7, r8));
}

/// A tuple of 9 elements decodes back from its encoding when its elements do.
#[verifier::spinoff_prover]
#[verifier::rlimit(100)]
pub proof fn lemma_tuple9_roundtrip<'buf, A: Encode + Decode<'buf>, B: Encode + Decode<'buf>, C: Encode + Decode<'buf>, D: Encode + Decode<'buf>, E: Encode + Decode<'buf>, F: Encode + Decode<'buf>, G: Encode + Decode<'buf>, H: Encode + Decode<'buf>, I: Encode + Decode<'buf>>(x: (A, B, C, D, E, F, G, H, I), rest: Seq<u8>)
    requires
        always_decodes_back::<'buf, A>(),
        always_decodes_back::<'buf, B>(),
        always_decodes_back::<'buf, C>(),
        always_decodes_back::<'buf, D>(),
        always_decodes_back::<'buf, E>(),
        always_decodes_back::<'buf, F>(),
        always_decodes_back::<'buf, G>(),
        always_decodes_back::<'buf, H>(),
        always_decodes_back::<'buf, I>(),
    ensures
        decodes_back::<'buf, (A, B, C, D, E, F, G, H, I)>(x, rest),
{
    let input = x.encoding() + rest;
    let r9 = rest;
    let r8 = x.8.encoding() + r9;
    let r7 = x.7.encoding() + r8;
    let r6 = x.6.encoding() + r7;
    let r5 = x.5.encoding() + r6;
    let r4 = x.4.encoding() + r5;
    let r3 = x.3.encoding() + r4;
    let r2 = x.2.encoding() + r3;
    let r1 = x.1.encoding() + r2;
    let r0 = x.0.encoding() + r1;
    let p0 = Seq::<u8>::empty();
    let p1 = p0 + x.0.encoding();
    assert(p0 + r0 =~= p1 + r1);
    let p2 = p1 + x.1.encoding();
    assert(p1 + r1 =~= p2 + r2);
    let p3 = p2 + x.2.encoding();
    assert(p2 + r2 =~= p3 + r3);
    let p4 = p3 + x.3.encoding();
    assert(p3 + r3 =~= p4 + r4);
    let p5 = p4 + x.4.encoding();
    assert(p4 + r4 =~= p5 + r5);
    let p6 = p5 + x.5.encoding();
    assert(p5 + r5 =~= p6 + r6);
    let p7 = p6 + x.6.encoding();
    assert(p6 + r6 =~= p7 + r7);
    let p8 = p7 + x.7.encoding();
    assert(p7 + r7 =~= p8 + r8);
    let p9 = p8 + x.8.encoding();
    assert(p8 + r8 =~= p9 + r9);
    assert(p9 =~= x.encoding());
    assert(input.skip(p0.len() as int) =~= r0);
    assert(decodes_back::<'buf, A>(x.0, r1));
    assert(input.skip(p1.len() as int) =~= r1);
    assert(decodes_back::<'buf, B>(x.1, r2));
    assert(input.skip(p2.len() as int) =~= r2);
    assert(decodes_back::<'buf, C>(x.2, r3));
    assert(input.skip(p3.len() as int) =~= r3);
    assert(decodes_back::<'buf, D>(x.3, r4));
    assert(input.skip(p4.len() as int) =~= r4);
    assert(decodes_back::<'buf, E>(x.4, r5));
    assert(input.skip(p5.len() as int) =~= r5);
    assert(decodes_back::<'buf, F>(x.5, r6));
    assert(input.skip(p6.len() as int) =~= r6);
    assert(decodes_back::<'buf, G>(x.6, r7));
    assert(input.skip(p7.len() as int) =~= r7);
    assert(decodes_back::<'buf, H>(x.7, r8));
    assert(input.skip(p8.len() as int) =~= r8);
    assert(decodes_back::<'buf, I>(x.8, r9));
}

/// A tuple of 10 elements decodes back from its encoding when its elements do.
#[verifier::spinoff_prover]
#[verifier::rlimit(100)]
pub proof fn lemma_tuple10_roundtrip<'buf, A: Encode + Decode<'buf>, B: Encode + Decode<'buf>, C: Encode + Decode<'buf>, D: Encode + Decode<'buf>, E: Encode + Decode<'buf>, F: Encode + Decode<'buf>, G: Encode + Decode<'buf>, H: Encode + Decode<'buf>, I: Encode + Decode<'buf>, J: Encode + Decode<'buf>>(x: (A, B, C, D, E, F, G, H, I, J), rest: Seq<u8>)
    requires
        always_decodes_back::<'buf, A>(),
        always_decodes_back::<'buf, B>(),
        always_decodes_back::<'buf, C>(),
        always_decodes_back::<'buf, D>(),
        always_decodes_back::<'buf, E>(),
        always_decodes_back::<'buf, F>(),
        always_decodes_back::<'buf, G>(),
        always_decodes_back::<'buf, H>(),
        always_decodes_back::<'buf, I>(),
        always_decodes_back::<'buf, J>(),
    ensures
        decodes_back::<'buf, (A, B, C, D, E, F, G, H, I, J)>(x, rest),
{
    let input = x.encoding() + rest;
    let r10 = rest;
    let r9 = x.9.encoding() + r10;
    let r8 = x.8.encoding() + r9;
    let r7 = x.7.encoding() + r8;
    let r6 = x.6.encoding() + r7;
    let r5 = x.5.encoding() + r6;
    let r4 = x.4.encoding() + r5;
    let r3 = x.3.encoding() + r4;
    let r2 = x.2.encoding() + r3;
    let r1 = x.1.encoding() + r2;
    let r0 = x.0.encoding() + r1;
    let p0 = Seq::<u8>::empty();
    let p1 = p0 + x.0.encoding();
    assert(p0 + r0 =~= p1 + r1);
    let p2 = p1 + x.1.encoding();
    assert(p1 + r1 =~= p2 + r2);
    let p3 = p2 + x.2.encoding();
    assert(p2 + r2 =~= p3 + r3);
    let p4 = p3 + x.3.encoding();
    assert(p3 + r3 =~= p4 + r4);
    let p5 = p4 + x.4.encoding();
    assert(p4 + r4 =~= p5 + r5);
    let p6 = p5 + x.5.encoding();
    assert(p5 + r5 =~= p6 + r6);
    let p7 = p6 + x.6.encoding();
    assert(p6 + r6 =~= p7 + r7);
    let p8 = p7 + x.7.encoding();
    assert(p7 + r7 =~= p8 + r8);
    let p9 = p8 + x.8.encoding();
    assert(p8 + r8 =~= p9 + r9);
    let p10 = p9 + x.9.encoding();
    assert(p9 + r9 =~= p10 + r10);
    assert(p10 =~= x.encoding());
    assert(input.skip(p0.len() as int) =~= r0);
    assert(decodes_back::<'buf, A>(x.0, r1));
    assert(input.skip(p1.len() as int) =~= r1);
    assert(decodes_back::<'buf, B>(x.1, r2));
    assert(input.skip(p2.len() as int) =~= r2);
    assert(decodes_back::<'buf, C>(x.2, r3));
    assert(input.skip(p3.len() as int) =~= r3);
    assert(decodes_back::<'buf, D>(x.3, r4));
    assert(input.skip(p4.len() as int) =~= r4);
    assert(decodes_back::<'buf, E>(x.4, r5));
    assert(input.skip(p5.len() as int) =~= r5);
    assert(decodes_back::<'buf, F>(x.5, r6));
    assert(input.skip(p6.len() as int) =~= r6);
    assert(decodes_back::<'buf, G>(x.6, r7));
    assert(input.skip(p7.len() as int) =~= r7);
    assert(decodes_back::<'buf, H>(x.7, r8));
    assert(input.skip(p8.len() as int) =~= r8);
    assert(decodes_back::<'buf, I>(x.8, r9));
    assert(input.skip(p9.len() as int) =~= r9);
    assert(decodes_back::<'buf, J>(x.9, r10));
}

/// A tuple of 11 elements decodes back from its encoding when its elements do.
#[verifier::spinoff_prover]
#[verifier::rlimit(100)]
pub proof fn lemma_tuple11_roundtrip<'buf, A: Encode + Decode<'buf>, B: Encode + Decode<'buf>, C: Encode + Decode<'buf>, D: Encode + Decode<'buf>, E: Encode + Decode<'buf>, F: Encode + Decode<'buf>, G: Encode + Decode<'buf>, H: Encode + Decode<'buf>, I: Encode + Decode<'buf>, J: Encode + Decode<'buf>, K: Encode + Decode<'buf>>(x: (A, B, C, D, E, F, G, H, I, J, K), rest: Seq<u8>)
    requires
        always_decodes_back::<'buf, A>(),
        always_decodes_back::<'buf, B>(),
        always_decodes_back::<'buf, C>(),
        always_decodes_back::<'buf, D>(),
        always_decodes_back::<'buf, E>(),
        always_decodes_back::<'buf, F>(),
        always_decodes_back::<'buf, G>(),
        always_decodes_back::<'buf, H>(),
        always_decodes_back::<'buf, I>(),
        always_decodes_back::<'buf, J>(),
        always_decodes_back::<'buf, K>(),
    ensures
        decodes_back::<'buf, (A, B, C, D, E, F, G, H, I, J, K)>(x, rest),
{
    let input = x.encoding() + rest;
    let r11 = rest;
    let r10 = x.10.encoding() + r11;
    let r9 = x.9.encoding() + r10;
    let r8 = x.8.encoding() + r9;
    let r7 = x.7.encoding() + r8;
    let r6 = x.6.encoding() + r7;
    let r5 = x.5.encoding() + r6;
    let r4 = x.4.encoding() + r5;
    let r3 = x.3.encoding() + r4;
    let r2 = x.2.encoding() + r3;
    let r1 = x.1.encoding() + r2;
    let r0 = x.0.encoding() + r1;
    let p0 = Seq::<u8>::empty();
    let p1 = p0 + x.0.encoding();
    assert(p0 + r0 =~= p1 + r1);
    let p2 = p1 + x.1.encoding();
    assert(p1 + r1 =~= p2 + r2);
    let p3 = p2 + x.2.encoding();
    assert(p2 + r2 =~= p3 + r3);
    let p4 = p3 + x.3.encoding();
    assert(p3 + r3 =~= p4 + r4);
    let p5 = p4 + x.4.encoding();
    assert(p4 + r4 =~= p5 + r5);
    let p6 = p5 + x.5.encoding();
    assert(p5 + r5 =~= p6 + r6);
    let p7 = p6 + x.6.encoding();
    assert(p6 + r6 =~= p7 + r7);
    let p8 = p7 + x.7.encoding();
    assert(p7 + r7 =~= p8 + r8);
    let p9 = p8 + x.8.encoding();
    assert(p8 + r8 =~= p9 + r9);
    let p10 = p9 + x.9.encoding();
    assert(p9 + r9 =~= p10 + r10);
    let p11 = p10 + x.10.encoding();
    assert(p10 + r10 =~= p11 + r11);
    assert(p11 =~= x.encoding());
    assert(input.skip(p0.len() as int) =~= r0);
    assert(decodes_back::<'buf, A>(x.0, r1));
    assert(input.skip(p1.len() as int) =~= r1);
    assert(decodes_back::<'buf, B>(x.1, r2));
    assert(input.skip(p2.len() as int) =~= r2);
    assert(decodes_back::<'buf, C>(x.2, r3));
    assert(input.skip(p3.len() as int) =~= r3);
    assert(decodes_back::<'buf, D>(x.3, r4));
    assert(input.skip(p4.len() as int) =~= r4);
    assert(decodes_back::<'buf, E>(x.4, r5));
    assert(input.skip(p5.len() as int) =~= r5);
    assert(decodes_back::<'buf, F>(x.5, r6));
    assert(input.skip(p6.len() as int) =~= r6);
    assert(decodes_back::<'buf, G>(x.6, r7));
    assert(input.skip(p7.len() as int) =~= r7);
    assert(decodes_back::<'buf, H>(x.7, r8));
    assert(input.skip(p8.len() as int) =~= r8);
    assert(decodes_back::<'buf, I>(x.8, r9));
    assert(input.skip(p9.len() as int) =~= r9);
    assert(decodes_back::<'buf, J>(x.9, r10));
    assert(input.skip(p10.len() as int) =~= r10);
    assert(decodes_back::<'buf, K>(x.10, r11));
}

/// A tuple of 12 elements decodes back from its encoding when its elements do.
#[verifier::spinoff_prover]
#[verifier::rlimit(100)]
pub proof fn lemma_tuple12_roundtrip<'buf, A: Encode + Decode<'buf>, B: Encode + Decode<'buf>, C: Encode + Decode<'buf>, D: Encode + Decode<'buf>, E: Encode + Decode<'buf>, F: Encode + Decode<'buf>, G: Encode + Decode<'buf>, H: Encode + Decode<'buf>, I: Encode + Decode<'buf>, J: Encode + Decode<'buf>, K: Encode + Decode<'buf>, L: Encode + Decode<'buf>>(x: (A, B, C, D, E, F, G, H, I, J, K, L), rest: Seq<u8>)
    requires
        always_decodes_back::<'buf, A>(),
        always_decodes_back::<'buf, B>(),
        always_decodes_back::<'buf, C>(),
        always_decodes_back::<'buf, D>(),
        always_decodes_back::<'buf, E>(),
        always_decodes_back::<'buf, F>(),
        always_decodes_back::<'buf, G>(),
        always_decodes_back::<'buf, H>(),
        always_decodes_back::<'buf, I>(),
        always_decodes_back::<'buf, J>(),
        always_decodes_back::<'buf, K>(),
        always_decodes_back::<'buf, L>(),
    ensures
        decodes_back::<'buf, (A, B, C, D, E, F, G, H, I, J, K, L)>(x, rest),
{
    let input = x.encoding() + rest;
    let r12 = rest;
    let r11 = x.11.encoding() + r12;
    let r10 = x.10.encoding() + r11;
    let r9 = x.9.encoding() + r10;
    let r8 = x.8.encoding() + r9;
    let r7 = x.7.encoding() + r8;
    let r6 = x.6.encoding() + r7;
    let r5 = x.5.encoding() + r6;
    let r4 = x.4.encoding() + r5;
    let r3 = x.3.encoding() + r4;
    let r2 = x.2.encoding() + r3;
    let r1 = x.1.encoding() + r2;
    let r0 = x.0.encoding() + r1;
    let p0 = Seq::<u8>::empty();
    let p1 = p0 + x.0.encoding();
    assert(p0 + r0 =~= p1 + r1);
    let p2 = p1 + x.1.encoding();
    assert(p1 + r1 =~= p2 + r2);
    let p3 = p2 + x.2.encoding();
    assert(p2 + r2 =~= p3 + r3);
    let p4 = p3 + x.3.encoding();
    assert(p3 + r3 =~= p4 + r4);
    let p5 = p4 + x.4.encoding();
    assert(p4 + r4 =~= p5 + r5);
    let p6 = p5 + x.5.encoding();
    assert(p5 + r5 =~= p6 + r6);
    let p7 = p6 + x.6.encoding();
    assert(p6 + r6 =~= p7 + r7);
    let p8 = p7 + x.7.encoding();
    assert(p7 + r7 =~= p8 + r8);
    let p9 = p8 + x.8.encoding();
    assert(p8 + r8 =~= p9 + r9);
    let p10 = p9 + x.9.encoding();
    assert(p9 + r9 =~= p10 + r10);
    let p11 = p10 + x.10.encoding();
    assert(p10 + r10 =~= p11 + r11);
    let p12 = p11 + x.11.encoding();
    assert(p11 + r11 =~= p12 + r12);
    assert(p12 =~= x.encoding());
    assert(input.skip(p0.len() as int) =~= r0);
    assert(decodes_back::<'buf, A>(x.0, r1));
    assert(input.skip(p1.len() as int) =~= r1);
    assert(decodes_back::<'buf, B>(x.1, r2));
    assert(input.skip(p2.len() as int) =~= r2);
    assert(decodes_back::<'buf, C>(x.2, r3));
    assert(input.skip(p3.len() as int) =~= r3);
    assert(decodes_back::<'buf, D>(x.3, r4));
    assert(input.skip(p4.len() as int) =~= r4);
    assert(decodes_back::<'buf, E>(x.4, r5));
    assert(input.skip(p5.len() as int) =~= r5);
    assert(decodes_back::<'buf, F>(x.5, r6));
    assert(input.skip(p6.len() as int) =~= r6);
    assert(decodes_back::<'buf, G>(x.6, r7));
    assert(input.skip(p7.len() as int) =~= r7);
    assert(decodes_back::<'buf, H>(x.7, r8));
    assert(input.skip(p8.len() as int) =~= r8);
    assert(decodes_back::<'buf, I>(x.8, r9));
    assert(input.skip(p9.len() as int) =~= r9);
    assert(decodes_back::<'buf, J>(x.9, r10));
    assert(input.skip(p10.len() as int) =~= r10);
    assert(decodes_back::<'buf, K>(x.10, r11));
    assert(input.skip(p11.len() as int) =~= r11);
    assert(decodes_back::<'buf, L>(x.11, r12));
}

/// Decoding a value from its encoding followed by `rest` yields the value's
/// model and leaves exactly `rest` in the buffer: decoding reads back the
/// bytes that encoding wrote, no more and no fewer.
pub proof fn lemma_decode_reads_back<'buf, T: Encode + Decode<'buf>>(v: T, rest: Seq<u8>)
    requires
        decodes_back::<'buf, T>(v, rest),
    ensures
        T::spec_decode(v.encoding() + rest).0 == Ok::<T::Model, DecodeFailure>(v.model()),
        (v.encoding() + rest).skip(T::spec_decode(v.encoding() + rest).1 as int) == rest,
{
    assert((v.encoding() + rest).skip(v.encoding().len() as int) =~= rest);
}

/// Equal values have equal encodings, so encoding them gives the same bytes
/// on every call.
pub proof fn lemma_encoding_deterministic<E: Encode>(a: E, b: E)
    requires
        a == b,
    ensures
        a.encoding() == b.encoding(),
        a.bytes() == b.bytes(),
{
}

/// `views` and `ns` describe a run of calls of [`crate::Buf::take`]: the call that
/// takes `ns[i]` bytes finds `views[i]` and leaves `views[i + 1]`, having
/// taken the bytes or, when too few remained, nothing.
pub open spec fn is_take_run(views: Seq<Seq<u8>>, ns: Seq<nat>) -> bool {
    &&& views.len() == ns.len() + 1
    &&& forall|i: int|
        #![trigger ns[i]]
        0 <= i < ns.len() ==> views[i + 1] == (if ns[i] <= views[i].len() {
            views[i].skip(ns[i] as int)
        } else {
            views[i]
        })
}

/// The number of bytes that the successful calls among the first `k` of a
/// run of takes took.
pub open spec fn run_taken(views: Seq<Seq<u8>>, ns: Seq<nat>, k: int) -> nat
    decreases k,
{
    if k <= 0 {
        0
    } else {
        run_taken(views, ns, k - 1) + if ns[k - 1] <= views[k - 1].len() {
            ns[k - 1]
        } else {
            0
        }
    }
}

proof fn lemma_take_run_prefix(views: Seq<Seq<u8>>, ns: Seq<nat>, k: int)
    requires
        is_take_run(views, ns),
        0 <= k <= ns.len(),
    ensures
        run_taken(views, ns, k) <= views[0].len(),
        views[k] == views[0].skip(run_taken(views, ns, k) as int),
    decreases k,
{
    if k == 0 {
        assert(views[0].skip(0) =~= views[0]);
    } else {
        lemma_take_run_prefix(views, ns, k - 1);
        let i = k - 1;
        assert(views[i + 1] == (if ns[i] <= views[i].len() {
            views[i].skip(ns[i] as int)
        } else {
            views[i]
        }));
        if ns[i] <= views[i].len() {
            crate::decode::lemma_skip_skip(views[0], run_taken(views, ns, i), ns[i]);
        }
    }
}

/// After a run of takes from a buffer over `views[0]`, the buffer holds what
/// follows the bytes that the successful takes took, and [`crate::Buf::remaining`]
/// is the starting length less those bytes; failed takes take nothing.
pub proof fn lemma_take_run(views: Seq<Seq<u8>>, ns: Seq<nat>)
    requires
        is_take_run(views, ns),
    ensures
        run_taken(views, ns, ns.len() as int) <= views[0].len(),
        views.last() == views[0].skip(run_taken(views, ns, ns.len() as int) as int),
        views.last().len() == views[0].len() - run_taken(views, ns, ns.len() as int),
{
    lemma_take_run_prefix(views, ns, ns.len() as int);
}

/// `bufs`, `pieces` and `complete` describe a run of writes into a
/// fixed-capacity buffer, by [`fixed::BufMut::put`] or
/// [`fixed::BufMut::encode`]: write `i` of `pieces[i]` turned `bufs[i]` into
/// `bufs[i + 1]`, and succeeded exactly when `complete[i]`.
pub open spec fn is_write_run(
    bufs: Seq<fixed::BufMut>,
    pieces: Seq<Seq<u8>>,
    complete: Seq<bool>,
) -> bool {
    &&& bufs.len() == pieces.len() + 1
    &&& complete.len() == pieces.len()
    &&& forall|i: int|
        #![trigger pieces[i]]
        0 <= i < pieces.len() ==> bufs[i].wrote(bufs[i + 1], pieces[i], complete[i])
}

proof fn lemma_write_run_prefix(
    bufs: Seq<fixed::BufMut>,
    pieces: Seq<Seq<u8>>,
    complete: Seq<bool>,
    k: int,
)
    requires
        is_write_run(bufs, pieces, complete),
        0 <= k <= pieces.len(),
    ensures
        bufs[k].contents().len() == bufs[0].contents().len(),
        bufs[0].written() <= bufs[k].written(),
    decreases k,
{
    if k > 0 {
        lemma_write_run_prefix(bufs, pieces, complete, k - 1);
        assert(bufs[k - 1].wrote(bufs[k], pieces[k - 1], complete[k - 1]));
    }
}

/// The capacity of a fixed-capacity buffer stays what it was through any
/// run of writes, whether each succeeded or overflowed, and the number of
/// bytes written never decreases.
pub proof fn lemma_capacity_run(
    bufs: Seq<fixed::BufMut>,
    pieces: Seq<Seq<u8>>,
    complete: Seq<bool>,
)
    requires
        is_write_run(bufs, pieces, complete),
    ensures
        bufs.last().contents().len() == bufs[0].contents().len(),
        bufs[0].written() <= bufs.last().written(),
{
    lemma_write_run_prefix(bufs, pieces, complete, pieces.len() as int);
}

/// The pieces among the first `k` whose write succeeded, one after another.
pub open spec fn written_pieces(pieces: Seq<Seq<u8>>, complete: Seq<bool>, k: int) -> Seq<u8>
    decreases k,
{
    if k <= 0 {
        Seq::empty()
    } else {
        written_pieces(pieces, complete, k - 1) + if complete[k - 1] {
            pieces[k - 1]
        } else {
            Seq::empty()
        }
    }
}

/// A run of writes in which a failed write leaves the buffer as it was, as
/// [`fixed::BufMut::put`] does.
pub open spec fn is_put_run(
    bufs: Seq<fixed::BufMut>,
    pieces: Seq<Seq<u8>>,
    complete: Seq<bool>,
) -> bool {
    &&& is_write_run(bufs, pieces, complete)
    &&& forall|i: int|
        #![trigger pieces[i]]
        0 <= i < pieces.len() && !complete[i] ==> bufs[i + 1] == bufs[i]
}

proof fn lemma_put_run_prefix(
    bufs: Seq<fixed::BufMut>,
    pieces: Seq<Seq<u8>>,
    complete: Seq<bool>,
    k: int,
)
    requires
        is_put_run(bufs, pieces, complete),
        bufs[0].written() <= bufs[0].contents().len(),
        0 <= k <= pieces.len(),
    ensures
        bufs[k].written() == bufs[0].written() + written_pieces(pieces, complete, k).len(),
        bufs[k].written() <= bufs[k].contents().len(),
        bufs[k].filled() == bufs[0].filled() + written_pieces(pieces, complete, k),
    decreases k,
{
    if k == 0 {
        assert(bufs[0].filled() + Seq::<u8>::empty() =~= bufs[0].filled());
    } else {
        let i = k - 1;
        lemma_put_run_prefix(bufs, pieces, complete, i);
        let (a, b) = (bufs[i], bufs[i + 1]);
        assert(a.wrote(b, pieces[i], complete[i]));
        if complete[i] {
            assert(pieces[i].take(pieces[i].len() as int) =~= pieces[i]);
            assert(b.filled() =~= a.filled() + pieces[i]);
            assert(bufs[k].filled() =~= bufs[0].filled() + written_pieces(pieces, complete, k));
        } else {
            assert(bufs[k] == bufs[i]);
            assert(written_pieces(pieces, complete, k) =~= written_pieces(pieces, complete, i));
        }
    }
}

/// After a run of puts into a fixed-capacity buffer, it has written the
/// pieces whose put succeeded, in call order, after what it held before:
/// failed puts add nothing. Its length is their total length and never
/// exceeds its capacity; [`fixed::BufMut::into_filled`] gives those bytes.
pub proof fn lemma_put_run(
    bufs: Seq<fixed::BufMut>,
    pieces: Seq<Seq<u8>>,
    complete: Seq<bool>,
)
    requires
        is_put_run(bufs, pieces, complete),
        bufs[0].written() <= bufs[0].contents().len(),
    ensures
        bufs.last().written() == bufs[0].written() + written_pieces(
            pieces,
            complete,
            pieces.len() as int,
        ).len(),
        bufs.last().written() <= bufs.last().contents().len(),
        bufs.last().filled() == bufs[0].filled() + written_pieces(
            pieces,
            complete,
            pieces.len() as int,
        ),
{
    lemma_put_run_prefix(bufs, pieces, complete, pieces.len() as int);
}

/// What a refused input is answered. A `bool` byte other than `0` and `1`
/// is refused as invalid, a code point outside Unicode's scalar values as an
/// invalid `char`, and a tag that names no variant of an `Option`,
/// `Result` or `Bound` as an invalid discriminant carrying the tag; each consumes what it read. Input too short for a number is refused
/// as the end of the input, consuming nothing.
pub proof fn lemma_refusals<'buf, T: Decode<'buf>, E: Decode<'buf>>(
    b: u8,
    v: u32,
    rest: Seq<u8>,
    short: Seq<u8>,
)
    ensures
        b > 1 ==> bool::spec_decode(seq![b] + rest) == (
            Err::<bool, DecodeFailure>(DecodeFailure::InvalidBool),
            1nat,
        ),
        !vstd::utf8::is_scalar(v) ==> char::spec_decode(v.encoding() + rest) == (
            Err::<char, DecodeFailure>(DecodeFailure::InvalidChar),
            4nat,
        ),
        b > 1 ==> Option::<T>::spec_decode(seq![b] + rest) == (
            Err::<Option<T::Model>, DecodeFailure>(DecodeFailure::InvalidDiscriminant(b as u16)),
            1nat,
        ),
        b > 1 ==> Result::<T, E>::spec_decode(seq![b] + rest) == (
            Err::<Result<T::Model, E::Model>, DecodeFailure>(
                DecodeFailure::InvalidDiscriminant(b as u16),
            ),
            1nat,
        ),
        b > 2 ==> Bound::<T>::spec_decode(seq![b] + rest) == (
            Err::<Bound<T::Model>, DecodeFailure>(DecodeFailure::InvalidDiscriminant(b as u16)),
            1nat,
        ),
        short.len() < 4 ==> u32::spec_decode(short) == (
            Err::<u32, DecodeFailure>(DecodeFailure::UnexpectedEof),
            0nat,
        ),
        short.len() < 8 ==> u64::spec_decode(short) == (
            Err::<u64, DecodeFailure>(DecodeFailure::UnexpectedEof),
            0nat,
        ),
        bool::spec_decode(Seq::empty()) == (
            Err::<bool, DecodeFailure>(DecodeFailure::UnexpectedEof),
            0nat,
        ),
{
    lemma_u8_roundtrip(b, rest);
    crate::bytes::lemma_be_bytes_byte(b);
    lemma_u32_roundtrip(v, rest);
}

/// A tag other than `0`, `1` and `2` is refused as no ordering: an invalid
/// discriminant carrying the tag, consuming the tag.
pub proof fn lemma_ordering_refusal(b: u8, rest: Seq<u8>)
    ensures
        2 < b ==> ordering_decoding(seq![b] + rest) == (
            Err::<Ordering, DecodeFailure>(crate::decode::discriminant_failure(b)),
            1nat,
        ),
{
    lemma_u8_roundtrip(b, rest);
    crate::bytes::lemma_be_bytes_byte(b);
}

/// Input shorter than a number's width is refused as the end of the
/// input, consuming nothing.
pub proof fn lemma_short_numbers(short: Seq<u8>)
    ensures
        short.len() < 1 ==> u8::spec_decode(short) == (
            Err::<u8, DecodeFailure>(DecodeFailure::UnexpectedEof),
            0nat,
        ),
        short.len() < 2 ==> u16::spec_decode(short) == (
            Err::<u16, DecodeFailure>(DecodeFailure::UnexpectedEof),
            0nat,
        ),
        short.len() < 4 ==> u32::spec_decode(short) == (
            Err::<u32, DecodeFailure>(DecodeFailure::UnexpectedEof),
            0nat,
        ),
        short.len() < 8 ==> u64::spec_decode(short) == (
            Err::<u64, DecodeFailure>(DecodeFailure::UnexpectedEof),
            0nat,
        ),
        short.len() < 16 ==> u128::spec_decode(short) == (
            Err::<u128, DecodeFailure>(DecodeFailure::UnexpectedEof),
            0nat,
        ),
        short.len() < 1 ==> i8::spec_decode(short) == (
            Err::<i8, DecodeFailure>(DecodeFailure::UnexpectedEof),
            0nat,
        ),
        short.len() < 2 ==> i16::spec_decode(short) == (
            Err::<i16, DecodeFailure>(DecodeFailure::UnexpectedEof),
            0nat,
        ),
        short.len() < 4 ==> i32::spec_decode(short) == (
            Err::<i32, DecodeFailure>(DecodeFailure::UnexpectedEof),
            0nat,
        ),
        short.len() < 8 ==> i64::spec_decode(short) == (
            Err::<i64, DecodeFailure>(DecodeFailure::UnexpectedEof),
            0nat,
        ),
        short.len() < 16 ==> i128::spec_decode(short) == (
            Err::<i128, DecodeFailure>(DecodeFailure::UnexpectedEof),
            0nat,
        ),
{
}

/// A byte slice or string slice takes the number of bytes that its length
/// says from the input after the length: when fewer remain it is refused as
/// the end of the input, consuming the length alone; the bytes of a string
/// slice that are not UTF-8 are refused as invalid UTF-8, consuming them.
pub proof fn lemma_counted_refusals<'buf>(n: usize, data: Seq<u8>)
    ensures
        data.len() < n ==> <&'buf [u8]>::spec_decode(n.encoding() + data) == (
            Err::<Seq<u8>, DecodeFailure>(DecodeFailure::UnexpectedEof),
            8nat,
        ),
        data.len() >= n ==> <&'buf [u8]>::spec_decode(n.encoding() + data) == (
            Ok::<Seq<u8>, DecodeFailure>(data.take(n as int)),
            (8 + n) as nat,
        ),
        data.len() >= n && !vstd::utf8::valid_utf8(data.take(n as int)) ==> <&'buf str>::spec_decode(
            n.encoding() + data,
        ) == (Err::<Seq<char>, DecodeFailure>(DecodeFailure::InvalidUtf8), (8 + n) as nat),
{
    lemma_usize_roundtrip(n, data);
    crate::bytes::lemma_be_bytes_len(n as int, 8);
    assert((n.encoding() + data).skip(8) =~= data);
}

} // verus!
