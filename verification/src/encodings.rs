//! What each encoding is, stated in terms of the values it is made of:
//! numbers as their big-endian digits, tags before what they tag, lengths
//! before items, and the parts of a compound value in their order.
use crate::bytes::{be_bytes, lemma_be_bytes_len, lemma_be_bytes_periodic, pow256};
use crate::encode::Encode;
use crate::fixed;
use crate::fixed::Encode as FixedEncode;
use crate::impls::bound::Bound;
use crate::impls::ordering::ordering_encoding;
use crate::impls::seqs::{concat_encodings, items_pieces};
use core::cmp::Ordering;
use vstd::prelude::*;
use vstd::string::StringSliceAdditionalSpecFns;

verus! {

/// The base-256 digit of `v` at position `i` of `n`, most significant first.
pub open spec fn digit(v: nat, n: nat, i: int) -> u8 {
    ((v / pow256((n - 1 - i) as nat)) % 256) as u8
}

/// The `n` bytes of a non-negative `v` are its base-256 digits, most
/// significant first.
pub proof fn lemma_be_bytes_digits(v: nat, n: nat)
    ensures
        be_bytes(v as int, n).len() == n,
        forall|i: int| 0 <= i < n ==> #[trigger] be_bytes(v as int, n)[i] == digit(v, n, i),
    decreases n,
{
    lemma_be_bytes_len(v as int, n);
    if n > 0 {
        let m = (n - 1) as nat;
        lemma_be_bytes_digits(v / 256, m);
        let w = be_bytes((v / 256) as int, m);
        assert(be_bytes(v as int, n) == w.push((v as int % 256) as u8));
        assert forall|i: int| 0 <= i < n implies #[trigger] be_bytes(v as int, n)[i] == digit(v, n, i) by {
            if i < m {
                let p = pow256((m - 1 - i) as nat);
                crate::bytes::lemma_pow256_positive((m - 1 - i) as nat);
                vstd::arithmetic::div_mod::lemma_div_denominator(v as int, 256, p as int);
                assert(pow256((n - 1 - i) as nat) == 256 * p);
                assert(w[i] == digit(v / 256, m, i));
                assert((v / 256) / p == v / (256 * p));
            } else {
                assert(pow256(0) == 1);
                assert(v / 1 == v);
            }
        }
    }
}

/// A `u8` encodes as its 1 big-endian base-256 digits.
pub proof fn lemma_u8_encoding(x: u8)
    ensures
        x.encoding().len() == 1,
        forall|i: int| 0 <= i < 1 ==> #[trigger] x.encoding()[i] == digit(x as nat, 1, i),
{
    lemma_be_bytes_digits(x as nat, 1);
}

/// A `u16` encodes as its 2 big-endian base-256 digits.
pub proof fn lemma_u16_encoding(x: u16)
    ensures
        x.encoding().len() == 2,
        forall|i: int| 0 <= i < 2 ==> #[trigger] x.encoding()[i] == digit(x as nat, 2, i),
{
    lemma_be_bytes_digits(x as nat, 2);
}

/// A `u32` encodes as its 4 big-endian base-256 digits.
pub proof fn lemma_u32_encoding(x: u32)
    ensures
        x.encoding().len() == 4,
        forall|i: int| 0 <= i < 4 ==> #[trigger] x.encoding()[i] == digit(x as nat, 4, i),
{
    lemma_be_bytes_digits(x as nat, 4);
}

/// A `u64` encodes as its 8 big-endian base-256 digits.
pub proof fn lemma_u64_encoding(x: u64)
    ensures
        x.encoding().len() == 8,
        forall|i: int| 0 <= i < 8 ==> #[trigger] x.encoding()[i] == digit(x as nat, 8, i),
{
    lemma_be_bytes_digits(x as nat, 8);
}

/// A `u128` encodes as its 16 big-endian base-256 digits.
pub proof fn lemma_u128_encoding(x: u128)
    ensures
        x.encoding().len() == 16,
        forall|i: int| 0 <= i < 16 ==> #[trigger] x.encoding()[i] == digit(x as nat, 16, i),
{
    lemma_be_bytes_digits(x as nat, 16);
}

/// An `i8` encodes as the 1 big-endian base-256 digits of its two's
/// complement: of `x` itself when `x` is not negative, of `x + 256^1` when it is.
pub proof fn lemma_i8_encoding(x: i8)
    ensures
        x.encoding().len() == 1,
        forall|i: int| 0 <= i < 1 ==> #[trigger] x.encoding()[i] == digit((if x < 0 { x as int + pow256(1) } else { x as int }) as nat, 1, i),
{
    crate::bytes::lemma_pow256_values();
    if x < 0 {
        lemma_be_bytes_periodic(x as int, 1);
    }
    lemma_be_bytes_digits((if x < 0 { x as int + pow256(1) } else { x as int }) as nat, 1);
}

/// An `i16` encodes as the 2 big-endian base-256 digits of its two's
/// complement: of `x` itself when `x` is not negative, of `x + 256^2` when it is.
pub proof fn lemma_i16_encoding(x: i16)
    ensures
        x.encoding().len() == 2,
        forall|i: int| 0 <= i < 2 ==> #[trigger] x.encoding()[i] == digit((if x < 0 { x as int + pow256(2) } else { x as int }) as nat, 2, i),
{
    crate::bytes::lemma_pow256_values();
    if x < 0 {
        lemma_be_bytes_periodic(x as int, 2);
    }
    lemma_be_bytes_digits((if x < 0 { x as int + pow256(2) } else { x as int }) as nat, 2);
}

/// An `i32` encodes as the 4 big-endian base-256 digits of its two's
/// complement: of `x` itself when `x` is not negative, of `x + 256^4` when it is.
pub proof fn lemma_i32_encoding(x: i32)
    ensures
        x.encoding().len() == 4,
        forall|i: int| 0 <= i < 4 ==> #[trigger] x.encoding()[i] == digit((if x < 0 { x as int + pow256(4) } else { x as int }) as nat, 4, i),
{
    crate::bytes::lemma_pow256_values();
    if x < 0 {
        lemma_be_bytes_periodic(x as int, 4);
    }
    lemma_be_bytes_digits((if x < 0 { x as int + pow256(4) } else { x as int }) as nat, 4);
}

/// An `i64` encodes as the 8 big-endian base-256 digits of its two's
/// complement: of `x` itself when `x` is not negative, of `x + 256^8` when it is.
pub proof fn lemma_i64_encoding(x: i64)
    ensures
        x.encoding().len() == 8,
        forall|i: int| 0 <= i < 8 ==> #[trigger] x.encoding()[i] == digit((if x < 0 { x as int + pow256(8) } else { x as int }) as nat, 8, i),
{
    crate::bytes::lemma_pow256_values();
    if x < 0 {
        lemma_be_bytes_periodic(x as int, 8);
    }
    lemma_be_bytes_digits((if x < 0 { x as int + pow256(8) } else { x as int }) as nat, 8);
}

/// An `i128` encodes as the 16 big-endian base-256 digits of its two's
/// complement: of `x` itself when `x` is not negative, of `x + 256^16` when it is.
pub proof fn lemma_i128_encoding(x: i128)
    ensures
        x.encoding().len() == 16,
        forall|i: int| 0 <= i < 16 ==> #[trigger] x.encoding()[i] == digit((if x < 0 { x as int + pow256(16) } else { x as int }) as nat, 16, i),
{
    crate::bytes::lemma_pow256_values();
    if x < 0 {
        lemma_be_bytes_periodic(x as int, 16);
    }
    lemma_be_bytes_digits((if x < 0 { x as int + pow256(16) } else { x as int }) as nat, 16);
}

/// A `usize` encodes as the `u64` of the same value.
pub proof fn lemma_usize_encoding(x: usize)
    ensures
        x.encoding() == (x as u64).encoding(),
{
}

/// An `isize` encodes as the `i64` of the same value.
pub proof fn lemma_isize_encoding(x: isize)
    ensures
        x.encoding() == (x as i64).encoding(),
{
}

/// `false` encodes as the byte `0` and `true` as the byte `1`.
pub proof fn lemma_bool_encoding(x: bool)
    ensures
        x.encoding() == seq![if x { 1u8 } else { 0u8 }],
{
}

/// A `char` encodes as the `u32` of its code point.
pub proof fn lemma_char_encoding(x: char)
    ensures
        x.encoding() == (x as u32).encoding(),
{
}

/// `None` encodes as the tag `0`; `Some(v)` as the tag `1` and then `v`.
pub proof fn lemma_option_encoding<T: Encode>(x: Option<T>)
    ensures
        x is None ==> x.encoding() == seq![0u8],
        x matches Some(v) ==> x.encoding() == seq![1u8] + v.encoding(),
{
}

/// `Ok(v)` encodes as the tag `0` and then `v`; `Err(e)` as the tag `1` and
/// then `e`.
pub proof fn lemma_result_encoding<T: Encode, E: Encode>(x: Result<T, E>)
    ensures
        x matches Ok(v) ==> x.encoding() == seq![0u8] + v.encoding(),
        x matches Err(e) ==> x.encoding() == seq![1u8] + e.encoding(),
{
}

/// A bound encodes as its tag, `0` included, `1` excluded, `2` unbounded,
/// and then its endpoint if it has one.
pub proof fn lemma_bound_encoding<T: Encode>(x: Bound<T>)
    ensures
        x matches Bound::Included(v) ==> x.encoding() == seq![0u8] + v.encoding(),
        x matches Bound::Excluded(v) ==> x.encoding() == seq![1u8] + v.encoding(),
        x is Unbounded ==> x.encoding() == seq![2u8],
{
}

/// `Less`, `Equal` and `Greater` encode as the bytes `0`, `1` and `2`.
pub proof fn lemma_ordering_encoding()
    ensures
        ordering_encoding(Ordering::Less) == seq![0u8],
        ordering_encoding(Ordering::Equal) == seq![1u8],
        ordering_encoding(Ordering::Greater) == seq![2u8],
{
}

/// The encodings of no items are nothing, and those of items with one more
/// at the end are theirs and then its own.
pub proof fn lemma_concat_encodings<E: Encode>(items: Seq<E>, x: E)
    ensures
        concat_encodings(Seq::<E>::empty()) == Seq::<u8>::empty(),
        concat_encodings(items.push(x)) == concat_encodings(items) + x.encoding(),
{
    assert(items.push(x).drop_last() =~= items);
}

/// The pieces of no items are none, and those of items with one more at the
/// end are theirs and then its own.
pub proof fn lemma_items_pieces<E: fixed::Encode>(items: Seq<E>, x: E)
    ensures
        items_pieces(Seq::<E>::empty()) == Seq::<Seq<u8>>::empty(),
        items_pieces(items.push(x)) == items_pieces(items) + x.pieces(),
{
    assert(items.push(x).drop_last() =~= items);
}

/// A vector encodes as its length, as eight big-endian bytes, and then its
/// items in order.
pub proof fn lemma_vec_encoding<E: Encode>(v: Vec<E>)
    ensures
        v.encoding() == be_bytes(v@.len() as int, 8) + concat_encodings(v@),
{
}

/// A slice encodes as its length, as eight big-endian bytes, and then its
/// items in order.
pub proof fn lemma_slice_encoding<E: Encode>(s: &[E])
    ensures
        s.encoding() == be_bytes(s@.len() as int, 8) + concat_encodings(s@),
{
}

/// An array encodes as its items in order, with no length.
pub proof fn lemma_array_encoding<E: Encode, const N: usize>(a: [E; N])
    ensures
        a.encoding() == concat_encodings(a@),
{
}

/// A string slice encodes as the number of its UTF-8 bytes, as eight
/// big-endian bytes, and then those bytes.
pub proof fn lemma_str_encoding(s: &str)
    ensures
        s.encoding() == be_bytes(s.spec_bytes().len() as int, 8) + s.spec_bytes(),
{
}

/// A `String` encodes as the string slice of the same characters.
pub proof fn lemma_string_encoding(s: String)
    ensures
        s.encoding() == be_bytes(vstd::utf8::encode_utf8(s@).len() as int, 8)
            + vstd::utf8::encode_utf8(s@),
{
}

/// A vector, slice or array is written into a fixed buffer as the length
/// (for a vector or slice) as one piece, then each item's pieces in order.
pub proof fn lemma_sequence_pieces<E: fixed::Encode, const N: usize>(v: Vec<E>, a: [E; N])
    ensures
        v.pieces() == seq![be_bytes(v@.len() as int, 8)] + items_pieces(v@),
        a.pieces() == items_pieces(a@),
{
}

/// A tag is written into a fixed buffer as one piece before the pieces of
/// what it tags.
pub proof fn lemma_option_pieces<T: fixed::Encode>(x: Option<T>)
    ensures
        x is None ==> x.pieces() == seq![seq![0u8]],
        x matches Some(v) ==> x.pieces() == seq![seq![1u8]] + v.pieces(),
{
}


/// A reference, box, `Rc` or `Arc` encodes as what it points to.
pub proof fn lemma_pointer_encoding<T: Encode>(r: &T, b: Box<T>, rc: std::rc::Rc<T>, arc: std::sync::Arc<T>)
    ensures
        r.encoding() == (*r).encoding(),
        b.encoding() == (*b).encoding(),
        rc.encoding() == (*rc).encoding(),
        arc.encoding() == (*arc).encoding(),
{
}

/// A clone-on-write value encodes as what it holds, borrowed or owned.
pub proof fn lemma_cow_encoding<'a, E>(x: std::borrow::Cow<'a, E>)
    where
        E: Encode + ToOwned + ?Sized,
        E::Owned: Encode,
    ensures
        x matches std::borrow::Cow::Borrowed(b) ==> x.encoding() == b.encoding(),
        x matches std::borrow::Cow::Owned(o) ==> x.encoding() == o.encoding(),
{
}

/// The unit value and `PhantomData` encode as nothing.
pub proof fn lemma_empty_encoding<T>(p: core::marker::PhantomData<T>)
    ensures
        ().encoding() == Seq::<u8>::empty(),
        p.encoding() == Seq::<u8>::empty(),
{
}

/// A result or bound is written into a fixed buffer as its tag, one piece,
/// before the pieces of what it holds.
pub proof fn lemma_tagged_pieces<T: fixed::Encode, E: fixed::Encode>(x: Result<T, E>, y: Bound<T>)
    ensures
        x matches Ok(v) ==> x.pieces() == seq![seq![0u8]] + v.pieces(),
        x matches Err(e) ==> x.pieces() == seq![seq![1u8]] + e.pieces(),
        y matches Bound::Included(v) ==> y.pieces() == seq![seq![0u8]] + v.pieces(),
        y matches Bound::Excluded(v) ==> y.pieces() == seq![seq![1u8]] + v.pieces(),
        y is Unbounded ==> y.pieces() == seq![seq![2u8]],
{
}

/// A number is written into a fixed buffer as one piece.
pub proof fn lemma_number_pieces(x: u64, y: i32, z: bool)
    ensures
        x.pieces() == seq![x.encoding()],
        y.pieces() == seq![y.encoding()],
        z.pieces() == seq![z.encoding()],
{
}

/// A tuple of 1 element encodes as its element's encoding.
pub proof fn lemma_tuple1_encoding<A: Encode>(x: (A,))
    ensures
        x.encoding() == x.0.encoding(),
{
}

/// A tuple of 1 element is written into a fixed buffer as its element's
/// pieces.
pub proof fn lemma_tuple1_pieces<A: fixed::Encode>(x: (A,))
    ensures
        x.pieces() == x.0.pieces(),
{
}

/// A tuple of 2 elements encodes as its elements' encodings, in element
/// order.
pub proof fn lemma_tuple2_encoding<A: Encode, B: Encode>(x: (A, B))
    ensures
        x.encoding() == x.0.encoding() + x.1.encoding(),
{
}

/// A tuple of 2 elements is written into a fixed buffer as its elements'
/// pieces, in element order.
pub proof fn lemma_tuple2_pieces<A: fixed::Encode, B: fixed::Encode>(x: (A, B))
    ensures
        x.pieces() == x.0.pieces() + x.1.pieces(),
{
}

/// A tuple of 3 elements encodes as its elements' encodings, in element
/// order.
pub proof fn lemma_tuple3_encoding<A: Encode, B: Encode, C: Encode>(x: (A, B, C))
    ensures
        x.encoding() == x.0.encoding() + x.1.encoding() + x.2.encoding(),
{
}

/// A tuple of 3 elements is written into a fixed buffer as its elements'
/// pieces, in element order.
pub proof fn lemma_tuple3_pieces<A: fixed::Encode, B: fixed::Encode, C: fixed::Encode>(x: (A, B, C))
    ensures
        x.pieces() == x.0.pieces() + x.1.pieces() + x.2.pieces(),
{
}

/// A tuple of 4 elements encodes as its elements' encodings, in element
/// order.
pub proof fn lemma_tuple4_encoding<A: Encode, B: Encode, C: Encode, D: Encode>(x: (A, B, C, D))
    ensures
        x.encoding() == x.0.encoding() + x.1.encoding() + x.2.encoding() + x.3.encoding(),
{
}

/// A tuple of 4 elements is written into a fixed buffer as its elements'
/// pieces, in element order.
pub proof fn lemma_tuple4_pieces<A: fixed::Encode, B: fixed::Encode, C: fixed::Encode, D: fixed::Encode>(x: (A, B, C, D))
    ensures
        x.pieces() == x.0.pieces() + x.1.pieces() + x.2.pieces() + x.3.pieces(),
{
}

/// A tuple of 5 elements encodes as its elements' encodings, in element
/// order.
pub proof fn lemma_tuple5_encoding<A: Encode, B: Encode, C: Encode, D: Encode, E: Encode>(x: (A, B, C, D, E))
    ensures
        x.encoding() == x.0.encoding() + x.1.encoding() + x.2.encoding() + x.3.encoding() + x.4.encoding(),
{
}

/// A tuple of 5 elements is written into a fixed buffer as its elements'
/// pieces, in element order.
pub proof fn lemma_tuple5_pieces<A: fixed::Encode, B: fixed::Encode, C: fixed::Encode, D: fixed::Encode, E: fixed::Encode>(x: (A, B, C, D, E))
    ensures
        x.pieces() == x.0.pieces() + x.1.pieces() + x.2.pieces() + x.3.pieces() + x.4.pieces(),
{
}

/// A tuple of 6 elements encodes as its elements' encodings, in element
/// order.
pub proof fn lemma_tuple6_encoding<A: Encode, B: Encode, C: Encode, D: Encode, E: Encode, F: Encode>(x: (A, B, C, D, E, F))
    ensures
        x.encoding() == x.0.encoding() + x.1.encoding() + x.2.encoding() + x.3.encoding() + x.4.encoding() + x.5.encoding(),
{
}

/// A tuple of 6 elements is written into a fixed buffer as its elements'
/// pieces, in element order.
pub proof fn lemma_tuple6_pieces<A: fixed::Encode, B: fixed::Encode, C: fixed::Encode, D: fixed::Encode, E: fixed::Encode, F: fixed::Encode>(x: (A, B, C, D, E, F))
    ensures
        x.pieces() == x.0.pieces() + x.1.pieces() + x.2.pieces() + x.3.pieces() + x.4.pieces() + x.5.pieces(),
{
}

/// A tuple of 7 elements encodes as its elements' encodings, in element
/// order.
pub proof fn lemma_tuple7_encoding<A: Encode, B: Encode, C: Encode, D: Encode, E: Encode, F: Encode, G: Encode>(x: (A, B, C, D, E, F, G))
    ensures
        x.encoding() == x.0.encoding() + x.1.encoding() + x.2.encoding() + x.3.encoding() + x.4.encoding() + x.5.encoding() + x.6.encoding(),
{
}

/// A tuple of 7 elements is written into a fixed buffer as its elements'
/// pieces, in element order.
pub proof fn lemma_tuple7_pieces<A: fixed::Encode, B: fixed::Encode, C: fixed::Encode, D: fixed::Encode, E: fixed::Encode, F: fixed::Encode, G: fixed::Encode>(x: (A, B, C, D, E, F, G))
    ensures
        x.pieces() == x.0.pieces() + x.1.pieces() + x.2.pieces() + x.3.pieces() + x.4.pieces() + x.5.pieces() + x.6.pieces(),
{
}

/// A tuple of 8 elements encodes as its elements' encodings, in element
/// order.
pub proof fn lemma_tuple8_encoding<A: Encode, B: Encode, C: Encode, D: Encode, E: Encode, F: Encode, G: Encode, H: Encode>(x: (A, B, C, D, E, F, G, H))
    ensures
        x.encoding() == x.0.encoding() + x.1.encoding() + x.2.encoding() + x.3.encoding() + x.4.encoding() + x.5.encoding() + x.6.encoding() + x.7.encoding(),
{
}

/// A tuple of 8 elements is written into a fixed buffer as its elements'
/// pieces, in element order.
pub proof fn lemma_tuple8_pieces<A: fixed::Encode, B: fixed::Encode, C: fixed::Encode, D: fixed::Encode, E: fixed::Encode, F: fixed::Encode, G: fixed::Encode, H: fixed::Encode>(x: (A, B, C, D, E, F, G, H))
    ensures
        x.pieces() == x.0.pieces() + x.1.pieces() + x.2.pieces() + x.3.pieces() + x.4.pieces() + x.5.pieces() + x.6.pieces() + x.7.pieces(),
{
}

/// A tuple of 9 elements encodes as its elements' encodings, in element
/// order.
pub proof fn lemma_tuple9_encoding<A: Encode, B: Encode, C: Encode, D: Encode, E: Encode, F: Encode, G: Encode, H: Encode, I: Encode>(x: (A, B, C, D, E, F, G, H, I))
    ensures
        x.encoding() == x.0.encoding() + x.1.encoding() + x.2.encoding() + x.3.encoding() + x.4.encoding() + x.5.encoding() + x.6.encoding() + x.7.encoding() + x.8.encoding(),
{
}

/// A tuple of 9 elements is written into a fixed buffer as its elements'
/// pieces, in element order.
pub proof fn lemma_tuple9_pieces<A: fixed::Encode, B: fixed::Encode, C: fixed::Encode, D: fixed::Encode, E: fixed::Encode, F: fixed::Encode, G: fixed::Encode, H: fixed::Encode, I: fixed::Encode>(x: (A, B, C, D, E, F, G, H, I))
    ensures
        x.pieces() == x.0.pieces() + x.1.pieces() + x.2.pieces() + x.3.pieces() + x.4.pieces() + x.5.pieces() + x.6.pieces() + x.7.pieces() + x.8.pieces(),
{
}

/// A tuple of 10 elements encodes as its elements' encodings, in element
/// order.
pub proof fn lemma_tuple10_encoding<A: Encode, B: Encode, C: Encode, D: Encode, E: Encode, F: Encode, G: Encode, H: Encode, I: Encode, J: Encode>(x: (A, B, C, D, E, F, G, H, I, J))
    ensures
        x.encoding() == x.0.encoding() + x.1.encoding() + x.2.encoding() + x.3.encoding() + x.4.encoding() + x.5.encoding() + x.6.encoding() + x.7.encoding() + x.8.encoding() + x.9.encoding(),
{
}

/// A tuple of 10 elements is written into a fixed buffer as its elements'
/// pieces, in element order.
pub proof fn lemma_tuple10_pieces<A: fixed::Encode, B: fixed::Encode, C: fixed::Encode, D: fixed::Encode, E: fixed::Encode, F: fixed::Encode, G: fixed::Encode, H: fixed::Encode, I: fixed::Encode, J: fixed::Encode>(x: (A, B, C, D, E, F, G, H, I, J))
    ensures
        x.pieces() == x.0.pieces() + x.1.pieces() + x.2.pieces() + x.3.pieces() + x.4.pieces() + x.5.pieces() + x.6.pieces() + x.7.pieces() + x.8.pieces() + x.9.pieces(),
{
}

/// A tuple of 11 elements encodes as its elements' encodings, in element
/// order.
pub proof fn lemma_tuple11_encoding<A: Encode, B: Encode, C: Encode, D: Encode, E: Encode, F: Encode, G: Encode, H: Encode, I: Encode, J: Encode, K: Encode>(x: (A, B, C, D, E, F, G, H, I, J, K))
    ensures
        x.encoding() == x.0.encoding() + x.1.encoding() + x.2.encoding() + x.3.encoding() + x.4.encoding() + x.5.encoding() + x.6.encoding() + x.7.encoding() + x.8.encoding() + x.9.encoding() + x.10.encoding(),
{
}

/// A tuple of 11 elements is written into a fixed buffer as its elements'
/// pieces, in element order.
pub proof fn lemma_tuple11_pieces<A: fixed::Encode, B: fixed::Encode, C: fixed::Encode, D: fixed::Encode, E: fixed::Encode, F: fixed::Encode, G: fixed::Encode, H: fixed::Encode, I: fixed::Encode, J: fixed::Encode, K: fixed::Encode>(x: (A, B, C, D, E, F, G, H, I, J, K))
    ensures
        x.pieces() == x.0.pieces() + x.1.pieces() + x.2.pieces() + x.3.pieces() + x.4.pieces() + x.5.pieces() + x.6.pieces() + x.7.pieces() + x.8.pieces() + x.9.pieces() + x.10.pieces(),
{
}

/// A tuple of 12 elements encodes as its elements' encodings, in element
/// order.
pub proof fn lemma_tuple12_encoding<A: Encode, B: Encode, C: Encode, D: Encode, E: Encode, F: Encode, G: Encode, H: Encode, I: Encode, J: Encode, K: Encode, L: Encode>(x: (A, B, C, D, E, F, G, H, I, J, K, L))
    ensures
        x.encoding() == x.0.encoding() + x.1.encoding() + x.2.encoding() + x.3.encoding() + x.4.encoding() + x.5.encoding() + x.6.encoding() + x.7.encoding() + x.8.encoding() + x.9.encoding() + x.10.encoding() + x.11.encoding(),
{
}

/// A tuple of 12 elements is written into a fixed buffer as its elements'
/// pieces, in element order.
pub proof fn lemma_tuple12_pieces<A: fixed::Encode, B: fixed::Encode, C: fixed::Encode, D: fixed::Encode, E: fixed::Encode, F: fixed::Encode, G: fixed::Encode, H: fixed::Encode, I: fixed::Encode, J: fixed::Encode, K: fixed::Encode, L: fixed::Encode>(x: (A, B, C, D, E, F, G, H, I, J, K, L))
    ensures
        x.pieces() == x.0.pieces() + x.1.pieces() + x.2.pieces() + x.3.pieces() + x.4.pieces() + x.5.pieces() + x.6.pieces() + x.7.pieces() + x.8.pieces() + x.9.pieces() + x.10.pieces() + x.11.pieces(),
{
}

} // verus!
