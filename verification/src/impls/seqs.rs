//! Sequences. Slices and vectors: the length as a big-endian `u64`, then the
//! items. Arrays: the items alone, their number being part of the type.
use crate::bytes::{be_bytes, lemma_be_bytes_len};
use crate::decode::{lemma_skip_skip, Buf, Decode, DecodeResult, Decoded};
use crate::encode::{BufMut, Encode};
use crate::fixed::{self, lemma_pieces_short, lemma_pieces_then, EncodeResult};
use vstd::prelude::*;

verus! {

/// The encodings of `items`, one after another.
pub open spec fn concat_encodings<E: Encode>(items: Seq<E>) -> Seq<u8>
    decreases items.len(),
{
    if items.len() == 0 {
        Seq::empty()
    } else {
        concat_encodings(items.drop_last()) + items.last().encoding()
    }
}

/// The encoding of a sequence that carries its length: the length as a
/// big-endian `u64`, then the items.
pub open spec fn counted_encoding<E: Encode>(items: Seq<E>) -> Seq<u8> {
    be_bytes(items.len() as int, 8) + concat_encodings(items)
}

/// The encodings of the first `i + 1` items are those of the first `i` and
/// then that of item `i`.
pub proof fn lemma_concat_step<E: Encode>(items: Seq<E>, i: int)
    requires
        0 <= i < items.len(),
    ensures
        concat_encodings(items.take(i + 1)) == concat_encodings(items.take(i)) + items[i].encoding(),
{
    assert(items.take(i + 1).drop_last() =~= items.take(i));
}

/// The encodings of a prefix of the items are no longer than those of all.
pub proof fn lemma_concat_prefix_len<E: Encode>(items: Seq<E>, i: int)
    requires
        0 <= i <= items.len(),
    ensures
        concat_encodings(items.take(i)).len() <= concat_encodings(items).len(),
    decreases items.len() - i,
{
    if i < items.len() {
        lemma_concat_step(items, i);
        lemma_concat_prefix_len(items, i + 1);
    } else {
        assert(items.take(i) =~= items);
    }
}

/// Byte items encode to themselves.
pub proof fn lemma_concat_bytes(bytes: Seq<u8>)
    ensures
        concat_encodings(bytes) == bytes,
    decreases bytes.len(),
{
    if bytes.len() > 0 {
        lemma_concat_bytes(bytes.drop_last());
        crate::bytes::lemma_be_bytes_byte(bytes.last());
        assert(bytes.drop_last().push(bytes.last()) =~= bytes);
    }
}

/// The summed lengths of the items' encodings.
fn items_len<E: Encode>(items: &[E]) -> (n: usize)
    requires
        concat_encodings(items@).len() <= usize::MAX,
    ensures
        n == concat_encodings(items@).len(),
{
    let mut total: usize = 0;
    let mut i: usize = 0;
    while i < items.len()
        invariant
            i <= items@.len(),
            concat_encodings(items@).len() <= usize::MAX,
            total == concat_encodings(items@.take(i as int)).len(),
        decreases items@.len() - i,
    {
        proof {
            lemma_concat_step(items@, i as int);
            lemma_concat_prefix_len(items@, i + 1);
        }
        total = total + items[i].len();
        i = i + 1;
    }
    assert(items@.take(i as int) =~= items@);
    total
}

/// Encodes the items one after another.
fn encode_items<E: Encode>(items: &[E], buf: &mut BufMut)
    requires
        old(buf)@.len() + concat_encodings(items@).len() <= usize::MAX,
    ensures
        final(buf)@ == old(buf)@ + concat_encodings(items@),
        final(final(buf).target())@ == final(old(buf).target())@,
{
    let mut i: usize = 0;
    assert(items@.take(0) =~= Seq::<E>::empty());
    assert(old(buf)@ + concat_encodings(items@.take(0)) =~= old(buf)@);
    while i < items.len()
        invariant
            i <= items@.len(),
            old(buf)@.len() + concat_encodings(items@).len() <= usize::MAX,
            buf@ == old(buf)@ + concat_encodings(items@.take(i as int)),
            final(buf.target())@ == final(old(buf).target())@,
        decreases items@.len() - i,
    {
        proof {
            lemma_concat_step(items@, i as int);
            lemma_concat_prefix_len(items@, i + 1);
        }
        buf.encode(&items[i]);
        i = i + 1;
    }
    assert(items@.take(i as int) =~= items@);
}

/// The pieces of the items, one item's after another.
pub open spec fn items_pieces<E: fixed::Encode>(items: Seq<E>) -> Seq<Seq<u8>>
    decreases items.len(),
{
    if items.len() == 0 {
        Seq::empty()
    } else {
        items_pieces(items.drop_last()) + items.last().pieces()
    }
}

/// The pieces of a sequence that carries its length: the length, then the
/// items' pieces.
pub open spec fn counted_pieces<E: fixed::Encode>(items: Seq<E>) -> Seq<Seq<u8>> {
    seq![be_bytes(items.len() as int, 8)] + items_pieces(items)
}

/// The pieces of the first `i + 1` items are those of the first `i` and
/// then those of item `i`.
pub proof fn lemma_pieces_step<E: fixed::Encode>(items: Seq<E>, i: int)
    requires
        0 <= i < items.len(),
    ensures
        items_pieces(items.take(i + 1)) == items_pieces(items.take(i)) + items[i].pieces(),
{
    assert(items.take(i + 1).drop_last() =~= items.take(i));
}

/// The pieces of the items are those of the first `k` and then those of
/// the rest.
pub proof fn lemma_pieces_split<E: fixed::Encode>(items: Seq<E>, k: int)
    requires
        0 <= k <= items.len(),
    ensures
        items_pieces(items) == items_pieces(items.take(k)) + items_pieces(items.skip(k)),
    decreases items.len(),
{
    if k == items.len() {
        assert(items.take(k) =~= items);
        assert(items.skip(k) =~= Seq::<E>::empty());
        assert(items_pieces(items) + Seq::<Seq<u8>>::empty() =~= items_pieces(items));
    } else {
        let init = items.drop_last();
        lemma_pieces_split(init, k);
        assert(init.take(k) =~= items.take(k));
        assert(items.skip(k).drop_last() =~= init.skip(k));
        assert(items.skip(k).last() == items.last());
        assert(items_pieces(items) =~= items_pieces(items.take(k)) + items_pieces(items.skip(k)));
    }
}

/// Encodes the items one after another into a fixed buffer, stopping at the
/// first overflow.
fn try_encode_items<E: fixed::Encode>(items: &[E], buf: &mut fixed::BufMut) -> (r: EncodeResult<()>)
    ensures
        old(buf).wrote_pieces(*final(buf), items_pieces(items@), concat_encodings(items@), r is Ok),
        final(final(buf).target())@ == final(old(buf).target())@,
{
    let ghost start = *buf;
    let mut i: usize = 0;
    fixed::wrote_nothing(buf);
    assert(items@.take(0) =~= Seq::<E>::empty());
    while i < items.len()
        invariant
            i <= items@.len(),
            start == *old(buf),
            start.wrote_pieces(
                *buf,
                items_pieces(items@.take(i as int)),
                concat_encodings(items@.take(i as int)),
                true,
            ),
            final(buf.target())@ == final(start.target())@,
        decreases items@.len() - i,
    {
        let ghost before = *buf;
        proof {
            lemma_concat_step(items@, i as int);
            lemma_pieces_step(items@, i as int);
        }
        let ghost done_p = items_pieces(items@.take(i as int));
        let ghost done_x = concat_encodings(items@.take(i as int));
        match items[i].try_encode(buf) {
            Ok(()) => {
                proof {
                    lemma_pieces_then(start, before, *buf, done_p, items@[i as int].pieces(), done_x, items@[i as int].encoding(), true);
                }
            },
            Err(e) => {
                proof {
                    lemma_pieces_then(start, before, *buf, done_p, items@[i as int].pieces(), done_x, items@[i as int].encoding(), false);
                    let rest = items@.skip(i + 1);
                    lemma_pieces_short(start, *buf, items_pieces(items@.take(i + 1)), items_pieces(rest), concat_encodings(items@.take(i + 1)), concat_encodings(rest));
                    lemma_pieces_split(items@, i + 1);
                    lemma_concat_split(items@, i + 1);
                }
                return Err(e);
            },
        }
        i = i + 1;
    }
    assert(items@.take(i as int) =~= items@);
    Ok(())
}

/// Encodes the length of `items` and then the items into a fixed buffer,
/// stopping at the first overflow.
fn try_encode_counted<E: fixed::Encode>(items: &[E], buf: &mut fixed::BufMut) -> (r: EncodeResult<()>)
    ensures
        old(buf).wrote_pieces(*final(buf), counted_pieces(items@), counted_encoding(items@), r is Ok),
        final(final(buf).target())@ == final(old(buf).target())@,
{
    let ghost start = *buf;
    let n: usize = items.len();
    match fixed::Encode::try_encode(&n, buf) {
        Ok(()) => {
            let ghost mid = *buf;
            let r = try_encode_items(items, buf);
            proof {
                lemma_pieces_then(start, mid, *buf, fixed::Encode::pieces(&n), items_pieces(items@), n.encoding(), concat_encodings(items@), r is Ok);
            }
            r
        },
        Err(e) => {
            proof {
                lemma_pieces_short(start, *buf, fixed::Encode::pieces(&n), items_pieces(items@), n.encoding(), concat_encodings(items@));
            }
            Err(e)
        },
    }
}

impl<E: Encode> Encode for [E] {
    open spec fn encoding(&self) -> Seq<u8> {
        counted_encoding(self@)
    }

    fn len(&self) -> (n: usize) {
        proof {
            lemma_be_bytes_len(self@.len() as int, 8);
        }
        let count: usize = self.len();
        Encode::len(&count) + items_len(self)
    }

    fn encode(&self, buf: &mut BufMut) {
        proof {
            lemma_be_bytes_len(self@.len() as int, 8);
        }
        let count: usize = self.len();
        buf.encode(&count);
        encode_items(self, buf);
    }
}

impl<E: fixed::Encode> fixed::Encode for [E] {
    /// The length, then each item's pieces.
    open spec fn pieces(&self) -> Seq<Seq<u8>> {
        counted_pieces(self@)
    }

    fn try_encode(&self, buf: &mut fixed::BufMut) -> (r: EncodeResult<()>) {
        try_encode_counted(self, buf)
    }
}

impl<E: Encode> Encode for Vec<E> {
    open spec fn encoding(&self) -> Seq<u8> {
        counted_encoding(self@)
    }

    fn len(&self) -> (n: usize) {
        proof {
            lemma_be_bytes_len(self@.len() as int, 8);
        }
        let count: usize = self.len();
        Encode::len(&count) + items_len(self.as_slice())
    }

    fn encode(&self, buf: &mut BufMut) {
        proof {
            lemma_be_bytes_len(self@.len() as int, 8);
        }
        let count: usize = self.len();
        buf.encode(&count);
        encode_items(self.as_slice(), buf);
    }
}

impl<E: fixed::Encode> fixed::Encode for Vec<E> {
    /// The length, then each item's pieces.
    open spec fn pieces(&self) -> Seq<Seq<u8>> {
        counted_pieces(self@)
    }

    fn try_encode(&self, buf: &mut fixed::BufMut) -> (r: EncodeResult<()>) {
        try_encode_counted(self.as_slice(), buf)
    }
}

impl<E: Encode, const N: usize> Encode for [E; N] {
    open spec fn encoding(&self) -> Seq<u8> {
        concat_encodings(self@)
    }

    fn len(&self) -> (n: usize) {
        items_len(self.as_slice())
    }

    fn encode(&self, buf: &mut BufMut) {
        encode_items(self.as_slice(), buf);
    }
}

impl<E: fixed::Encode, const N: usize> fixed::Encode for [E; N] {
    /// Each item's pieces.
    open spec fn pieces(&self) -> Seq<Seq<u8>> {
        items_pieces(self@)
    }

    fn try_encode(&self, buf: &mut fixed::BufMut) -> (r: EncodeResult<()>) {
        try_encode_items(self.as_slice(), buf)
    }
}

/// The models of `items`, in order.
pub open spec fn models<'buf, D: Decode<'buf>>(items: Seq<D>) -> Seq<D::Model> {
    Seq::new(items.len(), |i: int| items[i].model())
}

/// Decoding `count` values of `D` one after another from `input`: the
/// models of all of them, or the first failure.
pub open spec fn spec_decode_many<'buf, D: Decode<'buf>>(input: Seq<u8>, count: nat) -> Decoded<
    Seq<D::Model>,
>
    decreases count,
{
    if count == 0 {
        (Ok(Seq::empty()), 0)
    } else {
        match spec_decode_many::<D>(input, (count - 1) as nat) {
            (Err(f), n) => (Err(f), n),
            (Ok(items), n) => match D::spec_decode(input.skip(n as int)) {
                (Ok(v), m) => (Ok(items.push(v)), n + m),
                (Err(f), m) => (Err(f), n + m),
            },
        }
    }
}

/// Once decoding `i` values has failed, decoding more fails the same way.
pub proof fn lemma_decode_many_failed<'buf, D: Decode<'buf>>(input: Seq<u8>, i: nat, k: nat)
    requires
        i <= k,
        spec_decode_many::<D>(input, i).0 is Err,
    ensures
        spec_decode_many::<D>(input, k) == spec_decode_many::<D>(input, i),
    decreases k,
{
    if k > i {
        lemma_decode_many_failed::<D>(input, i, (k - 1) as nat);
    }
}

/// Decodes `count` values of `D` one after another.
fn decode_items<'buf, D: Decode<'buf>>(buf: &mut Buf<'buf>, count: usize) -> (r: DecodeResult<Vec<D>>)
    ensures
        crate::decode::decoded_as(
            old(buf)@,
            final(buf)@,
            match r {
                Ok(v) => Ok(models(v@)),
                Err(e) => Err(e.failure()),
            },
            spec_decode_many::<D>(old(buf)@, count as nat),
        ),
{
    let ghost start = buf@;
    let mut items: Vec<D> = Vec::new();
    let mut i: usize = 0;
    assert(start.skip(0) =~= start);
    assert(models(items@) =~= Seq::<D::Model>::empty());
    while i < count
        invariant
            i <= count,
            start == old(buf)@,
            spec_decode_many::<D>(start, i as nat).0 == Ok::<Seq<D::Model>, crate::decode::DecodeFailure>(models(items@)),
            spec_decode_many::<D>(start, i as nat).1 <= start.len(),
            buf@ == start.skip(spec_decode_many::<D>(start, i as nat).1 as int),
        decreases count - i,
    {
        let ghost consumed = spec_decode_many::<D>(start, i as nat).1;
        let ghost before = buf@;
        match buf.decode::<D>() {
            Ok(v) => {
                proof {
                    lemma_skip_skip(start, consumed, D::spec_decode(before).1);
                }
                let ghost prev = items@;
                items.push(v);
                assert(models(items@) =~= models(prev).push(v.model()));
            },
            Err(e) => {
                proof {
                    lemma_skip_skip(start, consumed, D::spec_decode(before).1);
                    lemma_decode_many_failed::<D>(start, (i + 1) as nat, count as nat);
                }
                return Err(e);
            },
        }
        i = i + 1;
    }
    Ok(items)
}

impl<'buf> Decode<'buf> for &'buf [u8] {
    type Model = Seq<u8>;

    open spec fn model(&self) -> Seq<u8> {
        self@
    }

    open spec fn spec_decode(input: Seq<u8>) -> Decoded<Seq<u8>> {
        match usize::spec_decode(input) {
            (Err(f), n) => (Err(f), n),
            (Ok(len), n) => match crate::decode::spec_take(input.skip(n as int), len as nat) {
                (Ok(b), m) => (Ok(b), n + m),
                (Err(f), m) => (Err(f), n + m),
            },
        }
    }

    fn decode(buf: &mut Buf<'buf>) -> (r: DecodeResult<Self>) {
        let ghost start = buf@;
        match buf.decode::<usize>() {
            Ok(len) => {
                let ghost mid = buf@;
                let r = buf.take(len);
                proof {
                    lemma_skip_skip(start, (start.len() - mid.len()) as nat, (mid.len() - buf@.len()) as nat);
                }
                r
            },
            Err(e) => Err(e),
        }
    }
}

impl<'buf, D: Decode<'buf>> Decode<'buf> for Vec<D> {
    type Model = Seq<D::Model>;

    open spec fn model(&self) -> Seq<D::Model> {
        models(self@)
    }

    open spec fn spec_decode(input: Seq<u8>) -> Decoded<Seq<D::Model>> {
        match usize::spec_decode(input) {
            (Err(f), n) => (Err(f), n),
            (Ok(len), n) => match spec_decode_many::<D>(input.skip(n as int), len as nat) {
                (r, m) => (r, n + m),
            },
        }
    }

    fn decode(buf: &mut Buf<'buf>) -> (r: DecodeResult<Self>) {
        let ghost start = buf@;
        match buf.decode::<usize>() {
            Ok(len) => {
                let ghost mid = buf@;
                let r = decode_items::<D>(buf, len);
                proof {
                    lemma_skip_skip(start, (start.len() - mid.len()) as nat, (mid.len() - buf@.len()) as nat);
                }
                r
            },
            Err(e) => Err(e),
        }
    }
}

/// `Vec::into_boxed_slice`: the same items, as a boxed slice.
#[verifier::external_body]
fn vec_into_boxed_slice<T>(v: Vec<T>) -> (r: Box<[T]>)
    ensures
        r@ == v@,
{
    v.into_boxed_slice()
}

impl<'buf, D: Decode<'buf>> Decode<'buf> for Box<[D]> {
    type Model = Seq<D::Model>;

    open spec fn model(&self) -> Seq<D::Model> {
        models(self@)
    }

    open spec fn spec_decode(input: Seq<u8>) -> Decoded<Seq<D::Model>> {
        Vec::<D>::spec_decode(input)
    }

    fn decode(buf: &mut Buf<'buf>) -> (r: DecodeResult<Self>) {
        match buf.decode::<Vec<D>>() {
            Ok(v) => Ok(vec_into_boxed_slice(v)),
            Err(e) => Err(e),
        }
    }
}

/// `<[T; N]>::try_from(Vec<T>)`, for a vector of exactly `N` items: the same
/// items, as an array.
#[verifier::external_body]
fn vec_into_array<T, const N: usize>(v: Vec<T>) -> (r: [T; N])
    requires
        v@.len() == N,
    ensures
        r@ == v@,
{
    <[T; N]>::try_from(v).ok().unwrap()
}

impl<'buf, D: Decode<'buf>, const N: usize> Decode<'buf> for [D; N] {
    type Model = Seq<D::Model>;

    open spec fn model(&self) -> Seq<D::Model> {
        models(self@)
    }

    open spec fn spec_decode(input: Seq<u8>) -> Decoded<Seq<D::Model>> {
        spec_decode_many::<D>(input, N as nat)
    }

    fn decode(buf: &mut Buf<'buf>) -> (r: DecodeResult<Self>) {
        match decode_items::<D>(buf, N) {
            Ok(v) => {
                proof {
                    lemma_decode_many_len::<D>(old(buf)@, N as nat);
                }
                let a: [D; N] = vec_into_array(v);
                Ok(a)
            },
            Err(e) => Err(e),
        }
    }
}

/// Decoding `count` values, when it succeeds, gives `count` models.
pub proof fn lemma_decode_many_len<'buf, D: Decode<'buf>>(input: Seq<u8>, count: nat)
    ensures
        spec_decode_many::<D>(input, count).0 matches Ok(items) ==> items.len() == count,
    decreases count,
{
    if count > 0 {
        lemma_decode_many_len::<D>(input, (count - 1) as nat);
    }
}

impl<'buf, const N: usize> Decode<'buf> for &'buf [u8; N] {
    type Model = Seq<u8>;

    open spec fn model(&self) -> Seq<u8> {
        self@
    }

    open spec fn spec_decode(input: Seq<u8>) -> Decoded<Seq<u8>> {
        crate::decode::spec_take(input, N as nat)
    }

    fn decode(buf: &mut Buf<'buf>) -> (r: DecodeResult<Self>) {
        buf.take_array::<N>()
    }
}

/// The encodings of all the items are those of the first `k` followed by
/// those of the rest.
pub proof fn lemma_concat_split<E: Encode>(items: Seq<E>, k: int)
    requires
        0 <= k <= items.len(),
    ensures
        concat_encodings(items) == concat_encodings(items.take(k)) + concat_encodings(items.skip(k)),
    decreases items.len(),
{
    if k == items.len() {
        assert(items.take(k) =~= items);
        assert(items.skip(k) =~= Seq::<E>::empty());
        assert(concat_encodings(items) + Seq::<u8>::empty() =~= concat_encodings(items));
    } else {
        let init = items.drop_last();
        lemma_concat_split(init, k);
        assert(init.take(k) =~= items.take(k));
        assert(items.skip(k).drop_last() =~= init.skip(k));
        assert(items.skip(k).last() == items.last());
        assert(concat_encodings(items) =~= concat_encodings(items.take(k)) + concat_encodings(
            items.skip(k),
        ));
    }
}

/// The encodings of a nonempty run of items begin with that of the first.
pub proof fn lemma_concat_first<E: Encode>(items: Seq<E>)
    requires
        items.len() > 0,
    ensures
        concat_encodings(items) == items[0].encoding() + concat_encodings(items.skip(1)),
{
    lemma_concat_split(items, 1);
    assert(items.take(1).drop_last() =~= Seq::<E>::empty());
    assert(items.take(1).last() == items[0]);
    assert(concat_encodings(Seq::<E>::empty()) == Seq::<u8>::empty());
    assert(Seq::<u8>::empty() + items[0].encoding() =~= items[0].encoding());
}

} // verus!
