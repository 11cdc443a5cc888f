//! The non-allocating encoding API: a fixed-capacity [`BufMut`] over a
//! caller's byte slice, and the [`Encode`] trait that writes into it.
//!
//! Encoding into a fixed buffer fails with [`Overflow`] exactly when the
//! encoding does not fit in the remaining space. Writes happen piece by
//! piece (a number, a tag byte, a length): a failed encode leaves written
//! the leading whole pieces that fit, and nothing of the first that did not.
use vstd::prelude::*;

verus! {

/// The error type returned when a [`BufMut`] does not have enough capacity
/// to store additional bytes.
#[derive(Debug, Clone, Copy, PartialEq, Eq, Structural)]
pub struct Overflow;

pub type EncodeResult<T> = Result<T, Overflow>;

/// A type that can be deterministically encoded into a fixed-size
/// [`BufMut`]. The bytes written are those of [`crate::Encode::encoding`].
pub trait Encode: crate::encode::Encode {
    /// The pieces that [`Self::try_encode`] writes one at a time, each whole
    /// or not at all; together they are the encoding. By default the encoding
    /// is one piece.
    open spec fn pieces(&self) -> Seq<Seq<u8>> {
        seq![self.encoding()]
    }

    /// Encodes `self` into `buf`.
    ///
    /// Succeeds exactly when the encoding fits in the remaining space; on
    /// failure the leading whole pieces that fit have been written.
    fn try_encode(&self, buf: &mut BufMut) -> (r: EncodeResult<()>)
        ensures
            old(buf).wrote_pieces(*final(buf), self.pieces(), self.encoding(), r is Ok),
            final(final(buf).target())@ == final(old(buf).target())@,
    ;
}

/// The leading whole pieces that fit, one after another, in `room` bytes.
pub open spec fn fit(pieces: Seq<Seq<u8>>, room: int) -> Seq<u8>
    decreases pieces.len(),
{
    if pieces.len() == 0 || pieces[0].len() > room {
        Seq::empty()
    } else {
        pieces[0] + fit(pieces.drop_first(), room - pieces[0].len())
    }
}

/// What fits of some pieces is no longer than the room, and begins their
/// concatenation; all of it when all fit.
pub proof fn lemma_fit(pieces: Seq<Seq<u8>>, room: int)
    requires
        room >= 0,
    ensures
        fit(pieces, room).len() <= room,
        fit(pieces, room).len() <= pieces.flatten().len(),
        pieces.flatten().take(fit(pieces, room).len() as int) == fit(pieces, room),
        pieces.flatten().len() <= room ==> fit(pieces, room) == pieces.flatten(),
    decreases pieces.len(),
{
    if pieces.len() > 0 {
        let rest = pieces.drop_first();
        assert(pieces.flatten() == pieces[0] + rest.flatten());
        if pieces[0].len() <= room {
            lemma_fit(rest, room - pieces[0].len());
            let f = fit(rest, room - pieces[0].len());
            assert((pieces[0] + rest.flatten()).take((pieces[0].len() + f.len()) as int) =~= pieces[0] + f);
        } else {
            assert(pieces.flatten().take(0) =~= Seq::<u8>::empty());
        }
    } else {
        assert(pieces.flatten().take(0) =~= Seq::<u8>::empty());
    }
}

/// What fits of `p + q`: all of `p` and what then fits of `q` when all of
/// `p` fits, and what fits of `p` otherwise.
pub proof fn lemma_fit_concat(p: Seq<Seq<u8>>, q: Seq<Seq<u8>>, room: int)
    requires
        room >= 0,
    ensures
        (p + q).flatten() == p.flatten() + q.flatten(),
        p.flatten().len() <= room ==> fit(p + q, room) == p.flatten() + fit(
            q,
            room - p.flatten().len(),
        ),
        p.flatten().len() > room ==> fit(p + q, room) == fit(p, room),
    decreases p.len(),
{
    vstd::seq_lib::lemma_flatten_concat(p, q);
    if p.len() == 0 {
        assert(p + q =~= q);
        assert(p.flatten() + fit(q, room) =~= fit(q, room));
    } else {
        let rest = p.drop_first();
        assert((p + q).drop_first() =~= rest + q);
        assert((p + q)[0] == p[0]);
        assert(p.flatten() == p[0] + rest.flatten());
        if p[0].len() <= room {
            lemma_fit_concat(rest, q, room - p[0].len());
            if p.flatten().len() <= room {
                assert(fit(p + q, room) =~= p.flatten() + fit(q, room - p.flatten().len()));
            }
        }
    }
}

impl<'a> BufMut<'a> {
    /// The space left after the bytes written.
    pub open spec fn room(&self) -> int {
        self.contents().len() - self.written()
    }

    /// The buffer `after` is this one with `bytes`, made of `pieces`, written
    /// at the offset as [`Encode::try_encode`] writes them: all of them when
    /// `complete`; otherwise, when they do not all fit, the leading whole
    /// pieces that fit.
    pub open spec fn wrote_pieces(
        &self,
        after: Self,
        pieces: Seq<Seq<u8>>,
        bytes: Seq<u8>,
        complete: bool,
    ) -> bool {
        &&& self.wrote(after, bytes, complete)
        &&& complete ==> pieces.flatten() == bytes
        &&& !complete ==> {
            &&& pieces.flatten().len() > self.room()
            &&& after.written() == self.written() + fit(pieces, self.room()).len()
        }
    }
}

/// Writing nothing is a complete write of no pieces.
pub proof fn lemma_pieces_nothing<'a>(a: BufMut<'a>)
    requires
        a.written() <= a.contents().len(),
    ensures
        a.wrote_pieces(a, Seq::empty(), Seq::empty(), true),
{
    lemma_wrote_nothing(a);
    assert(Seq::<Seq<u8>>::empty().flatten() =~= Seq::<u8>::empty());
}

/// Writing the pieces `p` completely and then `q` (completely or not)
/// writes `p + q`.
pub proof fn lemma_pieces_then<'a>(
    a: BufMut<'a>,
    b: BufMut<'a>,
    c: BufMut<'a>,
    p: Seq<Seq<u8>>,
    q: Seq<Seq<u8>>,
    x: Seq<u8>,
    y: Seq<u8>,
    complete: bool,
)
    requires
        a.wrote_pieces(b, p, x, true),
        b.wrote_pieces(c, q, y, complete),
    ensures
        a.wrote_pieces(c, p + q, x + y, complete),
{
    lemma_wrote_then(a, b, c, x, y, complete);
    lemma_fit_concat(p, q, a.room());
}

/// A write of the pieces `p` that stopped short is also one, stopped short,
/// of `p + q`.
pub proof fn lemma_pieces_short<'a>(
    a: BufMut<'a>,
    c: BufMut<'a>,
    p: Seq<Seq<u8>>,
    q: Seq<Seq<u8>>,
    x: Seq<u8>,
    y: Seq<u8>,
)
    requires
        a.wrote_pieces(c, p, x, false),
    ensures
        a.wrote_pieces(c, p + q, x + y, false),
{
    lemma_wrote_short(a, c, x, y);
    lemma_fit_concat(p, q, a.room());
}

/// A single piece written whole or not at all.
pub proof fn lemma_one_piece<'a>(a: BufMut<'a>, c: BufMut<'a>, x: Seq<u8>, complete: bool)
    requires
        a.wrote(c, x, complete),
        !complete ==> c.written() == a.written(),
    ensures
        a.wrote_pieces(c, seq![x], x, complete),
{
    assert(seq![x].flatten() == x + seq![x].drop_first().flatten());
    assert(seq![x].drop_first() =~= Seq::<Seq<u8>>::empty());
    assert(seq![x].flatten() =~= x);
}

/// A fixed-size byte buffer for encoding values sequentially.
pub struct BufMut<'a> {
    buf: &'a mut [u8],
    /// The current offset into `buf`, always `<= buf.len()`.
    offset: usize,
}

impl<'a> BufMut<'a> {
    #[verifier::type_invariant]
    spec fn offset_in_bounds(self) -> bool {
        self.offset <= self.buf@.len()
    }

    /// All bytes of the underlying slice, written or not.
    pub closed spec fn contents(&self) -> Seq<u8> {
        self.buf@
    }

    /// The number of bytes written so far.
    pub closed spec fn written(&self) -> nat {
        self.offset as nat
    }

    /// The slice that this buffer writes into.
    pub closed spec fn target(&self) -> &'a mut [u8] {
        self.buf
    }

    /// The bytes written so far.
    pub open spec fn filled(&self) -> Seq<u8> {
        self.contents().take(self.written() as int)
    }

    /// The buffer `after` is this one with a prefix of `bytes` written at the
    /// offset: all of it when `complete`, and then only if it fit; a proper
    /// prefix otherwise, and then only if it did not fit.
    pub open spec fn wrote(&self, after: Self, bytes: Seq<u8>, complete: bool) -> bool {
        &&& after.contents().len() == self.contents().len()
        &&& self.written() <= after.written() <= after.contents().len()
        &&& after.contents() == self.contents().take(self.written() as int) + bytes.take(
            after.written() - self.written(),
        ) + self.contents().skip(after.written() as int)
        &&& complete <==> self.written() + bytes.len() <= self.contents().len()
        &&& complete ==> after.written() == self.written() + bytes.len()
        &&& !complete ==> after.written() < self.written() + bytes.len()
    }

    /// Once a buffer is no longer used, the slice it wrote into holds exactly
    /// the buffer's contents: the bytes written and, after them, what the
    /// slice held before.
    pub proof fn lemma_resolved(self)
        requires
            has_resolved(self),
        ensures
            final(self.target())@ == self.contents(),
    {
    }

    /// Constructs a new [`BufMut`] wrapping `buf`.
    pub fn new(buf: &'a mut [u8]) -> (r: Self)
        ensures
            r.contents() == old(buf)@,
            r.written() == 0,
            final(buf)@ == final(r.target())@,
    {
        BufMut { buf, offset: 0 }
    }

    /// Returns the capacity of this buffer.
    pub fn capacity(&self) -> (n: usize)
        ensures
            n == self.contents().len(),
    {
        <[u8]>::len(self.buf)
    }

    /// Returns the number of bytes written to this buffer.
    pub fn len(&self) -> (n: usize)
        ensures
            n == self.written(),
    {
        self.offset
    }

    /// Returns `true` if no bytes have been written to this buffer.
    pub fn is_empty(&self) -> (b: bool)
        ensures
            b == (self.written() == 0),
    {
        self.len() == 0
    }

    /// Returns the remaining number of bytes that can be written to this buffer.
    pub fn remaining(&self) -> (n: usize)
        ensures
            self.written() <= self.contents().len(),
            n == self.contents().len() - self.written(),
    {
        proof {
            use_type_invariant(self);
        }
        self.capacity() - self.len()
    }

    /// Pushes `bytes` into this buffer.
    ///
    /// Fails with [`Overflow`], writing nothing, if `bytes` is longer than
    /// the remaining space.
    pub fn put(&mut self, bytes: &[u8]) -> (r: EncodeResult<()>)
        ensures
            old(self).wrote(*final(self), bytes@, r is Ok),
            old(self).wrote_pieces(*final(self), seq![bytes@], bytes@, r is Ok),
            r is Err ==> *final(self) == *old(self),
            final(final(self).target())@ == final(old(self).target())@,
    {
        proof {
            use_type_invariant(&*self);
        }
        let len = bytes.len();
        if self.remaining() >= len {
            let ghost start = self.buf@;
            let cap: usize = <[u8]>::len(self.buf);
            let mut i: usize = 0;
            while i < len
                invariant
                    i <= len == bytes@.len(),
                    self.offset + len <= cap == self.buf@.len(),
                    self.offset == old(self).offset,
                    self.buf@.len() == start.len(),
                    self.buf@ == start.take(self.offset as int) + bytes@.take(i as int) + start.skip(
                        self.offset + i,
                    ),
                    final(self.buf)@ == final(old(self).buf)@,
                decreases len - i,
            {
                self.buf[self.offset + i] = bytes[i];
                i = i + 1;
                assert(self.buf@ =~= start.take(self.offset as int) + bytes@.take(i as int)
                    + start.skip(self.offset + i));
            }
            self.offset = self.offset + len;
            assert(bytes@.take(len as int) =~= bytes@);
            proof {
                lemma_one_piece(*old(self), *self, bytes@, true);
            }
            Ok(())
        } else {
            assert(bytes@.take(0) =~= Seq::<u8>::empty());
            assert(self.buf@ =~= self.buf@.take(self.offset as int) + bytes@.take(0) + self.buf@.skip(self.offset as int));
            proof {
                lemma_one_piece(*old(self), *self, bytes@, false);
            }
            Err(Overflow)
        }
    }

    /// Encodes `value` into this buffer.
    ///
    /// Fails with [`Overflow`] exactly when the encoding of `value` does not
    /// fit in the remaining space.
    pub fn encode<E: Encode + ?Sized>(&mut self, value: &E) -> (r: EncodeResult<()>)
        ensures
            old(self).wrote(*final(self), value.encoding(), r is Ok),
            old(self).wrote_pieces(*final(self), value.pieces(), value.encoding(), r is Ok),
            final(final(self).target())@ == final(old(self).target())@,
    {
        value.try_encode(self)
    }

    /// Consumes this buffer, returning the bytes written so far.
    pub fn into_filled(self) -> (r: &'a [u8])
        ensures
            r@ == self.filled(),
    {
        proof {
            use_type_invariant(&self);
        }
        let BufMut { buf, offset } = self;
        let whole: &'a [u8] = buf;
        vstd::slice::slice_subrange(whole, 0, offset)
    }
}

/// Encodes `first` and then `second` into `buf`, stopping at the first
/// overflow.
pub fn try_encode_pair<A: Encode + ?Sized, B: Encode + ?Sized>(
    buf: &mut BufMut,
    first: &A,
    second: &B,
) -> (r: EncodeResult<()>)
    ensures
        old(buf).wrote_pieces(
            *final(buf),
            first.pieces() + second.pieces(),
            first.encoding() + second.encoding(),
            r is Ok,
        ),
        final(final(buf).target())@ == final(old(buf).target())@,
{
    let ghost a = *buf;
    let r1 = first.try_encode(buf);
    let ghost b = *buf;
    match r1 {
        Ok(()) => {
            let r2 = second.try_encode(buf);
            proof {
                lemma_pieces_then(
                    a,
                    b,
                    *buf,
                    first.pieces(),
                    second.pieces(),
                    first.encoding(),
                    second.encoding(),
                    r2 is Ok,
                );
            }
            r2
        },
        Err(e) => {
            proof {
                lemma_pieces_short(
                    a,
                    *buf,
                    first.pieces(),
                    second.pieces(),
                    first.encoding(),
                    second.encoding(),
                );
            }
            Err(e)
        },
    }
}

/// The buffer as it stands is a complete write of no bytes into itself.
pub fn wrote_nothing(buf: &BufMut)
    ensures
        buf.wrote(*buf, Seq::empty(), true),
        buf.wrote_pieces(*buf, Seq::empty(), Seq::empty(), true),
        buf.written() <= buf.contents().len(),
{
    proof {
        use_type_invariant(buf);
        lemma_pieces_nothing(*buf);
    }
}

/// Writing nothing is a complete write of no bytes.
pub proof fn lemma_wrote_nothing<'a>(a: BufMut<'a>)
    requires
        a.written() <= a.contents().len(),
    ensures
        a.wrote(a, Seq::empty(), true),
{
    assert(a.contents() =~= a.contents().take(a.written() as int) + Seq::<u8>::empty().take(0)
        + a.contents().skip(a.written() as int));
}

/// Writing `x` completely and then `y` (completely or not) writes `x + y`.
pub proof fn lemma_wrote_then<'a>(
    a: BufMut<'a>,
    b: BufMut<'a>,
    c: BufMut<'a>,
    x: Seq<u8>,
    y: Seq<u8>,
    complete: bool,
)
    requires
        a.wrote(b, x, true),
        b.wrote(c, y, complete),
    ensures
        a.wrote(c, x + y, complete),
{
    let k = c.written() - b.written();
    assert((x + y).take(c.written() - a.written()) =~= x + y.take(k));
    assert(c.contents() =~= a.contents().take(a.written() as int) + (x + y).take(
        c.written() - a.written(),
    ) + a.contents().skip(c.written() as int));
}

/// A write of `x` that stopped short is also one of `x + y` that stopped short.
pub proof fn lemma_wrote_short<'a>(a: BufMut<'a>, c: BufMut<'a>, x: Seq<u8>, y: Seq<u8>)
    requires
        a.wrote(c, x, false),
    ensures
        a.wrote(c, x + y, false),
{
    assert((x + y).take(c.written() - a.written()) =~= x.take(c.written() - a.written()));
}

} // verus!
