//! The allocating encoding API: the [`Encode`] trait, the growable
//! [`BufMut`], and the [`VecExt`] and [`ToBytes`] extension traits.
use crate::private::{ToBytesSealed, VecExtSealed};
use vstd::prelude::*;

verus! {

/// A type that can be deterministically encoded into a [`BufMut`].
///
/// `encoding` is the exact byte string that [`Self::encode`] appends, so
/// equal values always produce equal bytes; [`Self::len`] is its length.
pub trait Encode {
    /// The bytes that encoding `self` produces.
    ///
    /// Every implementation in this crate states it. The default, for an
    /// implementation that cannot (one derived, or written outside Verus),
    /// is one fixed value for every `self`, which its `encode` does not in
    /// fact meet: what is proved about such a type, alone or inside a
    /// container, does not hold of it.
    open spec fn encoding(&self) -> Seq<u8> {
        arbitrary()
    }

    /// Returns the exact number of bytes that [`Self::encode`] will write.
    fn len(&self) -> (n: usize)
        requires
            self.encoding().len() <= usize::MAX,
        ensures
            n == self.encoding().len(),
    ;

    /// Encodes `self` into `buf`, appending exactly [`Self::encoding`].
    fn encode(&self, buf: &mut BufMut)
        requires
            old(buf)@.len() + self.encoding().len() <= usize::MAX,
        ensures
            final(buf)@ == old(buf)@ + self.encoding(),
            final(final(buf).target())@ == final(old(buf).target())@,
    ;
}

/// A growable byte buffer for encoding values sequentially.
pub struct BufMut<'a> {
    buf: &'a mut Vec<u8>,
}

impl<'a> View for BufMut<'a> {
    type V = Seq<u8>;

    /// The bytes in the underlying vector.
    closed spec fn view(&self) -> Seq<u8> {
        self.buf@
    }
}

impl<'a> BufMut<'a> {
    /// The vector that this buffer writes into.
    pub closed spec fn target(&self) -> &'a mut Vec<u8> {
        self.buf
    }

    /// Once a buffer is no longer used, the vector it wrote into holds
    /// exactly the buffer's bytes.
    pub proof fn lemma_resolved(self)
        requires
            has_resolved(self),
        ensures
            final(self.target())@ == self@,
    {
    }

    /// Constructs a new [`BufMut`] wrapping `buf`.
    pub fn new(buf: &'a mut Vec<u8>) -> (r: Self)
        ensures
            r@ == old(buf)@,
            final(buf)@ == final(r.target())@,
    {
        BufMut { buf }
    }

    /// Returns the number of bytes written to this buffer.
    pub fn len(&self) -> (n: usize)
        ensures
            n == self@.len(),
    {
        Vec::len(self.buf)
    }

    /// Returns `true` if no bytes have been written to this buffer.
    pub fn is_empty(&self) -> (b: bool)
        ensures
            b == (self@.len() == 0),
    {
        self.len() == 0
    }

    /// Pushes `bytes` into this buffer.
    pub fn put(&mut self, bytes: &[u8]) -> (r: &mut Self)
        requires
            old(self)@.len() + bytes@.len() <= usize::MAX,
        ensures
            r@ == old(self)@ + bytes@,
            final(r.target())@ == final(old(self).target())@,
            *final(self) == *final(r),
    {
        self.buf.extend_from_slice(bytes);
        self
    }

    /// Encodes `value` into this buffer.
    pub fn encode<E: Encode + ?Sized>(&mut self, value: &E) -> (r: &mut Self)
        requires
            old(self)@.len() + value.encoding().len() <= usize::MAX,
        ensures
            r@ == old(self)@ + value.encoding(),
            final(r.target())@ == final(old(self).target())@,
            *final(self) == *final(r),
    {
        value.encode(self);
        self
    }
}

/// Extension trait providing convenient methods for encoding values into a
/// `Vec<u8>`.
///
/// This trait is sealed and cannot be implemented outside of this crate.
pub trait VecExt: VecExtSealed {
    /// The bytes held.
    spec fn held(&self) -> Seq<u8>;

    /// Pushes `bytes` into `self`.
    fn put(&mut self, bytes: &[u8]) -> (r: &mut Self)
        requires
            old(self).held().len() + bytes@.len() <= usize::MAX,
        ensures
            r.held() == old(self).held() + bytes@,
            final(self).held() == final(r).held(),
    ;

    /// Encodes `value` into `self`.
    fn encode<E: Encode + ?Sized>(&mut self, value: &E) -> (r: &mut Self)
        requires
            old(self).held().len() + value.encoding().len() <= usize::MAX,
        ensures
            r.held() == old(self).held() + value.encoding(),
            final(self).held() == final(r).held(),
    ;
}

impl VecExt for Vec<u8> {
    open spec fn held(&self) -> Seq<u8> {
        self@
    }

    fn put(&mut self, bytes: &[u8]) -> (r: &mut Self) {
        BufMut::new(self).put(bytes);
        self
    }

    fn encode<E: Encode + ?Sized>(&mut self, value: &E) -> (r: &mut Self) {
        BufMut::new(self).encode(value);
        self
    }
}

/// Extension trait providing a convenience method to convert [`Encode`]
/// types into a `Vec<u8>`.
///
/// This trait is sealed and cannot be implemented outside of this crate.
pub trait ToBytes: ToBytesSealed {
    /// The bytes that [`Self::to_bytes`] returns.
    spec fn bytes(&self) -> Seq<u8>;

    /// Converts `self` into a `Vec<u8>`.
    fn to_bytes(&self) -> (r: Vec<u8>)
        requires
            self.bytes().len() <= usize::MAX,
        ensures
            r@ == self.bytes(),
    ;
}

impl<E: Encode + ?Sized> ToBytes for E {
    open spec fn bytes(&self) -> Seq<u8> {
        self.encoding()
    }

    fn to_bytes(&self) -> (r: Vec<u8>) {
        let mut buf = Vec::with_capacity(self.len());
        VecExt::encode(&mut buf, self);
        buf
    }
}

} // verus!
