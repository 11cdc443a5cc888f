//! The zero-copy decoding API: the [`Decode`] trait, the read-only [`Buf`]
//! and the [`DecodeError`] type.
use vstd::prelude::*;

verus! {

#[verifier::external_type_specification]
#[verifier::external_body]
pub struct ExUtf8Error(core::str::Utf8Error);

/// The error type returned when decoding a value from a [`Buf`] fails.
#[derive(Debug)]
#[non_exhaustive]
pub enum DecodeError {
    /// The buffer was unexpectedly exhausted.
    UnexpectedEof,
    /// A byte representing a `bool` was not `0` or `1`.
    InvalidBool,
    /// A 32-bit integer was outside the valid Unicode scalar range or fell
    /// into the surrogate gap.
    InvalidChar,
    /// A byte sequence was not valid UTF-8.
    InvalidUtf8(core::str::Utf8Error),
    /// A non-zero value was `0`.
    InvalidNonZero,
    /// An enum variant's discriminant was invalid.
    InvalidDiscriminant(u16),
}

impl DecodeError {
    /// The error for an enum tag byte `d` that names no variant.
    pub fn invalid_discriminant(d: u8) -> (e: DecodeError)
        ensures
            e.failure() == discriminant_failure(d),
    {
        DecodeError::InvalidDiscriminant(d as u16)
    }
}

/// The failure for an enum tag byte `d` that names no variant.
pub open spec fn discriminant_failure(d: u8) -> DecodeFailure {
    DecodeFailure::InvalidDiscriminant(d as u16)
}

/// What went wrong in a failed decode, as the specifications speak of it:
/// the variant of [`DecodeError`], with the discriminant where there is one.
pub enum DecodeFailure {
    UnexpectedEof,
    InvalidBool,
    InvalidChar,
    InvalidUtf8,
    InvalidNonZero,
    InvalidDiscriminant(u16),
}

impl DecodeError {
    /// The failure that this error reports.
    pub open spec fn failure(&self) -> DecodeFailure {
        match self {
            DecodeError::UnexpectedEof => DecodeFailure::UnexpectedEof,
            DecodeError::InvalidBool => DecodeFailure::InvalidBool,
            DecodeError::InvalidChar => DecodeFailure::InvalidChar,
            DecodeError::InvalidUtf8(_) => DecodeFailure::InvalidUtf8,
            DecodeError::InvalidNonZero => DecodeFailure::InvalidNonZero,
            DecodeError::InvalidDiscriminant(d) => DecodeFailure::InvalidDiscriminant(*d),
        }
    }
}

pub type DecodeResult<T> = Result<T, DecodeError>;

/// The outcome of decoding a value whose model is `V` from some input: the
/// value or the failure, and the number of bytes consumed from the front of
/// the input (also on failure).
pub type Decoded<V> = (Result<V, DecodeFailure>, nat);

/// A decode that turned the input `before` into `after` and returned
/// `outcome` (the model of the value, or the failure) did what `spec`
/// describes.
pub open spec fn decoded_as<M>(
    before: Seq<u8>,
    after: Seq<u8>,
    outcome: Result<M, DecodeFailure>,
    spec: Decoded<M>,
) -> bool {
    &&& spec.1 <= before.len()
    &&& after == before.skip(spec.1 as int)
    &&& outcome == spec.0
}

/// A type that can be decoded from a [`Buf`].
///
/// Specifications speak of a decoded value through its [`Self::model`]: the
/// value itself for plain data, the bytes or characters for borrowed slices
/// and strings, the sequence of item models for collections.
pub trait Decode<'buf>: Sized {
    /// The mathematical value that a decoded value stands for.
    type Model;

    /// The model of `self`. The default is one fixed value, as for
    /// [`Self::spec_decode`].
    open spec fn model(&self) -> Self::Model {
        arbitrary()
    }

    /// What decoding a value of this type from `input` yields.
    ///
    /// Every implementation in this crate states it. The default, for an
    /// implementation that cannot (one derived, or written outside Verus),
    /// is one fixed outcome for every input, which its `decode` does not in
    /// fact meet: what is proved about such a type, alone or inside a
    /// container, does not hold of it.
    open spec fn spec_decode(input: Seq<u8>) -> Decoded<Self::Model> {
        arbitrary()
    }

    /// Decodes a value from the front of `buf`, advancing it past the bytes
    /// consumed.
    fn decode(buf: &mut Buf<'buf>) -> (r: DecodeResult<Self>)
        ensures
            decoded_as(
                old(buf)@,
                final(buf)@,
                match r {
                    Ok(v) => Ok(v.model()),
                    Err(e) => Err(e.failure()),
                },
                Self::spec_decode(old(buf)@),
            ),
    ;
}

/// A read-only byte buffer for decoding values sequentially.
#[derive(Debug, Copy, Clone)]
pub struct Buf<'buf> {
    buf: &'buf [u8],
}

impl<'buf> View for Buf<'buf> {
    type V = Seq<u8>;

    /// The bytes that remain to be read.
    closed spec fn view(&self) -> Seq<u8> {
        self.buf@
    }
}

impl<'buf> Buf<'buf> {
    /// Constructs a [`Buf`] wrapping `buf`.
    pub fn new(buf: &'buf [u8]) -> (r: Self)
        ensures
            r@ == buf@,
    {
        Buf { buf }
    }

    /// Returns the remaining number of bytes that can be read from this buffer.
    pub fn remaining(&self) -> (n: usize)
        ensures
            n == self@.len(),
    {
        self.buf.len()
    }

    /// Consumes and returns a borrowed byte slice of length `n` from this buffer.
    ///
    /// Fails with [`DecodeError::UnexpectedEof`], consuming nothing, if fewer
    /// than `n` bytes remain.
    pub fn take(&mut self, n: usize) -> (r: DecodeResult<&'buf [u8]>)
        ensures
            n <= old(self)@.len() ==> {
                &&& r matches Ok(head) && head@ == old(self)@.take(n as int)
                &&& final(self)@ == old(self)@.skip(n as int)
            },
            n > old(self)@.len() ==> {
                &&& r matches Err(e) && e is UnexpectedEof
                &&& final(self)@ == old(self)@.skip(0)
            },
    {
        if n <= self.buf.len() {
            let (head, tail) = self.buf.split_at(n);
            self.buf = tail;
            Ok(head)
        } else {
            assert(self.buf@.skip(0) =~= self.buf@);
            Err(DecodeError::UnexpectedEof)
        }
    }

    /// Consumes and returns a borrowed byte array of length `N` from this
    /// buffer, failing as [`Self::take`] does.
    pub fn take_array<const N: usize>(&mut self) -> (r: DecodeResult<&'buf [u8; N]>)
        ensures
            decoded_as(
                old(self)@,
                final(self)@,
                match r {
                    Ok(a) => Ok(a@),
                    Err(e) => Err(e.failure()),
                },
                spec_take(old(self)@, N as nat),
            ),
    {
        match self.take(N) {
            Ok(head) => Ok(slice_as_array::<N>(head)),
            Err(e) => Err(e),
        }
    }

    /// Decodes a value of type `D` from this buffer.
    pub fn decode<D: Decode<'buf>>(&mut self) -> (r: DecodeResult<D>)
        ensures
            decoded_as(
                old(self)@,
                final(self)@,
                match r {
                    Ok(v) => Ok(v.model()),
                    Err(e) => Err(e.failure()),
                },
                D::spec_decode(old(self)@),
            ),
    {
        D::decode(self)
    }
}

/// `<&[u8; N]>::try_from(&[u8])`, for a slice of exactly `N` bytes: the
/// same bytes, as an array reference.
#[verifier::external_body]
fn slice_as_array<'a, const N: usize>(s: &'a [u8]) -> (r: &'a [u8; N])
    requires
        s@.len() == N,
    ensures
        r@ == s@,
{
    <&[u8; N]>::try_from(s).ok().unwrap()
}

/// The outcome of taking `n` bytes from the front of `input`.
pub open spec fn spec_take(input: Seq<u8>, n: nat) -> Decoded<Seq<u8>> {
    if n <= input.len() {
        (Ok(input.take(n as int)), n)
    } else {
        (Err(DecodeFailure::UnexpectedEof), 0)
    }
}

/// Skipping `a` bytes and then `b` more is skipping `a + b`.
pub proof fn lemma_skip_skip(s: Seq<u8>, a: nat, b: nat)
    requires
        a + b <= s.len(),
    ensures
        s.skip(a as int).skip(b as int) == s.skip((a + b) as int),
{
    assert(s.skip(a as int).skip(b as int) =~= s.skip((a + b) as int));
}

} // verus!
