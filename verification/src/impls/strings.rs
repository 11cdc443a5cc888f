//! Strings: the length of the UTF-8 bytes as a big-endian `u64`, then the
//! bytes. Decoding checks that the bytes are valid UTF-8.
use crate::bytes::{be_bytes, lemma_be_bytes_len};
use crate::decode::{Buf, Decode, DecodeError, DecodeFailure, DecodeResult, Decoded};
use crate::encode::{BufMut, Encode};
use crate::fixed::{self, EncodeResult};
use crate::impls::seqs::{counted_pieces, lemma_concat_bytes};
use vstd::prelude::*;
use vstd::string::StringSliceAdditionalSpecFns;
use vstd::utf8::{decode_utf8, encode_utf8, valid_utf8};

verus! {

/// The encoding of a string whose UTF-8 bytes are `bytes`.
pub open spec fn str_encoding(bytes: Seq<u8>) -> Seq<u8> {
    be_bytes(bytes.len() as int, 8) + bytes
}

impl Encode for str {
    open spec fn encoding(&self) -> Seq<u8> {
        str_encoding(self.spec_bytes())
    }

    fn len(&self) -> (n: usize) {
        proof {
            lemma_be_bytes_len(self.spec_bytes().len() as int, 8);
        }
        let count: usize = self.len();
        Encode::len(&count) + count
    }

    fn encode(&self, buf: &mut BufMut) {
        let bytes = self.as_bytes();
        proof {
            lemma_concat_bytes(bytes@);
        }
        buf.encode(bytes);
    }
}

impl fixed::Encode for str {
    /// The pieces of its bytes as a byte slice: the length, then each byte.
    open spec fn pieces(&self) -> Seq<Seq<u8>> {
        counted_pieces(self.spec_bytes())
    }

    fn try_encode(&self, buf: &mut fixed::BufMut) -> (r: EncodeResult<()>) {
        let bytes = self.as_bytes();
        proof {
            lemma_concat_bytes(bytes@);
        }
        fixed::Encode::try_encode(bytes, buf)
    }
}

impl Encode for String {
    open spec fn encoding(&self) -> Seq<u8> {
        str_encoding(encode_utf8(self@))
    }

    fn len(&self) -> (n: usize) {
        Encode::len(self.as_str())
    }

    fn encode(&self, buf: &mut BufMut) {
        buf.encode(self.as_str());
    }
}

impl fixed::Encode for String {
    /// The pieces of the string slice it holds.
    open spec fn pieces(&self) -> Seq<Seq<u8>> {
        counted_pieces(encode_utf8(self@))
    }

    fn try_encode(&self, buf: &mut fixed::BufMut) -> (r: EncodeResult<()>) {
        fixed::Encode::try_encode(self.as_str(), buf)
    }
}

/// `core::str::from_utf8`: the bytes as a string slice when they are valid
/// UTF-8, the same bytes; an error otherwise.
#[verifier::external_body]
fn str_from_utf8(v: &[u8]) -> (r: Result<&str, core::str::Utf8Error>)
    ensures
        r is Ok <==> valid_utf8(v@),
        r matches Ok(s) ==> s.spec_bytes() == v@,
{
    core::str::from_utf8(v)
}

impl<'buf> Decode<'buf> for &'buf str {
    type Model = Seq<char>;

    open spec fn model(&self) -> Seq<char> {
        self@
    }

    open spec fn spec_decode(input: Seq<u8>) -> Decoded<Seq<char>> {
        match <&'buf [u8]>::spec_decode(input) {
            (Ok(bytes), n) => if valid_utf8(bytes) {
                (Ok(decode_utf8(bytes)), n)
            } else {
                (Err(DecodeFailure::InvalidUtf8), n)
            },
            (Err(f), n) => (Err(f), n),
        }
    }

    fn decode(buf: &mut Buf<'buf>) -> (r: DecodeResult<Self>) {
        match buf.decode::<&'buf [u8]>() {
            Ok(bytes) => match str_from_utf8(bytes) {
                Ok(s) => {
                    proof {
                        vstd::utf8::encode_utf8_decode_utf8(s@);
                    }
                    Ok(s)
                },
                Err(e) => Err(DecodeError::InvalidUtf8(e)),
            },
            Err(e) => Err(e),
        }
    }
}

impl<'buf> Decode<'buf> for String {
    type Model = Seq<char>;

    open spec fn model(&self) -> Seq<char> {
        self@
    }

    open spec fn spec_decode(input: Seq<u8>) -> Decoded<Seq<char>> {
        <&'buf str>::spec_decode(input)
    }

    fn decode(buf: &mut Buf<'buf>) -> (r: DecodeResult<Self>) {
        match buf.decode::<&'buf str>() {
            Ok(s) => Ok(s.to_owned()),
            Err(e) => Err(e),
        }
    }
}

} // verus!
