//! `PhantomData` holds nothing and encodes to nothing.
use crate::decode::{Buf, Decode, DecodeResult, Decoded};
use crate::encode::{BufMut, Encode};
use crate::fixed::{self, EncodeResult};
use core::marker::PhantomData;
use vstd::prelude::*;

verus! {

impl<E> Encode for PhantomData<E> {
    open spec fn encoding(&self) -> Seq<u8> {
        Seq::empty()
    }

    fn len(&self) -> (n: usize) {
        0
    }

    fn encode(&self, buf: &mut BufMut) {
        assert(buf@ =~= old(buf)@ + self.encoding());
    }
}

impl<E> fixed::Encode for PhantomData<E> {
    /// No pieces.
    open spec fn pieces(&self) -> Seq<Seq<u8>> {
        Seq::empty()
    }

    fn try_encode(&self, buf: &mut fixed::BufMut) -> (r: EncodeResult<()>) {
        fixed::wrote_nothing(buf);
        Ok(())
    }
}

impl<'buf, D> Decode<'buf> for PhantomData<D> {
    type Model = ();

    open spec fn model(&self) -> () {
        ()
    }

    open spec fn spec_decode(input: Seq<u8>) -> Decoded<()> {
        (Ok(()), 0)
    }

    fn decode(buf: &mut Buf<'buf>) -> (r: DecodeResult<Self>) {
        assert(buf@ =~= old(buf)@.skip(0));
        Ok(PhantomData)
    }
}

} // verus!
