//! References and smart pointers encode as what they point to; owning
//! pointers decode by decoding the value and putting it behind the pointer.
use crate::decode::{Buf, Decode, DecodeResult, Decoded};
use crate::encode::{BufMut, Encode};
use crate::fixed::{self, EncodeResult};
use std::rc::Rc;
use std::sync::Arc;
use vstd::prelude::*;

verus! {

impl<E: Encode + ?Sized> Encode for &E {
    open spec fn encoding(&self) -> Seq<u8> {
        (**self).encoding()
    }

    fn len(&self) -> (n: usize) {
        (**self).len()
    }

    fn encode(&self, buf: &mut BufMut) {
        buf.encode(*self);
    }
}

impl<E: fixed::Encode + ?Sized> fixed::Encode for &E {
    open spec fn pieces(&self) -> Seq<Seq<u8>> {
        (**self).pieces()
    }

    fn try_encode(&self, buf: &mut fixed::BufMut) -> (r: EncodeResult<()>) {
        (**self).try_encode(buf)
    }
}

impl<E: Encode + ?Sized> Encode for &mut E {
    open spec fn encoding(&self) -> Seq<u8> {
        (**self).encoding()
    }

    fn len(&self) -> (n: usize) {
        (**self).len()
    }

    fn encode(&self, buf: &mut BufMut) {
        (**self).encode(buf);
    }
}

impl<E: fixed::Encode + ?Sized> fixed::Encode for &mut E {
    open spec fn pieces(&self) -> Seq<Seq<u8>> {
        (**self).pieces()
    }

    fn try_encode(&self, buf: &mut fixed::BufMut) -> (r: EncodeResult<()>) {
        (**self).try_encode(buf)
    }
}

impl<E: Encode + ?Sized> Encode for Box<E> {
    open spec fn encoding(&self) -> Seq<u8> {
        (**self).encoding()
    }

    fn len(&self) -> (n: usize) {
        E::len(&**self)
    }

    fn encode(&self, buf: &mut BufMut) {
        E::encode(&**self, buf)
    }
}

impl<E: fixed::Encode + ?Sized> fixed::Encode for Box<E> {
    open spec fn pieces(&self) -> Seq<Seq<u8>> {
        (**self).pieces()
    }

    fn try_encode(&self, buf: &mut fixed::BufMut) -> (r: EncodeResult<()>) {
        E::try_encode(&**self, buf)
    }
}

impl<E: Encode + ?Sized> Encode for Rc<E> {
    open spec fn encoding(&self) -> Seq<u8> {
        (**self).encoding()
    }

    fn len(&self) -> (n: usize) {
        E::len(&**self)
    }

    fn encode(&self, buf: &mut BufMut) {
        E::encode(&**self, buf)
    }
}

impl<E: fixed::Encode + ?Sized> fixed::Encode for Rc<E> {
    open spec fn pieces(&self) -> Seq<Seq<u8>> {
        (**self).pieces()
    }

    fn try_encode(&self, buf: &mut fixed::BufMut) -> (r: EncodeResult<()>) {
        E::try_encode(&**self, buf)
    }
}

impl<E: Encode + ?Sized> Encode for Arc<E> {
    open spec fn encoding(&self) -> Seq<u8> {
        (**self).encoding()
    }

    fn len(&self) -> (n: usize) {
        E::len(&**self)
    }

    fn encode(&self, buf: &mut BufMut) {
        E::encode(&**self, buf)
    }
}

impl<E: fixed::Encode + ?Sized> fixed::Encode for Arc<E> {
    open spec fn pieces(&self) -> Seq<Seq<u8>> {
        (**self).pieces()
    }

    fn try_encode(&self, buf: &mut fixed::BufMut) -> (r: EncodeResult<()>) {
        E::try_encode(&**self, buf)
    }
}

impl<'buf, D: Decode<'buf>> Decode<'buf> for Box<D> {
    type Model = D::Model;

    open spec fn model(&self) -> D::Model {
        (**self).model()
    }

    open spec fn spec_decode(input: Seq<u8>) -> Decoded<D::Model> {
        D::spec_decode(input)
    }

    fn decode(buf: &mut Buf<'buf>) -> (r: DecodeResult<Self>) {
        match buf.decode::<D>() {
            Ok(v) => Ok(Box::new(v)),
            Err(e) => Err(e),
        }
    }
}

impl<'buf, D: Decode<'buf>> Decode<'buf> for Rc<D> {
    type Model = D::Model;

    open spec fn model(&self) -> D::Model {
        (**self).model()
    }

    open spec fn spec_decode(input: Seq<u8>) -> Decoded<D::Model> {
        D::spec_decode(input)
    }

    fn decode(buf: &mut Buf<'buf>) -> (r: DecodeResult<Self>) {
        match buf.decode::<D>() {
            Ok(v) => Ok(Rc::new(v)),
            Err(e) => Err(e),
        }
    }
}

impl<'buf, D: Decode<'buf>> Decode<'buf> for Arc<D> {
    type Model = D::Model;

    open spec fn model(&self) -> D::Model {
        (**self).model()
    }

    open spec fn spec_decode(input: Seq<u8>) -> Decoded<D::Model> {
        D::spec_decode(input)
    }

    fn decode(buf: &mut Buf<'buf>) -> (r: DecodeResult<Self>) {
        match buf.decode::<D>() {
            Ok(v) => Ok(Arc::new(v)),
            Err(e) => Err(e),
        }
    }
}

} // verus!
