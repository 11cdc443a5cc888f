//! Tuples: the elements one after another.
use crate::decode::{lemma_skip_skip, Buf, Decode, DecodeResult, Decoded};
use crate::encode::{BufMut, Encode};
use crate::fixed::{self, lemma_pieces_short, lemma_pieces_then, EncodeResult};
use vstd::prelude::*;

verus! {

impl Encode for () {
    open spec fn encoding(&self) -> Seq<u8> {
        Seq::empty()
    }

    fn len(&self) -> (n: usize) {
        0
    }

    fn encode(&self, buf: &mut BufMut) {
        assert(buf@ =~= old(buf)@ + self.encoding());
    }
}

impl fixed::Encode for () {
    open spec fn pieces(&self) -> Seq<Seq<u8>> {
        Seq::empty()
    }

    fn try_encode(&self, buf: &mut fixed::BufMut) -> (r: EncodeResult<()>) {
        fixed::wrote_nothing(buf);
        Ok(())
    }
}

impl<'buf> Decode<'buf> for () {
    type Model = ();

    open spec fn model(&self) -> () {
        ()
    }

    open spec fn spec_decode(input: Seq<u8>) -> Decoded<()> {
        (Ok(()), 0)
    }

    fn decode(buf: &mut Buf<'buf>) -> (r: DecodeResult<Self>) {
        assert(buf@ =~= old(buf)@.skip(0));
        Ok(())
    }
}

impl<A: Encode> Encode for (A,) {
    open spec fn encoding(&self) -> Seq<u8> {
        self.0.encoding()
    }

    fn len(&self) -> (n: usize) {
        let mut len: usize = 0;
        len = len + self.0.len();
        len
    }

    fn encode(&self, buf: &mut BufMut) {
        buf.encode(&self.0);
        
    }
}

impl<A: fixed::Encode> fixed::Encode for (A,) {
    open spec fn pieces(&self) -> Seq<Seq<u8>> {
        self.0.pieces()
    }

    fn try_encode(&self, buf: &mut fixed::BufMut) -> (r: EncodeResult<()>) {
        let ghost start = *buf;
        match self.0.try_encode(buf) {
            Ok(()) => {},
            Err(e) => {
                proof {
                }
                return Err(e);
            },
        }
        Ok(())
    }
}

impl<'buf, A: Decode<'buf>> Decode<'buf> for (A,) {
    type Model = (A::Model,);

    open spec fn model(&self) -> (A::Model,) {
        (self.0.model(),)
    }

    open spec fn spec_decode(input: Seq<u8>) -> Decoded<(A::Model,)> {
        match A::spec_decode(input) {
            (Err(f), n0) => (Err(f), n0),
            (Ok(v0), n0) => (Ok((v0,)), n0),
        }
    }

    fn decode(buf: &mut Buf<'buf>) -> (r: DecodeResult<Self>) {
        let ghost start = buf@;
        let ghost mut consumed: nat = 0;
        assert(start.skip(0) =~= start);
        let ghost before = buf@;
        let r0 = buf.decode::<A>();
        proof {
            lemma_skip_skip(start, consumed, A::spec_decode(before).1);
            consumed = consumed + A::spec_decode(before).1;
        }
        let v0 = match r0 {
            Ok(v) => v,
            Err(e) => return Err(e),
        };
        Ok((v0,))
    }
}

impl<A: Encode, B: Encode> Encode for (A, B) {
    open spec fn encoding(&self) -> Seq<u8> {
        self.0.encoding() + self.1.encoding()
    }

    fn len(&self) -> (n: usize) {
        let mut len: usize = 0;
        len = len + self.0.len();
        len = len + self.1.len();
        len
    }

    fn encode(&self, buf: &mut BufMut) {
        buf.encode(&self.0);
        buf.encode(&self.1);
        
    }
}

impl<A: fixed::Encode, B: fixed::Encode> fixed::Encode for (A, B) {
    open spec fn pieces(&self) -> Seq<Seq<u8>> {
        self.0.pieces() + self.1.pieces()
    }

    fn try_encode(&self, buf: &mut fixed::BufMut) -> (r: EncodeResult<()>) {
        let ghost start = *buf;
        match self.0.try_encode(buf) {
            Ok(()) => {},
            Err(e) => {
                proof {
                    lemma_pieces_short(start, *buf, self.0.pieces(), self.1.pieces(), self.0.encoding(), self.1.encoding());
                }
                return Err(e);
            },
        }
        let ghost before = *buf;
        match self.1.try_encode(buf) {
            Ok(()) => {
                proof {
                    lemma_pieces_then(start, before, *buf, self.0.pieces(), self.1.pieces(), self.0.encoding(), self.1.encoding(), true);
                }
            },
            Err(e) => {
                proof {
                    lemma_pieces_then(start, before, *buf, self.0.pieces(), self.1.pieces(), self.0.encoding(), self.1.encoding(), false);
                }
                return Err(e);
            },
        }
        Ok(())
    }
}

impl<'buf, A: Decode<'buf>, B: Decode<'buf>> Decode<'buf> for (A, B) {
    type Model = (A::Model, B::Model);

    open spec fn model(&self) -> (A::Model, B::Model) {
        (self.0.model(), self.1.model())
    }

    open spec fn spec_decode(input: Seq<u8>) -> Decoded<(A::Model, B::Model)> {
        match A::spec_decode(input) {
            (Err(f), n0) => (Err(f), n0),
            (Ok(v0), n0) => match B::spec_decode(input.skip((n0) as int)) {
            (Err(f), n1) => (Err(f), n0 + n1),
            (Ok(v1), n1) => (Ok((v0, v1)), n0 + n1),
        },
        }
    }

    fn decode(buf: &mut Buf<'buf>) -> (r: DecodeResult<Self>) {
        let ghost start = buf@;
        let ghost mut consumed: nat = 0;
        assert(start.skip(0) =~= start);
        let ghost before = buf@;
        let r0 = buf.decode::<A>();
        proof {
            lemma_skip_skip(start, consumed, A::spec_decode(before).1);
            consumed = consumed + A::spec_decode(before).1;
        }
        let v0 = match r0 {
            Ok(v) => v,
            Err(e) => return Err(e),
        };
        let ghost before = buf@;
        let r1 = buf.decode::<B>();
        proof {
            lemma_skip_skip(start, consumed, B::spec_decode(before).1);
            consumed = consumed + B::spec_decode(before).1;
        }
        let v1 = match r1 {
            Ok(v) => v,
            Err(e) => return Err(e),
        };
        Ok((v0, v1))
    }
}

impl<A: Encode, B: Encode, C: Encode> Encode for (A, B, C) {
    open spec fn encoding(&self) -> Seq<u8> {
        self.0.encoding() + self.1.encoding() + self.2.encoding()
    }

    fn len(&self) -> (n: usize) {
        let mut len: usize = 0;
        len = len + self.0.len();
        len = len + self.1.len();
        len = len + self.2.len();
        len
    }

    fn encode(&self, buf: &mut BufMut) {
        buf.encode(&self.0);
        buf.encode(&self.1);
        buf.encode(&self.2);
        
    }
}

impl<A: fixed::Encode, B: fixed::Encode, C: fixed::Encode> fixed::Encode for (A, B, C) {
    open spec fn pieces(&self) -> Seq<Seq<u8>> {
        self.0.pieces() + self.1.pieces() + self.2.pieces()
    }

    fn try_encode(&self, buf: &mut fixed::BufMut) -> (r: EncodeResult<()>) {
        let ghost start = *buf;
        match self.0.try_encode(buf) {
            Ok(()) => {},
            Err(e) => {
                proof {
                    lemma_pieces_short(start, *buf, self.0.pieces(), self.1.pieces(), self.0.encoding(), self.1.encoding());
                    lemma_pieces_short(start, *buf, self.0.pieces() + self.1.pieces(), self.2.pieces(), self.0.encoding() + self.1.encoding(), self.2.encoding());
                }
                return Err(e);
            },
        }
        let ghost before = *buf;
        match self.1.try_encode(buf) {
            Ok(()) => {
                proof {
                    lemma_pieces_then(start, before, *buf, self.0.pieces(), self.1.pieces(), self.0.encoding(), self.1.encoding(), true);
                }
            },
            Err(e) => {
                proof {
                    lemma_pieces_then(start, before, *buf, self.0.pieces(), self.1.pieces(), self.0.encoding(), self.1.encoding(), false);
                    lemma_pieces_short(start, *buf, self.0.pieces() + self.1.pieces(), self.2.pieces(), self.0.encoding() + self.1.encoding(), self.2.encoding());
                }
                return Err(e);
            },
        }
        let ghost before = *buf;
        match self.2.try_encode(buf) {
            Ok(()) => {
                proof {
                    lemma_pieces_then(start, before, *buf, self.0.pieces() + self.1.pieces(), self.2.pieces(), self.0.encoding() + self.1.encoding(), self.2.encoding(), true);
                }
            },
            Err(e) => {
                proof {
                    lemma_pieces_then(start, before, *buf, self.0.pieces() + self.1.pieces(), self.2.pieces(), self.0.encoding() + self.1.encoding(), self.2.encoding(), false);
                }
                return Err(e);
            },
        }
        Ok(())
    }
}

impl<'buf, A: Decode<'buf>, B: Decode<'buf>, C: Decode<'buf>> Decode<'buf> for (A, B, C) {
    type Model = (A::Model, B::Model, C::Model);

    open spec fn model(&self) -> (A::Model, B::Model, C::Model) {
        (self.0.model(), self.1.model(), self.2.model())
    }

    open spec fn spec_decode(input: Seq<u8>) -> Decoded<(A::Model, B::Model, C::Model)> {
        match A::spec_decode(input) {
            (Err(f), n0) => (Err(f), n0),
            (Ok(v0), n0) => match B::spec_decode(input.skip((n0) as int)) {
            (Err(f), n1) => (Err(f), n0 + n1),
            (Ok(v1), n1) => match C::spec_decode(input.skip((n0 + n1) as int)) {
            (Err(f), n2) => (Err(f), n0 + n1 + n2),
            (Ok(v2), n2) => (Ok((v0, v1, v2)), n0 + n1 + n2),
        },
        },
        }
    }

    fn decode(buf: &mut Buf<'buf>) -> (r: DecodeResult<Self>) {
        let ghost start = buf@;
        let ghost mut consumed: nat = 0;
        assert(start.skip(0) =~= start);
        let ghost before = buf@;
        let r0 = buf.decode::<A>();
        proof {
            lemma_skip_skip(start, consumed, A::spec_decode(before).1);
            consumed = consumed + A::spec_decode(before).1;
        }
        let v0 = match r0 {
            Ok(v) => v,
            Err(e) => return Err(e),
        };
        let ghost before = buf@;
        let r1 = buf.decode::<B>();
        proof {
            lemma_skip_skip(start, consumed, B::spec_decode(before).1);
            consumed = consumed + B::spec_decode(before).1;
        }
        let v1 = match r1 {
            Ok(v) => v,
            Err(e) => return Err(e),
        };
        let ghost before = buf@;
        let r2 = buf.decode::<C>();
        proof {
            lemma_skip_skip(start, consumed, C::spec_decode(before).1);
            consumed = consumed + C::spec_decode(before).1;
        }
        let v2 = match r2 {
            Ok(v) => v,
            Err(e) => return Err(e),
        };
        Ok((v0, v1, v2))
    }
}

impl<A: Encode, B: Encode, C: Encode, D: Encode> Encode for (A, B, C, D) {
    open spec fn encoding(&self) -> Seq<u8> {
        self.0.encoding() + self.1.encoding() + self.2.encoding() + self.3.encoding()
    }

    fn len(&self) -> (n: usize) {
        let mut len: usize = 0;
        len = len + self.0.len();
        len = len + self.1.len();
        len = len + self.2.len();
        len = len + self.3.len();
        len
    }

    fn encode(&self, buf: &mut BufMut) {
        buf.encode(&self.0);
        buf.encode(&self.1);
        buf.encode(&self.2);
        buf.encode(&self.3);
        
    }
}

impl<A: fixed::Encode, B: fixed::Encode, C: fixed::Encode, D: fixed::Encode> fixed::Encode for (A, B, C, D) {
    open spec fn pieces(&self) -> Seq<Seq<u8>> {
        self.0.pieces() + self.1.pieces() + self.2.pieces() + self.3.pieces()
    }

    fn try_encode(&self, buf: &mut fixed::BufMut) -> (r: EncodeResult<()>) {
        let ghost start = *buf;
        match self.0.try_encode(buf) {
            Ok(()) => {},
            Err(e) => {
                proof {
                    lemma_pieces_short(start, *buf, self.0.pieces(), self.1.pieces(), self.0.encoding(), self.1.encoding());
                    lemma_pieces_short(start, *buf, self.0.pieces() + self.1.pieces(), self.2.pieces(), self.0.encoding() + self.1.encoding(), self.2.encoding());
                    lemma_pieces_short(start, *buf, self.0.pieces() + self.1.pieces() + self.2.pieces(), self.3.pieces(), self.0.encoding() + self.1.encoding() + self.2.encoding(), self.3.encoding());
                }
                return Err(e);
            },
        }
        let ghost before = *buf;
        match self.1.try_encode(buf) {
            Ok(()) => {
                proof {
                    lemma_pieces_then(start, before, *buf, self.0.pieces(), self.1.pieces(), self.0.encoding(), self.1.encoding(), true);
                }
            },
            Err(e) => {
                proof {
                    lemma_pieces_then(start, before, *buf, self.0.pieces(), self.1.pieces(), self.0.encoding(), self.1.encoding(), false);
                    lemma_pieces_short(start, *buf, self.0.pieces() + self.1.pieces(), self.2.pieces(), self.0.encoding() + self.1.encoding(), self.2.encoding());
                    lemma_pieces_short(start, *buf, self.0.pieces() + self.1.pieces() + self.2.pieces(), self.3.pieces(), self.0.encoding() + self.1.encoding() + self.2.encoding(), self.3.encoding());
                }
                return Err(e);
            },
        }
        let ghost before = *buf;
        match self.2.try_encode(buf) {
            Ok(()) => {
                proof {
                    lemma_pieces_then(start, before, *buf, self.0.pieces() + self.1.pieces(), self.2.pieces(), self.0.encoding() + self.1.encoding(), self.2.encoding(), true);
                }
            },
            Err(e) => {
                proof {
                    lemma_pieces_then(start, before, *buf, self.0.pieces() + self.1.pieces(), self.2.pieces(), self.0.encoding() + self.1.encoding(), self.2.encoding(), false);
                    lemma_pieces_short(start, *buf, self.0.pieces() + self.1.pieces() + self.2.pieces(), self.3.pieces(), self.0.encoding() + self.1.encoding() + self.2.encoding(), self.3.encoding());
                }
                return Err(e);
            },
        }
        let ghost before = *buf;
        match self.3.try_encode(buf) {
            Ok(()) => {
                proof {
                    lemma_pieces_then(start, before, *buf, self.0.pieces() + self.1.pieces() + self.2.pieces(), self.3.pieces(), self.0.encoding() + self.1.encoding() + self.2.encoding(), self.3.encoding(), true);
                }
            },
            Err(e) => {
                proof {
                    lemma_pieces_then(start, before, *buf, self.0.pieces() + self.1.pieces() + self.2.pieces(), self.3.pieces(), self.0.encoding() + self.1.encoding() + self.2.encoding(), self.3.encoding(), false);
                }
                return Err(e);
            },
        }
        Ok(())
    }
}

impl<'buf, A: Decode<'buf>, B: Decode<'buf>, C: Decode<'buf>, D: Decode<'buf>> Decode<'buf> for (A, B, C, D) {
    type Model = (A::Model, B::Model, C::Model, D::Model);

    open spec fn model(&self) -> (A::Model, B::Model, C::Model, D::Model) {
        (self.0.model(), self.1.model(), self.2.model(), self.3.model())
    }

    open spec fn spec_decode(input: Seq<u8>) -> Decoded<(A::Model, B::Model, C::Model, D::Model)> {
        match A::spec_decode(input) {
            (Err(f), n0) => (Err(f), n0),
            (Ok(v0), n0) => match B::spec_decode(input.skip((n0) as int)) {
            (Err(f), n1) => (Err(f), n0 + n1),
            (Ok(v1), n1) => match C::spec_decode(input.skip((n0 + n1) as int)) {
            (Err(f), n2) => (Err(f), n0 + n1 + n2),
            (Ok(v2), n2) => match D::spec_decode(input.skip((n0 + n1 + n2) as int)) {
            (Err(f), n3) => (Err(f), n0 + n1 + n2 + n3),
            (Ok(v3), n3) => (Ok((v0, v1, v2, v3)), n0 + n1 + n2 + n3),
        },
        },
        },
        }
    }

    fn decode(buf: &mut Buf<'buf>) -> (r: DecodeResult<Self>) {
        let ghost start = buf@;
        let ghost mut consumed: nat = 0;
        assert(start.skip(0) =~= start);
        let ghost before = buf@;
        let r0 = buf.decode::<A>();
        proof {
            lemma_skip_skip(start, consumed, A::spec_decode(before).1);
            consumed = consumed + A::spec_decode(before).1;
        }
        let v0 = match r0 {
            Ok(v) => v,
            Err(e) => return Err(e),
        };
        let ghost before = buf@;
        let r1 = buf.decode::<B>();
        proof {
            lemma_skip_skip(start, consumed, B::spec_decode(before).1);
            consumed = consumed + B::spec_decode(before).1;
        }
        let v1 = match r1 {
            Ok(v) => v,
            Err(e) => return Err(e),
        };
        let ghost before = buf@;
        let r2 = buf.decode::<C>();
        proof {
            lemma_skip_skip(start, consumed, C::spec_decode(before).1);
            consumed = consumed + C::spec_decode(before).1;
        }
        let v2 = match r2 {
            Ok(v) => v,
            Err(e) => return Err(e),
        };
        let ghost before = buf@;
        let r3 = buf.decode::<D>();
        proof {
            lemma_skip_skip(start, consumed, D::spec_decode(before).1);
            consumed = consumed + D::spec_decode(before).1;
        }
        let v3 = match r3 {
            Ok(v) => v,
            Err(e) => return Err(e),
        };
        Ok((v0, v1, v2, v3))
    }
}

impl<A: Encode, B: Encode, C: Encode, D: Encode, E: Encode> Encode for (A, B, C, D, E) {
    open spec fn encoding(&self) -> Seq<u8> {
        self.0.encoding() + self.1.encoding() + self.2.encoding() + self.3.encoding() + self.4.encoding()
    }

    fn len(&self) -> (n: usize) {
        let mut len: usize = 0;
        len = len + self.0.len();
        len = len + self.1.len();
        len = len + self.2.len();
        len = len + self.3.len();
        len = len + self.4.len();
        len
    }

    fn encode(&self, buf: &mut BufMut) {
        buf.encode(&self.0);
        buf.encode(&self.1);
        buf.encode(&self.2);
        buf.encode(&self.3);
        buf.encode(&self.4);
        
    }
}

impl<A: fixed::Encode, B: fixed::Encode, C: fixed::Encode, D: fixed::Encode, E: fixed::Encode> fixed::Encode for (A, B, C, D, E) {
    open spec fn pieces(&self) -> Seq<Seq<u8>> {
        self.0.pieces() + self.1.pieces() + self.2.pieces() + self.3.pieces() + self.4.pieces()
    }

    fn try_encode(&self, buf: &mut fixed::BufMut) -> (r: EncodeResult<()>) {
        let ghost start = *buf;
        match self.0.try_encode(buf) {
            Ok(()) => {},
            Err(e) => {
                proof {
                    lemma_pieces_short(start, *buf, self.0.pieces(), self.1.pieces(), self.0.encoding(), self.1.encoding());
                    lemma_pieces_short(start, *buf, self.0.pieces() + self.1.pieces(), self.2.pieces(), self.0.encoding() + self.1.encoding(), self.2.encoding());
                    lemma_pieces_short(start, *buf, self.0.pieces() + self.1.pieces() + self.2.pieces(), self.3.pieces(), self.0.encoding() + self.1.encoding() + self.2.encoding(), self.3.encoding());
                    lemma_pieces_short(start, *buf, self.0.pieces() + self.1.pieces() + self.2.pieces() + self.3.pieces(), self.4.pieces(), self.0.encoding() + self.1.encoding() + self.2.encoding() + self.3.encoding(), self.4.encoding());
                }
                return Err(e);
            },
        }
        let ghost before = *buf;
        match self.1.try_encode(buf) {
            Ok(()) => {
                proof {
                    lemma_pieces_then(start, before, *buf, self.0.pieces(), self.1.pieces(), self.0.encoding(), self.1.encoding(), true);
                }
            },
            Err(e) => {
                proof {
                    lemma_pieces_then(start, before, *buf, self.0.pieces(), self.1.pieces(), self.0.encoding(), self.1.encoding(), false);
                    lemma_pieces_short(start, *buf, self.0.pieces() + self.1.pieces(), self.2.pieces(), self.0.encoding() + self.1.encoding(), self.2.encoding());
                    lemma_pieces_short(start, *buf, self.0.pieces() + self.1.pieces() + self.2.pieces(), self.3.pieces(), self.0.encoding() + self.1.encoding() + self.2.encoding(), self.3.encoding());
                    lemma_pieces_short(start, *buf, self.0.pieces() + self.1.pieces() + self.2.pieces() + self.3.pieces(), self.4.pieces(), self.0.encoding() + self.1.encoding() + self.2.encoding() + self.3.encoding(), self.4.encoding());
                }
                return Err(e);
            },
        }
        let ghost before = *buf;
        match self.2.try_encode(buf) {
            Ok(()) => {
                proof {
                    lemma_pieces_then(start, before, *buf, self.0.pieces() + self.1.pieces(), self.2.pieces(), self.0.encoding() + self.1.encoding(), self.2.encoding(), true);
                }
            },
            Err(e) => {
                proof {
                    lemma_pieces_then(start, before, *buf, self.0.pieces() + self.1.pieces(), self.2.pieces(), self.0.encoding() + self.1.encoding(), self.2.encoding(), false);
                    lemma_pieces_short(start, *buf, self.0.pieces() + self.1.pieces() + self.2.pieces(), self.3.pieces(), self.0.encoding() + self.1.encoding() + self.2.encoding(), self.3.encoding());
                    lemma_pieces_short(start, *buf, self.0.pieces() + self.1.pieces() + self.2.pieces() + self.3.pieces(), self.4.pieces(), self.0.encoding() + self.1.encoding() + self.2.encoding() + self.3.encoding(), self.4.encoding());
                }
                return Err(e);
            },
        }
        let ghost before = *buf;
        match self.3.try_encode(buf) {
            Ok(()) => {
                proof {
                    lemma_pieces_then(start, before, *buf, self.0.pieces() + self.1.pieces() + self.2.pieces(), self.3.pieces(), self.0.encoding() + self.1.encoding() + self.2.encoding(), self.3.encoding(), true);
                }
            },
            Err(e) => {
                proof {
                    lemma_pieces_then(start, before, *buf, self.0.pieces() + self.1.pieces() + self.2.pieces(), self.3.pieces(), self.0.encoding() + self.1.encoding() + self.2.encoding(), self.3.encoding(), false);
                    lemma_pieces_short(start, *buf, self.0.pieces() + self.1.pieces() + self.2.pieces() + self.3.pieces(), self.4.pieces(), self.0.encoding() + self.1.encoding() + self.2.encoding() + self.3.encoding(), self.4.encoding());
                }
                return Err(e);
            },
        }
        let ghost before = *buf;
        match self.4.try_encode(buf) {
            Ok(()) => {
                proof {
                    lemma_pieces_then(start, before, *buf, self.0.pieces() + self.1.pieces() + self.2.pieces() + self.3.pieces(), self.4.pieces(), self.0.encoding() + self.1.encoding() + self.2.encoding() + self.3.encoding(), self.4.encoding(), true);
                }
            },
            Err(e) => {
                proof {
                    lemma_pieces_then(start, before, *buf, self.0.pieces() + self.1.pieces() + self.2.pieces() + self.3.pieces(), self.4.pieces(), self.0.encoding() + self.1.encoding() + self.2.encoding() + self.3.encoding(), self.4.encoding(), false);
                }
                return Err(e);
            },
        }
        Ok(())
    }
}

impl<'buf, A: Decode<'buf>, B: Decode<'buf>, C: Decode<'buf>, D: Decode<'buf>, E: Decode<'buf>> Decode<'buf> for (A, B, C, D, E) {
    type Model = (A::Model, B::Model, C::Model, D::Model, E::Model);

    open spec fn model(&self) -> (A::Model, B::Model, C::Model, D::Model, E::Model) {
        (self.0.model(), self.1.model(), self.2.model(), self.3.model(), self.4.model())
    }

    open spec fn spec_decode(input: Seq<u8>) -> Decoded<(A::Model, B::Model, C::Model, D::Model, E::Model)> {
        match A::spec_decode(input) {
            (Err(f), n0) => (Err(f), n0),
            (Ok(v0), n0) => match B::spec_decode(input.skip((n0) as int)) {
            (Err(f), n1) => (Err(f), n0 + n1),
            (Ok(v1), n1) => match C::spec_decode(input.skip((n0 + n1) as int)) {
            (Err(f), n2) => (Err(f), n0 + n1 + n2),
            (Ok(v2), n2) => match D::spec_decode(input.skip((n0 + n1 + n2) as int)) {
            (Err(f), n3) => (Err(f), n0 + n1 + n2 + n3),
            (Ok(v3), n3) => match E::spec_decode(input.skip((n0 + n1 + n2 + n3) as int)) {
            (Err(f), n4) => (Err(f), n0 + n1 + n2 + n3 + n4),
            (Ok(v4), n4) => (Ok((v0, v1, v2, v3, v4)), n0 + n1 + n2 + n3 + n4),
        },
        },
        },
        },
        }
    }

    fn decode(buf: &mut Buf<'buf>) -> (r: DecodeResult<Self>) {
        let ghost start = buf@;
        let ghost mut consumed: nat = 0;
        assert(start.skip(0) =~= start);
        let ghost before = buf@;
        let r0 = buf.decode::<A>();
        proof {
            lemma_skip_skip(start, consumed, A::spec_decode(before).1);
            consumed = consumed + A::spec_decode(before).1;
        }
        let v0 = match r0 {
            Ok(v) => v,
            Err(e) => return Err(e),
        };
        let ghost before = buf@;
        let r1 = buf.decode::<B>();
        proof {
            lemma_skip_skip(start, consumed, B::spec_decode(before).1);
            consumed = consumed + B::spec_decode(before).1;
        }
        let v1 = match r1 {
            Ok(v) => v,
            Err(e) => return Err(e),
        };
        let ghost before = buf@;
        let r2 = buf.decode::<C>();
        proof {
            lemma_skip_skip(start, consumed, C::spec_decode(before).1);
            consumed = consumed + C::spec_decode(before).1;
        }
        let v2 = match r2 {
            Ok(v) => v,
            Err(e) => return Err(e),
        };
        let ghost before = buf@;
        let r3 = buf.decode::<D>();
        proof {
            lemma_skip_skip(start, consumed, D::spec_decode(before).1);
            consumed = consumed + D::spec_decode(before).1;
        }
        let v3 = match r3 {
            Ok(v) => v,
            Err(e) => return Err(e),
        };
        let ghost before = buf@;
        let r4 = buf.decode::<E>();
        proof {
            lemma_skip_skip(start, consumed, E::spec_decode(before).1);
            consumed = consumed + E::spec_decode(before).1;
        }
        let v4 = match r4 {
            Ok(v) => v,
            Err(e) => return Err(e),
        };
        Ok((v0, v1, v2, v3, v4))
    }
}

impl<A: Encode, B: Encode, C: Encode, D: Encode, E: Encode, F: Encode> Encode for (A, B, C, D, E, F) {
    open spec fn encoding(&self) -> Seq<u8> {
        self.0.encoding() + self.1.encoding() + self.2.encoding() + self.3.encoding() + self.4.encoding() + self.5.encoding()
    }

    fn len(&self) -> (n: usize) {
        let mut len: usize = 0;
        len = len + self.0.len();
        len = len + self.1.len();
        len = len + self.2.len();
        len = len + self.3.len();
        len = len + self.4.len();
        len = len + self.5.len();
        len
    }

    fn encode(&self, buf: &mut BufMut) {
        buf.encode(&self.0);
        buf.encode(&self.1);
        buf.encode(&self.2);
        buf.encode(&self.3);
        buf.encode(&self.4);
        buf.encode(&self.5);
        
    }
}

impl<A: fixed::Encode, B: fixed::Encode, C: fixed::Encode, D: fixed::Encode, E: fixed::Encode, F: fixed::Encode> fixed::Encode for (A, B, C, D, E, F) {
    open spec fn pieces(&self) -> Seq<Seq<u8>> {
        self.0.pieces() + self.1.pieces() + self.2.pieces() + self.3.pieces() + self.4.pieces() + self.5.pieces()
    }

    fn try_encode(&self, buf: &mut fixed::BufMut) -> (r: EncodeResult<()>) {
        let ghost start = *buf;
        match self.0.try_encode(buf) {
            Ok(()) => {},
            Err(e) => {
                proof {
                    lemma_pieces_short(start, *buf, self.0.pieces(), self.1.pieces(), self.0.encoding(), self.1.encoding());
                    lemma_pieces_short(start, *buf, self.0.pieces() + self.1.pieces(), self.2.pieces(), self.0.encoding() + self.1.encoding(), self.2.encoding());
                    lemma_pieces_short(start, *buf, self.0.pieces() + self.1.pieces() + self.2.pieces(), self.3.pieces(), self.0.encoding() + self.1.encoding() + self.2.encoding(), self.3.encoding());
                    lemma_pieces_short(start, *buf, self.0.pieces() + self.1.pieces() + self.2.pieces() + self.3.pieces(), self.4.pieces(), self.0.encoding() + self.1.encoding() + self.2.encoding() + self.3.encoding(), self.4.encoding());
                    lemma_pieces_short(start, *buf, self.0.pieces() + self.1.pieces() + self.2.pieces() + self.3.pieces() + self.4.pieces(), self.5.pieces(), self.0.encoding() + self.1.encoding() + self.2.encoding() + self.3.encoding() + self.4.encoding(), self.5.encoding());
                }
                return Err(e);
            },
        }
        let ghost before = *buf;
        match self.1.try_encode(buf) {
            Ok(()) => {
                proof {
                    lemma_pieces_then(start, before, *buf, self.0.pieces(), self.1.pieces(), self.0.encoding(), self.1.encoding(), true);
                }
            },
            Err(e) => {
                proof {
                    lemma_pieces_then(start, before, *buf, self.0.pieces(), self.1.pieces(), self.0.encoding(), self.1.encoding(), false);
                    lemma_pieces_short(start, *buf, self.0.pieces() + self.1.pieces(), self.2.pieces(), self.0.encoding() + self.1.encoding(), self.2.encoding());
                    lemma_pieces_short(start, *buf, self.0.pieces() + self.1.pieces() + self.2.pieces(), self.3.pieces(), self.0.encoding() + self.1.encoding() + self.2.encoding(), self.3.encoding());
                    lemma_pieces_short(start, *buf, self.0.pieces() + self.1.pieces() + self.2.pieces() + self.3.pieces(), self.4.pieces(), self.0.encoding() + self.1.encoding() + self.2.encoding() + self.3.encoding(), self.4.encoding());
                    lemma_pieces_short(start, *buf, self.0.pieces() + self.1.pieces() + self.2.pieces() + self.3.pieces() + self.4.pieces(), self.5.pieces(), self.0.encoding() + self.1.encoding() + self.2.encoding() + self.3.encoding() + self.4.encoding(), self.5.encoding());
                }
                return Err(e);
            },
        }
        let ghost before = *buf;
        match self.2.try_encode(buf) {
            Ok(()) => {
                proof {
                    lemma_pieces_then(start, before, *buf, self.0.pieces() + self.1.pieces(), self.2.pieces(), self.0.encoding() + self.1.encoding(), self.2.encoding(), true);
                }
            },
            Err(e) => {
                proof {
                    lemma_pieces_then(start, before, *buf, self.0.pieces() + self.1.pieces(), self.2.pieces(), self.0.encoding() + self.1.encoding(), self.2.encoding(), false);
                    lemma_pieces_short(start, *buf, self.0.pieces() + self.1.pieces() + self.2.pieces(), self.3.pieces(), self.0.encoding() + self.1.encoding() + self.2.encoding(), self.3.encoding());
                    lemma_pieces_short(start, *buf, self.0.pieces() + self.1.pieces() + self.2.pieces() + self.3.pieces(), self.4.pieces(), self.0.encoding() + self.1.encoding() + self.2.encoding() + self.3.encoding(), self.4.encoding());
                    lemma_pieces_short(start, *buf, self.0.pieces() + self.1.pieces() + self.2.pieces() + self.3.pieces() + self.4.pieces(), self.5.pieces(), self.0.encoding() + self.1.encoding() + self.2.encoding() + self.3.encoding() + self.4.encoding(), self.5.encoding());
                }
                return Err(e);
            },
        }
        let ghost before = *buf;
        match self.3.try_encode(buf) {
            Ok(()) => {
                proof {
                    lemma_pieces_then(start, before, *buf, self.0.pieces() + self.1.pieces() + self.2.pieces(), self.3.pieces(), self.0.encoding() + self.1.encoding() + self.2.encoding(), self.3.encoding(), true);
                }
            },
            Err(e) => {
                proof {
                    lemma_pieces_then(start, before, *buf, self.0.pieces() + self.1.pieces() + self.2.pieces(), self.3.pieces(), self.0.encoding() + self.1.encoding() + self.2.encoding(), self.3.encoding(), false);
                    lemma_pieces_short(start, *buf, self.0.pieces() + self.1.pieces() + self.2.pieces() + self.3.pieces(), self.4.pieces(), self.0.encoding() + self.1.encoding() + self.2.encoding() + self.3.encoding(), self.4.encoding());
                    lemma_pieces_short(start, *buf, self.0.pieces() + self.1.pieces() + self.2.pieces() + self.3.pieces() + self.4.pieces(), self.5.pieces(), self.0.encoding() + self.1.encoding() + self.2.encoding() + self.3.encoding() + self.4.encoding(), self.5.encoding());
                }
                return Err(e);
            },
        }
        let ghost before = *buf;
        match self.4.try_encode(buf) {
            Ok(()) => {
                proof {
                    lemma_pieces_then(start, before, *buf, self.0.pieces() + self.1.pieces() + self.2.pieces() + self.3.pieces(), self.4.pieces(), self.0.encoding() + self.1.encoding() + self.2.encoding() + self.3.encoding(), self.4.encoding(), true);
                }
            },
            Err(e) => {
                proof {
                    lemma_pieces_then(start, before, *buf, self.0.pieces() + self.1.pieces() + self.2.pieces() + self.3.pieces(), self.4.pieces(), self.0.encoding() + self.1.encoding() + self.2.encoding() + self.3.encoding(), self.4.encoding(), false);
                    lemma_pieces_short(start, *buf, self.0.pieces() + self.1.pieces() + self.2.pieces() + self.3.pieces() + self.4.pieces(), self.5.pieces(), self.0.encoding() + self.1.encoding() + self.2.encoding() + self.3.encoding() + self.4.encoding(), self.5.encoding());
                }
                return Err(e);
            },
        }
        let ghost before = *buf;
        match self.5.try_encode(buf) {
            Ok(()) => {
                proof {
                    lemma_pieces_then(start, before, *buf, self.0.pieces() + self.1.pieces() + self.2.pieces() + self.3.pieces() + self.4.pieces(), self.5.pieces(), self.0.encoding() + self.1.encoding() + self.2.encoding() + self.3.encoding() + self.4.encoding(), self.5.encoding(), true);
                }
            },
            Err(e) => {
                proof {
                    lemma_pieces_then(start, before, *buf, self.0.pieces() + self.1.pieces() + self.2.pieces() + self.3.pieces() + self.4.pieces(), self.5.pieces(), self.0.encoding() + self.1.encoding() + self.2.encoding() + self.3.encoding() + self.4.encoding(), self.5.encoding(), false);
                }
                return Err(e);
            },
        }
        Ok(())
    }
}

impl<'buf, A: Decode<'buf>, B: Decode<'buf>, C: Decode<'buf>, D: Decode<'buf>, E: Decode<'buf>, F: Decode<'buf>> Decode<'buf> for (A, B, C, D, E, F) {
    type Model = (A::Model, B::Model, C::Model, D::Model, E::Model, F::Model);

    open spec fn model(&self) -> (A::Model, B::Model, C::Model, D::Model, E::Model, F::Model) {
        (self.0.model(), self.1.model(), self.2.model(), self.3.model(), self.4.model(), self.5.model())
    }

    open spec fn spec_decode(input: Seq<u8>) -> Decoded<(A::Model, B::Model, C::Model, D::Model, E::Model, F::Model)> {
        match A::spec_decode(input) {
            (Err(f), n0) => (Err(f), n0),
            (Ok(v0), n0) => match B::spec_decode(input.skip((n0) as int)) {
            (Err(f), n1) => (Err(f), n0 + n1),
            (Ok(v1), n1) => match C::spec_decode(input.skip((n0 + n1) as int)) {
            (Err(f), n2) => (Err(f), n0 + n1 + n2),
            (Ok(v2), n2) => match D::spec_decode(input.skip((n0 + n1 + n2) as int)) {
            (Err(f), n3) => (Err(f), n0 + n1 + n2 + n3),
            (Ok(v3), n3) => match E::spec_decode(input.skip((n0 + n1 + n2 + n3) as int)) {
            (Err(f), n4) => (Err(f), n0 + n1 + n2 + n3 + n4),
            (Ok(v4), n4) => match F::spec_decode(input.skip((n0 + n1 + n2 + n3 + n4) as int)) {
            (Err(f), n5) => (Err(f), n0 + n1 + n2 + n3 + n4 + n5),
            (Ok(v5), n5) => (Ok((v0, v1, v2, v3, v4, v5)), n0 + n1 + n2 + n3 + n4 + n5),
        },
        },
        },
        },
        },
        }
    }

    fn decode(buf: &mut Buf<'buf>) -> (r: DecodeResult<Self>) {
        let ghost start = buf@;
        let ghost mut consumed: nat = 0;
        assert(start.skip(0) =~= start);
        let ghost before = buf@;
        let r0 = buf.decode::<A>();
        proof {
            lemma_skip_skip(start, consumed, A::spec_decode(before).1);
            consumed = consumed + A::spec_decode(before).1;
        }
        let v0 = match r0 {
            Ok(v) => v,
            Err(e) => return Err(e),
        };
        let ghost before = buf@;
        let r1 = buf.decode::<B>();
        proof {
            lemma_skip_skip(start, consumed, B::spec_decode(before).1);
            consumed = consumed + B::spec_decode(before).1;
        }
        let v1 = match r1 {
            Ok(v) => v,
            Err(e) => return Err(e),
        };
        let ghost before = buf@;
        let r2 = buf.decode::<C>();
        proof {
            lemma_skip_skip(start, consumed, C::spec_decode(before).1);
            consumed = consumed + C::spec_decode(before).1;
        }
        let v2 = match r2 {
            Ok(v) => v,
            Err(e) => return Err(e),
        };
        let ghost before = buf@;
        let r3 = buf.decode::<D>();
        proof {
            lemma_skip_skip(start, consumed, D::spec_decode(before).1);
            consumed = consumed + D::spec_decode(before).1;
        }
        let v3 = match r3 {
            Ok(v) => v,
            Err(e) => return Err(e),
        };
        let ghost before = buf@;
        let r4 = buf.decode::<E>();
        proof {
            lemma_skip_skip(start, consumed, E::spec_decode(before).1);
            consumed = consumed + E::spec_decode(before).1;
        }
        let v4 = match r4 {
            Ok(v) => v,
            Err(e) => return Err(e),
        };
        let ghost before = buf@;
        let r5 = buf.decode::<F>();
        proof {
            lemma_skip_skip(start, consumed, F::spec_decode(before).1);
            consumed = consumed + F::spec_decode(before).1;
        }
        let v5 = match r5 {
            Ok(v) => v,
            Err(e) => return Err(e),
        };
        Ok((v0, v1, v2, v3, v4, v5))
    }
}

impl<A: Encode, B: Encode, C: Encode, D: Encode, E: Encode, F: Encode, G: Encode> Encode for (A, B, C, D, E, F, G) {
    open spec fn encoding(&self) -> Seq<u8> {
        self.0.encoding() + self.1.encoding() + self.2.encoding() + self.3.encoding() + self.4.encoding() + self.5.encoding() + self.6.encoding()
    }

    fn len(&self) -> (n: usize) {
        let mut len: usize = 0;
        len = len + self.0.len();
        len = len + self.1.len();
        len = len + self.2.len();
        len = len + self.3.len();
        len = len + self.4.len();
        len = len + self.5.len();
        len = len + self.6.len();
        len
    }

    fn encode(&self, buf: &mut BufMut) {
        buf.encode(&self.0);
        buf.encode(&self.1);
        buf.encode(&self.2);
        buf.encode(&self.3);
        buf.encode(&self.4);
        buf.encode(&self.5);
        buf.encode(&self.6);
        
    }
}

impl<A: fixed::Encode, B: fixed::Encode, C: fixed::Encode, D: fixed::Encode, E: fixed::Encode, F: fixed::Encode, G: fixed::Encode> fixed::Encode for (A, B, C, D, E, F, G) {
    open spec fn pieces(&self) -> Seq<Seq<u8>> {
        self.0.pieces() + self.1.pieces() + self.2.pieces() + self.3.pieces() + self.4.pieces() + self.5.pieces() + self.6.pieces()
    }

    fn try_encode(&self, buf: &mut fixed::BufMut) -> (r: EncodeResult<()>) {
        let ghost start = *buf;
        match self.0.try_encode(buf) {
            Ok(()) => {},
            Err(e) => {
                proof {
                    lemma_pieces_short(start, *buf, self.0.pieces(), self.1.pieces(), self.0.encoding(), self.1.encoding());
                    lemma_pieces_short(start, *buf, self.0.pieces() + self.1.pieces(), self.2.pieces(), self.0.encoding() + self.1.encoding(), self.2.encoding());
                    lemma_pieces_short(start, *buf, self.0.pieces() + self.1.pieces() + self.2.pieces(), self.3.pieces(), self.0.encoding() + self.1.encoding() + self.2.encoding(), self.3.encoding());
                    lemma_pieces_short(start, *buf, self.0.pieces() + self.1.pieces() + self.2.pieces() + self.3.pieces(), self.4.pieces(), self.0.encoding() + self.1.encoding() + self.2.encoding() + self.3.encoding(), self.4.encoding());
                    lemma_pieces_short(start, *buf, self.0.pieces() + self.1.pieces() + self.2.pieces() + self.3.pieces() + self.4.pieces(), self.5.pieces(), self.0.encoding() + self.1.encoding() + self.2.encoding() + self.3.encoding() + self.4.encoding(), self.5.encoding());
                    lemma_pieces_short(start, *buf, self.0.pieces() + self.1.pieces() + self.2.pieces() + self.3.pieces() + self.4.pieces() + self.5.pieces(), self.6.pieces(), self.0.encoding() + self.1.encoding() + self.2.encoding() + self.3.encoding() + self.4.encoding() + self.5.encoding(), self.6.encoding());
                }
                return Err(e);
            },
        }
        let ghost before = *buf;
        match self.1.try_encode(buf) {
            Ok(()) => {
                proof {
                    lemma_pieces_then(start, before, *buf, self.0.pieces(), self.1.pieces(), self.0.encoding(), self.1.encoding(), true);
                }
            },
            Err(e) => {
                proof {
                    lemma_pieces_then(start, before, *buf, self.0.pieces(), self.1.pieces(), self.0.encoding(), self.1.encoding(), false);
                    lemma_pieces_short(start, *buf, self.0.pieces() + self.1.pieces(), self.2.pieces(), self.0.encoding() + self.1.encoding(), self.2.encoding());
                    lemma_pieces_short(start, *buf, self.0.pieces() + self.1.pieces() + self.2.pieces(), self.3.pieces(), self.0.encoding() + self.1.encoding() + self.2.encoding(), self.3.encoding());
                    lemma_pieces_short(start, *buf, self.0.pieces() + self.1.pieces() + self.2.pieces() + self.3.pieces(), self.4.pieces(), self.0.encoding() + self.1.encoding() + self.2.encoding() + self.3.encoding(), self.4.encoding());
                    lemma_pieces_short(start, *buf, self.0.pieces() + self.1.pieces() + self.2.pieces() + self.3.pieces() + self.4.pieces(), self.5.pieces(), self.0.encoding() + self.1.encoding() + self.2.encoding() + self.3.encoding() + self.4.encoding(), self.5.encoding());
                    lemma_pieces_short(start, *buf, self.0.pieces() + self.1.pieces() + self.2.pieces() + self.3.pieces() + self.4.pieces() + self.5.pieces(), self.6.pieces(), self.0.encoding() + self.1.encoding() + self.2.encoding() + self.3.encoding() + self.4.encoding() + self.5.encoding(), self.6.encoding());
                }
                return Err(e);
            },
        }
        let ghost before = *buf;
        match self.2.try_encode(buf) {
            Ok(()) => {
                proof {
                    lemma_pieces_then(start, before, *buf, self.0.pieces() + self.1.pieces(), self.2.pieces(), self.0.encoding() + self.1.encoding(), self.2.encoding(), true);
                }
            },
            Err(e) => {
                proof {
                    lemma_pieces_then(start, before, *buf, self.0.pieces() + self.1.pieces(), self.2.pieces(), self.0.encoding() + self.1.encoding(), self.2.encoding(), false);
                    lemma_pieces_short(start, *buf, self.0.pieces() + self.1.pieces() + self.2.pieces(), self.3.pieces(), self.0.encoding() + self.1.encoding() + self.2.encoding(), self.3.encoding());
                    lemma_pieces_short(start, *buf, self.0.pieces() + self.1.pieces() + self.2.pieces() + self.3.pieces(), self.4.pieces(), self.0.encoding() + self.1.encoding() + self.2.encoding() + self.3.encoding(), self.4.encoding());
                    lemma_pieces_short(start, *buf, self.0.pieces() + self.1.pieces() + self.2.pieces() + self.3.pieces() + self.4.pieces(), self.5.pieces(), self.0.encoding() + self.1.encoding() + self.2.encoding() + self.3.encoding() + self.4.encoding(), self.5.encoding());
                    lemma_pieces_short(start, *buf, self.0.pieces() + self.1.pieces() + self.2.pieces() + self.3.pieces() + self.4.pieces() + self.5.pieces(), self.6.pieces(), self.0.encoding() + self.1.encoding() + self.2.encoding() + self.3.encoding() + self.4.encoding() + self.5.encoding(), self.6.encoding());
                }
                return Err(e);
            },
        }
        let ghost before = *buf;
        match self.3.try_encode(buf) {
            Ok(()) => {
                proof {
                    lemma_pieces_then(start, before, *buf, self.0.pieces() + self.1.pieces() + self.2.pieces(), self.3.pieces(), self.0.encoding() + self.1.encoding() + self.2.encoding(), self.3.encoding(), true);
                }
            },
            Err(e) => {
                proof {
                    lemma_pieces_then(start, before, *buf, self.0.pieces() + self.1.pieces() + self.2.pieces(), self.3.pieces(), self.0.encoding() + self.1.encoding() + self.2.encoding(), self.3.encoding(), false);
                    lemma_pieces_short(start, *buf, self.0.pieces() + self.1.pieces() + self.2.pieces() + self.3.pieces(), self.4.pieces(), self.0.encoding() + self.1.encoding() + self.2.encoding() + self.3.encoding(), self.4.encoding());
                    lemma_pieces_short(start, *buf, self.0.pieces() + self.1.pieces() + self.2.pieces() + self.3.pieces() + self.4.pieces(), self.5.pieces(), self.0.encoding() + self.1.encoding() + self.2.encoding() + self.3.encoding() + self.4.encoding(), self.5.encoding());
                    lemma_pieces_short(start, *buf, self.0.pieces() + self.1.pieces() + self.2.pieces() + self.3.pieces() + self.4.pieces() + self.5.pieces(), self.6.pieces(), self.0.encoding() + self.1.encoding() + self.2.encoding() + self.3.encoding() + self.4.encoding() + self.5.encoding(), self.6.encoding());
                }
                return Err(e);
            },
        }
        let ghost before = *buf;
        match self.4.try_encode(buf) {
            Ok(()) => {
                proof {
                    lemma_pieces_then(start, before, *buf, self.0.pieces() + self.1.pieces() + self.2.pieces() + self.3.pieces(), self.4.pieces(), self.0.encoding() + self.1.encoding() + self.2.encoding() + self.3.encoding(), self.4.encoding(), true);
                }
            },
            Err(e) => {
                proof {
                    lemma_pieces_then(start, before, *buf, self.0.pieces() + self.1.pieces() + self.2.pieces() + self.3.pieces(), self.4.pieces(), self.0.encoding() + self.1.encoding() + self.2.encoding() + self.3.encoding(), self.4.encoding(), false);
                    lemma_pieces_short(start, *buf, self.0.pieces() + self.1.pieces() + self.2.pieces() + self.3.pieces() + self.4.pieces(), self.5.pieces(), self.0.encoding() + self.1.encoding() + self.2.encoding() + self.3.encoding() + self.4.encoding(), self.5.encoding());
                    lemma_pieces_short(start, *buf, self.0.pieces() + self.1.pieces() + self.2.pieces() + self.3.pieces() + self.4.pieces() + self.5.pieces(), self.6.pieces(), self.0.encoding() + self.1.encoding() + self.2.encoding() + self.3.encoding() + self.4.encoding() + self.5.encoding(), self.6.encoding());
                }
                return Err(e);
            },
        }
        let ghost before = *buf;
        match self.5.try_encode(buf) {
            Ok(()) => {
                proof {
                    lemma_pieces_then(start, before, *buf, self.0.pieces() + self.1.pieces() + self.2.pieces() + self.3.pieces() + self.4.pieces(), self.5.pieces(), self.0.encoding() + self.1.encoding() + self.2.encoding() + self.3.encoding() + self.4.encoding(), self.5.encoding(), true);
                }
            },
            Err(e) => {
                proof {
                    lemma_pieces_then(start, before, *buf, self.0.pieces() + self.1.pieces() + self.2.pieces() + self.3.pieces() + self.4.pieces(), self.5.pieces(), self.0.encoding() + self.1.encoding() + self.2.encoding() + self.3.encoding() + self.4.encoding(), self.5.encoding(), false);
                    lemma_pieces_short(start, *buf, self.0.pieces() + self.1.pieces() + self.2.pieces() + self.3.pieces() + self.4.pieces() + self.5.pieces(), self.6.pieces(), self.0.encoding() + self.1.encoding() + self.2.encoding() + self.3.encoding() + self.4.encoding() + self.5.encoding(), self.6.encoding());
                }
                return Err(e);
            },
        }
        let ghost before = *buf;
        match self.6.try_encode(buf) {
            Ok(()) => {
                proof {
                    lemma_pieces_then(start, before, *buf, self.0.pieces() + self.1.pieces() + self.2.pieces() + self.3.pieces() + self.4.pieces() + self.5.pieces(), self.6.pieces(), self.0.encoding() + self.1.encoding() + self.2.encoding() + self.3.encoding() + self.4.encoding() + self.5.encoding(), self.6.encoding(), true);
                }
            },
            Err(e) => {
                proof {
                    lemma_pieces_then(start, before, *buf, self.0.pieces() + self.1.pieces() + self.2.pieces() + self.3.pieces() + self.4.pieces() + self.5.pieces(), self.6.pieces(), self.0.encoding() + self.1.encoding() + self.2.encoding() + self.3.encoding() + self.4.encoding() + self.5.encoding(), self.6.encoding(), false);
                }
                return Err(e);
            },
        }
        Ok(())
    }
}

impl<'buf, A: Decode<'buf>, B: Decode<'buf>, C: Decode<'buf>, D: Decode<'buf>, E: Decode<'buf>, F: Decode<'buf>, G: Decode<'buf>> Decode<'buf> for (A, B, C, D, E, F, G) {
    type Model = (A::Model, B::Model, C::Model, D::Model, E::Model, F::Model, G::Model);

    open spec fn model(&self) -> (A::Model, B::Model, C::Model, D::Model, E::Model, F::Model, G::Model) {
        (self.0.model(), self.1.model(), self.2.model(), self.3.model(), self.4.model(), self.5.model(), self.6.model())
    }

    open spec fn spec_decode(input: Seq<u8>) -> Decoded<(A::Model, B::Model, C::Model, D::Model, E::Model, F::Model, G::Model)> {
        match A::spec_decode(input) {
            (Err(f), n0) => (Err(f), n0),
            (Ok(v0), n0) => match B::spec_decode(input.skip((n0) as int)) {
            (Err(f), n1) => (Err(f), n0 + n1),
            (Ok(v1), n1) => match C::spec_decode(input.skip((n0 + n1) as int)) {
            (Err(f), n2) => (Err(f), n0 + n1 + n2),
            (Ok(v2), n2) => match D::spec_decode(input.skip((n0 + n1 + n2) as int)) {
            (Err(f), n3) => (Err(f), n0 + n1 + n2 + n3),
            (Ok(v3), n3) => match E::spec_decode(input.skip((n0 + n1 + n2 + n3) as int)) {
            (Err(f), n4) => (Err(f), n0 + n1 + n2 + n3 + n4),
            (Ok(v4), n4) => match F::spec_decode(input.skip((n0 + n1 + n2 + n3 + n4) as int)) {
            (Err(f), n5) => (Err(f), n0 + n1 + n2 + n3 + n4 + n5),
            (Ok(v5), n5) => match G::spec_decode(input.skip((n0 + n1 + n2 + n3 + n4 + n5) as int)) {
            (Err(f), n6) => (Err(f), n0 + n1 + n2 + n3 + n4 + n5 + n6),
            (Ok(v6), n6) => (Ok((v0, v1, v2, v3, v4, v5, v6)), n0 + n1 + n2 + n3 + n4 + n5 + n6),
        },
        },
        },
        },
        },
        },
        }
    }

    fn decode(buf: &mut Buf<'buf>) -> (r: DecodeResult<Self>) {
        let ghost start = buf@;
        let ghost mut consumed: nat = 0;
        assert(start.skip(0) =~= start);
        let ghost before = buf@;
        let r0 = buf.decode::<A>();
        proof {
            lemma_skip_skip(start, consumed, A::spec_decode(before).1);
            consumed = consumed + A::spec_decode(before).1;
        }
        let v0 = match r0 {
            Ok(v) => v,
            Err(e) => return Err(e),
        };
        let ghost before = buf@;
        let r1 = buf.decode::<B>();
        proof {
            lemma_skip_skip(start, consumed, B::spec_decode(before).1);
            consumed = consumed + B::spec_decode(before).1;
        }
        let v1 = match r1 {
            Ok(v) => v,
            Err(e) => return Err(e),
        };
        let ghost before = buf@;
        let r2 = buf.decode::<C>();
        proof {
            lemma_skip_skip(start, consumed, C::spec_decode(before).1);
            consumed = consumed + C::spec_decode(before).1;
        }
        let v2 = match r2 {
            Ok(v) => v,
            Err(e) => return Err(e),
        };
        let ghost before = buf@;
        let r3 = buf.decode::<D>();
        proof {
            lemma_skip_skip(start, consumed, D::spec_decode(before).1);
            consumed = consumed + D::spec_decode(before).1;
        }
        let v3 = match r3 {
            Ok(v) => v,
            Err(e) => return Err(e),
        };
        let ghost before = buf@;
        let r4 = buf.decode::<E>();
        proof {
            lemma_skip_skip(start, consumed, E::spec_decode(before).1);
            consumed = consumed + E::spec_decode(before).1;
        }
        let v4 = match r4 {
            Ok(v) => v,
            Err(e) => return Err(e),
        };
        let ghost before = buf@;
        let r5 = buf.decode::<F>();
        proof {
            lemma_skip_skip(start, consumed, F::spec_decode(before).1);
            consumed = consumed + F::spec_decode(before).1;
        }
        let v5 = match r5 {
            Ok(v) => v,
            Err(e) => return Err(e),
        };
        let ghost before = buf@;
        let r6 = buf.decode::<G>();
        proof {
            lemma_skip_skip(start, consumed, G::spec_decode(before).1);
            consumed = consumed + G::spec_decode(before).1;
        }
        let v6 = match r6 {
            Ok(v) => v,
            Err(e) => return Err(e),
        };
        Ok((v0, v1, v2, v3, v4, v5, v6))
    }
}

impl<A: Encode, B: Encode, C: Encode, D: Encode, E: Encode, F: Encode, G: Encode, H: Encode> Encode for (A, B, C, D, E, F, G, H) {
    open spec fn encoding(&self) -> Seq<u8> {
        self.0.encoding() + self.1.encoding() + self.2.encoding() + self.3.encoding() + self.4.encoding() + self.5.encoding() + self.6.encoding() + self.7.encoding()
    }

    fn len(&self) -> (n: usize) {
        let mut len: usize = 0;
        len = len + self.0.len();
        len = len + self.1.len();
        len = len + self.2.len();
        len = len + self.3.len();
        len = len + self.4.len();
        len = len + self.5.len();
        len = len + self.6.len();
        len = len + self.7.len();
        len
    }

    fn encode(&self, buf: &mut BufMut) {
        buf.encode(&self.0);
        buf.encode(&self.1);
        buf.encode(&self.2);
        buf.encode(&self.3);
        buf.encode(&self.4);
        buf.encode(&self.5);
        buf.encode(&self.6);
        buf.encode(&self.7);
        
    }
}

impl<A: fixed::Encode, B: fixed::Encode, C: fixed::Encode, D: fixed::Encode, E: fixed::Encode, F: fixed::Encode, G: fixed::Encode, H: fixed::Encode> fixed::Encode for (A, B, C, D, E, F, G, H) {
    open spec fn pieces(&self) -> Seq<Seq<u8>> {
        self.0.pieces() + self.1.pieces() + self.2.pieces() + self.3.pieces() + self.4.pieces() + self.5.pieces() + self.6.pieces() + self.7.pieces()
    }

    fn try_encode(&self, buf: &mut fixed::BufMut) -> (r: EncodeResult<()>) {
        let ghost start = *buf;
        match self.0.try_encode(buf) {
            Ok(()) => {},
            Err(e) => {
                proof {
                    lemma_pieces_short(start, *buf, self.0.pieces(), self.1.pieces(), self.0.encoding(), self.1.encoding());
                    lemma_pieces_short(start, *buf, self.0.pieces() + self.1.pieces(), self.2.pieces(), self.0.encoding() + self.1.encoding(), self.2.encoding());
                    lemma_pieces_short(start, *buf, self.0.pieces() + self.1.pieces() + self.2.pieces(), self.3.pieces(), self.0.encoding() + self.1.encoding() + self.2.encoding(), self.3.encoding());
                    lemma_pieces_short(start, *buf, self.0.pieces() + self.1.pieces() + self.2.pieces() + self.3.pieces(), self.4.pieces(), self.0.encoding() + self.1.encoding() + self.2.encoding() + self.3.encoding(), self.4.encoding());
                    lemma_pieces_short(start, *buf, self.0.pieces() + self.1.pieces() + self.2.pieces() + self.3.pieces() + self.4.pieces(), self.5.pieces(), self.0.encoding() + self.1.encoding() + self.2.encoding() + self.3.encoding() + self.4.encoding(), self.5.encoding());
                    lemma_pieces_short(start, *buf, self.0.pieces() + self.1.pieces() + self.2.pieces() + self.3.pieces() + self.4.pieces() + self.5.pieces(), self.6.pieces(), self.0.encoding() + self.1.encoding() + self.2.encoding() + self.3.encoding() + self.4.encoding() + self.5.encoding(), self.6.encoding());
                    lemma_pieces_short(start, *buf, self.0.pieces() + self.1.pieces() + self.2.pieces() + self.3.pieces() + self.4.pieces() + self.5.pieces() + self.6.pieces(), self.7.pieces(), self.0.encoding() + self.1.encoding() + self.2.encoding() + self.3.encoding() + self.4.encoding() + self.5.encoding() + self.6.encoding(), self.7.encoding());
                }
                return Err(e);
            },
        }
        let ghost before = *buf;
        match self.1.try_encode(buf) {
            Ok(()) => {
                proof {
                    lemma_pieces_then(start, before, *buf, self.0.pieces(), self.1.pieces(), self.0.encoding(), self.1.encoding(), true);
                }
            },
            Err(e) => {
                proof {
                    lemma_pieces_then(start, before, *buf, self.0.pieces(), self.1.pieces(), self.0.encoding(), self.1.encoding(), false);
                    lemma_pieces_short(start, *buf, self.0.pieces() + self.1.pieces(), self.2.pieces(), self.0.encoding() + self.1.encoding(), self.2.encoding());
                    lemma_pieces_short(start, *buf, self.0.pieces() + self.1.pieces() + self.2.pieces(), self.3.pieces(), self.0.encoding() + self.1.encoding() + self.2.encoding(), self.3.encoding());
                    lemma_pieces_short(start, *buf, self.0.pieces() + self.1.pieces() + self.2.pieces() + self.3.pieces(), self.4.pieces(), self.0.encoding() + self.1.encoding() + self.2.encoding() + self.3.encoding(), self.4.encoding());
                    lemma_pieces_short(start, *buf, self.0.pieces() + self.1.pieces() + self.2.pieces() + self.3.pieces() + self.4.pieces(), self.5.pieces(), self.0.encoding() + self.1.encoding() + self.2.encoding() + self.3.encoding() + self.4.encoding(), self.5.encoding());
                    lemma_pieces_short(start, *buf, self.0.pieces() + self.1.pieces() + self.2.pieces() + self.3.pieces() + self.4.pieces() + self.5.pieces(), self.6.pieces(), self.0.encoding() + self.1.encoding() + self.2.encoding() + self.3.encoding() + self.4.encoding() + self.5.encoding(), self.6.encoding());
                    lemma_pieces_short(start, *buf, self.0.pieces() + self.1.pieces() + self.2.pieces() + self.3.pieces() + self.4.pieces() + self.5.pieces() + self.6.pieces(), self.7.pieces(), self.0.encoding() + self.1.encoding() + self.2.encoding() + self.3.encoding() + self.4.encoding() + self.5.encoding() + self.6.encoding(), self.7.encoding());
                }
                return Err(e);
            },
        }
        let ghost before = *buf;
        match self.2.try_encode(buf) {
            Ok(()) => {
                proof {
                    lemma_pieces_then(start, before, *buf, self.0.pieces() + self.1.pieces(), self.2.pieces(), self.0.encoding() + self.1.encoding(), self.2.encoding(), true);
                }
            },
            Err(e) => {
                proof {
                    lemma_pieces_then(start, before, *buf, self.0.pieces() + self.1.pieces(), self.2.pieces(), self.0.encoding() + self.1.encoding(), self.2.encoding(), false);
                    lemma_pieces_short(start, *buf, self.0.pieces() + self.1.pieces() + self.2.pieces(), self.3.pieces(), self.0.encoding() + self.1.encoding() + self.2.encoding(), self.3.encoding());
                    lemma_pieces_short(start, *buf, self.0.pieces() + self.1.pieces() + self.2.pieces() + self.3.pieces(), self.4.pieces(), self.0.encoding() + self.1.encoding() + self.2.encoding() + self.3.encoding(), self.4.encoding());
                    lemma_pieces_short(start, *buf, self.0.pieces() + self.1.pieces() + self.2.pieces() + self.3.pieces() + self.4.pieces(), self.5.pieces(), self.0.encoding() + self.1.encoding() + self.2.encoding() + self.3.encoding() + self.4.encoding(), self.5.encoding());
                    lemma_pieces_short(start, *buf, self.0.pieces() + self.1.pieces() + self.2.pieces() + self.3.pieces() + self.4.pieces() + self.5.pieces(), self.6.pieces(), self.0.encoding() + self.1.encoding() + self.2.encoding() + self.3.encoding() + self.4.encoding() + self.5.encoding(), self.6.encoding());
                    lemma_pieces_short(start, *buf, self.0.pieces() + self.1.pieces() + self.2.pieces() + self.3.pieces() + self.4.pieces() + self.5.pieces() + self.6.pieces(), self.7.pieces(), self.0.encoding() + self.1.encoding() + self.2.encoding() + self.3.encoding() + self.4.encoding() + self.5.encoding() + self.6.encoding(), self.7.encoding());
                }
                return Err(e);
            },
        }
        let ghost before = *buf;
        match self.3.try_encode(buf) {
            Ok(()) => {
                proof {
                    lemma_pieces_then(start, before, *buf, self.0.pieces() + self.1.pieces() + self.2.pieces(), self.3.pieces(), self.0.encoding() + self.1.encoding() + self.2.encoding(), self.3.encoding(), true);
                }
            },
            Err(e) => {
                proof {
                    lemma_pieces_then(start, before, *buf, self.0.pieces() + self.1.pieces() + self.2.pieces(), self.3.pieces(), self.0.encoding() + self.1.encoding() + self.2.encoding(), self.3.encoding(), false);
                    lemma_pieces_short(start, *buf, self.0.pieces() + self.1.pieces() + self.2.pieces() + self.3.pieces(), self.4.pieces(), self.0.encoding() + self.1.encoding() + self.2.encoding() + self.3.encoding(), self.4.encoding());
                    lemma_pieces_short(start, *buf, self.0.pieces() + self.1.pieces() + self.2.pieces() + self.3.pieces() + self.4.pieces(), self.5.pieces(), self.0.encoding() + self.1.encoding() + self.2.encoding() + self.3.encoding() + self.4.encoding(), self.5.encoding());
                    lemma_pieces_short(start, *buf, self.0.pieces() + self.1.pieces() + self.2.pieces() + self.3.pieces() + self.4.pieces() + self.5.pieces(), self.6.pieces(), self.0.encoding() + self.1.encoding() + self.2.encoding() + self.3.encoding() + self.4.encoding() + self.5.encoding(), self.6.encoding());
                    lemma_pieces_short(start, *buf, self.0.pieces() + self.1.pieces() + self.2.pieces() + self.3.pieces() + self.4.pieces() + self.5.pieces() + self.6.pieces(), self.7.pieces(), self.0.encoding() + self.1.encoding() + self.2.encoding() + self.3.encoding() + self.4.encoding() + self.5.encoding() + self.6.encoding(), self.7.encoding());
                }
                return Err(e);
            },
        }
        let ghost before = *buf;
        match self.4.try_encode(buf) {
            Ok(()) => {
                proof {
                    lemma_pieces_then(start, before, *buf, self.0.pieces() + self.1.pieces() + self.2.pieces() + self.3.pieces(), self.4.pieces(), self.0.encoding() + self.1.encoding() + self.2.encoding() + self.3.encoding(), self.4.encoding(), true);
                }
            },
            Err(e) => {
                proof {
                    lemma_pieces_then(start, before, *buf, self.0.pieces() + self.1.pieces() + self.2.pieces() + self.3.pieces(), self.4.pieces(), self.0.encoding() + self.1.encoding() + self.2.encoding() + self.3.encoding(), self.4.encoding(), false);
                    lemma_pieces_short(start, *buf, self.0.pieces() + self.1.pieces() + self.2.pieces() + self.3.pieces() + self.4.pieces(), self.5.pieces(), self.0.encoding() + self.1.encoding() + self.2.encoding() + self.3.encoding() + self.4.encoding(), self.5.encoding());
                    lemma_pieces_short(start, *buf, self.0.pieces() + self.1.pieces() + self.2.pieces() + self.3.pieces() + self.4.pieces() + self.5.pieces(), self.6.pieces(), self.0.encoding() + self.1.encoding() + self.2.encoding() + self.3.encoding() + self.4.encoding() + self.5.encoding(), self.6.encoding());
                    lemma_pieces_short(start, *buf, self.0.pieces() + self.1.pieces() + self.2.pieces() + self.3.pieces() + self.4.pieces() + self.5.pieces() + self.6.pieces(), self.7.pieces(), self.0.encoding() + self.1.encoding() + self.2.encoding() + self.3.encoding() + self.4.encoding() + self.5.encoding() + self.6.encoding(), self.7.encoding());
                }
                return Err(e);
            },
        }
        let ghost before = *buf;
        match self.5.try_encode(buf) {
            Ok(()) => {
                proof {
                    lemma_pieces_then(start, before, *buf, self.0.pieces() + self.1.pieces() + self.2.pieces() + self.3.pieces() + self.4.pieces(), self.5.pieces(), self.0.encoding() + self.1.encoding() + self.2.encoding() + self.3.encoding() + self.4.encoding(), self.5.encoding(), true);
                }
            },
            Err(e) => {
                proof {
                    lemma_pieces_then(start, before, *buf, self.0.pieces() + self.1.pieces() + self.2.pieces() + self.3.pieces() + self.4.pieces(), self.5.pieces(), self.0.encoding() + self.1.encoding() + self.2.encoding() + self.3.encoding() + self.4.encoding(), self.5.encoding(), false);
                    lemma_pieces_short(start, *buf, self.0.pieces() + self.1.pieces() + self.2.pieces() + self.3.pieces() + self.4.pieces() + self.5.pieces(), self.6.pieces(), self.0.encoding() + self.1.encoding() + self.2.encoding() + self.3.encoding() + self.4.encoding() + self.5.encoding(), self.6.encoding());
                    lemma_pieces_short(start, *buf, self.0.pieces() + self.1.pieces() + self.2.pieces() + self.3.pieces() + self.4.pieces() + self.5.pieces() + self.6.pieces(), self.7.pieces(), self.0.encoding() + self.1.encoding() + self.2.encoding() + self.3.encoding() + self.4.encoding() + self.5.encoding() + self.6.encoding(), self.7.encoding());
                }
                return Err(e);
            },
        }
        let ghost before = *buf;
        match self.6.try_encode(buf) {
            Ok(()) => {
                proof {
                    lemma_pieces_then(start, before, *buf, self.0.pieces() + self.1.pieces() + self.2.pieces() + self.3.pieces() + self.4.pieces() + self.5.pieces(), self.6.pieces(), self.0.encoding() + self.1.encoding() + self.2.encoding() + self.3.encoding() + self.4.encoding() + self.5.encoding(), self.6.encoding(), true);
                }
            },
            Err(e) => {
                proof {
                    lemma_pieces_then(start, before, *buf, self.0.pieces() + self.1.pieces() + self.2.pieces() + self.3.pieces() + self.4.pieces() + self.5.pieces(), self.6.pieces(), self.0.encoding() + self.1.encoding() + self.2.encoding() + self.3.encoding() + self.4.encoding() + self.5.encoding(), self.6.encoding(), false);
                    lemma_pieces_short(start, *buf, self.0.pieces() + self.1.pieces() + self.2.pieces() + self.3.pieces() + self.4.pieces() + self.5.pieces() + self.6.pieces(), self.7.pieces(), self.0.encoding() + self.1.encoding() + self.2.encoding() + self.3.encoding() + self.4.encoding() + self.5.encoding() + self.6.encoding(), self.7.encoding());
                }
                return Err(e);
            },
        }
        let ghost before = *buf;
        match self.7.try_encode(buf) {
            Ok(()) => {
                proof {
                    lemma_pieces_then(start, before, *buf, self.0.pieces() + self.1.pieces() + self.2.pieces() + self.3.pieces() + self.4.pieces() + self.5.pieces() + self.6.pieces(), self.7.pieces(), self.0.encoding() + self.1.encoding() + self.2.encoding() + self.3.encoding() + self.4.encoding() + self.5.encoding() + self.6.encoding(), self.7.encoding(), true);
                }
            },
            Err(e) => {
                proof {
                    lemma_pieces_then(start, before, *buf, self.0.pieces() + self.1.pieces() + self.2.pieces() + self.3.pieces() + self.4.pieces() + self.5.pieces() + self.6.pieces(), self.7.pieces(), self.0.encoding() + self.1.encoding() + self.2.encoding() + self.3.encoding() + self.4.encoding() + self.5.encoding() + self.6.encoding(), self.7.encoding(), false);
                }
                return Err(e);
            },
        }
        Ok(())
    }
}

impl<'buf, A: Decode<'buf>, B: Decode<'buf>, C: Decode<'buf>, D: Decode<'buf>, E: Decode<'buf>, F: Decode<'buf>, G: Decode<'buf>, H: Decode<'buf>> Decode<'buf> for (A, B, C, D, E, F, G, H) {
    type Model = (A::Model, B::Model, C::Model, D::Model, E::Model, F::Model, G::Model, H::Model);

    open spec fn model(&self) -> (A::Model, B::Model, C::Model, D::Model, E::Model, F::Model, G::Model, H::Model) {
        (self.0.model(), self.1.model(), self.2.model(), self.3.model(), self.4.model(), self.5.model(), self.6.model(), self.7.model())
    }

    open spec fn spec_decode(input: Seq<u8>) -> Decoded<(A::Model, B::Model, C::Model, D::Model, E::Model, F::Model, G::Model, H::Model)> {
        match A::spec_decode(input) {
            (Err(f), n0) => (Err(f), n0),
            (Ok(v0), n0) => match B::spec_decode(input.skip((n0) as int)) {
            (Err(f), n1) => (Err(f), n0 + n1),
            (Ok(v1), n1) => match C::spec_decode(input.skip((n0 + n1) as int)) {
            (Err(f), n2) => (Err(f), n0 + n1 + n2),
            (Ok(v2), n2) => match D::spec_decode(input.skip((n0 + n1 + n2) as int)) {
            (Err(f), n3) => (Err(f), n0 + n1 + n2 + n3),
            (Ok(v3), n3) => match E::spec_decode(input.skip((n0 + n1 + n2 + n3) as int)) {
            (Err(f), n4) => (Err(f), n0 + n1 + n2 + n3 + n4),
            (Ok(v4), n4) => match F::spec_decode(input.skip((n0 + n1 + n2 + n3 + n4) as int)) {
            (Err(f), n5) => (Err(f), n0 + n1 + n2 + n3 + n4 + n5),
            (Ok(v5), n5) => match G::spec_decode(input.skip((n0 + n1 + n2 + n3 + n4 + n5) as int)) {
            (Err(f), n6) => (Err(f), n0 + n1 + n2 + n3 + n4 + n5 + n6),
            (Ok(v6), n6) => match H::spec_decode(input.skip((n0 + n1 + n2 + n3 + n4 + n5 + n6) as int)) {
            (Err(f), n7) => (Err(f), n0 + n1 + n2 + n3 + n4 + n5 + n6 + n7),
            (Ok(v7), n7) => (Ok((v0, v1, v2, v3, v4, v5, v6, v7)), n0 + n1 + n2 + n3 + n4 + n5 + n6 + n7),
        },
        },
        },
        },
        },
        },
        },
        }
    }

    fn decode(buf: &mut Buf<'buf>) -> (r: DecodeResult<Self>) {
        let ghost start = buf@;
        let ghost mut consumed: nat = 0;
        assert(start.skip(0) =~= start);
        let ghost before = buf@;
        let r0 = buf.decode::<A>();
        proof {
            lemma_skip_skip(start, consumed, A::spec_decode(before).1);
            consumed = consumed + A::spec_decode(before).1;
        }
        let v0 = match r0 {
            Ok(v) => v,
            Err(e) => return Err(e),
        };
        let ghost before = buf@;
        let r1 = buf.decode::<B>();
        proof {
            lemma_skip_skip(start, consumed, B::spec_decode(before).1);
            consumed = consumed + B::spec_decode(before).1;
        }
        let v1 = match r1 {
            Ok(v) => v,
            Err(e) => return Err(e),
        };
        let ghost before = buf@;
        let r2 = buf.decode::<C>();
        proof {
            lemma_skip_skip(start, consumed, C::spec_decode(before).1);
            consumed = consumed + C::spec_decode(before).1;
        }
        let v2 = match r2 {
            Ok(v) => v,
            Err(e) => return Err(e),
        };
        let ghost before = buf@;
        let r3 = buf.decode::<D>();
        proof {
            lemma_skip_skip(start, consumed, D::spec_decode(before).1);
            consumed = consumed + D::spec_decode(before).1;
        }
        let v3 = match r3 {
            Ok(v) => v,
            Err(e) => return Err(e),
        };
        let ghost before = buf@;
        let r4 = buf.decode::<E>();
        proof {
            lemma_skip_skip(start, consumed, E::spec_decode(before).1);
            consumed = consumed + E::spec_decode(before).1;
        }
        let v4 = match r4 {
            Ok(v) => v,
            Err(e) => return Err(e),
        };
        let ghost before = buf@;
        let r5 = buf.decode::<F>();
        proof {
            lemma_skip_skip(start, consumed, F::spec_decode(before).1);
            consumed = consumed + F::spec_decode(before).1;
        }
        let v5 = match r5 {
            Ok(v) => v,
            Err(e) => return Err(e),
        };
        let ghost before = buf@;
        let r6 = buf.decode::<G>();
        proof {
            lemma_skip_skip(start, consumed, G::spec_decode(before).1);
            consumed = consumed + G::spec_decode(before).1;
        }
        let v6 = match r6 {
            Ok(v) => v,
            Err(e) => return Err(e),
        };
        let ghost before = buf@;
        let r7 = buf.decode::<H>();
        proof {
            lemma_skip_skip(start, consumed, H::spec_decode(before).1);
            consumed = consumed + H::spec_decode(before).1;
        }
        let v7 = match r7 {
            Ok(v) => v,
            Err(e) => return Err(e),
        };
        Ok((v0, v1, v2, v3, v4, v5, v6, v7))
    }
}

impl<A: Encode, B: Encode, C: Encode, D: Encode, E: Encode, F: Encode, G: Encode, H: Encode, I: Encode> Encode for (A, B, C, D, E, F, G, H, I) {
    open spec fn encoding(&self) -> Seq<u8> {
        self.0.encoding() + self.1.encoding() + self.2.encoding() + self.3.encoding() + self.4.encoding() + self.5.encoding() + self.6.encoding() + self.7.encoding() + self.8.encoding()
    }

    fn len(&self) -> (n: usize) {
        let mut len: usize = 0;
        len = len + self.0.len();
        len = len + self.1.len();
        len = len + self.2.len();
        len = len + self.3.len();
        len = len + self.4.len();
        len = len + self.5.len();
        len = len + self.6.len();
        len = len + self.7.len();
        len = len + self.8.len();
        len
    }

    fn encode(&self, buf: &mut BufMut) {
        buf.encode(&self.0);
        buf.encode(&self.1);
        buf.encode(&self.2);
        buf.encode(&self.3);
        buf.encode(&self.4);
        buf.encode(&self.5);
        buf.encode(&self.6);
        buf.encode(&self.7);
        buf.encode(&self.8);
        
    }
}

impl<A: fixed::Encode, B: fixed::Encode, C: fixed::Encode, D: fixed::Encode, E: fixed::Encode, F: fixed::Encode, G: fixed::Encode, H: fixed::Encode, I: fixed::Encode> fixed::Encode for (A, B, C, D, E, F, G, H, I) {
    open spec fn pieces(&self) -> Seq<Seq<u8>> {
        self.0.pieces() + self.1.pieces() + self.2.pieces() + self.3.pieces() + self.4.pieces() + self.5.pieces() + self.6.pieces() + self.7.pieces() + self.8.pieces()
    }

    fn try_encode(&self, buf: &mut fixed::BufMut) -> (r: EncodeResult<()>) {
        let ghost start = *buf;
        match self.0.try_encode(buf) {
            Ok(()) => {},
            Err(e) => {
                proof {
                    lemma_pieces_short(start, *buf, self.0.pieces(), self.1.pieces(), self.0.encoding(), self.1.encoding());
                    lemma_pieces_short(start, *buf, self.0.pieces() + self.1.pieces(), self.2.pieces(), self.0.encoding() + self.1.encoding(), self.2.encoding());
                    lemma_pieces_short(start, *buf, self.0.pieces() + self.1.pieces() + self.2.pieces(), self.3.pieces(), self.0.encoding() + self.1.encoding() + self.2.encoding(), self.3.encoding());
                    lemma_pieces_short(start, *buf, self.0.pieces() + self.1.pieces() + self.2.pieces() + self.3.pieces(), self.4.pieces(), self.0.encoding() + self.1.encoding() + self.2.encoding() + self.3.encoding(), self.4.encoding());
                    lemma_pieces_short(start, *buf, self.0.pieces() + self.1.pieces() + self.2.pieces() + self.3.pieces() + self.4.pieces(), self.5.pieces(), self.0.encoding() + self.1.encoding() + self.2.encoding() + self.3.encoding() + self.4.encoding(), self.5.encoding());
                    lemma_pieces_short(start, *buf, self.0.pieces() + self.1.pieces() + self.2.pieces() + self.3.pieces() + self.4.pieces() + self.5.pieces(), self.6.pieces(), self.0.encoding() + self.1.encoding() + self.2.encoding() + self.3.encoding() + self.4.encoding() + self.5.encoding(), self.6.encoding());
                    lemma_pieces_short(start, *buf, self.0.pieces() + self.1.pieces() + self.2.pieces() + self.3.pieces() + self.4.pieces() + self.5.pieces() + self.6.pieces(), self.7.pieces(), self.0.encoding() + self.1.encoding() + self.2.encoding() + self.3.encoding() + self.4.encoding() + self.5.encoding() + self.6.encoding(), self.7.encoding());
                    lemma_pieces_short(start, *buf, self.0.pieces() + self.1.pieces() + self.2.pieces() + self.3.pieces() + self.4.pieces() + self.5.pieces() + self.6.pieces() + self.7.pieces(), self.8.pieces(), self.0.encoding() + self.1.encoding() + self.2.encoding() + self.3.encoding() + self.4.encoding() + self.5.encoding() + self.6.encoding() + self.7.encoding(), self.8.encoding());
                }
                return Err(e);
            },
        }
        let ghost before = *buf;
        match self.1.try_encode(buf) {
            Ok(()) => {
                proof {
                    lemma_pieces_then(start, before, *buf, self.0.pieces(), self.1.pieces(), self.0.encoding(), self.1.encoding(), true);
                }
            },
            Err(e) => {
                proof {
                    lemma_pieces_then(start, before, *buf, self.0.pieces(), self.1.pieces(), self.0.encoding(), self.1.encoding(), false);
                    lemma_pieces_short(start, *buf, self.0.pieces() + self.1.pieces(), self.2.pieces(), self.0.encoding() + self.1.encoding(), self.2.encoding());
                    lemma_pieces_short(start, *buf, self.0.pieces() + self.1.pieces() + self.2.pieces(), self.3.pieces(), self.0.encoding() + self.1.encoding() + self.2.encoding(), self.3.encoding());
                    lemma_pieces_short(start, *buf, self.0.pieces() + self.1.pieces() + self.2.pieces() + self.3.pieces(), self.4.pieces(), self.0.encoding() + self.1.encoding() + self.2.encoding() + self.3.encoding(), self.4.encoding());
                    lemma_pieces_short(start, *buf, self.0.pieces() + self.1.pieces() + self.2.pieces() + self.3.pieces() + self.4.pieces(), self.5.pieces(), self.0.encoding() + self.1.encoding() + self.2.encoding() + self.3.encoding() + self.4.encoding(), self.5.encoding());
                    lemma_pieces_short(start, *buf, self.0.pieces() + self.1.pieces() + self.2.pieces() + self.3.pieces() + self.4.pieces() + self.5.pieces(), self.6.pieces(), self.0.encoding() + self.1.encoding() + self.2.encoding() + self.3.encoding() + self.4.encoding() + self.5.encoding(), self.6.encoding());
                    lemma_pieces_short(start, *buf, self.0.pieces() + self.1.pieces() + self.2.pieces() + self.3.pieces() + self.4.pieces() + self.5.pieces() + self.6.pieces(), self.7.pieces(), self.0.encoding() + self.1.encoding() + self.2.encoding() + self.3.encoding() + self.4.encoding() + self.5.encoding() + self.6.encoding(), self.7.encoding());
                    lemma_pieces_short(start, *buf, self.0.pieces() + self.1.pieces() + self.2.pieces() + self.3.pieces() + self.4.pieces() + self.5.pieces() + self.6.pieces() + self.7.pieces(), self.8.pieces(), self.0.encoding() + self.1.encoding() + self.2.encoding() + self.3.encoding() + self.4.encoding() + self.5.encoding() + self.6.encoding() + self.7.encoding(), self.8.encoding());
                }
                return Err(e);
            },
        }
        let ghost before = *buf;
        match self.2.try_encode(buf) {
            Ok(()) => {
                proof {
                    lemma_pieces_then(start, before, *buf, self.0.pieces() + self.1.pieces(), self.2.pieces(), self.0.encoding() + self.1.encoding(), self.2.encoding(), true);
                }
            },
            Err(e) => {
                proof {
                    lemma_pieces_then(start, before, *buf, self.0.pieces() + self.1.pieces(), self.2.pieces(), self.0.encoding() + self.1.encoding(), self.2.encoding(), false);
                    lemma_pieces_short(start, *buf, self.0.pieces() + self.1.pieces() + self.2.pieces(), self.3.pieces(), self.0.encoding() + self.1.encoding() + self.2.encoding(), self.3.encoding());
                    lemma_pieces_short(start, *buf, self.0.pieces() + self.1.pieces() + self.2.pieces() + self.3.pieces(), self.4.pieces(), self.0.encoding() + self.1.encoding() + self.2.encoding() + self.3.encoding(), self.4.encoding());
                    lemma_pieces_short(start, *buf, self.0.pieces() + self.1.pieces() + self.2.pieces() + self.3.pieces() + self.4.pieces(), self.5.pieces(), self.0.encoding() + self.1.encoding() + self.2.encoding() + self.3.encoding() + self.4.encoding(), self.5.encoding());
                    lemma_pieces_short(start, *buf, self.0.pieces() + self.1.pieces() + self.2.pieces() + self.3.pieces() + self.4.pieces() + self.5.pieces(), self.6.pieces(), self.0.encoding() + self.1.encoding() + self.2.encoding() + self.3.encoding() + self.4.encoding() + self.5.encoding(), self.6.encoding());
                    lemma_pieces_short(start, *buf, self.0.pieces() + self.1.pieces() + self.2.pieces() + self.3.pieces() + self.4.pieces() + self.5.pieces() + self.6.pieces(), self.7.pieces(), self.0.encoding() + self.1.encoding() + self.2.encoding() + self.3.encoding() + self.4.encoding() + self.5.encoding() + self.6.encoding(), self.7.encoding());
                    lemma_pieces_short(start, *buf, self.0.pieces() + self.1.pieces() + self.2.pieces() + self.3.pieces() + self.4.pieces() + self.5.pieces() + self.6.pieces() + self.7.pieces(), self.8.pieces(), self.0.encoding() + self.1.encoding() + self.2.encoding() + self.3.encoding() + self.4.encoding() + self.5.encoding() + self.6.encoding() + self.7.encoding(), self.8.encoding());
                }
                return Err(e);
            },
        }
        let ghost before = *buf;
        match self.3.try_encode(buf) {
            Ok(()) => {
                proof {
                    lemma_pieces_then(start, before, *buf, self.0.pieces() + self.1.pieces() + self.2.pieces(), self.3.pieces(), self.0.encoding() + self.1.encoding() + self.2.encoding(), self.3.encoding(), true);
                }
            },
            Err(e) => {
                proof {
                    lemma_pieces_then(start, before, *buf, self.0.pieces() + self.1.pieces() + self.2.pieces(), self.3.pieces(), self.0.encoding() + self.1.encoding() + self.2.encoding(), self.3.encoding(), false);
                    lemma_pieces_short(start, *buf, self.0.pieces() + self.1.pieces() + self.2.pieces() + self.3.pieces(), self.4.pieces(), self.0.encoding() + self.1.encoding() + self.2.encoding() + self.3.encoding(), self.4.encoding());
                    lemma_pieces_short(start, *buf, self.0.pieces() + self.1.pieces() + self.2.pieces() + self.3.pieces() + self.4.pieces(), self.5.pieces(), self.0.encoding() + self.1.encoding() + self.2.encoding() + self.3.encoding() + self.4.encoding(), self.5.encoding());
                    lemma_pieces_short(start, *buf, self.0.pieces() + self.1.pieces() + self.2.pieces() + self.3.pieces() + self.4.pieces() + self.5.pieces(), self.6.pieces(), self.0.encoding() + self.1.encoding() + self.2.encoding() + self.3.encoding() + self.4.encoding() + self.5.encoding(), self.6.encoding());
                    lemma_pieces_short(start, *buf, self.0.pieces() + self.1.pieces() + self.2.pieces() + self.3.pieces() + self.4.pieces() + self.5.pieces() + self.6.pieces(), self.7.pieces(), self.0.encoding() + self.1.encoding() + self.2.encoding() + self.3.encoding() + self.4.encoding() + self.5.encoding() + self.6.encoding(), self.7.encoding());
                    lemma_pieces_short(start, *buf, self.0.pieces() + self.1.pieces() + self.2.pieces() + self.3.pieces() + self.4.pieces() + self.5.pieces() + self.6.pieces() + self.7.pieces(), self.8.pieces(), self.0.encoding() + self.1.encoding() + self.2.encoding() + self.3.encoding() + self.4.encoding() + self.5.encoding() + self.6.encoding() + self.7.encoding(), self.8.encoding());
                }
                return Err(e);
            },
        }
        let ghost before = *buf;
        match self.4.try_encode(buf) {
            Ok(()) => {
                proof {
                    lemma_pieces_then(start, before, *buf, self.0.pieces() + self.1.pieces() + self.2.pieces() + self.3.pieces(), self.4.pieces(), self.0.encoding() + self.1.encoding() + self.2.encoding() + self.3.encoding(), self.4.encoding(), true);
                }
            },
            Err(e) => {
                proof {
                    lemma_pieces_then(start, before, *buf, self.0.pieces() + self.1.pieces() + self.2.pieces() + self.3.pieces(), self.4.pieces(), self.0.encoding() + self.1.encoding() + self.2.encoding() + self.3.encoding(), self.4.encoding(), false);
                    lemma_pieces_short(start, *buf, self.0.pieces() + self.1.pieces() + self.2.pieces() + self.3.pieces() + self.4.pieces(), self.5.pieces(), self.0.encoding() + self.1.encoding() + self.2.encoding() + self.3.encoding() + self.4.encoding(), self.5.encoding());
                    lemma_pieces_short(start, *buf, self.0.pieces() + self.1.pieces() + self.2.pieces() + self.3.pieces() + self.4.pieces() + self.5.pieces(), self.6.pieces(), self.0.encoding() + self.1.encoding() + self.2.encoding() + self.3.encoding() + self.4.encoding() + self.5.encoding(), self.6.encoding());
                    lemma_pieces_short(start, *buf, self.0.pieces() + self.1.pieces() + self.2.pieces() + self.3.pieces() + self.4.pieces() + self.5.pieces() + self.6.pieces(), self.7.pieces(), self.0.encoding() + self.1.encoding() + self.2.encoding() + self.3.encoding() + self.4.encoding() + self.5.encoding() + self.6.encoding(), self.7.encoding());
                    lemma_pieces_short(start, *buf, self.0.pieces() + self.1.pieces() + self.2.pieces() + self.3.pieces() + self.4.pieces() + self.5.pieces() + self.6.pieces() + self.7.pieces(), self.8.pieces(), self.0.encoding() + self.1.encoding() + self.2.encoding() + self.3.encoding() + self.4.encoding() + self.5.encoding() + self.6.encoding() + self.7.encoding(), self.8.encoding());
                }
                return Err(e);
            },
        }
        let ghost before = *buf;
        match self.5.try_encode(buf) {
            Ok(()) => {
                proof {
                    lemma_pieces_then(start, before, *buf, self.0.pieces() + self.1.pieces() + self.2.pieces() + self.3.pieces() + self.4.pieces(), self.5.pieces(), self.0.encoding() + self.1.encoding() + self.2.encoding() + self.3.encoding() + self.4.encoding(), self.5.encoding(), true);
                }
            },
            Err(e) => {
                proof {
                    lemma_pieces_then(start, before, *buf, self.0.pieces() + self.1.pieces() + self.2.pieces() + self.3.pieces() + self.4.pieces(), self.5.pieces(), self.0.encoding() + self.1.encoding() + self.2.encoding() + self.3.encoding() + self.4.encoding(), self.5.encoding(), false);
                    lemma_pieces_short(start, *buf, self.0.pieces() + self.1.pieces() + self.2.pieces() + self.3.pieces() + self.4.pieces() + self.5.pieces(), self.6.pieces(), self.0.encoding() + self.1.encoding() + self.2.encoding() + self.3.encoding() + self.4.encoding() + self.5.encoding(), self.6.encoding());
                    lemma_pieces_short(start, *buf, self.0.pieces() + self.1.pieces() + self.2.pieces() + self.3.pieces() + self.4.pieces() + self.5.pieces() + self.6.pieces(), self.7.pieces(), self.0.encoding() + self.1.encoding() + self.2.encoding() + self.3.encoding() + self.4.encoding() + self.5.encoding() + self.6.encoding(), self.7.encoding());
                    lemma_pieces_short(start, *buf, self.0.pieces() + self.1.pieces() + self.2.pieces() + self.3.pieces() + self.4.pieces() + self.5.pieces() + self.6.pieces() + self.7.pieces(), self.8.pieces(), self.0.encoding() + self.1.encoding() + self.2.encoding() + self.3.encoding() + self.4.encoding() + self.5.encoding() + self.6.encoding() + self.7.encoding(), self.8.encoding());
                }
                return Err(e);
            },
        }
        let ghost before = *buf;
        match self.6.try_encode(buf) {
            Ok(()) => {
                proof {
                    lemma_pieces_then(start, before, *buf, self.0.pieces() + self.1.pieces() + self.2.pieces() + self.3.pieces() + self.4.pieces() + self.5.pieces(), self.6.pieces(), self.0.encoding() + self.1.encoding() + self.2.encoding() + self.3.encoding() + self.4.encoding() + self.5.encoding(), self.6.encoding(), true);
                }
            },
            Err(e) => {
                proof {
                    lemma_pieces_then(start, before, *buf, self.0.pieces() + self.1.pieces() + self.2.pieces() + self.3.pieces() + self.4.pieces() + self.5.pieces(), self.6.pieces(), self.0.encoding() + self.1.encoding() + self.2.encoding() + self.3.encoding() + self.4.encoding() + self.5.encoding(), self.6.encoding(), false);
                    lemma_pieces_short(start, *buf, self.0.pieces() + self.1.pieces() + self.2.pieces() + self.3.pieces() + self.4.pieces() + self.5.pieces() + self.6.pieces(), self.7.pieces(), self.0.encoding() + self.1.encoding() + self.2.encoding() + self.3.encoding() + self.4.encoding() + self.5.encoding() + self.6.encoding(), self.7.encoding());
                    lemma_pieces_short(start, *buf, self.0.pieces() + self.1.pieces() + self.2.pieces() + self.3.pieces() + self.4.pieces() + self.5.pieces() + self.6.pieces() + self.7.pieces(), self.8.pieces(), self.0.encoding() + self.1.encoding() + self.2.encoding() + self.3.encoding() + self.4.encoding() + self.5.encoding() + self.6.encoding() + self.7.encoding(), self.8.encoding());
                }
                return Err(e);
            },
        }
        let ghost before = *buf;
        match self.7.try_encode(buf) {
            Ok(()) => {
                proof {
                    lemma_pieces_then(start, before, *buf, self.0.pieces() + self.1.pieces() + self.2.pieces() + self.3.pieces() + self.4.pieces() + self.5.pieces() + self.6.pieces(), self.7.pieces(), self.0.encoding() + self.1.encoding() + self.2.encoding() + self.3.encoding() + self.4.encoding() + self.5.encoding() + self.6.encoding(), self.7.encoding(), true);
                }
            },
            Err(e) => {
                proof {
                    lemma_pieces_then(start, before, *buf, self.0.pieces() + self.1.pieces() + self.2.pieces() + self.3.pieces() + self.4.pieces() + self.5.pieces() + self.6.pieces(), self.7.pieces(), self.0.encoding() + self.1.encoding() + self.2.encoding() + self.3.encoding() + self.4.encoding() + self.5.encoding() + self.6.encoding(), self.7.encoding(), false);
                    lemma_pieces_short(start, *buf, self.0.pieces() + self.1.pieces() + self.2.pieces() + self.3.pieces() + self.4.pieces() + self.5.pieces() + self.6.pieces() + self.7.pieces(), self.8.pieces(), self.0.encoding() + self.1.encoding() + self.2.encoding() + self.3.encoding() + self.4.encoding() + self.5.encoding() + self.6.encoding() + self.7.encoding(), self.8.encoding());
                }
                return Err(e);
            },
        }
        let ghost before = *buf;
        match self.8.try_encode(buf) {
            Ok(()) => {
                proof {
                    lemma_pieces_then(start, before, *buf, self.0.pieces() + self.1.pieces() + self.2.pieces() + self.3.pieces() + self.4.pieces() + self.5.pieces() + self.6.pieces() + self.7.pieces(), self.8.pieces(), self.0.encoding() + self.1.encoding() + self.2.encoding() + self.3.encoding() + self.4.encoding() + self.5.encoding() + self.6.encoding() + self.7.encoding(), self.8.encoding(), true);
                }
            },
            Err(e) => {
                proof {
                    lemma_pieces_then(start, before, *buf, self.0.pieces() + self.1.pieces() + self.2.pieces() + self.3.pieces() + self.4.pieces() + self.5.pieces() + self.6.pieces() + self.7.pieces(), self.8.pieces(), self.0.encoding() + self.1.encoding() + self.2.encoding() + self.3.encoding() + self.4.encoding() + self.5.encoding() + self.6.encoding() + self.7.encoding(), self.8.encoding(), false);
                }
                return Err(e);
            },
        }
        Ok(())
    }
}

impl<'buf, A: Decode<'buf>, B: Decode<'buf>, C: Decode<'buf>, D: Decode<'buf>, E: Decode<'buf>, F: Decode<'buf>, G: Decode<'buf>, H: Decode<'buf>, I: Decode<'buf>> Decode<'buf> for (A, B, C, D, E, F, G, H, I) {
    type Model = (A::Model, B::Model, C::Model, D::Model, E::Model, F::Model, G::Model, H::Model, I::Model);

    open spec fn model(&self) -> (A::Model, B::Model, C::Model, D::Model, E::Model, F::Model, G::Model, H::Model, I::Model) {
        (self.0.model(), self.1.model(), self.2.model(), self.3.model(), self.4.model(), self.5.model(), self.6.model(), self.7.model(), self.8.model())
    }

    open spec fn spec_decode(input: Seq<u8>) -> Decoded<(A::Model, B::Model, C::Model, D::Model, E::Model, F::Model, G::Model, H::Model, I::Model)> {
        match A::spec_decode(input) {
            (Err(f), n0) => (Err(f), n0),
            (Ok(v0), n0) => match B::spec_decode(input.skip((n0) as int)) {
            (Err(f), n1) => (Err(f), n0 + n1),
            (Ok(v1), n1) => match C::spec_decode(input.skip((n0 + n1) as int)) {
            (Err(f), n2) => (Err(f), n0 + n1 + n2),
            (Ok(v2), n2) => match D::spec_decode(input.skip((n0 + n1 + n2) as int)) {
            (Err(f), n3) => (Err(f), n0 + n1 + n2 + n3),
            (Ok(v3), n3) => match E::spec_decode(input.skip((n0 + n1 + n2 + n3) as int)) {
            (Err(f), n4) => (Err(f), n0 + n1 + n2 + n3 + n4),
            (Ok(v4), n4) => match F::spec_decode(input.skip((n0 + n1 + n2 + n3 + n4) as int)) {
            (Err(f), n5) => (Err(f), n0 + n1 + n2 + n3 + n4 + n5),
            (Ok(v5), n5) => match G::spec_decode(input.skip((n0 + n1 + n2 + n3 + n4 + n5) as int)) {
            (Err(f), n6) => (Err(f), n0 + n1 + n2 + n3 + n4 + n5 + n6),
            (Ok(v6), n6) => match H::spec_decode(input.skip((n0 + n1 + n2 + n3 + n4 + n5 + n6) as int)) {
            (Err(f), n7) => (Err(f), n0 + n1 + n2 + n3 + n4 + n5 + n6 + n7),
            (Ok(v7), n7) => match I::spec_decode(input.skip((n0 + n1 + n2 + n3 + n4 + n5 + n6 + n7) as int)) {
            (Err(f), n8) => (Err(f), n0 + n1 + n2 + n3 + n4 + n5 + n6 + n7 + n8),
            (Ok(v8), n8) => (Ok((v0, v1, v2, v3, v4, v5, v6, v7, v8)), n0 + n1 + n2 + n3 + n4 + n5 + n6 + n7 + n8),
        },
        },
        },
        },
        },
        },
        },
        },
        }
    }

    fn decode(buf: &mut Buf<'buf>) -> (r: DecodeResult<Self>) {
        let ghost start = buf@;
        let ghost mut consumed: nat = 0;
        assert(start.skip(0) =~= start);
        let ghost before = buf@;
        let r0 = buf.decode::<A>();
        proof {
            lemma_skip_skip(start, consumed, A::spec_decode(before).1);
            consumed = consumed + A::spec_decode(before).1;
        }
        let v0 = match r0 {
            Ok(v) => v,
            Err(e) => return Err(e),
        };
        let ghost before = buf@;
        let r1 = buf.decode::<B>();
        proof {
            lemma_skip_skip(start, consumed, B::spec_decode(before).1);
            consumed = consumed + B::spec_decode(before).1;
        }
        let v1 = match r1 {
            Ok(v) => v,
            Err(e) => return Err(e),
        };
        let ghost before = buf@;
        let r2 = buf.decode::<C>();
        proof {
            lemma_skip_skip(start, consumed, C::spec_decode(before).1);
            consumed = consumed + C::spec_decode(before).1;
        }
        let v2 = match r2 {
            Ok(v) => v,
            Err(e) => return Err(e),
        };
        let ghost before = buf@;
        let r3 = buf.decode::<D>();
        proof {
            lemma_skip_skip(start, consumed, D::spec_decode(before).1);
            consumed = consumed + D::spec_decode(before).1;
        }
        let v3 = match r3 {
            Ok(v) => v,
            Err(e) => return Err(e),
        };
        let ghost before = buf@;
        let r4 = buf.decode::<E>();
        proof {
            lemma_skip_skip(start, consumed, E::spec_decode(before).1);
            consumed = consumed + E::spec_decode(before).1;
        }
        let v4 = match r4 {
            Ok(v) => v,
            Err(e) => return Err(e),
        };
        let ghost before = buf@;
        let r5 = buf.decode::<F>();
        proof {
            lemma_skip_skip(start, consumed, F::spec_decode(before).1);
            consumed = consumed + F::spec_decode(before).1;
        }
        let v5 = match r5 {
            Ok(v) => v,
            Err(e) => return Err(e),
        };
        let ghost before = buf@;
        let r6 = buf.decode::<G>();
        proof {
            lemma_skip_skip(start, consumed, G::spec_decode(before).1);
            consumed = consumed + G::spec_decode(before).1;
        }
        let v6 = match r6 {
            Ok(v) => v,
            Err(e) => return Err(e),
        };
        let ghost before = buf@;
        let r7 = buf.decode::<H>();
        proof {
            lemma_skip_skip(start, consumed, H::spec_decode(before).1);
            consumed = consumed + H::spec_decode(before).1;
        }
        let v7 = match r7 {
            Ok(v) => v,
            Err(e) => return Err(e),
        };
        let ghost before = buf@;
        let r8 = buf.decode::<I>();
        proof {
            lemma_skip_skip(start, consumed, I::spec_decode(before).1);
            consumed = consumed + I::spec_decode(before).1;
        }
        let v8 = match r8 {
            Ok(v) => v,
            Err(e) => return Err(e),
        };
        Ok((v0, v1, v2, v3, v4, v5, v6, v7, v8))
    }
}

impl<A: Encode, B: Encode, C: Encode, D: Encode, E: Encode, F: Encode, G: Encode, H: Encode, I: Encode, J: Encode> Encode for (A, B, C, D, E, F, G, H, I, J) {
    open spec fn encoding(&self) -> Seq<u8> {
        self.0.encoding() + self.1.encoding() + self.2.encoding() + self.3.encoding() + self.4.encoding() + self.5.encoding() + self.6.encoding() + self.7.encoding() + self.8.encoding() + self.9.encoding()
    }

    fn len(&self) -> (n: usize) {
        let mut len: usize = 0;
        len = len + self.0.len();
        len = len + self.1.len();
        len = len + self.2.len();
        len = len + self.3.len();
        len = len + self.4.len();
        len = len + self.5.len();
        len = len + self.6.len();
        len = len + self.7.len();
        len = len + self.8.len();
        len = len + self.9.len();
        len
    }

    fn encode(&self, buf: &mut BufMut) {
        buf.encode(&self.0);
        buf.encode(&self.1);
        buf.encode(&self.2);
        buf.encode(&self.3);
        buf.encode(&self.4);
        buf.encode(&self.5);
        buf.encode(&self.6);
        buf.encode(&self.7);
        buf.encode(&self.8);
        buf.encode(&self.9);
        
    }
}

impl<A: fixed::Encode, B: fixed::Encode, C: fixed::Encode, D: fixed::Encode, E: fixed::Encode, F: fixed::Encode, G: fixed::Encode, H: fixed::Encode, I: fixed::Encode, J: fixed::Encode> fixed::Encode for (A, B, C, D, E, F, G, H, I, J) {
    open spec fn pieces(&self) -> Seq<Seq<u8>> {
        self.0.pieces() + self.1.pieces() + self.2.pieces() + self.3.pieces() + self.4.pieces() + self.5.pieces() + self.6.pieces() + self.7.pieces() + self.8.pieces() + self.9.pieces()
    }

    fn try_encode(&self, buf: &mut fixed::BufMut) -> (r: EncodeResult<()>) {
        let ghost start = *buf;
        match self.0.try_encode(buf) {
            Ok(()) => {},
            Err(e) => {
                proof {
                    lemma_pieces_short(start, *buf, self.0.pieces(), self.1.pieces(), self.0.encoding(), self.1.encoding());
                    lemma_pieces_short(start, *buf, self.0.pieces() + self.1.pieces(), self.2.pieces(), self.0.encoding() + self.1.encoding(), self.2.encoding());
                    lemma_pieces_short(start, *buf, self.0.pieces() + self.1.pieces() + self.2.pieces(), self.3.pieces(), self.0.encoding() + self.1.encoding() + self.2.encoding(), self.3.encoding());
                    lemma_pieces_short(start, *buf, self.0.pieces() + self.1.pieces() + self.2.pieces() + self.3.pieces(), self.4.pieces(), self.0.encoding() + self.1.encoding() + self.2.encoding() + self.3.encoding(), self.4.encoding());
                    lemma_pieces_short(start, *buf, self.0.pieces() + self.1.pieces() + self.2.pieces() + self.3.pieces() + self.4.pieces(), self.5.pieces(), self.0.encoding() + self.1.encoding() + self.2.encoding() + self.3.encoding() + self.4.encoding(), self.5.encoding());
                    lemma_pieces_short(start, *buf, self.0.pieces() + self.1.pieces() + self.2.pieces() + self.3.pieces() + self.4.pieces() + self.5.pieces(), self.6.pieces(), self.0.encoding() + self.1.encoding() + self.2.encoding() + self.3.encoding() + self.4.encoding() + self.5.encoding(), self.6.encoding());
                    lemma_pieces_short(start, *buf, self.0.pieces() + self.1.pieces() + self.2.pieces() + self.3.pieces() + self.4.pieces() + self.5.pieces() + self.6.pieces(), self.7.pieces(), self.0.encoding() + self.1.encoding() + self.2.encoding() + self.3.encoding() + self.4.encoding() + self.5.encoding() + self.6.encoding(), self.7.encoding());
                    lemma_pieces_short(start, *buf, self.0.pieces() + self.1.pieces() + self.2.pieces() + self.3.pieces() + self.4.pieces() + self.5.pieces() + self.6.pieces() + self.7.pieces(), self.8.pieces(), self.0.encoding() + self.1.encoding() + self.2.encoding() + self.3.encoding() + self.4.encoding() + self.5.encoding() + self.6.encoding() + self.7.encoding(), self.8.encoding());
                    lemma_pieces_short(start, *buf, self.0.pieces() + self.1.pieces() + self.2.pieces() + self.3.pieces() + self.4.pieces() + self.5.pieces() + self.6.pieces() + self.7.pieces() + self.8.pieces(), self.9.pieces(), self.0.encoding() + self.1.encoding() + self.2.encoding() + self.3.encoding() + self.4.encoding() + self.5.encoding() + self.6.encoding() + self.7.encoding() + self.8.encoding(), self.9.encoding());
                }
                return Err(e);
            },
        }
        let ghost before = *buf;
        match self.1.try_encode(buf) {
            Ok(()) => {
                proof {
                    lemma_pieces_then(start, before, *buf, self.0.pieces(), self.1.pieces(), self.0.encoding(), self.1.encoding(), true);
                }
            },
            Err(e) => {
                proof {
                    lemma_pieces_then(start, before, *buf, self.0.pieces(), self.1.pieces(), self.0.encoding(), self.1.encoding(), false);
                    lemma_pieces_short(start, *buf, self.0.pieces() + self.1.pieces(), self.2.pieces(), self.0.encoding() + self.1.encoding(), self.2.encoding());
                    lemma_pieces_short(start, *buf, self.0.pieces() + self.1.pieces() + self.2.pieces(), self.3.pieces(), self.0.encoding() + self.1.encoding() + self.2.encoding(), self.3.encoding());
                    lemma_pieces_short(start, *buf, self.0.pieces() + self.1.pieces() + self.2.pieces() + self.3.pieces(), self.4.pieces(), self.0.encoding() + self.1.encoding() + self.2.encoding() + self.3.encoding(), self.4.encoding());
                    lemma_pieces_short(start, *buf, self.0.pieces() + self.1.pieces() + self.2.pieces() + self.3.pieces() + self.4.pieces(), self.5.pieces(), self.0.encoding() + self.1.encoding() + self.2.encoding() + self.3.encoding() + self.4.encoding(), self.5.encoding());
                    lemma_pieces_short(start, *buf, self.0.pieces() + self.1.pieces() + self.2.pieces() + self.3.pieces() + self.4.pieces() + self.5.pieces(), self.6.pieces(), self.0.encoding() + self.1.encoding() + self.2.encoding() + self.3.encoding() + self.4.encoding() + self.5.encoding(), self.6.encoding());
                    lemma_pieces_short(start, *buf, self.0.pieces() + self.1.pieces() + self.2.pieces() + self.3.pieces() + self.4.pieces() + self.5.pieces() + self.6.pieces(), self.7.pieces(), self.0.encoding() + self.1.encoding() + self.2.encoding() + self.3.encoding() + self.4.encoding() + self.5.encoding() + self.6.encoding(), self.7.encoding());
                    lemma_pieces_short(start, *buf, self.0.pieces() + self.1.pieces() + self.2.pieces() + self.3.pieces() + self.4.pieces() + self.5.pieces() + self.6.pieces() + self.7.pieces(), self.8.pieces(), self.0.encoding() + self.1.encoding() + self.2.encoding() + self.3.encoding() + self.4.encoding() + self.5.encoding() + self.6.encoding() + self.7.encoding(), self.8.encoding());
                    lemma_pieces_short(start, *buf, self.0.pieces() + self.1.pieces() + self.2.pieces() + self.3.pieces() + self.4.pieces() + self.5.pieces() + self.6.pieces() + self.7.pieces() + self.8.pieces(), self.9.pieces(), self.0.encoding() + self.1.encoding() + self.2.encoding() + self.3.encoding() + self.4.encoding() + self.5.encoding() + self.6.encoding() + self.7.encoding() + self.8.encoding(), self.9.encoding());
                }
                return Err(e);
            },
        }
        let ghost before = *buf;
        match self.2.try_encode(buf) {
            Ok(()) => {
                proof {
                    lemma_pieces_then(start, before, *buf, self.0.pieces() + self.1.pieces(), self.2.pieces(), self.0.encoding() + self.1.encoding(), self.2.encoding(), true);
                }
            },
            Err(e) => {
                proof {
                    lemma_pieces_then(start, before, *buf, self.0.pieces() + self.1.pieces(), self.2.pieces(), self.0.encoding() + self.1.encoding(), self.2.encoding(), false);
                    lemma_pieces_short(start, *buf, self.0.pieces() + self.1.pieces() + self.2.pieces(), self.3.pieces(), self.0.encoding() + self.1.encoding() + self.2.encoding(), self.3.encoding());
                    lemma_pieces_short(start, *buf, self.0.pieces() + self.1.pieces() + self.2.pieces() + self.3.pieces(), self.4.pieces(), self.0.encoding() + self.1.encoding() + self.2.encoding() + self.3.encoding(), self.4.encoding());
                    lemma_pieces_short(start, *buf, self.0.pieces() + self.1.pieces() + self.2.pieces() + self.3.pieces() + self.4.pieces(), self.5.pieces(), self.0.encoding() + self.1.encoding() + self.2.encoding() + self.3.encoding() + self.4.encoding(), self.5.encoding());
                    lemma_pieces_short(start, *buf, self.0.pieces() + self.1.pieces() + self.2.pieces() + self.3.pieces() + self.4.pieces() + self.5.pieces(), self.6.pieces(), self.0.encoding() + self.1.encoding() + self.2.encoding() + self.3.encoding() + self.4.encoding() + self.5.encoding(), self.6.encoding());
                    lemma_pieces_short(start, *buf, self.0.pieces() + self.1.pieces() + self.2.pieces() + self.3.pieces() + self.4.pieces() + self.5.pieces() + self.6.pieces(), self.7.pieces(), self.0.encoding() + self.1.encoding() + self.2.encoding() + self.3.encoding() + self.4.encoding() + self.5.encoding() + self.6.encoding(), self.7.encoding());
                    lemma_pieces_short(start, *buf, self.0.pieces() + self.1.pieces() + self.2.pieces() + self.3.pieces() + self.4.pieces() + self.5.pieces() + self.6.pieces() + self.7.pieces(), self.8.pieces(), self.0.encoding() + self.1.encoding() + self.2.encoding() + self.3.encoding() + self.4.encoding() + self.5.encoding() + self.6.encoding() + self.7.encoding(), self.8.encoding());
                    lemma_pieces_short(start, *buf, self.0.pieces() + self.1.pieces() + self.2.pieces() + self.3.pieces() + self.4.pieces() + self.5.pieces() + self.6.pieces() + self.7.pieces() + self.8.pieces(), self.9.pieces(), self.0.encoding() + self.1.encoding() + self.2.encoding() + self.3.encoding() + self.4.encoding() + self.5.encoding() + self.6.encoding() + self.7.encoding() + self.8.encoding(), self.9.encoding());
                }
                return Err(e);
            },
        }
        let ghost before = *buf;
        match self.3.try_encode(buf) {
            Ok(()) => {
                proof {
                    lemma_pieces_then(start, before, *buf, self.0.pieces() + self.1.pieces() + self.2.pieces(), self.3.pieces(), self.0.encoding() + self.1.encoding() + self.2.encoding(), self.3.encoding(), true);
                }
            },
            Err(e) => {
                proof {
                    lemma_pieces_then(start, before, *buf, self.0.pieces() + self.1.pieces() + self.2.pieces(), self.3.pieces(), self.0.encoding() + self.1.encoding() + self.2.encoding(), self.3.encoding(), false);
                    lemma_pieces_short(start, *buf, self.0.pieces() + self.1.pieces() + self.2.pieces() + self.3.pieces(), self.4.pieces(), self.0.encoding() + self.1.encoding() + self.2.encoding() + self.3.encoding(), self.4.encoding());
                    lemma_pieces_short(start, *buf, self.0.pieces() + self.1.pieces() + self.2.pieces() + self.3.pieces() + self.4.pieces(), self.5.pieces(), self.0.encoding() + self.1.encoding() + self.2.encoding() + self.3.encoding() + self.4.encoding(), self.5.encoding());
                    lemma_pieces_short(start, *buf, self.0.pieces() + self.1.pieces() + self.2.pieces() + self.3.pieces() + self.4.pieces() + self.5.pieces(), self.6.pieces(), self.0.encoding() + self.1.encoding() + self.2.encoding() + self.3.encoding() + self.4.encoding() + self.5.encoding(), self.6.encoding());
                    lemma_pieces_short(start, *buf, self.0.pieces() + self.1.pieces() + self.2.pieces() + self.3.pieces() + self.4.pieces() + self.5.pieces() + self.6.pieces(), self.7.pieces(), self.0.encoding() + self.1.encoding() + self.2.encoding() + self.3.encoding() + self.4.encoding() + self.5.encoding() + self.6.encoding(), self.7.encoding());
                    lemma_pieces_short(start, *buf, self.0.pieces() + self.1.pieces() + self.2.pieces() + self.3.pieces() + self.4.pieces() + self.5.pieces() + self.6.pieces() + self.7.pieces(), self.8.pieces(), self.0.encoding() + self.1.encoding() + self.2.encoding() + self.3.encoding() + self.4.encoding() + self.5.encoding() + self.6.encoding() + self.7.encoding(), self.8.encoding());
                    lemma_pieces_short(start, *buf, self.0.pieces() + self.1.pieces() + self.2.pieces() + self.3.pieces() + self.4.pieces() + self.5.pieces() + self.6.pieces() + self.7.pieces() + self.8.pieces(), self.9.pieces(), self.0.encoding() + self.1.encoding() + self.2.encoding() + self.3.encoding() + self.4.encoding() + self.5.encoding() + self.6.encoding() + self.7.encoding() + self.8.encoding(), self.9.encoding());
                }
                return Err(e);
            },
        }
        let ghost before = *buf;
        match self.4.try_encode(buf) {
            Ok(()) => {
                proof {
                    lemma_pieces_then(start, before, *buf, self.0.pieces() + self.1.pieces() + self.2.pieces() + self.3.pieces(), self.4.pieces(), self.0.encoding() + self.1.encoding() + self.2.encoding() + self.3.encoding(), self.4.encoding(), true);
                }
            },
            Err(e) => {
                proof {
                    lemma_pieces_then(start, before, *buf, self.0.pieces() + self.1.pieces() + self.2.pieces() + self.3.pieces(), self.4.pieces(), self.0.encoding() + self.1.encoding() + self.2.encoding() + self.3.encoding(), self.4.encoding(), false);
                    lemma_pieces_short(start, *buf, self.0.pieces() + self.1.pieces() + self.2.pieces() + self.3.pieces() + self.4.pieces(), self.5.pieces(), self.0.encoding() + self.1.encoding() + self.2.encoding() + self.3.encoding() + self.4.encoding(), self.5.encoding());
                    lemma_pieces_short(start, *buf, self.0.pieces() + self.1.pieces() + self.2.pieces() + self.3.pieces() + self.4.pieces() + self.5.pieces(), self.6.pieces(), self.0.encoding() + self.1.encoding() + self.2.encoding() + self.3.encoding() + self.4.encoding() + self.5.encoding(), self.6.encoding());
                    lemma_pieces_short(start, *buf, self.0.pieces() + self.1.pieces() + self.2.pieces() + self.3.pieces() + self.4.pieces() + self.5.pieces() + self.6.pieces(), self.7.pieces(), self.0.encoding() + self.1.encoding() + self.2.encoding() + self.3.encoding() + self.4.encoding() + self.5.encoding() + self.6.encoding(), self.7.encoding());
                    lemma_pieces_short(start, *buf, self.0.pieces() + self.1.pieces() + self.2.pieces() + self.3.pieces() + self.4.pieces() + self.5.pieces() + self.6.pieces() + self.7.pieces(), self.8.pieces(), self.0.encoding() + self.1.encoding() + self.2.encoding() + self.3.encoding() + self.4.encoding() + self.5.encoding() + self.6.encoding() + self.7.encoding(), self.8.encoding());
                    lemma_pieces_short(start, *buf, self.0.pieces() + self.1.pieces() + self.2.pieces() + self.3.pieces() + self.4.pieces() + self.5.pieces() + self.6.pieces() + self.7.pieces() + self.8.pieces(), self.9.pieces(), self.0.encoding() + self.1.encoding() + self.2.encoding() + self.3.encoding() + self.4.encoding() + self.5.encoding() + self.6.encoding() + self.7.encoding() + self.8.encoding(), self.9.encoding());
                }
                return Err(e);
            },
        }
        let ghost before = *buf;
        match self.5.try_encode(buf) {
            Ok(()) => {
                proof {
                    lemma_pieces_then(start, before, *buf, self.0.pieces() + self.1.pieces() + self.2.pieces() + self.3.pieces() + self.4.pieces(), self.5.pieces(), self.0.encoding() + self.1.encoding() + self.2.encoding() + self.3.encoding() + self.4.encoding(), self.5.encoding(), true);
                }
            },
            Err(e) => {
                proof {
                    lemma_pieces_then(start, before, *buf, self.0.pieces() + self.1.pieces() + self.2.pieces() + self.3.pieces() + self.4.pieces(), self.5.pieces(), self.0.encoding() + self.1.encoding() + self.2.encoding() + self.3.encoding() + self.4.encoding(), self.5.encoding(), false);
                    lemma_pieces_short(start, *buf, self.0.pieces() + self.1.pieces() + self.2.pieces() + self.3.pieces() + self.4.pieces() + self.5.pieces(), self.6.pieces(), self.0.encoding() + self.1.encoding() + self.2.encoding() + self.3.encoding() + self.4.encoding() + self.5.encoding(), self.6.encoding());
                    lemma_pieces_short(start, *buf, self.0.pieces() + self.1.pieces() + self.2.pieces() + self.3.pieces() + self.4.pieces() + self.5.pieces() + self.6.pieces(), self.7.pieces(), self.0.encoding() + self.1.encoding() + self.2.encoding() + self.3.encoding() + self.4.encoding() + self.5.encoding() + self.6.encoding(), self.7.encoding());
                    lemma_pieces_short(start, *buf, self.0.pieces() + self.1.pieces() + self.2.pieces() + self.3.pieces() + self.4.pieces() + self.5.pieces() + self.6.pieces() + self.7.pieces(), self.8.pieces(), self.0.encoding() + self.1.encoding() + self.2.encoding() + self.3.encoding() + self.4.encoding() + self.5.encoding() + self.6.encoding() + self.7.encoding(), self.8.encoding());
                    lemma_pieces_short(start, *buf, self.0.pieces() + self.1.pieces() + self.2.pieces() + self.3.pieces() + self.4.pieces() + self.5.pieces() + self.6.pieces() + self.7.pieces() + self.8.pieces(), self.9.pieces(), self.0.encoding() + self.1.encoding() + self.2.encoding() + self.3.encoding() + self.4.encoding() + self.5.encoding() + self.6.encoding() + self.7.encoding() + self.8.encoding(), self.9.encoding());
                }
                return Err(e);
            },
        }
        let ghost before = *buf;
        match self.6.try_encode(buf) {
            Ok(()) => {
                proof {
                    lemma_pieces_then(start, before, *buf, self.0.pieces() + self.1.pieces() + self.2.pieces() + self.3.pieces() + self.4.pieces() + self.5.pieces(), self.6.pieces(), self.0.encoding() + self.1.encoding() + self.2.encoding() + self.3.encoding() + self.4.encoding() + self.5.encoding(), self.6.encoding(), true);
                }
            },
            Err(e) => {
                proof {
                    lemma_pieces_then(start, before, *buf, self.0.pieces() + self.1.pieces() + self.2.pieces() + self.3.pieces() + self.4.pieces() + self.5.pieces(), self.6.pieces(), self.0.encoding() + self.1.encoding() + self.2.encoding() + self.3.encoding() + self.4.encoding() + self.5.encoding(), self.6.encoding(), false);
                    lemma_pieces_short(start, *buf, self.0.pieces() + self.1.pieces() + self.2.pieces() + self.3.pieces() + self.4.pieces() + self.5.pieces() + self.6.pieces(), self.7.pieces(), self.0.encoding() + self.1.encoding() + self.2.encoding() + self.3.encoding() + self.4.encoding() + self.5.encoding() + self.6.encoding(), self.7.encoding());
                    lemma_pieces_short(start, *buf, self.0.pieces() + self.1.pieces() + self.2.pieces() + self.3.pieces() + self.4.pieces() + self.5.pieces() + self.6.pieces() + self.7.pieces(), self.8.pieces(), self.0.encoding() + self.1.encoding() + self.2.encoding() + self.3.encoding() + self.4.encoding() + self.5.encoding() + self.6.encoding() + self.7.encoding(), self.8.encoding());
                    lemma_pieces_short(start, *buf, self.0.pieces() + self.1.pieces() + self.2.pieces() + self.3.pieces() + self.4.pieces() + self.5.pieces() + self.6.pieces() + self.7.pieces() + self.8.pieces(), self.9.pieces(), self.0.encoding() + self.1.encoding() + self.2.encoding() + self.3.encoding() + self.4.encoding() + self.5.encoding() + self.6.encoding() + self.7.encoding() + self.8.encoding(), self.9.encoding());
                }
                return Err(e);
            },
        }
        let ghost before = *buf;
        match self.7.try_encode(buf) {
            Ok(()) => {
                proof {
                    lemma_pieces_then(start, before, *buf, self.0.pieces() + self.1.pieces() + self.2.pieces() + self.3.pieces() + self.4.pieces() + self.5.pieces() + self.6.pieces(), self.7.pieces(), self.0.encoding() + self.1.encoding() + self.2.encoding() + self.3.encoding() + self.4.encoding() + self.5.encoding() + self.6.encoding(), self.7.encoding(), true);
                }
            },
            Err(e) => {
                proof {
                    lemma_pieces_then(start, before, *buf, self.0.pieces() + self.1.pieces() + self.2.pieces() + self.3.pieces() + self.4.pieces() + self.5.pieces() + self.6.pieces(), self.7.pieces(), self.0.encoding() + self.1.encoding() + self.2.encoding() + self.3.encoding() + self.4.encoding() + self.5.encoding() + self.6.encoding(), self.7.encoding(), false);
                    lemma_pieces_short(start, *buf, self.0.pieces() + self.1.pieces() + self.2.pieces() + self.3.pieces() + self.4.pieces() + self.5.pieces() + self.6.pieces() + self.7.pieces(), self.8.pieces(), self.0.encoding() + self.1.encoding() + self.2.encoding() + self.3.encoding() + self.4.encoding() + self.5.encoding() + self.6.encoding() + self.7.encoding(), self.8.encoding());
                    lemma_pieces_short(start, *buf, self.0.pieces() + self.1.pieces() + self.2.pieces() + self.3.pieces() + self.4.pieces() + self.5.pieces() + self.6.pieces() + self.7.pieces() + self.8.pieces(), self.9.pieces(), self.0.encoding() + self.1.encoding() + self.2.encoding() + self.3.encoding() + self.4.encoding() + self.5.encoding() + self.6.encoding() + self.7.encoding() + self.8.encoding(), self.9.encoding());
                }
                return Err(e);
            },
        }
        let ghost before = *buf;
        match self.8.try_encode(buf) {
            Ok(()) => {
                proof {
                    lemma_pieces_then(start, before, *buf, self.0.pieces() + self.1.pieces() + self.2.pieces() + self.3.pieces() + self.4.pieces() + self.5.pieces() + self.6.pieces() + self.7.pieces(), self.8.pieces(), self.0.encoding() + self.1.encoding() + self.2.encoding() + self.3.encoding() + self.4.encoding() + self.5.encoding() + self.6.encoding() + self.7.encoding(), self.8.encoding(), true);
                }
            },
            Err(e) => {
                proof {
                    lemma_pieces_then(start, before, *buf, self.0.pieces() + self.1.pieces() + self.2.pieces() + self.3.pieces() + self.4.pieces() + self.5.pieces() + self.6.pieces() + self.7.pieces(), self.8.pieces(), self.0.encoding() + self.1.encoding() + self.2.encoding() + self.3.encoding() + self.4.encoding() + self.5.encoding() + self.6.encoding() + self.7.encoding(), self.8.encoding(), false);
                    lemma_pieces_short(start, *buf, self.0.pieces() + self.1.pieces() + self.2.pieces() + self.3.pieces() + self.4.pieces() + self.5.pieces() + self.6.pieces() + self.7.pieces() + self.8.pieces(), self.9.pieces(), self.0.encoding() + self.1.encoding() + self.2.encoding() + self.3.encoding() + self.4.encoding() + self.5.encoding() + self.6.encoding() + self.7.encoding() + self.8.encoding(), self.9.encoding());
                }
                return Err(e);
            },
        }
        let ghost before = *buf;
        match self.9.try_encode(buf) {
            Ok(()) => {
                proof {
                    lemma_pieces_then(start, before, *buf, self.0.pieces() + self.1.pieces() + self.2.pieces() + self.3.pieces() + self.4.pieces() + self.5.pieces() + self.6.pieces() + self.7.pieces() + self.8.pieces(), self.9.pieces(), self.0.encoding() + self.1.encoding() + self.2.encoding() + self.3.encoding() + self.4.encoding() + self.5.encoding() + self.6.encoding() + self.7.encoding() + self.8.encoding(), self.9.encoding(), true);
                }
            },
            Err(e) => {
                proof {
                    lemma_pieces_then(start, before, *buf, self.0.pieces() + self.1.pieces() + self.2.pieces() + self.3.pieces() + self.4.pieces() + self.5.pieces() + self.6.pieces() + self.7.pieces() + self.8.pieces(), self.9.pieces(), self.0.encoding() + self.1.encoding() + self.2.encoding() + self.3.encoding() + self.4.encoding() + self.5.encoding() + self.6.encoding() + self.7.encoding() + self.8.encoding(), self.9.encoding(), false);
                }
                return Err(e);
            },
        }
        Ok(())
    }
}

impl<'buf, A: Decode<'buf>, B: Decode<'buf>, C: Decode<'buf>, D: Decode<'buf>, E: Decode<'buf>, F: Decode<'buf>, G: Decode<'buf>, H: Decode<'buf>, I: Decode<'buf>, J: Decode<'buf>> Decode<'buf> for (A, B, C, D, E, F, G, H, I, J) {
    type Model = (A::Model, B::Model, C::Model, D::Model, E::Model, F::Model, G::Model, H::Model, I::Model, J::Model);

    open spec fn model(&self) -> (A::Model, B::Model, C::Model, D::Model, E::Model, F::Model, G::Model, H::Model, I::Model, J::Model) {
        (self.0.model(), self.1.model(), self.2.model(), self.3.model(), self.4.model(), self.5.model(), self.6.model(), self.7.model(), self.8.model(), self.9.model())
    }

    open spec fn spec_decode(input: Seq<u8>) -> Decoded<(A::Model, B::Model, C::Model, D::Model, E::Model, F::Model, G::Model, H::Model, I::Model, J::Model)> {
        match A::spec_decode(input) {
            (Err(f), n0) => (Err(f), n0),
            (Ok(v0), n0) => match B::spec_decode(input.skip((n0) as int)) {
            (Err(f), n1) => (Err(f), n0 + n1),
            (Ok(v1), n1) => match C::spec_decode(input.skip((n0 + n1) as int)) {
            (Err(f), n2) => (Err(f), n0 + n1 + n2),
            (Ok(v2), n2) => match D::spec_decode(input.skip((n0 + n1 + n2) as int)) {
            (Err(f), n3) => (Err(f), n0 + n1 + n2 + n3),
            (Ok(v3), n3) => match E::spec_decode(input.skip((n0 + n1 + n2 + n3) as int)) {
            (Err(f), n4) => (Err(f), n0 + n1 + n2 + n3 + n4),
            (Ok(v4), n4) => match F::spec_decode(input.skip((n0 + n1 + n2 + n3 + n4) as int)) {
            (Err(f), n5) => (Err(f), n0 + n1 + n2 + n3 + n4 + n5),
            (Ok(v5), n5) => match G::spec_decode(input.skip((n0 + n1 + n2 + n3 + n4 + n5) as int)) {
            (Err(f), n6) => (Err(f), n0 + n1 + n2 + n3 + n4 + n5 + n6),
            (Ok(v6), n6) => match H::spec_decode(input.skip((n0 + n1 + n2 + n3 + n4 + n5 + n6) as int)) {
            (Err(f), n7) => (Err(f), n0 + n1 + n2 + n3 + n4 + n5 + n6 + n7),
            (Ok(v7), n7) => match I::spec_decode(input.skip((n0 + n1 + n2 + n3 + n4 + n5 + n6 + n7) as int)) {
            (Err(f), n8) => (Err(f), n0 + n1 + n2 + n3 + n4 + n5 + n6 + n7 + n8),
            (Ok(v8), n8) => match J::spec_decode(input.skip((n0 + n1 + n2 + n3 + n4 + n5 + n6 + n7 + n8) as int)) {
            (Err(f), n9) => (Err(f), n0 + n1 + n2 + n3 + n4 + n5 + n6 + n7 + n8 + n9),
            (Ok(v9), n9) => (Ok((v0, v1, v2, v3, v4, v5, v6, v7, v8, v9)), n0 + n1 + n2 + n3 + n4 + n5 + n6 + n7 + n8 + n9),
        },
        },
        },
        },
        },
        },
        },
        },
        },
        }
    }

    fn decode(buf: &mut Buf<'buf>) -> (r: DecodeResult<Self>) {
        let ghost start = buf@;
        let ghost mut consumed: nat = 0;
        assert(start.skip(0) =~= start);
        let ghost before = buf@;
        let r0 = buf.decode::<A>();
        proof {
            lemma_skip_skip(start, consumed, A::spec_decode(before).1);
            consumed = consumed + A::spec_decode(before).1;
        }
        let v0 = match r0 {
            Ok(v) => v,
            Err(e) => return Err(e),
        };
        let ghost before = buf@;
        let r1 = buf.decode::<B>();
        proof {
            lemma_skip_skip(start, consumed, B::spec_decode(before).1);
            consumed = consumed + B::spec_decode(before).1;
        }
        let v1 = match r1 {
            Ok(v) => v,
            Err(e) => return Err(e),
        };
        let ghost before = buf@;
        let r2 = buf.decode::<C>();
        proof {
            lemma_skip_skip(start, consumed, C::spec_decode(before).1);
            consumed = consumed + C::spec_decode(before).1;
        }
        let v2 = match r2 {
            Ok(v) => v,
            Err(e) => return Err(e),
        };
        let ghost before = buf@;
        let r3 = buf.decode::<D>();
        proof {
            lemma_skip_skip(start, consumed, D::spec_decode(before).1);
            consumed = consumed + D::spec_decode(before).1;
        }
        let v3 = match r3 {
            Ok(v) => v,
            Err(e) => return Err(e),
        };
        let ghost before = buf@;
        let r4 = buf.decode::<E>();
        proof {
            lemma_skip_skip(start, consumed, E::spec_decode(before).1);
            consumed = consumed + E::spec_decode(before).1;
        }
        let v4 = match r4 {
            Ok(v) => v,
            Err(e) => return Err(e),
        };
        let ghost before = buf@;
        let r5 = buf.decode::<F>();
        proof {
            lemma_skip_skip(start, consumed, F::spec_decode(before).1);
            consumed = consumed + F::spec_decode(before).1;
        }
        let v5 = match r5 {
            Ok(v) => v,
            Err(e) => return Err(e),
        };
        let ghost before = buf@;
        let r6 = buf.decode::<G>();
        proof {
            lemma_skip_skip(start, consumed, G::spec_decode(before).1);
            consumed = consumed + G::spec_decode(before).1;
        }
        let v6 = match r6 {
            Ok(v) => v,
            Err(e) => return Err(e),
        };
        let ghost before = buf@;
        let r7 = buf.decode::<H>();
        proof {
            lemma_skip_skip(start, consumed, H::spec_decode(before).1);
            consumed = consumed + H::spec_decode(before).1;
        }
        let v7 = match r7 {
            Ok(v) => v,
            Err(e) => return Err(e),
        };
        let ghost before = buf@;
        let r8 = buf.decode::<I>();
        proof {
            lemma_skip_skip(start, consumed, I::spec_decode(before).1);
            consumed = consumed + I::spec_decode(before).1;
        }
        let v8 = match r8 {
            Ok(v) => v,
            Err(e) => return Err(e),
        };
        let ghost before = buf@;
        let r9 = buf.decode::<J>();
        proof {
            lemma_skip_skip(start, consumed, J::spec_decode(before).1);
            consumed = consumed + J::spec_decode(before).1;
        }
        let v9 = match r9 {
            Ok(v) => v,
            Err(e) => return Err(e),
        };
        Ok((v0, v1, v2, v3, v4, v5, v6, v7, v8, v9))
    }
}

impl<A: Encode, B: Encode, C: Encode, D: Encode, E: Encode, F: Encode, G: Encode, H: Encode, I: Encode, J: Encode, K: Encode> Encode for (A, B, C, D, E, F, G, H, I, J, K) {
    open spec fn encoding(&self) -> Seq<u8> {
        self.0.encoding() + self.1.encoding() + self.2.encoding() + self.3.encoding() + self.4.encoding() + self.5.encoding() + self.6.encoding() + self.7.encoding() + self.8.encoding() + self.9.encoding() + self.10.encoding()
    }

    fn len(&self) -> (n: usize) {
        let mut len: usize = 0;
        len = len + self.0.len();
        len = len + self.1.len();
        len = len + self.2.len();
        len = len + self.3.len();
        len = len + self.4.len();
        len = len + self.5.len();
        len = len + self.6.len();
        len = len + self.7.len();
        len = len + self.8.len();
        len = len + self.9.len();
        len = len + self.10.len();
        len
    }

    fn encode(&self, buf: &mut BufMut) {
        buf.encode(&self.0);
        buf.encode(&self.1);
        buf.encode(&self.2);
        buf.encode(&self.3);
        buf.encode(&self.4);
        buf.encode(&self.5);
        buf.encode(&self.6);
        buf.encode(&self.7);
        buf.encode(&self.8);
        buf.encode(&self.9);
        buf.encode(&self.10);
        
    }
}

impl<A: fixed::Encode, B: fixed::Encode, C: fixed::Encode, D: fixed::Encode, E: fixed::Encode, F: fixed::Encode, G: fixed::Encode, H: fixed::Encode, I: fixed::Encode, J: fixed::Encode, K: fixed::Encode> fixed::Encode for (A, B, C, D, E, F, G, H, I, J, K) {
    open spec fn pieces(&self) -> Seq<Seq<u8>> {
        self.0.pieces() + self.1.pieces() + self.2.pieces() + self.3.pieces() + self.4.pieces() + self.5.pieces() + self.6.pieces() + self.7.pieces() + self.8.pieces() + self.9.pieces() + self.10.pieces()
    }

    fn try_encode(&self, buf: &mut fixed::BufMut) -> (r: EncodeResult<()>) {
        let ghost start = *buf;
        match self.0.try_encode(buf) {
            Ok(()) => {},
            Err(e) => {
                proof {
                    lemma_pieces_short(start, *buf, self.0.pieces(), self.1.pieces(), self.0.encoding(), self.1.encoding());
                    lemma_pieces_short(start, *buf, self.0.pieces() + self.1.pieces(), self.2.pieces(), self.0.encoding() + self.1.encoding(), self.2.encoding());
                    lemma_pieces_short(start, *buf, self.0.pieces() + self.1.pieces() + self.2.pieces(), self.3.pieces(), self.0.encoding() + self.1.encoding() + self.2.encoding(), self.3.encoding());
                    lemma_pieces_short(start, *buf, self.0.pieces() + self.1.pieces() + self.2.pieces() + self.3.pieces(), self.4.pieces(), self.0.encoding() + self.1.encoding() + self.2.encoding() + self.3.encoding(), self.4.encoding());
                    lemma_pieces_short(start, *buf, self.0.pieces() + self.1.pieces() + self.2.pieces() + self.3.pieces() + self.4.pieces(), self.5.pieces(), self.0.encoding() + self.1.encoding() + self.2.encoding() + self.3.encoding() + self.4.encoding(), self.5.encoding());
                    lemma_pieces_short(start, *buf, self.0.pieces() + self.1.pieces() + self.2.pieces() + self.3.pieces() + self.4.pieces() + self.5.pieces(), self.6.pieces(), self.0.encoding() + self.1.encoding() + self.2.encoding() + self.3.encoding() + self.4.encoding() + self.5.encoding(), self.6.encoding());
                    lemma_pieces_short(start, *buf, self.0.pieces() + self.1.pieces() + self.2.pieces() + self.3.pieces() + self.4.pieces() + self.5.pieces() + self.6.pieces(), self.7.pieces(), self.0.encoding() + self.1.encoding() + self.2.encoding() + self.3.encoding() + self.4.encoding() + self.5.encoding() + self.6.encoding(), self.7.encoding());
                    lemma_pieces_short(start, *buf, self.0.pieces() + self.1.pieces() + self.2.pieces() + self.3.pieces() + self.4.pieces() + self.5.pieces() + self.6.pieces() + self.7.pieces(), self.8.pieces(), self.0.encoding() + self.1.encoding() + self.2.encoding() + self.3.encoding() + self.4.encoding() + self.5.encoding() + self.6.encoding() + self.7.encoding(), self.8.encoding());
                    lemma_pieces_short(start, *buf, self.0.pieces() + self.1.pieces() + self.2.pieces() + self.3.pieces() + self.4.pieces() + self.5.pieces() + self.6.pieces() + self.7.pieces() + self.8.pieces(), self.9.pieces(), self.0.encoding() + self.1.encoding() + self.2.encoding() + self.3.encoding() + self.4.encoding() + self.5.encoding() + self.6.encoding() + self.7.encoding() + self.8.encoding(), self.9.encoding());
                    lemma_pieces_short(start, *buf, self.0.pieces() + self.1.pieces() + self.2.pieces() + self.3.pieces() + self.4.pieces() + self.5.pieces() + self.6.pieces() + self.7.pieces() + self.8.pieces() + self.9.pieces(), self.10.pieces(), self.0.encoding() + self.1.encoding() + self.2.encoding() + self.3.encoding() + self.4.encoding() + self.5.encoding() + self.6.encoding() + self.7.encoding() + self.8.encoding() + self.9.encoding(), self.10.encoding());
                }
                return Err(e);
            },
        }
        let ghost before = *buf;
        match self.1.try_encode(buf) {
            Ok(()) => {
                proof {
                    lemma_pieces_then(start, before, *buf, self.0.pieces(), self.1.pieces(), self.0.encoding(), self.1.encoding(), true);
                }
            },
            Err(e) => {
                proof {
                    lemma_pieces_then(start, before, *buf, self.0.pieces(), self.1.pieces(), self.0.encoding(), self.1.encoding(), false);
                    lemma_pieces_short(start, *buf, self.0.pieces() + self.1.pieces(), self.2.pieces(), self.0.encoding() + self.1.encoding(), self.2.encoding());
                    lemma_pieces_short(start, *buf, self.0.pieces() + self.1.pieces() + self.2.pieces(), self.3.pieces(), self.0.encoding() + self.1.encoding() + self.2.encoding(), self.3.encoding());
                    lemma_pieces_short(start, *buf, self.0.pieces() + self.1.pieces() + self.2.pieces() + self.3.pieces(), self.4.pieces(), self.0.encoding() + self.1.encoding() + self.2.encoding() + self.3.encoding(), self.4.encoding());
                    lemma_pieces_short(start, *buf, self.0.pieces() + self.1.pieces() + self.2.pieces() + self.3.pieces() + self.4.pieces(), self.5.pieces(), self.0.encoding() + self.1.encoding() + self.2.encoding() + self.3.encoding() + self.4.encoding(), self.5.encoding());
                    lemma_pieces_short(start, *buf, self.0.pieces() + self.1.pieces() + self.2.pieces() + self.3.pieces() + self.4.pieces() + self.5.pieces(), self.6.pieces(), self.0.encoding() + self.1.encoding() + self.2.encoding() + self.3.encoding() + self.4.encoding() + self.5.encoding(), self.6.encoding());
                    lemma_pieces_short(start, *buf, self.0.pieces() + self.1.pieces() + self.2.pieces() + self.3.pieces() + self.4.pieces() + self.5.pieces() + self.6.pieces(), self.7.pieces(), self.0.encoding() + self.1.encoding() + self.2.encoding() + self.3.encoding() + self.4.encoding() + self.5.encoding() + self.6.encoding(), self.7.encoding());
                    lemma_pieces_short(start, *buf, self.0.pieces() + self.1.pieces() + self.2.pieces() + self.3.pieces() + self.4.pieces() + self.5.pieces() + self.6.pieces() + self.7.pieces(), self.8.pieces(), self.0.encoding() + self.1.encoding() + self.2.encoding() + self.3.encoding() + self.4.encoding() + self.5.encoding() + self.6.encoding() + self.7.encoding(), self.8.encoding());
                    lemma_pieces_short(start, *buf, self.0.pieces() + self.1.pieces() + self.2.pieces() + self.3.pieces() + self.4.pieces() + self.5.pieces() + self.6.pieces() + self.7.pieces() + self.8.pieces(), self.9.pieces(), self.0.encoding() + self.1.encoding() + self.2.encoding() + self.3.encoding() + self.4.encoding() + self.5.encoding() + self.6.encoding() + self.7.encoding() + self.8.encoding(), self.9.encoding());
                    lemma_pieces_short(start, *buf, self.0.pieces() + self.1.pieces() + self.2.pieces() + self.3.pieces() + self.4.pieces() + self.5.pieces() + self.6.pieces() + self.7.pieces() + self.8.pieces() + self.9.pieces(), self.10.pieces(), self.0.encoding() + self.1.encoding() + self.2.encoding() + self.3.encoding() + self.4.encoding() + self.5.encoding() + self.6.encoding() + self.7.encoding() + self.8.encoding() + self.9.encoding(), self.10.encoding());
                }
                return Err(e);
            },
        }
        let ghost before = *buf;
        match self.2.try_encode(buf) {
            Ok(()) => {
                proof {
                    lemma_pieces_then(start, before, *buf, self.0.pieces() + self.1.pieces(), self.2.pieces(), self.0.encoding() + self.1.encoding(), self.2.encoding(), true);
                }
            },
            Err(e) => {
                proof {
                    lemma_pieces_then(start, before, *buf, self.0.pieces() + self.1.pieces(), self.2.pieces(), self.0.encoding() + self.1.encoding(), self.2.encoding(), false);
                    lemma_pieces_short(start, *buf, self.0.pieces() + self.1.pieces() + self.2.pieces(), self.3.pieces(), self.0.encoding() + self.1.encoding() + self.2.encoding(), self.3.encoding());
                    lemma_pieces_short(start, *buf, self.0.pieces() + self.1.pieces() + self.2.pieces() + self.3.pieces(), self.4.pieces(), self.0.encoding() + self.1.encoding() + self.2.encoding() + self.3.encoding(), self.4.encoding());
                    lemma_pieces_short(start, *buf, self.0.pieces() + self.1.pieces() + self.2.pieces() + self.3.pieces() + self.4.pieces(), self.5.pieces(), self.0.encoding() + self.1.encoding() + self.2.encoding() + self.3.encoding() + self.4.encoding(), self.5.encoding());
                    lemma_pieces_short(start, *buf, self.0.pieces() + self.1.pieces() + self.2.pieces() + self.3.pieces() + self.4.pieces() + self.5.pieces(), self.6.pieces(), self.0.encoding() + self.1.encoding() + self.2.encoding() + self.3.encoding() + self.4.encoding() + self.5.encoding(), self.6.encoding());
                    lemma_pieces_short(start, *buf, self.0.pieces() + self.1.pieces() + self.2.pieces() + self.3.pieces() + self.4.pieces() + self.5.pieces() + self.6.pieces(), self.7.pieces(), self.0.encoding() + self.1.encoding() + self.2.encoding() + self.3.encoding() + self.4.encoding() + self.5.encoding() + self.6.encoding(), self.7.encoding());
                    lemma_pieces_short(start, *buf, self.0.pieces() + self.1.pieces() + self.2.pieces() + self.3.pieces() + self.4.pieces() + self.5.pieces() + self.6.pieces() + self.7.pieces(), self.8.pieces(), self.0.encoding() + self.1.encoding() + self.2.encoding() + self.3.encoding() + self.4.encoding() + self.5.encoding() + self.6.encoding() + self.7.encoding(), self.8.encoding());
                    lemma_pieces_short(start, *buf, self.0.pieces() + self.1.pieces() + self.2.pieces() + self.3.pieces() + self.4.pieces() + self.5.pieces() + self.6.pieces() + self.7.pieces() + self.8.pieces(), self.9.pieces(), self.0.encoding() + self.1.encoding() + self.2.encoding() + self.3.encoding() + self.4.encoding() + self.5.encoding() + self.6.encoding() + self.7.encoding() + self.8.encoding(), self.9.encoding());
                    lemma_pieces_short(start, *buf, self.0.pieces() + self.1.pieces() + self.2.pieces() + self.3.pieces() + self.4.pieces() + self.5.pieces() + self.6.pieces() + self.7.pieces() + self.8.pieces() + self.9.pieces(), self.10.pieces(), self.0.encoding() + self.1.encoding() + self.2.encoding() + self.3.encoding() + self.4.encoding() + self.5.encoding() + self.6.encoding() + self.7.encoding() + self.8.encoding() + self.9.encoding(), self.10.encoding());
                }
                return Err(e);
            },
        }
        let ghost before = *buf;
        match self.3.try_encode(buf) {
            Ok(()) => {
                proof {
                    lemma_pieces_then(start, before, *buf, self.0.pieces() + self.1.pieces() + self.2.pieces(), self.3.pieces(), self.0.encoding() + self.1.encoding() + self.2.encoding(), self.3.encoding(), true);
                }
            },
            Err(e) => {
                proof {
                    lemma_pieces_then(start, before, *buf, self.0.pieces() + self.1.pieces() + self.2.pieces(), self.3.pieces(), self.0.encoding() + self.1.encoding() + self.2.encoding(), self.3.encoding(), false);
                    lemma_pieces_short(start, *buf, self.0.pieces() + self.1.pieces() + self.2.pieces() + self.3.pieces(), self.4.pieces(), self.0.encoding() + self.1.encoding() + self.2.encoding() + self.3.encoding(), self.4.encoding());
                    lemma_pieces_short(start, *buf, self.0.pieces() + self.1.pieces() + self.2.pieces() + self.3.pieces() + self.4.pieces(), self.5.pieces(), self.0.encoding() + self.1.encoding() + self.2.encoding() + self.3.encoding() + self.4.encoding(), self.5.encoding());
                    lemma_pieces_short(start, *buf, self.0.pieces() + self.1.pieces() + self.2.pieces() + self.3.pieces() + self.4.pieces() + self.5.pieces(), self.6.pieces(), self.0.encoding() + self.1.encoding() + self.2.encoding() + self.3.encoding() + self.4.encoding() + self.5.encoding(), self.6.encoding());
                    lemma_pieces_short(start, *buf, self.0.pieces() + self.1.pieces() + self.2.pieces() + self.3.pieces() + self.4.pieces() + self.5.pieces() + self.6.pieces(), self.7.pieces(), self.0.encoding() + self.1.encoding() + self.2.encoding() + self.3.encoding() + self.4.encoding() + self.5.encoding() + self.6.encoding(), self.7.encoding());
                    lemma_pieces_short(start, *buf, self.0.pieces() + self.1.pieces() + self.2.pieces() + self.3.pieces() + self.4.pieces() + self.5.pieces() + self.6.pieces() + self.7.pieces(), self.8.pieces(), self.0.encoding() + self.1.encoding() + self.2.encoding() + self.3.encoding() + self.4.encoding() + self.5.encoding() + self.6.encoding() + self.7.encoding(), self.8.encoding());
                    lemma_pieces_short(start, *buf, self.0.pieces() + self.1.pieces() + self.2.pieces() + self.3.pieces() + self.4.pieces() + self.5.pieces() + self.6.pieces() + self.7.pieces() + self.8.pieces(), self.9.pieces(), self.0.encoding() + self.1.encoding() + self.2.encoding() + self.3.encoding() + self.4.encoding() + self.5.encoding() + self.6.encoding() + self.7.encoding() + self.8.encoding(), self.9.encoding());
                    lemma_pieces_short(start, *buf, self.0.pieces() + self.1.pieces() + self.2.pieces() + self.3.pieces() + self.4.pieces() + self.5.pieces() + self.6.pieces() + self.7.pieces() + self.8.pieces() + self.9.pieces(), self.10.pieces(), self.0.encoding() + self.1.encoding() + self.2.encoding() + self.3.encoding() + self.4.encoding() + self.5.encoding() + self.6.encoding() + self.7.encoding() + self.8.encoding() + self.9.encoding(), self.10.encoding());
                }
                return Err(e);
            },
        }
        let ghost before = *buf;
        match self.4.try_encode(buf) {
            Ok(()) => {
                proof {
                    lemma_pieces_then(start, before, *buf, self.0.pieces() + self.1.pieces() + self.2.pieces() + self.3.pieces(), self.4.pieces(), self.0.encoding() + self.1.encoding() + self.2.encoding() + self.3.encoding(), self.4.encoding(), true);
                }
            },
            Err(e) => {
                proof {
                    lemma_pieces_then(start, before, *buf, self.0.pieces() + self.1.pieces() + self.2.pieces() + self.3.pieces(), self.4.pieces(), self.0.encoding() + self.1.encoding() + self.2.encoding() + self.3.encoding(), self.4.encoding(), false);
                    lemma_pieces_short(start, *buf, self.0.pieces() + self.1.pieces() + self.2.pieces() + self.3.pieces() + self.4.pieces(), self.5.pieces(), self.0.encoding() + self.1.encoding() + self.2.encoding() + self.3.encoding() + self.4.encoding(), self.5.encoding());
                    lemma_pieces_short(start, *buf, self.0.pieces() + self.1.pieces() + self.2.pieces() + self.3.pieces() + self.4.pieces() + self.5.pieces(), self.6.pieces(), self.0.encoding() + self.1.encoding() + self.2.encoding() + self.3.encoding() + self.4.encoding() + self.5.encoding(), self.6.encoding());
                    lemma_pieces_short(start, *buf, self.0.pieces() + self.1.pieces() + self.2.pieces() + self.3.pieces() + self.4.pieces() + self.5.pieces() + self.6.pieces(), self.7.pieces(), self.0.encoding() + self.1.encoding() + self.2.encoding() + self.3.encoding() + self.4.encoding() + self.5.encoding() + self.6.encoding(), self.7.encoding());
                    lemma_pieces_short(start, *buf, self.0.pieces() + self.1.pieces() + self.2.pieces() + self.3.pieces() + self.4.pieces() + self.5.pieces() + self.6.pieces() + self.7.pieces(), self.8.pieces(), self.0.encoding() + self.1.encoding() + self.2.encoding() + self.3.encoding() + self.4.encoding() + self.5.encoding() + self.6.encoding() + self.7.encoding(), self.8.encoding());
                    lemma_pieces_short(start, *buf, self.0.pieces() + self.1.pieces() + self.2.pieces() + self.3.pieces() + self.4.pieces() + self.5.pieces() + self.6.pieces() + self.7.pieces() + self.8.pieces(), self.9.pieces(), self.0.encoding() + self.1.encoding() + self.2.encoding() + self.3.encoding() + self.4.encoding() + self.5.encoding() + self.6.encoding() + self.7.encoding() + self.8.encoding(), self.9.encoding());
                    lemma_pieces_short(start, *buf, self.0.pieces() + self.1.pieces() + self.2.pieces() + self.3.pieces() + self.4.pieces() + self.5.pieces() + self.6.pieces() + self.7.pieces() + self.8.pieces() + self.9.pieces(), self.10.pieces(), self.0.encoding() + self.1.encoding() + self.2.encoding() + self.3.encoding() + self.4.encoding() + self.5.encoding() + self.6.encoding() + self.7.encoding() + self.8.encoding() + self.9.encoding(), self.10.encoding());
                }
                return Err(e);
            },
        }
        let ghost before = *buf;
        match self.5.try_encode(buf) {
            Ok(()) => {
                proof {
                    lemma_pieces_then(start, before, *buf, self.0.pieces() + self.1.pieces() + self.2.pieces() + self.3.pieces() + self.4.pieces(), self.5.pieces(), self.0.encoding() + self.1.encoding() + self.2.encoding() + self.3.encoding() + self.4.encoding(), self.5.encoding(), true);
                }
            },
            Err(e) => {
                proof {
                    lemma_pieces_then(start, before, *buf, self.0.pieces() + self.1.pieces() + self.2.pieces() + self.3.pieces() + self.4.pieces(), self.5.pieces(), self.0.encoding() + self.1.encoding() + self.2.encoding() + self.3.encoding() + self.4.encoding(), self.5.encoding(), false);
                    lemma_pieces_short(start, *buf, self.0.pieces() + self.1.pieces() + self.2.pieces() + self.3.pieces() + self.4.pieces() + self.5.pieces(), self.6.pieces(), self.0.encoding() + self.1.encoding() + self.2.encoding() + self.3.encoding() + self.4.encoding() + self.5.encoding(), self.6.encoding());
                    lemma_pieces_short(start, *buf, self.0.pieces() + self.1.pieces() + self.2.pieces() + self.3.pieces() + self.4.pieces() + self.5.pieces() + self.6.pieces(), self.7.pieces(), self.0.encoding() + self.1.encoding() + self.2.encoding() + self.3.encoding() + self.4.encoding() + self.5.encoding() + self.6.encoding(), self.7.encoding());
                    lemma_pieces_short(start, *buf, self.0.pieces() + self.1.pieces() + self.2.pieces() + self.3.pieces() + self.4.pieces() + self.5.pieces() + self.6.pieces() + self.7.pieces(), self.8.pieces(), self.0.encoding() + self.1.encoding() + self.2.encoding() + self.3.encoding() + self.4.encoding() + self.5.encoding() + self.6.encoding() + self.7.encoding(), self.8.encoding());
                    lemma_pieces_short(start, *buf, self.0.pieces() + self.1.pieces() + self.2.pieces() + self.3.pieces() + self.4.pieces() + self.5.pieces() + self.6.pieces() + self.7.pieces() + self.8.pieces(), self.9.pieces(), self.0.encoding() + self.1.encoding() + self.2.encoding() + self.3.encoding() + self.4.encoding() + self.5.encoding() + self.6.encoding() + self.7.encoding() + self.8.encoding(), self.9.encoding());
                    lemma_pieces_short(start, *buf, self.0.pieces() + self.1.pieces() + self.2.pieces() + self.3.pieces() + self.4.pieces() + self.5.pieces() + self.6.pieces() + self.7.pieces() + self.8.pieces() + self.9.pieces(), self.10.pieces(), self.0.encoding() + self.1.encoding() + self.2.encoding() + self.3.encoding() + self.4.encoding() + self.5.encoding() + self.6.encoding() + self.7.encoding() + self.8.encoding() + self.9.encoding(), self.10.encoding());
                }
                return Err(e);
            },
        }
        let ghost before = *buf;
        match self.6.try_encode(buf) {
            Ok(()) => {
                proof {
                    lemma_pieces_then(start, before, *buf, self.0.pieces() + self.1.pieces() + self.2.pieces() + self.3.pieces() + self.4.pieces() + self.5.pieces(), self.6.pieces(), self.0.encoding() + self.1.encoding() + self.2.encoding() + self.3.encoding() + self.4.encoding() + self.5.encoding(), self.6.encoding(), true);
                }
            },
            Err(e) => {
                proof {
                    lemma_pieces_then(start, before, *buf, self.0.pieces() + self.1.pieces() + self.2.pieces() + self.3.pieces() + self.4.pieces() + self.5.pieces(), self.6.pieces(), self.0.encoding() + self.1.encoding() + self.2.encoding() + self.3.encoding() + self.4.encoding() + self.5.encoding(), self.6.encoding(), false);
                    lemma_pieces_short(start, *buf, self.0.pieces() + self.1.pieces() + self.2.pieces() + self.3.pieces() + self.4.pieces() + self.5.pieces() + self.6.pieces(), self.7.pieces(), self.0.encoding() + self.1.encoding() + self.2.encoding() + self.3.encoding() + self.4.encoding() + self.5.encoding() + self.6.encoding(), self.7.encoding());
                    lemma_pieces_short(start, *buf, self.0.pieces() + self.1.pieces() + self.2.pieces() + self.3.pieces() + self.4.pieces() + self.5.pieces() + self.6.pieces() + self.7.pieces(), self.8.pieces(), self.0.encoding() + self.1.encoding() + self.2.encoding() + self.3.encoding() + self.4.encoding() + self.5.encoding() + self.6.encoding() + self.7.encoding(), self.8.encoding());
                    lemma_pieces_short(start, *buf, self.0.pieces() + self.1.pieces() + self.2.pieces() + self.3.pieces() + self.4.pieces() + self.5.pieces() + self.6.pieces() + self.7.pieces() + self.8.pieces(), self.9.pieces(), self.0.encoding() + self.1.encoding() + self.2.encoding() + self.3.encoding() + self.4.encoding() + self.5.encoding() + self.6.encoding() + self.7.encoding() + self.8.encoding(), self.9.encoding());
                    lemma_pieces_short(start, *buf, self.0.pieces() + self.1.pieces() + self.2.pieces() + self.3.pieces() + self.4.pieces() + self.5.pieces() + self.6.pieces() + self.7.pieces() + self.8.pieces() + self.9.pieces(), self.10.pieces(), self.0.encoding() + self.1.encoding() + self.2.encoding() + self.3.encoding() + self.4.encoding() + self.5.encoding() + self.6.encoding() + self.7.encoding() + self.8.encoding() + self.9.encoding(), self.10.encoding());
                }
                return Err(e);
            },
        }
        let ghost before = *buf;
        match self.7.try_encode(buf) {
            Ok(()) => {
                proof {
                    lemma_pieces_then(start, before, *buf, self.0.pieces() + self.1.pieces() + self.2.pieces() + self.3.pieces() + self.4.pieces() + self.5.pieces() + self.6.pieces(), self.7.pieces(), self.0.encoding() + self.1.encoding() + self.2.encoding() + self.3.encoding() + self.4.encoding() + self.5.encoding() + self.6.encoding(), self.7.encoding(), true);
                }
            },
            Err(e) => {
                proof {
                    lemma_pieces_then(start, before, *buf, self.0.pieces() + self.1.pieces() + self.2.pieces() + self.3.pieces() + self.4.pieces() + self.5.pieces() + self.6.pieces(), self.7.pieces(), self.0.encoding() + self.1.encoding() + self.2.encoding() + self.3.encoding() + self.4.encoding() + self.5.encoding() + self.6.encoding(), self.7.encoding(), false);
                    lemma_pieces_short(start, *buf, self.0.pieces() + self.1.pieces() + self.2.pieces() + self.3.pieces() + self.4.pieces() + self.5.pieces() + self.6.pieces() + self.7.pieces(), self.8.pieces(), self.0.encoding() + self.1.encoding() + self.2.encoding() + self.3.encoding() + self.4.encoding() + self.5.encoding() + self.6.encoding() + self.7.encoding(), self.8.encoding());
                    lemma_pieces_short(start, *buf, self.0.pieces() + self.1.pieces() + self.2.pieces() + self.3.pieces() + self.4.pieces() + self.5.pieces() + self.6.pieces() + self.7.pieces() + self.8.pieces(), self.9.pieces(), self.0.encoding() + self.1.encoding() + self.2.encoding() + self.3.encoding() + self.4.encoding() + self.5.encoding() + self.6.encoding() + self.7.encoding() + self.8.encoding(), self.9.encoding());
                    lemma_pieces_short(start, *buf, self.0.pieces() + self.1.pieces() + self.2.pieces() + self.3.pieces() + self.4.pieces() + self.5.pieces() + self.6.pieces() + self.7.pieces() + self.8.pieces() + self.9.pieces(), self.10.pieces(), self.0.encoding() + self.1.encoding() + self.2.encoding() + self.3.encoding() + self.4.encoding() + self.5.encoding() + self.6.encoding() + self.7.encoding() + self.8.encoding() + self.9.encoding(), self.10.encoding());
                }
                return Err(e);
            },
        }
        let ghost before = *buf;
        match self.8.try_encode(buf) {
            Ok(()) => {
                proof {
                    lemma_pieces_then(start, before, *buf, self.0.pieces() + self.1.pieces() + self.2.pieces() + self.3.pieces() + self.4.pieces() + self.5.pieces() + self.6.pieces() + self.7.pieces(), self.8.pieces(), self.0.encoding() + self.1.encoding() + self.2.encoding() + self.3.encoding() + self.4.encoding() + self.5.encoding() + self.6.encoding() + self.7.encoding(), self.8.encoding(), true);
                }
            },
            Err(e) => {
                proof {
                    lemma_pieces_then(start, before, *buf, self.0.pieces() + self.1.pieces() + self.2.pieces() + self.3.pieces() + self.4.pieces() + self.5.pieces() + self.6.pieces() + self.7.pieces(), self.8.pieces(), self.0.encoding() + self.1.encoding() + self.2.encoding() + self.3.encoding() + self.4.encoding() + self.5.encoding() + self.6.encoding() + self.7.encoding(), self.8.encoding(), false);
                    lemma_pieces_short(start, *buf, self.0.pieces() + self.1.pieces() + self.2.pieces() + self.3.pieces() + self.4.pieces() + self.5.pieces() + self.6.pieces() + self.7.pieces() + self.8.pieces(), self.9.pieces(), self.0.encoding() + self.1.encoding() + self.2.encoding() + self.3.encoding() + self.4.encoding() + self.5.encoding() + self.6.encoding() + self.7.encoding() + self.8.encoding(), self.9.encoding());
                    lemma_pieces_short(start, *buf, self.0.pieces() + self.1.pieces() + self.2.pieces() + self.3.pieces() + self.4.pieces() + self.5.pieces() + self.6.pieces() + self.7.pieces() + self.8.pieces() + self.9.pieces(), self.10.pieces(), self.0.encoding() + self.1.encoding() + self.2.encoding() + self.3.encoding() + self.4.encoding() + self.5.encoding() + self.6.encoding() + self.7.encoding() + self.8.encoding() + self.9.encoding(), self.10.encoding());
                }
                return Err(e);
            },
        }
        let ghost before = *buf;
        match self.9.try_encode(buf) {
            Ok(()) => {
                proof {
                    lemma_pieces_then(start, before, *buf, self.0.pieces() + self.1.pieces() + self.2.pieces() + self.3.pieces() + self.4.pieces() + self.5.pieces() + self.6.pieces() + self.7.pieces() + self.8.pieces(), self.9.pieces(), self.0.encoding() + self.1.encoding() + self.2.encoding() + self.3.encoding() + self.4.encoding() + self.5.encoding() + self.6.encoding() + self.7.encoding() + self.8.encoding(), self.9.encoding(), true);
                }
            },
            Err(e) => {
                proof {
                    lemma_pieces_then(start, before, *buf, self.0.pieces() + self.1.pieces() + self.2.pieces() + self.3.pieces() + self.4.pieces() + self.5.pieces() + self.6.pieces() + self.7.pieces() + self.8.pieces(), self.9.pieces(), self.0.encoding() + self.1.encoding() + self.2.encoding() + self.3.encoding() + self.4.encoding() + self.5.encoding() + self.6.encoding() + self.7.encoding() + self.8.encoding(), self.9.encoding(), false);
                    lemma_pieces_short(start, *buf, self.0.pieces() + self.1.pieces() + self.2.pieces() + self.3.pieces() + self.4.pieces() + self.5.pieces() + self.6.pieces() + self.7.pieces() + self.8.pieces() + self.9.pieces(), self.10.pieces(), self.0.encoding() + self.1.encoding() + self.2.encoding() + self.3.encoding() + self.4.encoding() + self.5.encoding() + self.6.encoding() + self.7.encoding() + self.8.encoding() + self.9.encoding(), self.10.encoding());
                }
                return Err(e);
            },
        }
        let ghost before = *buf;
        match self.10.try_encode(buf) {
            Ok(()) => {
                proof {
                    lemma_pieces_then(start, before, *buf, self.0.pieces() + self.1.pieces() + self.2.pieces() + self.3.pieces() + self.4.pieces() + self.5.pieces() + self.6.pieces() + self.7.pieces() + self.8.pieces() + self.9.pieces(), self.10.pieces(), self.0.encoding() + self.1.encoding() + self.2.encoding() + self.3.encoding() + self.4.encoding() + self.5.encoding() + self.6.encoding() + self.7.encoding() + self.8.encoding() + self.9.encoding(), self.10.encoding(), true);
                }
            },
            Err(e) => {
                proof {
                    lemma_pieces_then(start, before, *buf, self.0.pieces() + self.1.pieces() + self.2.pieces() + self.3.pieces() + self.4.pieces() + self.5.pieces() + self.6.pieces() + self.7.pieces() + self.8.pieces() + self.9.pieces(), self.10.pieces(), self.0.encoding() + self.1.encoding() + self.2.encoding() + self.3.encoding() + self.4.encoding() + self.5.encoding() + self.6.encoding() + self.7.encoding() + self.8.encoding() + self.9.encoding(), self.10.encoding(), false);
                }
                return Err(e);
            },
        }
        Ok(())
    }
}

impl<'buf, A: Decode<'buf>, B: Decode<'buf>, C: Decode<'buf>, D: Decode<'buf>, E: Decode<'buf>, F: Decode<'buf>, G: Decode<'buf>, H: Decode<'buf>, I: Decode<'buf>, J: Decode<'buf>, K: Decode<'buf>> Decode<'buf> for (A, B, C, D, E, F, G, H, I, J, K) {
    type Model = (A::Model, B::Model, C::Model, D::Model, E::Model, F::Model, G::Model, H::Model, I::Model, J::Model, K::Model);

    open spec fn model(&self) -> (A::Model, B::Model, C::Model, D::Model, E::Model, F::Model, G::Model, H::Model, I::Model, J::Model, K::Model) {
        (self.0.model(), self.1.model(), self.2.model(), self.3.model(), self.4.model(), self.5.model(), self.6.model(), self.7.model(), self.8.model(), self.9.model(), self.10.model())
    }

    open spec fn spec_decode(input: Seq<u8>) -> Decoded<(A::Model, B::Model, C::Model, D::Model, E::Model, F::Model, G::Model, H::Model, I::Model, J::Model, K::Model)> {
        match A::spec_decode(input) {
            (Err(f), n0) => (Err(f), n0),
            (Ok(v0), n0) => match B::spec_decode(input.skip((n0) as int)) {
            (Err(f), n1) => (Err(f), n0 + n1),
            (Ok(v1), n1) => match C::spec_decode(input.skip((n0 + n1) as int)) {
            (Err(f), n2) => (Err(f), n0 + n1 + n2),
            (Ok(v2), n2) => match D::spec_decode(input.skip((n0 + n1 + n2) as int)) {
            (Err(f), n3) => (Err(f), n0 + n1 + n2 + n3),
            (Ok(v3), n3) => match E::spec_decode(input.skip((n0 + n1 + n2 + n3) as int)) {
            (Err(f), n4) => (Err(f), n0 + n1 + n2 + n3 + n4),
            (Ok(v4), n4) => match F::spec_decode(input.skip((n0 + n1 + n2 + n3 + n4) as int)) {
            (Err(f), n5) => (Err(f), n0 + n1 + n2 + n3 + n4 + n5),
            (Ok(v5), n5) => match G::spec_decode(input.skip((n0 + n1 + n2 + n3 + n4 + n5) as int)) {
            (Err(f), n6) => (Err(f), n0 + n1 + n2 + n3 + n4 + n5 + n6),
            (Ok(v6), n6) => match H::spec_decode(input.skip((n0 + n1 + n2 + n3 + n4 + n5 + n6) as int)) {
            (Err(f), n7) => (Err(f), n0 + n1 + n2 + n3 + n4 + n5 + n6 + n7),
            (Ok(v7), n7) => match I::spec_decode(input.skip((n0 + n1 + n2 + n3 + n4 + n5 + n6 + n7) as int)) {
            (Err(f), n8) => (Err(f), n0 + n1 + n2 + n3 + n4 + n5 + n6 + n7 + n8),
            (Ok(v8), n8) => match J::spec_decode(input.skip((n0 + n1 + n2 + n3 + n4 + n5 + n6 + n7 + n8) as int)) {
            (Err(f), n9) => (Err(f), n0 + n1 + n2 + n3 + n4 + n5 + n6 + n7 + n8 + n9),
            (Ok(v9), n9) => match K::spec_decode(input.skip((n0 + n1 + n2 + n3 + n4 + n5 + n6 + n7 + n8 + n9) as int)) {
            (Err(f), n10) => (Err(f), n0 + n1 + n2 + n3 + n4 + n5 + n6 + n7 + n8 + n9 + n10),
            (Ok(v10), n10) => (Ok((v0, v1, v2, v3, v4, v5, v6, v7, v8, v9, v10)), n0 + n1 + n2 + n3 + n4 + n5 + n6 + n7 + n8 + n9 + n10),
        },
        },
        },
        },
        },
        },
        },
        },
        },
        },
        }
    }

    fn decode(buf: &mut Buf<'buf>) -> (r: DecodeResult<Self>) {
        let ghost start = buf@;
        let ghost mut consumed: nat = 0;
        assert(start.skip(0) =~= start);
        let ghost before = buf@;
        let r0 = buf.decode::<A>();
        proof {
            lemma_skip_skip(start, consumed, A::spec_decode(before).1);
            consumed = consumed + A::spec_decode(before).1;
        }
        let v0 = match r0 {
            Ok(v) => v,
            Err(e) => return Err(e),
        };
        let ghost before = buf@;
        let r1 = buf.decode::<B>();
        proof {
            lemma_skip_skip(start, consumed, B::spec_decode(before).1);
            consumed = consumed + B::spec_decode(before).1;
        }
        let v1 = match r1 {
            Ok(v) => v,
            Err(e) => return Err(e),
        };
        let ghost before = buf@;
        let r2 = buf.decode::<C>();
        proof {
            lemma_skip_skip(start, consumed, C::spec_decode(before).1);
            consumed = consumed + C::spec_decode(before).1;
        }
        let v2 = match r2 {
            Ok(v) => v,
            Err(e) => return Err(e),
        };
        let ghost before = buf@;
        let r3 = buf.decode::<D>();
        proof {
            lemma_skip_skip(start, consumed, D::spec_decode(before).1);
            consumed = consumed + D::spec_decode(before).1;
        }
        let v3 = match r3 {
            Ok(v) => v,
            Err(e) => return Err(e),
        };
        let ghost before = buf@;
        let r4 = buf.decode::<E>();
        proof {
            lemma_skip_skip(start, consumed, E::spec_decode(before).1);
            consumed = consumed + E::spec_decode(before).1;
        }
        let v4 = match r4 {
            Ok(v) => v,
            Err(e) => return Err(e),
        };
        let ghost before = buf@;
        let r5 = buf.decode::<F>();
        proof {
            lemma_skip_skip(start, consumed, F::spec_decode(before).1);
            consumed = consumed + F::spec_decode(before).1;
        }
        let v5 = match r5 {
            Ok(v) => v,
            Err(e) => return Err(e),
        };
        let ghost before = buf@;
        let r6 = buf.decode::<G>();
        proof {
            lemma_skip_skip(start, consumed, G::spec_decode(before).1);
            consumed = consumed + G::spec_decode(before).1;
        }
        let v6 = match r6 {
            Ok(v) => v,
            Err(e) => return Err(e),
        };
        let ghost before = buf@;
        let r7 = buf.decode::<H>();
        proof {
            lemma_skip_skip(start, consumed, H::spec_decode(before).1);
            consumed = consumed + H::spec_decode(before).1;
        }
        let v7 = match r7 {
            Ok(v) => v,
            Err(e) => return Err(e),
        };
        let ghost before = buf@;
        let r8 = buf.decode::<I>();
        proof {
            lemma_skip_skip(start, consumed, I::spec_decode(before).1);
            consumed = consumed + I::spec_decode(before).1;
        }
        let v8 = match r8 {
            Ok(v) => v,
            Err(e) => return Err(e),
        };
        let ghost before = buf@;
        let r9 = buf.decode::<J>();
        proof {
            lemma_skip_skip(start, consumed, J::spec_decode(before).1);
            consumed = consumed + J::spec_decode(before).1;
        }
        let v9 = match r9 {
            Ok(v) => v,
            Err(e) => return Err(e),
        };
        let ghost before = buf@;
        let r10 = buf.decode::<K>();
        proof {
            lemma_skip_skip(start, consumed, K::spec_decode(before).1);
            consumed = consumed + K::spec_decode(before).1;
        }
        let v10 = match r10 {
            Ok(v) => v,
            Err(e) => return Err(e),
        };
        Ok((v0, v1, v2, v3, v4, v5, v6, v7, v8, v9, v10))
    }
}

impl<A: Encode, B: Encode, C: Encode, D: Encode, E: Encode, F: Encode, G: Encode, H: Encode, I: Encode, J: Encode, K: Encode, L: Encode> Encode for (A, B, C, D, E, F, G, H, I, J, K, L) {
    open spec fn encoding(&self) -> Seq<u8> {
        self.0.encoding() + self.1.encoding() + self.2.encoding() + self.3.encoding() + self.4.encoding() + self.5.encoding() + self.6.encoding() + self.7.encoding() + self.8.encoding() + self.9.encoding() + self.10.encoding() + self.11.encoding()
    }

    fn len(&self) -> (n: usize) {
        let mut len: usize = 0;
        len = len + self.0.len();
        len = len + self.1.len();
        len = len + self.2.len();
        len = len + self.3.len();
        len = len + self.4.len();
        len = len + self.5.len();
        len = len + self.6.len();
        len = len + self.7.len();
        len = len + self.8.len();
        len = len + self.9.len();
        len = len + self.10.len();
        len = len + self.11.len();
        len
    }

    fn encode(&self, buf: &mut BufMut) {
        buf.encode(&self.0);
        buf.encode(&self.1);
        buf.encode(&self.2);
        buf.encode(&self.3);
        buf.encode(&self.4);
        buf.encode(&self.5);
        buf.encode(&self.6);
        buf.encode(&self.7);
        buf.encode(&self.8);
        buf.encode(&self.9);
        buf.encode(&self.10);
        buf.encode(&self.11);
        
    }
}

impl<A: fixed::Encode, B: fixed::Encode, C: fixed::Encode, D: fixed::Encode, E: fixed::Encode, F: fixed::Encode, G: fixed::Encode, H: fixed::Encode, I: fixed::Encode, J: fixed::Encode, K: fixed::Encode, L: fixed::Encode> fixed::Encode for (A, B, C, D, E, F, G, H, I, J, K, L) {
    open spec fn pieces(&self) -> Seq<Seq<u8>> {
        self.0.pieces() + self.1.pieces() + self.2.pieces() + self.3.pieces() + self.4.pieces() + self.5.pieces() + self.6.pieces() + self.7.pieces() + self.8.pieces() + self.9.pieces() + self.10.pieces() + self.11.pieces()
    }

    fn try_encode(&self, buf: &mut fixed::BufMut) -> (r: EncodeResult<()>) {
        let ghost start = *buf;
        match self.0.try_encode(buf) {
            Ok(()) => {},
            Err(e) => {
                proof {
                    lemma_pieces_short(start, *buf, self.0.pieces(), self.1.pieces(), self.0.encoding(), self.1.encoding());
                    lemma_pieces_short(start, *buf, self.0.pieces() + self.1.pieces(), self.2.pieces(), self.0.encoding() + self.1.encoding(), self.2.encoding());
                    lemma_pieces_short(start, *buf, self.0.pieces() + self.1.pieces() + self.2.pieces(), self.3.pieces(), self.0.encoding() + self.1.encoding() + self.2.encoding(), self.3.encoding());
                    lemma_pieces_short(start, *buf, self.0.pieces() + self.1.pieces() + self.2.pieces() + self.3.pieces(), self.4.pieces(), self.0.encoding() + self.1.encoding() + self.2.encoding() + self.3.encoding(), self.4.encoding());
                    lemma_pieces_short(start, *buf, self.0.pieces() + self.1.pieces() + self.2.pieces() + self.3.pieces() + self.4.pieces(), self.5.pieces(), self.0.encoding() + self.1.encoding() + self.2.encoding() + self.3.encoding() + self.4.encoding(), self.5.encoding());
                    lemma_pieces_short(start, *buf, self.0.pieces() + self.1.pieces() + self.2.pieces() + self.3.pieces() + self.4.pieces() + self.5.pieces(), self.6.pieces(), self.0.encoding() + self.1.encoding() + self.2.encoding() + self.3.encoding() + self.4.encoding() + self.5.encoding(), self.6.encoding());
                    lemma_pieces_short(start, *buf, self.0.pieces() + self.1.pieces() + self.2.pieces() + self.3.pieces() + self.4.pieces() + self.5.pieces() + self.6.pieces(), self.7.pieces(), self.0.encoding() + self.1.encoding() + self.2.encoding() + self.3.encoding() + self.4.encoding() + self.5.encoding() + self.6.encoding(), self.7.encoding());
                    lemma_pieces_short(start, *buf, self.0.pieces() + self.1.pieces() + self.2.pieces() + self.3.pieces() + self.4.pieces() + self.5.pieces() + self.6.pieces() + self.7.pieces(), self.8.pieces(), self.0.encoding() + self.1.encoding() + self.2.encoding() + self.3.encoding() + self.4.encoding() + self.5.encoding() + self.6.encoding() + self.7.encoding(), self.8.encoding());
                    lemma_pieces_short(start, *buf, self.0.pieces() + self.1.pieces() + self.2.pieces() + self.3.pieces() + self.4.pieces() + self.5.pieces() + self.6.pieces() + self.7.pieces() + self.8.pieces(), self.9.pieces(), self.0.encoding() + self.1.encoding() + self.2.encoding() + self.3.encoding() + self.4.encoding() + self.5.encoding() + self.6.encoding() + self.7.encoding() + self.8.encoding(), self.9.encoding());
                    lemma_pieces_short(start, *buf, self.0.pieces() + self.1.pieces() + self.2.pieces() + self.3.pieces() + self.4.pieces() + self.5.pieces() + self.6.pieces() + self.7.pieces() + self.8.pieces() + self.9.pieces(), self.10.pieces(), self.0.encoding() + self.1.encoding() + self.2.encoding() + self.3.encoding() + self.4.encoding() + self.5.encoding() + self.6.encoding() + self.7.encoding() + self.8.encoding() + self.9.encoding(), self.10.encoding());
                    lemma_pieces_short(start, *buf, self.0.pieces() + self.1.pieces() + self.2.pieces() + self.3.pieces() + self.4.pieces() + self.5.pieces() + self.6.pieces() + self.7.pieces() + self.8.pieces() + self.9.pieces() + self.10.pieces(), self.11.pieces(), self.0.encoding() + self.1.encoding() + self.2.encoding() + self.3.encoding() + self.4.encoding() + self.5.encoding() + self.6.encoding() + self.7.encoding() + self.8.encoding() + self.9.encoding() + self.10.encoding(), self.11.encoding());
                }
                return Err(e);
            },
        }
        let ghost before = *buf;
        match self.1.try_encode(buf) {
            Ok(()) => {
                proof {
                    lemma_pieces_then(start, before, *buf, self.0.pieces(), self.1.pieces(), self.0.encoding(), self.1.encoding(), true);
                }
            },
            Err(e) => {
                proof {
                    lemma_pieces_then(start, before, *buf, self.0.pieces(), self.1.pieces(), self.0.encoding(), self.1.encoding(), false);
                    lemma_pieces_short(start, *buf, self.0.pieces() + self.1.pieces(), self.2.pieces(), self.0.encoding() + self.1.encoding(), self.2.encoding());
                    lemma_pieces_short(start, *buf, self.0.pieces() + self.1.pieces() + self.2.pieces(), self.3.pieces(), self.0.encoding() + self.1.encoding() + self.2.encoding(), self.3.encoding());
                    lemma_pieces_short(start, *buf, self.0.pieces() + self.1.pieces() + self.2.pieces() + self.3.pieces(), self.4.pieces(), self.0.encoding() + self.1.encoding() + self.2.encoding() + self.3.encoding(), self.4.encoding());
                    lemma_pieces_short(start, *buf, self.0.pieces() + self.1.pieces() + self.2.pieces() + self.3.pieces() + self.4.pieces(), self.5.pieces(), self.0.encoding() + self.1.encoding() + self.2.encoding() + self.3.encoding() + self.4.encoding(), self.5.encoding());
                    lemma_pieces_short(start, *buf, self.0.pieces() + self.1.pieces() + self.2.pieces() + self.3.pieces() + self.4.pieces() + self.5.pieces(), self.6.pieces(), self.0.encoding() + self.1.encoding() + self.2.encoding() + self.3.encoding() + self.4.encoding() + self.5.encoding(), self.6.encoding());
                    lemma_pieces_short(start, *buf, self.0.pieces() + self.1.pieces() + self.2.pieces() + self.3.pieces() + self.4.pieces() + self.5.pieces() + self.6.pieces(), self.7.pieces(), self.0.encoding() + self.1.encoding() + self.2.encoding() + self.3.encoding() + self.4.encoding() + self.5.encoding() + self.6.encoding(), self.7.encoding());
                    lemma_pieces_short(start, *buf, self.0.pieces() + self.1.pieces() + self.2.pieces() + self.3.pieces() + self.4.pieces() + self.5.pieces() + self.6.pieces() + self.7.pieces(), self.8.pieces(), self.0.encoding() + self.1.encoding() + self.2.encoding() + self.3.encoding() + self.4.encoding() + self.5.encoding() + self.6.encoding() + self.7.encoding(), self.8.encoding());
                    lemma_pieces_short(start, *buf, self.0.pieces() + self.1.pieces() + self.2.pieces() + self.3.pieces() + self.4.pieces() + self.5.pieces() + self.6.pieces() + self.7.pieces() + self.8.pieces(), self.9.pieces(), self.0.encoding() + self.1.encoding() + self.2.encoding() + self.3.encoding() + self.4.encoding() + self.5.encoding() + self.6.encoding() + self.7.encoding() + self.8.encoding(), self.9.encoding());
                    lemma_pieces_short(start, *buf, self.0.pieces() + self.1.pieces() + self.2.pieces() + self.3.pieces() + self.4.pieces() + self.5.pieces() + self.6.pieces() + self.7.pieces() + self.8.pieces() + self.9.pieces(), self.10.pieces(), self.0.encoding() + self.1.encoding() + self.2.encoding() + self.3.encoding() + self.4.encoding() + self.5.encoding() + self.6.encoding() + self.7.encoding() + self.8.encoding() + self.9.encoding(), self.10.encoding());
                    lemma_pieces_short(start, *buf, self.0.pieces() + self.1.pieces() + self.2.pieces() + self.3.pieces() + self.4.pieces() + self.5.pieces() + self.6.pieces() + self.7.pieces() + self.8.pieces() + self.9.pieces() + self.10.pieces(), self.11.pieces(), self.0.encoding() + self.1.encoding() + self.2.encoding() + self.3.encoding() + self.4.encoding() + self.5.encoding() + self.6.encoding() + self.7.encoding() + self.8.encoding() + self.9.encoding() + self.10.encoding(), self.11.encoding());
                }
                return Err(e);
            },
        }
        let ghost before = *buf;
        match self.2.try_encode(buf) {
            Ok(()) => {
                proof {
                    lemma_pieces_then(start, before, *buf, self.0.pieces() + self.1.pieces(), self.2.pieces(), self.0.encoding() + self.1.encoding(), self.2.encoding(), true);
                }
            },
            Err(e) => {
                proof {
                    lemma_pieces_then(start, before, *buf, self.0.pieces() + self.1.pieces(), self.2.pieces(), self.0.encoding() + self.1.encoding(), self.2.encoding(), false);
                    lemma_pieces_short(start, *buf, self.0.pieces() + self.1.pieces() + self.2.pieces(), self.3.pieces(), self.0.encoding() + self.1.encoding() + self.2.encoding(), self.3.encoding());
                    lemma_pieces_short(start, *buf, self.0.pieces() + self.1.pieces() + self.2.pieces() + self.3.pieces(), self.4.pieces(), self.0.encoding() + self.1.encoding() + self.2.encoding() + self.3.encoding(), self.4.encoding());
                    lemma_pieces_short(start, *buf, self.0.pieces() + self.1.pieces() + self.2.pieces() + self.3.pieces() + self.4.pieces(), self.5.pieces(), self.0.encoding() + self.1.encoding() + self.2.encoding() + self.3.encoding() + self.4.encoding(), self.5.encoding());
                    lemma_pieces_short(start, *buf, self.0.pieces() + self.1.pieces() + self.2.pieces() + self.3.pieces() + self.4.pieces() + self.5.pieces(), self.6.pieces(), self.0.encoding() + self.1.encoding() + self.2.encoding() + self.3.encoding() + self.4.encoding() + self.5.encoding(), self.6.encoding());
                    lemma_pieces_short(start, *buf, self.0.pieces() + self.1.pieces() + self.2.pieces() + self.3.pieces() + self.4.pieces() + self.5.pieces() + self.6.pieces(), self.7.pieces(), self.0.encoding() + self.1.encoding() + self.2.encoding() + self.3.encoding() + self.4.encoding() + self.5.encoding() + self.6.encoding(), self.7.encoding());
                    lemma_pieces_short(start, *buf, self.0.pieces() + self.1.pieces() + self.2.pieces() + self.3.pieces() + self.4.pieces() + self.5.pieces() + self.6.pieces() + self.7.pieces(), self.8.pieces(), self.0.encoding() + self.1.encoding() + self.2.encoding() + self.3.encoding() + self.4.encoding() + self.5.encoding() + self.6.encoding() + self.7.encoding(), self.8.encoding());
                    lemma_pieces_short(start, *buf, self.0.pieces() + self.1.pieces() + self.2.pieces() + self.3.pieces() + self.4.pieces() + self.5.pieces() + self.6.pieces() + self.7.pieces() + self.8.pieces(), self.9.pieces(), self.0.encoding() + self.1.encoding() + self.2.encoding() + self.3.encoding() + self.4.encoding() + self.5.encoding() + self.6.encoding() + self.7.encoding() + self.8.encoding(), self.9.encoding());
                    lemma_pieces_short(start, *buf, self.0.pieces() + self.1.pieces() + self.2.pieces() + self.3.pieces() + self.4.pieces() + self.5.pieces() + self.6.pieces() + self.7.pieces() + self.8.pieces() + self.9.pieces(), self.10.pieces(), self.0.encoding() + self.1.encoding() + self.2.encoding() + self.3.encoding() + self.4.encoding() + self.5.encoding() + self.6.encoding() + self.7.encoding() + self.8.encoding() + self.9.encoding(), self.10.encoding());
                    lemma_pieces_short(start, *buf, self.0.pieces() + self.1.pieces() + self.2.pieces() + self.3.pieces() + self.4.pieces() + self.5.pieces() + self.6.pieces() + self.7.pieces() + self.8.pieces() + self.9.pieces() + self.10.pieces(), self.11.pieces(), self.0.encoding() + self.1.encoding() + self.2.encoding() + self.3.encoding() + self.4.encoding() + self.5.encoding() + self.6.encoding() + self.7.encoding() + self.8.encoding() + self.9.encoding() + self.10.encoding(), self.11.encoding());
                }
                return Err(e);
            },
        }
        let ghost before = *buf;
        match self.3.try_encode(buf) {
            Ok(()) => {
                proof {
                    lemma_pieces_then(start, before, *buf, self.0.pieces() + self.1.pieces() + self.2.pieces(), self.3.pieces(), self.0.encoding() + self.1.encoding() + self.2.encoding(), self.3.encoding(), true);
                }
            },
            Err(e) => {
                proof {
                    lemma_pieces_then(start, before, *buf, self.0.pieces() + self.1.pieces() + self.2.pieces(), self.3.pieces(), self.0.encoding() + self.1.encoding() + self.2.encoding(), self.3.encoding(), false);
                    lemma_pieces_short(start, *buf, self.0.pieces() + self.1.pieces() + self.2.pieces() + self.3.pieces(), self.4.pieces(), self.0.encoding() + self.1.encoding() + self.2.encoding() + self.3.encoding(), self.4.encoding());
                    lemma_pieces_short(start, *buf, self.0.pieces() + self.1.pieces() + self.2.pieces() + self.3.pieces() + self.4.pieces(), self.5.pieces(), self.0.encoding() + self.1.encoding() + self.2.encoding() + self.3.encoding() + self.4.encoding(), self.5.encoding());
                    lemma_pieces_short(start, *buf, self.0.pieces() + self.1.pieces() + self.2.pieces() + self.3.pieces() + self.4.pieces() + self.5.pieces(), self.6.pieces(), self.0.encoding() + self.1.encoding() + self.2.encoding() + self.3.encoding() + self.4.encoding() + self.5.encoding(), self.6.encoding());
                    lemma_pieces_short(start, *buf, self.0.pieces() + self.1.pieces() + self.2.pieces() + self.3.pieces() + self.4.pieces() + self.5.pieces() + self.6.pieces(), self.7.pieces(), self.0.encoding() + self.1.encoding() + self.2.encoding() + self.3.encoding() + self.4.encoding() + self.5.encoding() + self.6.encoding(), self.7.encoding());
                    lemma_pieces_short(start, *buf, self.0.pieces() + self.1.pieces() + self.2.pieces() + self.3.pieces() + self.4.pieces() + self.5.pieces() + self.6.pieces() + self.7.pieces(), self.8.pieces(), self.0.encoding() + self.1.encoding() + self.2.encoding() + self.3.encoding() + self.4.encoding() + self.5.encoding() + self.6.encoding() + self.7.encoding(), self.8.encoding());
                    lemma_pieces_short(start, *buf, self.0.pieces() + self.1.pieces() + self.2.pieces() + self.3.pieces() + self.4.pieces() + self.5.pieces() + self.6.pieces() + self.7.pieces() + self.8.pieces(), self.9.pieces(), self.0.encoding() + self.1.encoding() + self.2.encoding() + self.3.encoding() + self.4.encoding() + self.5.encoding() + self.6.encoding() + self.7.encoding() + self.8.encoding(), self.9.encoding());
                    lemma_pieces_short(start, *buf, self.0.pieces() + self.1.pieces() + self.2.pieces() + self.3.pieces() + self.4.pieces() + self.5.pieces() + self.6.pieces() + self.7.pieces() + self.8.pieces() + self.9.pieces(), self.10.pieces(), self.0.encoding() + self.1.encoding() + self.2.encoding() + self.3.encoding() + self.4.encoding() + self.5.encoding() + self.6.encoding() + self.7.encoding() + self.8.encoding() + self.9.encoding(), self.10.encoding());
                    lemma_pieces_short(start, *buf, self.0.pieces() + self.1.pieces() + self.2.pieces() + self.3.pieces() + self.4.pieces() + self.5.pieces() + self.6.pieces() + self.7.pieces() + self.8.pieces() + self.9.pieces() + self.10.pieces(), self.11.pieces(), self.0.encoding() + self.1.encoding() + self.2.encoding() + self.3.encoding() + self.4.encoding() + self.5.encoding() + self.6.encoding() + self.7.encoding() + self.8.encoding() + self.9.encoding() + self.10.encoding(), self.11.encoding());
                }
                return Err(e);
            },
        }
        let ghost before = *buf;
        match self.4.try_encode(buf) {
            Ok(()) => {
                proof {
                    lemma_pieces_then(start, before, *buf, self.0.pieces() + self.1.pieces() + self.2.pieces() + self.3.pieces(), self.4.pieces(), self.0.encoding() + self.1.encoding() + self.2.encoding() + self.3.encoding(), self.4.encoding(), true);
                }
            },
            Err(e) => {
                proof {
                    lemma_pieces_then(start, before, *buf, self.0.pieces() + self.1.pieces() + self.2.pieces() + self.3.pieces(), self.4.pieces(), self.0.encoding() + self.1.encoding() + self.2.encoding() + self.3.encoding(), self.4.encoding(), false);
                    lemma_pieces_short(start, *buf, self.0.pieces() + self.1.pieces() + self.2.pieces() + self.3.pieces() + self.4.pieces(), self.5.pieces(), self.0.encoding() + self.1.encoding() + self.2.encoding() + self.3.encoding() + self.4.encoding(), self.5.encoding());
                    lemma_pieces_short(start, *buf, self.0.pieces() + self.1.pieces() + self.2.pieces() + self.3.pieces() + self.4.pieces() + self.5.pieces(), self.6.pieces(), self.0.encoding() + self.1.encoding() + self.2.encoding() + self.3.encoding() + self.4.encoding() + self.5.encoding(), self.6.encoding());
                    lemma_pieces_short(start, *buf, self.0.pieces() + self.1.pieces() + self.2.pieces() + self.3.pieces() + self.4.pieces() + self.5.pieces() + self.6.pieces(), self.7.pieces(), self.0.encoding() + self.1.encoding() + self.2.encoding() + self.3.encoding() + self.4.encoding() + self.5.encoding() + self.6.encoding(), self.7.encoding());
                    lemma_pieces_short(start, *buf, self.0.pieces() + self.1.pieces() + self.2.pieces() + self.3.pieces() + self.4.pieces() + self.5.pieces() + self.6.pieces() + self.7.pieces(), self.8.pieces(), self.0.encoding() + self.1.encoding() + self.2.encoding() + self.3.encoding() + self.4.encoding() + self.5.encoding() + self.6.encoding() + self.7.encoding(), self.8.encoding());
                    lemma_pieces_short(start, *buf, self.0.pieces() + self.1.pieces() + self.2.pieces() + self.3.pieces() + self.4.pieces() + self.5.pieces() + self.6.pieces() + self.7.pieces() + self.8.pieces(), self.9.pieces(), self.0.encoding() + self.1.encoding() + self.2.encoding() + self.3.encoding() + self.4.encoding() + self.5.encoding() + self.6.encoding() + self.7.encoding() + self.8.encoding(), self.9.encoding());
                    lemma_pieces_short(start, *buf, self.0.pieces() + self.1.pieces() + self.2.pieces() + self.3.pieces() + self.4.pieces() + self.5.pieces() + self.6.pieces() + self.7.pieces() + self.8.pieces() + self.9.pieces(), self.10.pieces(), self.0.encoding() + self.1.encoding() + self.2.encoding() + self.3.encoding() + self.4.encoding() + self.5.encoding() + self.6.encoding() + self.7.encoding() + self.8.encoding() + self.9.encoding(), self.10.encoding());
                    lemma_pieces_short(start, *buf, self.0.pieces() + self.1.pieces() + self.2.pieces() + self.3.pieces() + self.4.pieces() + self.5.pieces() + self.6.pieces() + self.7.pieces() + self.8.pieces() + self.9.pieces() + self.10.pieces(), self.11.pieces(), self.0.encoding() + self.1.encoding() + self.2.encoding() + self.3.encoding() + self.4.encoding() + self.5.encoding() + self.6.encoding() + self.7.encoding() + self.8.encoding() + self.9.encoding() + self.10.encoding(), self.11.encoding());
                }
                return Err(e);
            },
        }
        let ghost before = *buf;
        match self.5.try_encode(buf) {
            Ok(()) => {
                proof {
                    lemma_pieces_then(start, before, *buf, self.0.pieces() + self.1.pieces() + self.2.pieces() + self.3.pieces() + self.4.pieces(), self.5.pieces(), self.0.encoding() + self.1.encoding() + self.2.encoding() + self.3.encoding() + self.4.encoding(), self.5.encoding(), true);
                }
            },
            Err(e) => {
                proof {
                    lemma_pieces_then(start, before, *buf, self.0.pieces() + self.1.pieces() + self.2.pieces() + self.3.pieces() + self.4.pieces(), self.5.pieces(), self.0.encoding() + self.1.encoding() + self.2.encoding() + self.3.encoding() + self.4.encoding(), self.5.encoding(), false);
                    lemma_pieces_short(start, *buf, self.0.pieces() + self.1.pieces() + self.2.pieces() + self.3.pieces() + self.4.pieces() + self.5.pieces(), self.6.pieces(), self.0.encoding() + self.1.encoding() + self.2.encoding() + self.3.encoding() + self.4.encoding() + self.5.encoding(), self.6.encoding());
                    lemma_pieces_short(start, *buf, self.0.pieces() + self.1.pieces() + self.2.pieces() + self.3.pieces() + self.4.pieces() + self.5.pieces() + self.6.pieces(), self.7.pieces(), self.0.encoding() + self.1.encoding() + self.2.encoding() + self.3.encoding() + self.4.encoding() + self.5.encoding() + self.6.encoding(), self.7.encoding());
                    lemma_pieces_short(start, *buf, self.0.pieces() + self.1.pieces() + self.2.pieces() + self.3.pieces() + self.4.pieces() + self.5.pieces() + self.6.pieces() + self.7.pieces(), self.8.pieces(), self.0.encoding() + self.1.encoding() + self.2.encoding() + self.3.encoding() + self.4.encoding() + self.5.encoding() + self.6.encoding() + self.7.encoding(), self.8.encoding());
                    lemma_pieces_short(start, *buf, self.0.pieces() + self.1.pieces() + self.2.pieces() + self.3.pieces() + self.4.pieces() + self.5.pieces() + self.6.pieces() + self.7.pieces() + self.8.pieces(), self.9.pieces(), self.0.encoding() + self.1.encoding() + self.2.encoding() + self.3.encoding() + self.4.encoding() + self.5.encoding() + self.6.encoding() + self.7.encoding() + self.8.encoding(), self.9.encoding());
                    lemma_pieces_short(start, *buf, self.0.pieces() + self.1.pieces() + self.2.pieces() + self.3.pieces() + self.4.pieces() + self.5.pieces() + self.6.pieces() + self.7.pieces() + self.8.pieces() + self.9.pieces(), self.10.pieces(), self.0.encoding() + self.1.encoding() + self.2.encoding() + self.3.encoding() + self.4.encoding() + self.5.encoding() + self.6.encoding() + self.7.encoding() + self.8.encoding() + self.9.encoding(), self.10.encoding());
                    lemma_pieces_short(start, *buf, self.0.pieces() + self.1.pieces() + self.2.pieces() + self.3.pieces() + self.4.pieces() + self.5.pieces() + self.6.pieces() + self.7.pieces() + self.8.pieces() + self.9.pieces() + self.10.pieces(), self.11.pieces(), self.0.encoding() + self.1.encoding() + self.2.encoding() + self.3.encoding() + self.4.encoding() + self.5.encoding() + self.6.encoding() + self.7.encoding() + self.8.encoding() + self.9.encoding() + self.10.encoding(), self.11.encoding());
                }
                return Err(e);
            },
        }
        let ghost before = *buf;
        match self.6.try_encode(buf) {
            Ok(()) => {
                proof {
                    lemma_pieces_then(start, before, *buf, self.0.pieces() + self.1.pieces() + self.2.pieces() + self.3.pieces() + self.4.pieces() + self.5.pieces(), self.6.pieces(), self.0.encoding() + self.1.encoding() + self.2.encoding() + self.3.encoding() + self.4.encoding() + self.5.encoding(), self.6.encoding(), true);
                }
            },
            Err(e) => {
                proof {
                    lemma_pieces_then(start, before, *buf, self.0.pieces() + self.1.pieces() + self.2.pieces() + self.3.pieces() + self.4.pieces() + self.5.pieces(), self.6.pieces(), self.0.encoding() + self.1.encoding() + self.2.encoding() + self.3.encoding() + self.4.encoding() + self.5.encoding(), self.6.encoding(), false);
                    lemma_pieces_short(start, *buf, self.0.pieces() + self.1.pieces() + self.2.pieces() + self.3.pieces() + self.4.pieces() + self.5.pieces() + self.6.pieces(), self.7.pieces(), self.0.encoding() + self.1.encoding() + self.2.encoding() + self.3.encoding() + self.4.encoding() + self.5.encoding() + self.6.encoding(), self.7.encoding());
                    lemma_pieces_short(start, *buf, self.0.pieces() + self.1.pieces() + self.2.pieces() + self.3.pieces() + self.4.pieces() + self.5.pieces() + self.6.pieces() + self.7.pieces(), self.8.pieces(), self.0.encoding() + self.1.encoding() + self.2.encoding() + self.3.encoding() + self.4.encoding() + self.5.encoding() + self.6.encoding() + self.7.encoding(), self.8.encoding());
                    lemma_pieces_short(start, *buf, self.0.pieces() + self.1.pieces() + self.2.pieces() + self.3.pieces() + self.4.pieces() + self.5.pieces() + self.6.pieces() + self.7.pieces() + self.8.pieces(), self.9.pieces(), self.0.encoding() + self.1.encoding() + self.2.encoding() + self.3.encoding() + self.4.encoding() + self.5.encoding() + self.6.encoding() + self.7.encoding() + self.8.encoding(), self.9.encoding());
                    lemma_pieces_short(start, *buf, self.0.pieces() + self.1.pieces() + self.2.pieces() + self.3.pieces() + self.4.pieces() + self.5.pieces() + self.6.pieces() + self.7.pieces() + self.8.pieces() + self.9.pieces(), self.10.pieces(), self.0.encoding() + self.1.encoding() + self.2.encoding() + self.3.encoding() + self.4.encoding() + self.5.encoding() + self.6.encoding() + self.7.encoding() + self.8.encoding() + self.9.encoding(), self.10.encoding());
                    lemma_pieces_short(start, *buf, self.0.pieces() + self.1.pieces() + self.2.pieces() + self.3.pieces() + self.4.pieces() + self.5.pieces() + self.6.pieces() + self.7.pieces() + self.8.pieces() + self.9.pieces() + self.10.pieces(), self.11.pieces(), self.0.encoding() + self.1.encoding() + self.2.encoding() + self.3.encoding() + self.4.encoding() + self.5.encoding() + self.6.encoding() + self.7.encoding() + self.8.encoding() + self.9.encoding() + self.10.encoding(), self.11.encoding());
                }
                return Err(e);
            },
        }
        let ghost before = *buf;
        match self.7.try_encode(buf) {
            Ok(()) => {
                proof {
                    lemma_pieces_then(start, before, *buf, self.0.pieces() + self.1.pieces() + self.2.pieces() + self.3.pieces() + self.4.pieces() + self.5.pieces() + self.6.pieces(), self.7.pieces(), self.0.encoding() + self.1.encoding() + self.2.encoding() + self.3.encoding() + self.4.encoding() + self.5.encoding() + self.6.encoding(), self.7.encoding(), true);
                }
            },
            Err(e) => {
                proof {
                    lemma_pieces_then(start, before, *buf, self.0.pieces() + self.1.pieces() + self.2.pieces() + self.3.pieces() + self.4.pieces() + self.5.pieces() + self.6.pieces(), self.7.pieces(), self.0.encoding() + self.1.encoding() + self.2.encoding() + self.3.encoding() + self.4.encoding() + self.5.encoding() + self.6.encoding(), self.7.encoding(), false);
                    lemma_pieces_short(start, *buf, self.0.pieces() + self.1.pieces() + self.2.pieces() + self.3.pieces() + self.4.pieces() + self.5.pieces() + self.6.pieces() + self.7.pieces(), self.8.pieces(), self.0.encoding() + self.1.encoding() + self.2.encoding() + self.3.encoding() + self.4.encoding() + self.5.encoding() + self.6.encoding() + self.7.encoding(), self.8.encoding());
                    lemma_pieces_short(start, *buf, self.0.pieces() + self.1.pieces() + self.2.pieces() + self.3.pieces() + self.4.pieces() + self.5.pieces() + self.6.pieces() + self.7.pieces() + self.8.pieces(), self.9.pieces(), self.0.encoding() + self.1.encoding() + self.2.encoding() + self.3.encoding() + self.4.encoding() + self.5.encoding() + self.6.encoding() + self.7.encoding() + self.8.encoding(), self.9.encoding());
                    lemma_pieces_short(start, *buf, self.0.pieces() + self.1.pieces() + self.2.pieces() + self.3.pieces() + self.4.pieces() + self.5.pieces() + self.6.pieces() + self.7.pieces() + self.8.pieces() + self.9.pieces(), self.10.pieces(), self.0.encoding() + self.1.encoding() + self.2.encoding() + self.3.encoding() + self.4.encoding() + self.5.encoding() + self.6.encoding() + self.7.encoding() + self.8.encoding() + self.9.encoding(), self.10.encoding());
                    lemma_pieces_short(start, *buf, self.0.pieces() + self.1.pieces() + self.2.pieces() + self.3.pieces() + self.4.pieces() + self.5.pieces() + self.6.pieces() + self.7.pieces() + self.8.pieces() + self.9.pieces() + self.10.pieces(), self.11.pieces(), self.0.encoding() + self.1.encoding() + self.2.encoding() + self.3.encoding() + self.4.encoding() + self.5.encoding() + self.6.encoding() + self.7.encoding() + self.8.encoding() + self.9.encoding() + self.10.encoding(), self.11.encoding());
                }
                return Err(e);
            },
        }
        let ghost before = *buf;
        match self.8.try_encode(buf) {
            Ok(()) => {
                proof {
                    lemma_pieces_then(start, before, *buf, self.0.pieces() + self.1.pieces() + self.2.pieces() + self.3.pieces() + self.4.pieces() + self.5.pieces() + self.6.pieces() + self.7.pieces(), self.8.pieces(), self.0.encoding() + self.1.encoding() + self.2.encoding() + self.3.encoding() + self.4.encoding() + self.5.encoding() + self.6.encoding() + self.7.encoding(), self.8.encoding(), true);
                }
            },
            Err(e) => {
                proof {
                    lemma_pieces_then(start, before, *buf, self.0.pieces() + self.1.pieces() + self.2.pieces() + self.3.pieces() + self.4.pieces() + self.5.pieces() + self.6.pieces() + self.7.pieces(), self.8.pieces(), self.0.encoding() + self.1.encoding() + self.2.encoding() + self.3.encoding() + self.4.encoding() + self.5.encoding() + self.6.encoding() + self.7.encoding(), self.8.encoding(), false);
                    lemma_pieces_short(start, *buf, self.0.pieces() + self.1.pieces() + self.2.pieces() + self.3.pieces() + self.4.pieces() + self.5.pieces() + self.6.pieces() + self.7.pieces() + self.8.pieces(), self.9.pieces(), self.0.encoding() + self.1.encoding() + self.2.encoding() + self.3.encoding() + self.4.encoding() + self.5.encoding() + self.6.encoding() + self.7.encoding() + self.8.encoding(), self.9.encoding());
                    lemma_pieces_short(start, *buf, self.0.pieces() + self.1.pieces() + self.2.pieces() + self.3.pieces() + self.4.pieces() + self.5.pieces() + self.6.pieces() + self.7.pieces() + self.8.pieces() + self.9.pieces(), self.10.pieces(), self.0.encoding() + self.1.encoding() + self.2.encoding() + self.3.encoding() + self.4.encoding() + self.5.encoding() + self.6.encoding() + self.7.encoding() + self.8.encoding() + self.9.encoding(), self.10.encoding());
                    lemma_pieces_short(start, *buf, self.0.pieces() + self.1.pieces() + self.2.pieces() + self.3.pieces() + self.4.pieces() + self.5.pieces() + self.6.pieces() + self.7.pieces() + self.8.pieces() + self.9.pieces() + self.10.pieces(), self.11.pieces(), self.0.encoding() + self.1.encoding() + self.2.encoding() + self.3.encoding() + self.4.encoding() + self.5.encoding() + self.6.encoding() + self.7.encoding() + self.8.encoding() + self.9.encoding() + self.10.encoding(), self.11.encoding());
                }
                return Err(e);
            },
        }
        let ghost before = *buf;
        match self.9.try_encode(buf) {
            Ok(()) => {
                proof {
                    lemma_pieces_then(start, before, *buf, self.0.pieces() + self.1.pieces() + self.2.pieces() + self.3.pieces() + self.4.pieces() + self.5.pieces() + self.6.pieces() + self.7.pieces() + self.8.pieces(), self.9.pieces(), self.0.encoding() + self.1.encoding() + self.2.encoding() + self.3.encoding() + self.4.encoding() + self.5.encoding() + self.6.encoding() + self.7.encoding() + self.8.encoding(), self.9.encoding(), true);
                }
            },
            Err(e) => {
                proof {
                    lemma_pieces_then(start, before, *buf, self.0.pieces() + self.1.pieces() + self.2.pieces() + self.3.pieces() + self.4.pieces() + self.5.pieces() + self.6.pieces() + self.7.pieces() + self.8.pieces(), self.9.pieces(), self.0.encoding() + self.1.encoding() + self.2.encoding() + self.3.encoding() + self.4.encoding() + self.5.encoding() + self.6.encoding() + self.7.encoding() + self.8.encoding(), self.9.encoding(), false);
                    lemma_pieces_short(start, *buf, self.0.pieces() + self.1.pieces() + self.2.pieces() + self.3.pieces() + self.4.pieces() + self.5.pieces() + self.6.pieces() + self.7.pieces() + self.8.pieces() + self.9.pieces(), self.10.pieces(), self.0.encoding() + self.1.encoding() + self.2.encoding() + self.3.encoding() + self.4.encoding() + self.5.encoding() + self.6.encoding() + self.7.encoding() + self.8.encoding() + self.9.encoding(), self.10.encoding());
                    lemma_pieces_short(start, *buf, self.0.pieces() + self.1.pieces() + self.2.pieces() + self.3.pieces() + self.4.pieces() + self.5.pieces() + self.6.pieces() + self.7.pieces() + self.8.pieces() + self.9.pieces() + self.10.pieces(), self.11.pieces(), self.0.encoding() + self.1.encoding() + self.2.encoding() + self.3.encoding() + self.4.encoding() + self.5.encoding() + self.6.encoding() + self.7.encoding() + self.8.encoding() + self.9.encoding() + self.10.encoding(), self.11.encoding());
                }
                return Err(e);
            },
        }
        let ghost before = *buf;
        match self.10.try_encode(buf) {
            Ok(()) => {
                proof {
                    lemma_pieces_then(start, before, *buf, self.0.pieces() + self.1.pieces() + self.2.pieces() + self.3.pieces() + self.4.pieces() + self.5.pieces() + self.6.pieces() + self.7.pieces() + self.8.pieces() + self.9.pieces(), self.10.pieces(), self.0.encoding() + self.1.encoding() + self.2.encoding() + self.3.encoding() + self.4.encoding() + self.5.encoding() + self.6.encoding() + self.7.encoding() + self.8.encoding() + self.9.encoding(), self.10.encoding(), true);
                }
            },
            Err(e) => {
                proof {
                    lemma_pieces_then(start, before, *buf, self.0.pieces() + self.1.pieces() + self.2.pieces() + self.3.pieces() + self.4.pieces() + self.5.pieces() + self.6.pieces() + self.7.pieces() + self.8.pieces() + self.9.pieces(), self.10.pieces(), self.0.encoding() + self.1.encoding() + self.2.encoding() + self.3.encoding() + self.4.encoding() + self.5.encoding() + self.6.encoding() + self.7.encoding() + self.8.encoding() + self.9.encoding(), self.10.encoding(), false);
                    lemma_pieces_short(start, *buf, self.0.pieces() + self.1.pieces() + self.2.pieces() + self.3.pieces() + self.4.pieces() + self.5.pieces() + self.6.pieces() + self.7.pieces() + self.8.pieces() + self.9.pieces() + self.10.pieces(), self.11.pieces(), self.0.encoding() + self.1.encoding() + self.2.encoding() + self.3.encoding() + self.4.encoding() + self.5.encoding() + self.6.encoding() + self.7.encoding() + self.8.encoding() + self.9.encoding() + self.10.encoding(), self.11.encoding());
                }
                return Err(e);
            },
        }
        let ghost before = *buf;
        match self.11.try_encode(buf) {
            Ok(()) => {
                proof {
                    lemma_pieces_then(start, before, *buf, self.0.pieces() + self.1.pieces() + self.2.pieces() + self.3.pieces() + self.4.pieces() + self.5.pieces() + self.6.pieces() + self.7.pieces() + self.8.pieces() + self.9.pieces() + self.10.pieces(), self.11.pieces(), self.0.encoding() + self.1.encoding() + self.2.encoding() + self.3.encoding() + self.4.encoding() + self.5.encoding() + self.6.encoding() + self.7.encoding() + self.8.encoding() + self.9.encoding() + self.10.encoding(), self.11.encoding(), true);
                }
            },
            Err(e) => {
                proof {
                    lemma_pieces_then(start, before, *buf, self.0.pieces() + self.1.pieces() + self.2.pieces() + self.3.pieces() + self.4.pieces() + self.5.pieces() + self.6.pieces() + self.7.pieces() + self.8.pieces() + self.9.pieces() + self.10.pieces(), self.11.pieces(), self.0.encoding() + self.1.encoding() + self.2.encoding() + self.3.encoding() + self.4.encoding() + self.5.encoding() + self.6.encoding() + self.7.encoding() + self.8.encoding() + self.9.encoding() + self.10.encoding(), self.11.encoding(), false);
                }
                return Err(e);
            },
        }
        Ok(())
    }
}

impl<'buf, A: Decode<'buf>, B: Decode<'buf>, C: Decode<'buf>, D: Decode<'buf>, E: Decode<'buf>, F: Decode<'buf>, G: Decode<'buf>, H: Decode<'buf>, I: Decode<'buf>, J: Decode<'buf>, K: Decode<'buf>, L: Decode<'buf>> Decode<'buf> for (A, B, C, D, E, F, G, H, I, J, K, L) {
    type Model = (A::Model, B::Model, C::Model, D::Model, E::Model, F::Model, G::Model, H::Model, I::Model, J::Model, K::Model, L::Model);

    open spec fn model(&self) -> (A::Model, B::Model, C::Model, D::Model, E::Model, F::Model, G::Model, H::Model, I::Model, J::Model, K::Model, L::Model) {
        (self.0.model(), self.1.model(), self.2.model(), self.3.model(), self.4.model(), self.5.model(), self.6.model(), self.7.model(), self.8.model(), self.9.model(), self.10.model(), self.11.model())
    }

    open spec fn spec_decode(input: Seq<u8>) -> Decoded<(A::Model, B::Model, C::Model, D::Model, E::Model, F::Model, G::Model, H::Model, I::Model, J::Model, K::Model, L::Model)> {
        match A::spec_decode(input) {
            (Err(f), n0) => (Err(f), n0),
            (Ok(v0), n0) => match B::spec_decode(input.skip((n0) as int)) {
            (Err(f), n1) => (Err(f), n0 + n1),
            (Ok(v1), n1) => match C::spec_decode(input.skip((n0 + n1) as int)) {
            (Err(f), n2) => (Err(f), n0 + n1 + n2),
            (Ok(v2), n2) => match D::spec_decode(input.skip((n0 + n1 + n2) as int)) {
            (Err(f), n3) => (Err(f), n0 + n1 + n2 + n3),
            (Ok(v3), n3) => match E::spec_decode(input.skip((n0 + n1 + n2 + n3) as int)) {
            (Err(f), n4) => (Err(f), n0 + n1 + n2 + n3 + n4),
            (Ok(v4), n4) => match F::spec_decode(input.skip((n0 + n1 + n2 + n3 + n4) as int)) {
            (Err(f), n5) => (Err(f), n0 + n1 + n2 + n3 + n4 + n5),
            (Ok(v5), n5) => match G::spec_decode(input.skip((n0 + n1 + n2 + n3 + n4 + n5) as int)) {
            (Err(f), n6) => (Err(f), n0 + n1 + n2 + n3 + n4 + n5 + n6),
            (Ok(v6), n6) => match H::spec_decode(input.skip((n0 + n1 + n2 + n3 + n4 + n5 + n6) as int)) {
            (Err(f), n7) => (Err(f), n0 + n1 + n2 + n3 + n4 + n5 + n6 + n7),
            (Ok(v7), n7) => match I::spec_decode(input.skip((n0 + n1 + n2 + n3 + n4 + n5 + n6 + n7) as int)) {
            (Err(f), n8) => (Err(f), n0 + n1 + n2 + n3 + n4 + n5 + n6 + n7 + n8),
            (Ok(v8), n8) => match J::spec_decode(input.skip((n0 + n1 + n2 + n3 + n4 + n5 + n6 + n7 + n8) as int)) {
            (Err(f), n9) => (Err(f), n0 + n1 + n2 + n3 + n4 + n5 + n6 + n7 + n8 + n9),
            (Ok(v9), n9) => match K::spec_decode(input.skip((n0 + n1 + n2 + n3 + n4 + n5 + n6 + n7 + n8 + n9) as int)) {
            (Err(f), n10) => (Err(f), n0 + n1 + n2 + n3 + n4 + n5 + n6 + n7 + n8 + n9 + n10),
            (Ok(v10), n10) => match L::spec_decode(input.skip((n0 + n1 + n2 + n3 + n4 + n5 + n6 + n7 + n8 + n9 + n10) as int)) {
            (Err(f), n11) => (Err(f), n0 + n1 + n2 + n3 + n4 + n5 + n6 + n7 + n8 + n9 + n10 + n11),
            (Ok(v11), n11) => (Ok((v0, v1, v2, v3, v4, v5, v6, v7, v8, v9, v10, v11)), n0 + n1 + n2 + n3 + n4 + n5 + n6 + n7 + n8 + n9 + n10 + n11),
        },
        },
        },
        },
        },
        },
        },
        },
        },
        },
        },
        }
    }

    fn decode(buf: &mut Buf<'buf>) -> (r: DecodeResult<Self>) {
        let ghost start = buf@;
        let ghost mut consumed: nat = 0;
        assert(start.skip(0) =~= start);
        let ghost before = buf@;
        let r0 = buf.decode::<A>();
        proof {
            lemma_skip_skip(start, consumed, A::spec_decode(before).1);
            consumed = consumed + A::spec_decode(before).1;
        }
        let v0 = match r0 {
            Ok(v) => v,
            Err(e) => return Err(e),
        };
        let ghost before = buf@;
        let r1 = buf.decode::<B>();
        proof {
            lemma_skip_skip(start, consumed, B::spec_decode(before).1);
            consumed = consumed + B::spec_decode(before).1;
        }
        let v1 = match r1 {
            Ok(v) => v,
            Err(e) => return Err(e),
        };
        let ghost before = buf@;
        let r2 = buf.decode::<C>();
        proof {
            lemma_skip_skip(start, consumed, C::spec_decode(before).1);
            consumed = consumed + C::spec_decode(before).1;
        }
        let v2 = match r2 {
            Ok(v) => v,
            Err(e) => return Err(e),
        };
        let ghost before = buf@;
        let r3 = buf.decode::<D>();
        proof {
            lemma_skip_skip(start, consumed, D::spec_decode(before).1);
            consumed = consumed + D::spec_decode(before).1;
        }
        let v3 = match r3 {
            Ok(v) => v,
            Err(e) => return Err(e),
        };
        let ghost before = buf@;
        let r4 = buf.decode::<E>();
        proof {
            lemma_skip_skip(start, consumed, E::spec_decode(before).1);
            consumed = consumed + E::spec_decode(before).1;
        }
        let v4 = match r4 {
            Ok(v) => v,
            Err(e) => return Err(e),
        };
        let ghost before = buf@;
        let r5 = buf.decode::<F>();
        proof {
            lemma_skip_skip(start, consumed, F::spec_decode(before).1);
            consumed = consumed + F::spec_decode(before).1;
        }
        let v5 = match r5 {
            Ok(v) => v,
            Err(e) => return Err(e),
        };
        let ghost before = buf@;
        let r6 = buf.decode::<G>();
        proof {
            lemma_skip_skip(start, consumed, G::spec_decode(before).1);
            consumed = consumed + G::spec_decode(before).1;
        }
        let v6 = match r6 {
            Ok(v) => v,
            Err(e) => return Err(e),
        };
        let ghost before = buf@;
        let r7 = buf.decode::<H>();
        proof {
            lemma_skip_skip(start, consumed, H::spec_decode(before).1);
            consumed = consumed + H::spec_decode(before).1;
        }
        let v7 = match r7 {
            Ok(v) => v,
            Err(e) => return Err(e),
        };
        let ghost before = buf@;
        let r8 = buf.decode::<I>();
        proof {
            lemma_skip_skip(start, consumed, I::spec_decode(before).1);
            consumed = consumed + I::spec_decode(before).1;
        }
        let v8 = match r8 {
            Ok(v) => v,
            Err(e) => return Err(e),
        };
        let ghost before = buf@;
        let r9 = buf.decode::<J>();
        proof {
            lemma_skip_skip(start, consumed, J::spec_decode(before).1);
            consumed = consumed + J::spec_decode(before).1;
        }
        let v9 = match r9 {
            Ok(v) => v,
            Err(e) => return Err(e),
        };
        let ghost before = buf@;
        let r10 = buf.decode::<K>();
        proof {
            lemma_skip_skip(start, consumed, K::spec_decode(before).1);
            consumed = consumed + K::spec_decode(before).1;
        }
        let v10 = match r10 {
            Ok(v) => v,
            Err(e) => return Err(e),
        };
        let ghost before = buf@;
        let r11 = buf.decode::<L>();
        proof {
            lemma_skip_skip(start, consumed, L::spec_decode(before).1);
            consumed = consumed + L::spec_decode(before).1;
        }
        let v11 = match r11 {
            Ok(v) => v,
            Err(e) => return Err(e),
        };
        Ok((v0, v1, v2, v3, v4, v5, v6, v7, v8, v9, v10, v11))
    }
}

} // verus!
