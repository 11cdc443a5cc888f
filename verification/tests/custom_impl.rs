use sio2::{Buf, BufMut, Decode, DecodeResult, Encode, ToBytes};

struct Point {
    x: i32,
    y: i32,
}

impl Encode for Point {
    fn len(&self) -> usize {
        let Self { x: __x, y: __y } = self;
        0usize + Encode::len(__x) + Encode::len(__y)
    }

    fn encode(&self, __buf: &mut BufMut) {
        let Self { x: __x, y: __y } = self;
        __buf.encode(__x);
        __buf.encode(__y);
    }
}

impl<'b> Decode<'b> for Point {
    type Model = ();
    fn decode(__buf: &mut Buf<'b>) -> DecodeResult<Self> {
        Ok(Self { x: __buf.decode()?, y: __buf.decode()? })
    }
}

#[test]
fn custom_impl_point() {
    let p = Point { x: 1, y: 2 };
    assert_eq!(p.to_bytes(), vec![0, 0, 0, 1, 0, 0, 0, 2]);
    let bytes = p.to_bytes();
    let q: Point = Buf::new(&bytes).decode().unwrap();
    assert_eq!((q.x, q.y), (1, 2));
}
