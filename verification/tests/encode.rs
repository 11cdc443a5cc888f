use sio2::fixed;
use sio2::{BufMut, Overflow, ToBytes, VecExt};
use core::cmp::Ordering;
use sio2::Bound;
use std::rc::Rc;
use std::sync::Arc;

#[test]
fn readme_allocating_api() {
    let bytes: Vec<u8> = "silica".to_bytes();
    assert_eq!(bytes, vec![0, 0, 0, 0, 0, 0, 0, 6, b's', b'i', b'l', b'i', b'c', b'a']);

    let mut buf = Vec::new();
    buf.encode("silica2");
    buf.encode(&32u8);
    assert_eq!(buf.len(), 8 + 7 + 1);
    assert_eq!(&buf[8..15], b"silica2");
    assert_eq!(buf[15], 32);
}

#[test]
fn readme_non_allocating_api() {
    let mut bytes = [0u8; 8];
    {
        let mut buf = fixed::BufMut::new(&mut bytes);
        assert!(buf.encode(&123u32).is_ok());
        assert!(buf.encode(&321u32).is_ok());
        assert_eq!(buf.remaining(), 0);
    }
    assert_eq!(bytes, [0, 0, 0, 123, 0, 0, 1, 65]);
}

#[test]
fn buf_mut_put() {
    let mut bytes = Vec::new();
    let mut buf = BufMut::new(&mut bytes);
    buf.put(&[0u8; 4]);
    assert_eq!(buf.len(), 4);
    assert!(!buf.is_empty());
    assert_eq!(bytes, vec![0u8; 4]);
}

#[test]
fn buf_mut_encode() {
    let mut bytes = Vec::new();
    let mut buf = BufMut::new(&mut bytes);
    assert!(buf.is_empty());
    buf.encode(&123u64);
    assert_eq!(buf.len(), 8);
    assert_eq!(bytes, vec![0, 0, 0, 0, 0, 0, 0, 123]);
}

#[test]
fn fixed_put_run() {
    let mut bytes = [0xAAu8; 6];
    let mut buf = fixed::BufMut::new(&mut bytes);
    assert_eq!(buf.put(&[1, 2]), Ok(()));
    assert_eq!(buf.put(&[0u8; 5]), Err(Overflow));
    assert_eq!(buf.capacity(), 6);
    assert_eq!(buf.put(&[3]), Ok(()));
    assert_eq!(buf.encode(&0x0405_0607u32), Err(Overflow));
    assert_eq!(buf.capacity(), 6);
    assert_eq!(buf.len(), 3);
    assert!(buf.len() <= buf.capacity());
    assert_eq!(buf.into_filled(), &[1, 2, 3]);
}

#[test]
fn buf_mut_chains() {
    let mut bytes = Vec::new();
    BufMut::new(&mut bytes).encode(&1u8).encode(&2u16).put(&[9, 9]);
    assert_eq!(bytes, vec![1, 0, 2, 9, 9]);
}

#[test]
fn fixed_put() {
    let mut bytes = [0u8; 8];
    let mut buf = fixed::BufMut::new(&mut bytes);
    assert_eq!(buf.put(&[0u8; 4]), Ok(()));
    assert_eq!(buf.remaining(), 4);
    assert_eq!(buf.put(&[0u8; 5]), Err(Overflow));
    assert_eq!(buf.len(), 4);
}

#[test]
fn fixed_encode() {
    let mut bytes = [0u8; 8];
    let mut buf = fixed::BufMut::new(&mut bytes);
    assert_eq!(buf.encode(&123u64), Ok(()));
    assert_eq!(buf.remaining(), 0);
    assert_eq!(buf.encode(&0u8), Err(Overflow));
}

#[test]
fn fixed_capacity_and_filled() {
    let mut bytes = [7u8; 6];
    let mut buf = fixed::BufMut::new(&mut bytes);
    assert_eq!(buf.capacity(), 6);
    assert!(buf.is_empty());
    assert!(buf.encode(&0x0102u16).is_ok());
    assert_eq!(buf.into_filled(), &[1, 2]);
}

#[test]
fn fixed_overflow_midway_keeps_prefix() {
    // The first element fits, the second does not.
    let mut bytes = [0xAAu8; 6];
    {
        let mut buf = fixed::BufMut::new(&mut bytes);
        assert!(matches!(buf.encode(&(1u32, 2u32)), Err(Overflow)));
        assert_eq!(buf.len(), 4);
    }
    assert_eq!(bytes, [0, 0, 0, 1, 0xAA, 0xAA]);
}

#[test]
fn fixed_and_growable_agree() {
    let value = (Some(7u16), -2i32, "ok");
    let mut bytes = [0u8; 64];
    let mut buf = fixed::BufMut::new(&mut bytes);
    assert!(buf.encode(&value).is_ok());
    assert_eq!(buf.into_filled(), value.to_bytes().as_slice());
}

#[test]
fn vec_ext() {
    let mut buf: Vec<u8> = Vec::new();
    buf.put(&[0u8; 4]);
    buf.encode(&0u32);
    assert_eq!(buf.len(), 8);
}

#[test]
fn to_bytes_u32() {
    assert_eq!(256u32.to_bytes(), vec![0, 0, 1, 0]);
}

#[test]
fn numbers_are_big_endian() {
    assert_eq!(0x0102_0304u32.to_bytes(), vec![1, 2, 3, 4]);
    assert_eq!((-1i16).to_bytes(), vec![0xFF, 0xFF]);
    assert_eq!((-2i8).to_bytes(), vec![0xFE]);
    assert_eq!(i64::MIN.to_bytes(), vec![0x80, 0, 0, 0, 0, 0, 0, 0]);
    assert_eq!(u128::MAX.to_bytes(), vec![0xFF; 16]);
    assert_eq!(i128::MIN.to_bytes()[0], 0x80);
    assert_eq!(5usize.to_bytes(), vec![0, 0, 0, 0, 0, 0, 0, 5]);
    assert_eq!((-1isize).to_bytes(), vec![0xFF; 8]);
}

#[test]
fn len_matches_bytes() {
    assert_eq!(sio2::Encode::len(&7u64), 8);
    assert_eq!(sio2::Encode::len("abc"), 11);
    assert_eq!(sio2::Encode::len(&vec![1u16, 2, 3]), 8 + 6);
    assert_eq!(sio2::Encode::len(&[1u16, 2, 3]), 6);
    assert_eq!(sio2::Encode::len(&Some(1u32)), 5);
    assert_eq!(sio2::Encode::len(&None::<u32>), 1);
    let slice: &[u8] = &[1, 2, 3];
    assert_eq!(sio2::Encode::len(slice), 8 + 3);
    assert_eq!(sio2::Encode::len(slice), slice.to_bytes().len());
}

#[test]
fn scalars() {
    assert_eq!(true.to_bytes(), vec![1]);
    assert_eq!(false.to_bytes(), vec![0]);
    assert_eq!('A'.to_bytes(), vec![0, 0, 0, 0x41]);
    assert_eq!('é'.to_bytes(), vec![0, 0, 0, 0xE9]);
}

#[test]
fn strings_and_sequences() {
    assert_eq!(String::from("hé").to_bytes(), vec![0, 0, 0, 0, 0, 0, 0, 3, b'h', 0xC3, 0xA9]);
    assert_eq!(vec![1u8, 2].to_bytes(), vec![0, 0, 0, 0, 0, 0, 0, 2, 1, 2]);
    assert_eq!([1u8, 2].to_bytes(), vec![1, 2]);
    let empty: Vec<u32> = Vec::new();
    assert_eq!(empty.to_bytes(), vec![0; 8]);
}

#[test]
fn options_results_tuples() {
    assert_eq!(Some(5u8).to_bytes(), vec![1, 5]);
    assert_eq!(None::<u8>.to_bytes(), vec![0]);
    assert_eq!(Ok::<u8, bool>(5).to_bytes(), vec![0, 5]);
    assert_eq!(Err::<u8, bool>(true).to_bytes(), vec![1, 1]);
    assert_eq!((1u8, 2u16).to_bytes(), vec![1, 0, 2]);
    assert_eq!(().to_bytes(), Vec::<u8>::new());
    assert_eq!((1i32, 2i32).to_bytes(), vec![0, 0, 0, 1, 0, 0, 0, 2]);
}

#[test]
fn bounds_and_orderings() {
    assert_eq!(Bound::Included(3u8).to_bytes(), vec![0, 3]);
    assert_eq!(Bound::Excluded(3u8).to_bytes(), vec![1, 3]);
    assert_eq!(Bound::<u8>::Unbounded.to_bytes(), vec![2]);

    let mut bytes = Vec::new();
    let mut buf = BufMut::new(&mut bytes);
    sio2::encode_ordering(&Ordering::Less, &mut buf);
    sio2::encode_ordering(&Ordering::Equal, &mut buf);
    sio2::encode_ordering(&Ordering::Greater, &mut buf);
    assert_eq!(sio2::ordering_len(&Ordering::Less), 1);
    assert_eq!(bytes, vec![0, 1, 2]);
}

#[test]
fn pointers_encode_as_their_target() {
    assert_eq!(Box::new(3u16).to_bytes(), vec![0, 3]);
    assert_eq!(Rc::new(3u16).to_bytes(), vec![0, 3]);
    assert_eq!(Arc::new(3u16).to_bytes(), vec![0, 3]);
    assert_eq!((&3u16).to_bytes(), vec![0, 3]);
    assert_eq!(core::marker::PhantomData::<u64>.to_bytes(), Vec::<u8>::new());
}

#[test]
fn fixed_slice_after_drop() {
    let mut bytes = [0u8; 8];
    {
        let mut buf = fixed::BufMut::new(&mut bytes);
        assert_eq!(buf.encode(&123u64), Ok(()));
        assert_eq!(buf.remaining(), 0);
        assert_eq!(buf.encode(&0u8), Err(Overflow));
        assert_eq!(buf.len(), 8);
    }
    assert_eq!(bytes, [0, 0, 0, 0, 0, 0, 0, 123]);
}

#[test]
fn fixed_number_overflow_writes_nothing() {
    let mut bytes = [7u8; 3];
    {
        let mut buf = fixed::BufMut::new(&mut bytes);
        assert_eq!(buf.encode(&5u16), Ok(()));
        assert_eq!(buf.encode(&9u16), Err(Overflow));
        assert_eq!(buf.len(), 2);
    }
    assert_eq!(bytes, [0, 5, 7]);
}

#[test]
fn fixed_overflow_keeps_whole_pieces() {
    let mut bytes = [0xAAu8; 3];
    {
        let mut buf = fixed::BufMut::new(&mut bytes);
        assert_eq!(buf.encode(&Some(5u32)), Err(Overflow));
        assert_eq!(buf.len(), 1);
    }
    assert_eq!(bytes, [1, 0xAA, 0xAA]);

    let mut bytes = [0u8; 10];
    let mut buf = fixed::BufMut::new(&mut bytes);
    assert_eq!(buf.encode(&vec![1u8, 2, 3]), Err(Overflow));
    assert_eq!(buf.len(), 10);
    assert_eq!(buf.into_filled(), &[0, 0, 0, 0, 0, 0, 0, 3, 1, 2]);
}
