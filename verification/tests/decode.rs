use std::borrow::Cow;
use sio2::{Buf, DecodeError, ToBytes};
use std::rc::Rc;
use std::sync::Arc;

#[test]
fn readme_decoding() {
    let bytes = [0u8, 0u8, 1u8, 0u8];
    let mut buf = Buf::new(&bytes);
    let n1: u16 = buf.decode().unwrap();
    let n2: u16 = buf.decode().unwrap();
    assert_eq!(n1, 0);
    assert_eq!(n2, 256);
    assert_eq!(buf.remaining(), 0);
}

#[test]
fn take() {
    let mut buf = Buf::new(&[0u8, 0u8, 1u8, 0u8]);
    assert!(matches!(buf.take(2), Ok(&[0u8, 0u8])));
    assert!(matches!(buf.take(2), Ok(&[1u8, 0u8])));
    assert!(matches!(buf.take(1), Err(DecodeError::UnexpectedEof)));
}

#[test]
fn take_array() {
    let mut buf = Buf::new(&[1u8, 2u8, 3u8, 4u8]);
    assert!(matches!(buf.take_array::<2>(), Ok(&[1u8, 2u8])));
    assert!(matches!(buf.take_array::<2>(), Ok(&[3u8, 4u8])));
    assert!(matches!(buf.take_array::<1>(), Err(DecodeError::UnexpectedEof)));
}

#[test]
fn decode_sequence() {
    let mut buf = Buf::new(&[0u8, 1u8, 2u8, 3u8, 4u8]);
    assert!(matches!(buf.decode::<u32>(), Ok(66_051)));
    assert!(matches!(buf.decode::<u8>(), Ok(4)));
    assert!(matches!(buf.decode::<u16>(), Err(DecodeError::UnexpectedEof)));
}

#[test]
fn failed_take_consumes_nothing() {
    let mut buf = Buf::new(&[1u8, 2u8, 3u8]);
    assert!(buf.decode::<u32>().is_err());
    assert_eq!(buf.remaining(), 3);
    assert!(matches!(buf.decode::<u16>(), Ok(0x0102)));
}

#[test]
fn signed_numbers() {
    let mut buf = Buf::new(&[0xFF, 0xFF, 0x80, 0, 0, 0]);
    assert!(matches!(buf.decode::<i16>(), Ok(-1)));
    assert!(matches!(buf.decode::<i32>(), Ok(i32::MIN)));
}

#[test]
fn scalar_errors() {
    assert!(matches!(Buf::new(&[2]).decode::<bool>(), Err(DecodeError::InvalidBool)));
    assert!(matches!(Buf::new(&[1]).decode::<bool>(), Ok(true)));
    assert!(matches!(Buf::new(&[0, 0, 0xD8, 0]).decode::<char>(), Err(DecodeError::InvalidChar)));
    assert!(matches!(Buf::new(&[0, 0x11, 0, 0]).decode::<char>(), Err(DecodeError::InvalidChar)));
    assert!(matches!(Buf::new(&[0, 0, 0, 0x41]).decode::<char>(), Ok('A')));
}

#[test]
fn strings() {
    let bytes = "héllo".to_bytes();
    let mut buf = Buf::new(&bytes);
    assert_eq!(buf.decode::<&str>().unwrap(), "héllo");
    let mut buf = Buf::new(&bytes);
    assert_eq!(buf.decode::<String>().unwrap(), String::from("héllo"));

    let bad = [0u8, 0, 0, 0, 0, 0, 0, 1, 0xFF];
    assert!(matches!(Buf::new(&bad).decode::<&str>(), Err(DecodeError::InvalidUtf8(_))));
    let short = [0u8, 0, 0, 0, 0, 0, 0, 5, b'a'];
    assert!(matches!(Buf::new(&short).decode::<&str>(), Err(DecodeError::UnexpectedEof)));
}

#[test]
fn byte_slices_are_borrowed() {
    let bytes = [0u8, 0, 0, 0, 0, 0, 0, 2, 7, 8, 9];
    let mut buf = Buf::new(&bytes);
    let s: &[u8] = buf.decode().unwrap();
    assert_eq!(s, &[7, 8]);
    assert!(core::ptr::eq(s.as_ptr(), bytes[8..].as_ptr()));
    assert_eq!(buf.remaining(), 1);
}

#[test]
fn discriminants() {
    assert!(matches!(Buf::new(&[2]).decode::<Option<u8>>(), Err(DecodeError::InvalidDiscriminant(2))));
    assert!(matches!(Buf::new(&[1, 9]).decode::<Option<u8>>(), Ok(Some(9))));
    assert!(matches!(Buf::new(&[0]).decode::<Option<u8>>(), Ok(None)));
    assert!(matches!(Buf::new(&[7]).decode::<Result<u8, u8>>(), Err(DecodeError::InvalidDiscriminant(7))));
    assert!(matches!(Buf::new(&[1, 4]).decode::<Result<u8, u8>>(), Ok(Err(4))));
    assert!(matches!(Buf::new(&[3]).decode::<sio2::Bound<u8>>(), Err(DecodeError::InvalidDiscriminant(3))));
    assert!(matches!(Buf::new(&[2]).decode::<sio2::Bound<u8>>(), Ok(sio2::Bound::Unbounded)));
    assert!(matches!(sio2::decode_ordering(&mut Buf::new(&[9])), Err(DecodeError::InvalidDiscriminant(9))));
    assert!(matches!(sio2::decode_ordering(&mut Buf::new(&[0])), Ok(core::cmp::Ordering::Less)));
}

#[test]
fn collections() {
    let v = vec![1u16, 2, 3];
    let bytes = v.to_bytes();
    assert_eq!(Buf::new(&bytes).decode::<Vec<u16>>().unwrap(), v);
    let boxed: Box<[u16]> = Buf::new(&bytes).decode().unwrap();
    assert_eq!(&*boxed, &[1, 2, 3]);
    let arr: [u16; 3] = Buf::new(&[0, 1, 0, 2, 0, 3]).decode().unwrap();
    assert_eq!(arr, [1, 2, 3]);
    let fixed: &[u8; 2] = Buf::new(&[5, 6, 7]).decode().unwrap();
    assert_eq!(fixed, &[5, 6]);
    // A length longer than the data fails once the data runs out.
    let lying = [0u8, 0, 0, 0, 0, 0, 0, 9, 0, 1];
    assert!(matches!(Buf::new(&lying).decode::<Vec<u16>>(), Err(DecodeError::UnexpectedEof)));
}

#[test]
fn roundtrip_values() {
    let value = (1u8, -2i64, Some('x'), vec![String::from("a"), String::from("bc")], Ok::<bool, u8>(true));
    let bytes = value.to_bytes();
    let mut extended = bytes.clone();
    extended.extend_from_slice(&[0xEE, 0xEE]);
    let mut buf = Buf::new(&extended);
    let back: (u8, i64, Option<char>, Vec<String>, Result<bool, u8>) = buf.decode().unwrap();
    assert_eq!(back, value);
    assert_eq!(buf.remaining(), 2);
}

#[test]
fn roundtrip_pointers() {
    let bytes = 77u32.to_bytes();
    assert_eq!(*Buf::new(&bytes).decode::<Box<u32>>().unwrap(), 77);
    assert_eq!(*Buf::new(&bytes).decode::<Rc<u32>>().unwrap(), 77);
    assert_eq!(*Buf::new(&bytes).decode::<Arc<u32>>().unwrap(), 77);
    let mut buf = Buf::new(&bytes);
    let _: core::marker::PhantomData<u64> = buf.decode().unwrap();
    assert_eq!(buf.remaining(), 4);
}

#[test]
fn point_like_struct() {
    // What a derived implementation for `struct Point { x: i32, y: i32 }` writes.
    let point = (1i32, 2i32);
    assert_eq!(point.to_bytes(), vec![0, 0, 0, 1, 0, 0, 0, 2]);
    let bytes = [0, 0, 0, 1, 0, 0, 0, 2];
    assert!(matches!(Buf::new(&bytes).decode::<(i32, i32)>(), Ok((1, 2))));
}

#[test]
fn cow_encodes_what_it_holds_and_decodes_borrowed() {
    let borrowed: Cow<str> = Cow::Borrowed("hi");
    let owned: Cow<str> = Cow::Owned("hi".to_string());
    assert_eq!(borrowed.to_bytes(), owned.to_bytes());
    assert_eq!(owned.to_bytes(), "hi".to_bytes());
    let bytes = owned.to_bytes();
    let decoded: Cow<str> = Buf::new(&bytes).decode().unwrap();
    assert!(matches!(decoded, Cow::Borrowed("hi")));
    let slice: Cow<[u8]> = Cow::Owned(vec![1, 2]);
    assert_eq!(slice.to_bytes(), vec![0, 0, 0, 0, 0, 0, 0, 2, 1, 2]);
    let bad = [0u8, 0, 0, 0, 0, 0, 0, 1, 0xFF];
    assert!(matches!(Buf::new(&bad).decode::<Cow<str>>(), Err(DecodeError::InvalidUtf8(_))));
}

#[test]
fn take_run_remaining() {
    let bytes = [1u8, 2, 3, 4, 5];
    let mut buf = Buf::new(&bytes);
    assert!(buf.take(2).is_ok());
    assert!(buf.take(4).is_err());
    assert_eq!(buf.remaining(), 3);
    assert_eq!(buf.remaining(), 3);
    assert!(buf.take(3).is_ok());
    assert_eq!(buf.remaining(), 0);
}

#[test]
fn decode_reads_back_exactly() {
    let mut bytes = (7u16, String::from("ab")).to_bytes();
    bytes.extend_from_slice(&[9, 9, 9]);
    let mut buf = Buf::new(&bytes);
    let v: (u16, String) = buf.decode().unwrap();
    assert_eq!(v, (7, String::from("ab")));
    assert_eq!(buf.remaining(), 3);
}
