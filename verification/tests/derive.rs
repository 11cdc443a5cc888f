use sio2::expand::{decode, encode};
use sio2::ir::{Data, Enum, Fields, Generics, Input, InputAttrs, NamedField, Struct, UnnamedField, Variant, Variants};
use sio2::{fixed, Buf, DecodeError, ToBytes};
use sio2::__private::{
    Buf as __Buf, BufMut as __BufMut, Decode as __Decode, DecodeError as __DecodeError,
    DecodeResult as __DecodeResult, Encode as __Encode, EncodeResult as __EncodeResult,
    FixedBufMut as __FixedBufMut, FixedEncode as __FixedEncode, size_of as __size_of,
};

fn no_generics() -> Generics {
    Generics { impl_generics: String::new(), ty_generics: String::new(), where_clause: String::new() }
}

fn default_attrs() -> InputAttrs {
    InputAttrs { krate: None, borrow: None }
}

fn named(names: &[&str]) -> Fields {
    Fields::Named(names.iter().map(|n| NamedField { ident: n.to_string() }).collect())
}

fn point() -> Input {
    Input {
        attrs: default_attrs(),
        ident: "Point".to_string(),
        generics: no_generics(),
        data: Data::Struct(Struct { fields: named(&["x", "y"]) }),
    }
}

fn shape() -> Input {
    let variants = vec![
        Variant { ident: "Empty".to_string(), fields: Fields::Unit },
        Variant { ident: "Circle".to_string(), fields: Fields::Unnamed(vec![UnnamedField]) },
        Variant { ident: "Rect".to_string(), fields: named(&["w", "h"]) },
    ];
    Input {
        attrs: default_attrs(),
        ident: "Shape".to_string(),
        generics: no_generics(),
        data: Data::Enum(Enum { variants: Variants::from_variants(variants).unwrap() }),
    }
}

#[test]
fn expand_encode_struct() {
    assert_eq!(
        encode::expand(&point()),
        "const _: () = { use ::sio2::__private::{ Encode as __Encode, BufMut as __BufMut, size_of as __size_of }; \
         impl __Encode for Point  { fn len(&self) -> usize { let Self { x: __x, y: __y } = self; \
         0usize + __Encode::len(__x) + __Encode::len(__y) } \
         #[allow(unused_variables)] fn encode(&self, __buf: &mut __BufMut) { \
         let Self { x: __x, y: __y } = self; __buf.encode(__x); __buf.encode(__y); } } };"
    );
}

#[test]
fn expand_encode_enum() {
    assert_eq!(
        encode::expand(&shape()),
        "const _: () = { use ::sio2::__private::{ Encode as __Encode, BufMut as __BufMut, size_of as __size_of }; \
         impl __Encode for Shape  { fn len(&self) -> usize { __size_of::<u8>() + match self { \
         Self::Empty  => { 0usize } \
         Self::Circle (__self_0) => { 0usize + __Encode::len(__self_0) } \
         Self::Rect { w: __w, h: __h } => { 0usize + __Encode::len(__w) + __Encode::len(__h) } } } \
         #[allow(unused_variables)] fn encode(&self, __buf: &mut __BufMut) { match self { \
         Self::Empty  => { __buf.encode(&0u8); } \
         Self::Circle (__self_0) => { __buf.encode(&1u8); __buf.encode(__self_0); } \
         Self::Rect { w: __w, h: __h } => { __buf.encode(&2u8); __buf.encode(__w); __buf.encode(__h); } } } } };"
    );
}

#[test]
fn expand_fixed_encode_struct() {
    assert_eq!(
        encode::expand_fixed(&point()),
        "const _: () = { use ::sio2::__private::{ FixedEncode as __Encode, FixedBufMut as __BufMut, EncodeResult as __EncodeResult }; \
         impl __Encode for Point  { #[allow(unused_variables)] fn try_encode(&self, __buf: &mut __BufMut) -> __EncodeResult<()> { \
         let Self { x: __x, y: __y } = self; __buf.encode(__x)?; __buf.encode(__y)?; __EncodeResult::Ok(()) } } };"
    );
}

#[test]
fn expand_decode_struct_and_enum() {
    assert_eq!(
        decode::expand(&point()),
        "const _: () = { #[allow(unused_imports)] use ::sio2::__private::{ Decode as __Decode, Buf as __Buf, DecodeResult as __DecodeResult, DecodeError as __DecodeError }; \
         impl __Decode<'_> for Point  { type Model = (); fn decode(__buf: &mut __Buf<'_>) -> __DecodeResult<Self> { \
         __DecodeResult::Ok({ Self { x: __buf.decode()?, y: __buf.decode()? } }) } } };"
    );
    assert_eq!(
        decode::expand(&shape()),
        "const _: () = { #[allow(unused_imports)] use ::sio2::__private::{ Decode as __Decode, Buf as __Buf, DecodeResult as __DecodeResult, DecodeError as __DecodeError }; \
         impl __Decode<'_> for Shape  { type Model = (); fn decode(__buf: &mut __Buf<'_>) -> __DecodeResult<Self> { \
         __DecodeResult::Ok({ match __buf.decode::<u8>()? { \
         0u8 => { Self::Empty  } \
         1u8 => { Self::Circle (__buf.decode()?) } \
         2u8 => { Self::Rect { w: __buf.decode()?, h: __buf.decode()? } } \
         d => return __DecodeResult::Err(__DecodeError::InvalidDiscriminant(d as u16)), } }) } } };"
    );
}

#[test]
fn expand_with_options_and_generics() {
    let input = Input {
        attrs: InputAttrs { krate: Some("silica".to_string()), borrow: Some("'a".to_string()) },
        ident: "Foo".to_string(),
        generics: Generics {
            impl_generics: "<'a, T: Copy>".to_string(),
            ty_generics: "<'a, T>".to_string(),
            where_clause: "where T: Clone".to_string(),
        },
        data: Data::Struct(Struct { fields: Fields::Unnamed(vec![UnnamedField, UnnamedField]) }),
    };
    assert_eq!(
        decode::expand(&input),
        "const _: () = { #[allow(unused_imports)] use silica::__private::{ Decode as __Decode, Buf as __Buf, DecodeResult as __DecodeResult, DecodeError as __DecodeError }; \
         impl<'a, T: Copy> __Decode<'a> for Foo<'a, T> where T: Clone { type Model = (); fn decode(__buf: &mut __Buf<'a>) -> __DecodeResult<Self> { \
         __DecodeResult::Ok({ Self (__buf.decode()?, __buf.decode()?) }) } } };"
    );
    let unit = Input {
        attrs: default_attrs(),
        ident: "Marker".to_string(),
        generics: no_generics(),
        data: Data::Struct(Struct { fields: Fields::Unit }),
    };
    assert_eq!(
        encode::expand(&unit),
        "const _: () = { use ::sio2::__private::{ Encode as __Encode, BufMut as __BufMut, size_of as __size_of }; \
         impl __Encode for Marker  { fn len(&self) -> usize { let Self  = self; 0usize } \
         #[allow(unused_variables)] fn encode(&self, __buf: &mut __BufMut) { let Self  = self; } } };"
    );
}

#[test]
fn tuple_fields_past_nine() {
    let input = Input {
        attrs: default_attrs(),
        ident: "Wide".to_string(),
        generics: no_generics(),
        data: Data::Struct(Struct { fields: Fields::Unnamed((0..12).map(|_| UnnamedField).collect()) }),
    };
    let text = encode::expand(&input);
    assert!(text.contains("__self_9, __self_10, __self_11)"));
    assert!(text.contains("__Encode::len(__self_11) }"));
}

// The impls that the expansions above generate for `Point` and `Shape`,
// compiled as written, with the imports of their blocks at the top of this
// file.
struct Point {
    x: i32,
    y: i32,
}

impl __Encode for Point  { fn len(&self) -> usize { let Self { x: __x, y: __y } = self; 0usize + __Encode::len(__x) + __Encode::len(__y) } #[allow(unused_variables)] fn encode(&self, __buf: &mut __BufMut) { let Self { x: __x, y: __y } = self; __buf.encode(__x); __buf.encode(__y); } }
impl __FixedEncode for Point  { #[allow(unused_variables)] fn try_encode(&self, __buf: &mut __FixedBufMut) -> __EncodeResult<()> { let Self { x: __x, y: __y } = self; __buf.encode(__x)?; __buf.encode(__y)?; __EncodeResult::Ok(()) } }
impl __Decode<'_> for Point  { type Model = (); fn decode(__buf: &mut __Buf<'_>) -> __DecodeResult<Self> { __DecodeResult::Ok({ Self { x: __buf.decode()?, y: __buf.decode()? } }) } }

#[derive(Debug, PartialEq)]
enum Shape {
    Empty,
    Circle(u16),
    Rect { w: u8, h: u8 },
}

impl __Encode for Shape  { fn len(&self) -> usize { __size_of::<u8>() + match self { Self::Empty  => { 0usize } Self::Circle (__self_0) => { 0usize + __Encode::len(__self_0) } Self::Rect { w: __w, h: __h } => { 0usize + __Encode::len(__w) + __Encode::len(__h) } } } #[allow(unused_variables)] fn encode(&self, __buf: &mut __BufMut) { match self { Self::Empty  => { __buf.encode(&0u8); } Self::Circle (__self_0) => { __buf.encode(&1u8); __buf.encode(__self_0); } Self::Rect { w: __w, h: __h } => { __buf.encode(&2u8); __buf.encode(__w); __buf.encode(__h); } } } }
impl __Decode<'_> for Shape  { type Model = (); fn decode(__buf: &mut __Buf<'_>) -> __DecodeResult<Self> { __DecodeResult::Ok({ match __buf.decode::<u8>()? { 0u8 => { Self::Empty  } 1u8 => { Self::Circle (__buf.decode()?) } 2u8 => { Self::Rect { w: __buf.decode()?, h: __buf.decode()? } } d => return __DecodeResult::Err(__DecodeError::InvalidDiscriminant(d as u16)), } }) } }

#[test]
fn derived_point_round_trips() {
    let point = Point { x: 1, y: 2 };
    assert_eq!(sio2::Encode::len(&point), 8);
    assert_eq!(point.to_bytes(), vec![0, 0, 0, 1, 0, 0, 0, 2]);
    let bytes = [0u8, 0, 0, 1, 0, 0, 0, 2];
    let decoded: Point = Buf::new(&bytes).decode().unwrap();
    assert_eq!((decoded.x, decoded.y), (1, 2));

    let mut storage = [0u8; 8];
    let mut buf = fixed::BufMut::new(&mut storage);
    assert!(buf.encode(&point).is_ok());
    assert_eq!(buf.into_filled(), &bytes[..]);
}

#[test]
fn derived_enum_round_trips() {
    let shapes = [Shape::Empty, Shape::Circle(7), Shape::Rect { w: 2, h: 3 }];
    let expected: [&[u8]; 3] = [&[0], &[1, 0, 7], &[2, 2, 3]];
    for (shape, bytes) in shapes.iter().zip(expected) {
        assert_eq!(shape.to_bytes(), bytes);
        assert_eq!(sio2::Encode::len(shape), bytes.len());
        let decoded: Shape = Buf::new(bytes).decode().unwrap();
        assert_eq!(&decoded, shape);
    }
    let bad = [3u8];
    assert!(matches!(Buf::new(&bad).decode::<Shape>(), Err(DecodeError::InvalidDiscriminant(3))));
}

#[test]
fn raw_field_names_bind_without_r_hash() {
    let input = Input {
        attrs: default_attrs(),
        ident: "Token".to_string(),
        generics: no_generics(),
        data: Data::Struct(Struct { fields: named(&["r#type", "r"]) }),
    };
    let text = encode::expand(&input);
    assert!(text.contains("let Self { r#type: __type, r: __r } = self;"));
    assert!(text.contains("__buf.encode(__type); __buf.encode(__r);"));
}
