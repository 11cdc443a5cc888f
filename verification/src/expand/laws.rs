//! What derived implementations say, over every description of a type:
//! each has the type's full impl header, encodes and decodes the fields in
//! declaration order under the names the pattern binds, tags each variant
//! with its position in encoding and in decoding alike, and passes every
//! failure on in the fixed-buffer encoding.
use crate::expand::decode::{decode_body, decode_fn, decode_impl};
use crate::expand::encode::{
    encode_body, encode_fields, encode_fn, encode_impl, fixed_encode_impl, len_body, len_fields,
    try_encode_fn,
};
use crate::expand::fields::{constructor_text, pattern_text};
use crate::expand::text::{comma_list, concat, decimal, unraw};
use crate::ir::{last_borrow, last_crate, AttrOption, Data, Fields, Input, InputAttrs};
use vstd::prelude::*;

verus! {

/// `piece` stands in `text` at position `k`.
pub open spec fn stands_at(piece: Seq<char>, text: Seq<char>, k: int) -> bool {
    &&& 0 <= k
    &&& k + piece.len() <= text.len()
    &&& text.subrange(k, k + piece.len()) == piece
}

/// The number of fields.
pub open spec fn field_count(fields: Fields) -> nat {
    match fields {
        Fields::Named(fs) => fs@.len(),
        Fields::Unnamed(fs) => fs@.len(),
        Fields::Unit => 0,
    }
}

/// The name that the field at position `i` is bound to: `__` and the
/// field's name without any `r#`, or `__self_` and the position.
pub open spec fn field_binding(fields: Fields, i: int) -> Seq<char> {
    match fields {
        Fields::Named(fs) => "__"@ + unraw(fs@[i].ident@),
        Fields::Unnamed(_) => "__self_"@ + decimal(i as nat),
        Fields::Unit => Seq::empty(),
    }
}

/// The pieces, one after another: none for no pieces, and for pieces with
/// one more at the end, theirs and then it. With `", "` between each two:
/// none, one alone, or theirs, a comma and then it.
pub proof fn lemma_lists(pieces: Seq<Seq<char>>, x: Seq<char>)
    ensures
        concat(Seq::<Seq<char>>::empty()) == Seq::<char>::empty(),
        concat(pieces.push(x)) == concat(pieces) + x,
        comma_list(Seq::<Seq<char>>::empty()) == Seq::<char>::empty(),
        comma_list(seq![x]) == x,
        pieces.len() > 0 ==> comma_list(pieces.push(x)) == comma_list(pieces) + ", "@ + x,
{
    assert(pieces.push(x).drop_last() =~= pieces);
}

/// A raw identifier loses its `r#`; any other stays as it is.
pub proof fn lemma_unraw(ident: Seq<char>)
    ensures
        ident.len() >= 2 && ident[0] == 'r' && ident[1] == '#' ==> unraw(ident) == ident.skip(2),
        !(ident.len() >= 2 && ident[0] == 'r' && ident[1] == '#') ==> unraw(ident) == ident,
{
}

/// The derived `Encode` and `fixed::Encode` implementations, and the derived
/// `Decode` implementation, each begin after their `use` item with the
/// type's full impl header: the impl generics, the trait, the type's name
/// and generics, and the where clause.
pub proof fn lemma_headers(input: Input)
    ensures
        stands_at(
            "impl"@ + input.generics.impl_generics@ + " "@ + "__Encode"@ + " for "@ + input.ident@
                + input.generics.ty_generics@ + " "@ + input.generics.where_clause@ + " "@,
            encode_impl(input),
            ("const _: () = { use "@ + input.attrs.spec_krate()
                + "::__private::{ Encode as __Encode, BufMut as __BufMut, size_of as __size_of }; "@).len()
                as int,
        ),
        stands_at(
            "impl"@ + input.generics.impl_generics@ + " "@ + "__Encode"@ + " for "@ + input.ident@
                + input.generics.ty_generics@ + " "@ + input.generics.where_clause@ + " "@,
            fixed_encode_impl(input),
            ("const _: () = { use "@ + input.attrs.spec_krate()
                + "::__private::{ FixedEncode as __Encode, FixedBufMut as __BufMut, EncodeResult as __EncodeResult }; "@).len()
                as int,
        ),
        stands_at(
            "impl"@ + input.generics.impl_generics@ + " "@ + ("__Decode<"@
                + input.attrs.spec_borrow() + ">"@) + " for "@ + input.ident@
                + input.generics.ty_generics@ + " "@ + input.generics.where_clause@ + " "@,
            decode_impl(input),
            ("const _: () = { #[allow(unused_imports)] use "@ + input.attrs.spec_krate()
                + "::__private::{ Decode as __Decode, Buf as __Buf, DecodeResult as __DecodeResult, DecodeError as __DecodeError }; "@).len()
                as int,
        ),
{
    let h = "impl"@ + input.generics.impl_generics@ + " "@ + "__Encode"@ + " for "@ + input.ident@
        + input.generics.ty_generics@ + " "@ + input.generics.where_clause@ + " "@;
    let p1 = "const _: () = { use "@ + input.attrs.spec_krate()
        + "::__private::{ Encode as __Encode, BufMut as __BufMut, size_of as __size_of }; "@;
    let t1 = encode_impl(input);
    assert(t1 == p1 + h + ("{ "@ + crate::expand::encode::len_fn(input.data) + " "@ + encode_fn(
        input.data,
    ) + " } };"@));
    assert(t1.subrange(p1.len() as int, (p1.len() + h.len()) as int) =~= h);
    let p2 = "const _: () = { use "@ + input.attrs.spec_krate()
        + "::__private::{ FixedEncode as __Encode, FixedBufMut as __BufMut, EncodeResult as __EncodeResult }; "@;
    let t2 = fixed_encode_impl(input);
    assert(t2 == p2 + h + ("{ "@ + try_encode_fn(input.data) + " } };"@));
    assert(t2.subrange(p2.len() as int, (p2.len() + h.len()) as int) =~= h);
    let hd = "impl"@ + input.generics.impl_generics@ + " "@ + ("__Decode<"@
        + input.attrs.spec_borrow() + ">"@) + " for "@ + input.ident@ + input.generics.ty_generics@
        + " "@ + input.generics.where_clause@ + " "@;
    let p3 = "const _: () = { #[allow(unused_imports)] use "@ + input.attrs.spec_krate()
        + "::__private::{ Decode as __Decode, Buf as __Buf, DecodeResult as __DecodeResult, DecodeError as __DecodeError }; "@;
    let t3 = decode_impl(input);
    assert(t3 == p3 + hd + ("{ type Model = (); "@ + crate::expand::decode::decode_fn(input)
        + " } };"@));
    assert(t3.subrange(p3.len() as int, (p3.len() + hd.len()) as int) =~= hd);
}

/// The derived `encode` and `try_encode` methods hold the same statements
/// for every shape of type; in `try_encode` each statement passes a failure
/// on with `?`, and success is returned only after all of them.
pub proof fn lemma_encode_methods(data: Data)
    ensures
        encode_fn(data) == "#[allow(unused_variables)] fn encode(&self, __buf: &mut __BufMut) { "@
            + encode_body(data, "); "@) + "}"@,
        try_encode_fn(data)
            == "#[allow(unused_variables)] fn try_encode(&self, __buf: &mut __BufMut) -> __EncodeResult<()> { "@
            + encode_body(data, ")?; "@) + "__EncodeResult::Ok(()) }"@,
{
}

/// The derived `Encode` implementation holds the `encode` method after the
/// `len` method, and the derived `fixed::Encode` implementation holds the
/// `try_encode` method, right after the impl header.
pub proof fn lemma_methods_in_impls(input: Input)
    ensures
        ({
            let h = "impl"@ + input.generics.impl_generics@ + " "@ + "__Encode"@ + " for "@
                + input.ident@ + input.generics.ty_generics@ + " "@ + input.generics.where_clause@
                + " "@;
            let p = "const _: () = { use "@ + input.attrs.spec_krate()
                + "::__private::{ FixedEncode as __Encode, FixedBufMut as __BufMut, EncodeResult as __EncodeResult }; "@;
            stands_at(try_encode_fn(input.data), fixed_encode_impl(input), (p + h + "{ "@).len() as int)
        }),
        ({
            let h = "impl"@ + input.generics.impl_generics@ + " "@ + "__Encode"@ + " for "@
                + input.ident@ + input.generics.ty_generics@ + " "@ + input.generics.where_clause@
                + " "@;
            let p = "const _: () = { use "@ + input.attrs.spec_krate()
                + "::__private::{ Encode as __Encode, BufMut as __BufMut, size_of as __size_of }; "@;
            let q = p + h + "{ "@ + crate::expand::encode::len_fn(input.data) + " "@;
            stands_at(encode_fn(input.data), encode_impl(input), q.len() as int)
        }),
{
    let h = "impl"@ + input.generics.impl_generics@ + " "@ + "__Encode"@ + " for "@ + input.ident@
        + input.generics.ty_generics@ + " "@ + input.generics.where_clause@ + " "@;
    let p = "const _: () = { use "@ + input.attrs.spec_krate()
        + "::__private::{ FixedEncode as __Encode, FixedBufMut as __BufMut, EncodeResult as __EncodeResult }; "@;
    let a = p + h + "{ "@;
    let t = try_encode_fn(input.data);
    assert(fixed_encode_impl(input) =~= a + t + " } };"@);
    assert(fixed_encode_impl(input).subrange(a.len() as int, (a.len() + t.len()) as int) =~= t);
    let p1 = "const _: () = { use "@ + input.attrs.spec_krate()
        + "::__private::{ Encode as __Encode, BufMut as __BufMut, size_of as __size_of }; "@;
    let q = p1 + h + "{ "@ + crate::expand::encode::len_fn(input.data) + " "@;
    let e = encode_fn(input.data);
    assert(encode_impl(input) =~= q + e + " } };"@);
    assert(encode_impl(input).subrange(q.len() as int, (q.len() + e.len()) as int) =~= e);
}

/// A struct's encoding statements bind its fields with its pattern and
/// encode them; an enum's match arm for the variant at position `i` binds
/// that variant's fields, encodes the tag `i`, then the fields, each
/// statement closed by `close`.
pub proof fn lemma_encode_body(data: Data, close: Seq<char>)
    ensures
        data matches Data::Struct(s) ==> encode_body(data, close) == "let Self "@ + pattern_text(
            s.fields,
        ) + " = self; "@ + encode_fields(s.fields, close),
        data matches Data::Enum(e) ==> encode_body(data, close) == "match self { "@ + concat(
            Seq::new(
                e.variants.0@.len(),
                |i: int|
                    "Self::"@ + e.variants.0@[i].ident@ + " "@ + pattern_text(
                        e.variants.0@[i].fields,
                    ) + " => { __buf.encode(&"@ + decimal(i as nat) + "u8"@ + close
                        + encode_fields(e.variants.0@[i].fields, close) + "} "@,
            ),
        ) + "} "@,
{
    if let Data::Enum(e) = data {
        assert(Seq::new(
            e.variants.0@.len(),
            |i: int|
                crate::expand::encode::encode_variant(e.variants.0@[i], i as nat, close),
        ) =~= Seq::new(
            e.variants.0@.len(),
            |i: int|
                "Self::"@ + e.variants.0@[i].ident@ + " "@ + pattern_text(e.variants.0@[i].fields)
                    + " => { __buf.encode(&"@ + decimal(i as nat) + "u8"@ + close + encode_fields(
                    e.variants.0@[i].fields,
                    close,
                ) + "} "@,
        ));
    }
}

/// A struct decodes as its constructor; an enum reads its tag, and the arm
/// for the tag `i` builds the variant at position `i` from its fields; any
/// other tag is refused.
pub proof fn lemma_decode_body(data: Data)
    ensures
        data matches Data::Struct(s) ==> decode_body(data) == "Self "@ + constructor_text(s.fields),
        data matches Data::Enum(e) ==> decode_body(data) == "match __buf.decode::<u8>()? { "@
            + concat(
            Seq::new(
                e.variants.0@.len(),
                |i: int|
                    decimal(i as nat) + "u8 => { Self::"@ + e.variants.0@[i].ident@ + " "@
                        + constructor_text(e.variants.0@[i].fields) + " } "@,
            ),
        ) + "d => return __DecodeResult::Err(__DecodeError::InvalidDiscriminant(d as u16)), }"@,
{
    if let Data::Enum(e) = data {
        assert(Seq::new(
            e.variants.0@.len(),
            |i: int| crate::expand::decode::decode_variant(e.variants.0@[i], i as nat),
        ) =~= Seq::new(
            e.variants.0@.len(),
            |i: int|
                decimal(i as nat) + "u8 => { Self::"@ + e.variants.0@[i].ident@ + " "@
                    + constructor_text(e.variants.0@[i].fields) + " } "@,
        ));
    }
}

/// The fields are bound, encoded, measured and decoded in declaration
/// order: the pattern binds the field at position `i` to its binding, the
/// `i`-th encoding statement and the `i`-th length term name that binding,
/// and the constructor decodes the field at position `i` `i`-th.
pub proof fn lemma_field_order(fields: Fields, close: Seq<char>)
    ensures
        encode_fields(fields, close) == concat(
            Seq::new(
                field_count(fields),
                |i: int| "__buf.encode("@ + field_binding(fields, i) + close,
            ),
        ),
        len_fields(fields) == "0usize"@ + concat(
            Seq::new(
                field_count(fields),
                |i: int| " + __Encode::len("@ + field_binding(fields, i) + ")"@,
            ),
        ),
        fields matches Fields::Named(fs) ==> pattern_text(fields) == "{ "@ + comma_list(
            Seq::new(fs@.len(), |i: int| fs@[i].ident@ + ": "@ + field_binding(fields, i)),
        ) + " }"@,
        fields matches Fields::Unnamed(fs) ==> pattern_text(fields) == "("@ + comma_list(
            Seq::new(fs@.len(), |i: int| field_binding(fields, i)),
        ) + ")"@,
        fields matches Fields::Named(fs) ==> constructor_text(fields) == "{ "@ + comma_list(
            Seq::new(fs@.len(), |i: int| fs@[i].ident@ + ": __buf.decode()?"@),
        ) + " }"@,
        fields matches Fields::Unnamed(fs) ==> constructor_text(fields) == "("@ + comma_list(
            Seq::new(fs@.len(), |i: int| "__buf.decode()?"@),
        ) + ")"@,
        fields is Unit ==> pattern_text(fields) == Seq::<char>::empty() && constructor_text(fields)
            == Seq::<char>::empty(),
{
    let n = field_count(fields);
    let b = crate::expand::fields::bindings(fields);
    assert(b =~= Seq::new(n, |i: int| field_binding(fields, i)));
    assert(b.map_values(|x: Seq<char>| "__buf.encode("@ + x + close) =~= Seq::new(
        n,
        |i: int| "__buf.encode("@ + field_binding(fields, i) + close,
    ));
    assert(b.map_values(|x: Seq<char>| " + __Encode::len("@ + x + ")"@) =~= Seq::new(
        n,
        |i: int| " + __Encode::len("@ + field_binding(fields, i) + ")"@,
    ));
    match fields {
        Fields::Named(fs) => {
            assert(fs@.map_values(
                |f: crate::ir::NamedField| crate::expand::fields::named_pattern_item(f.ident@),
            ) =~= Seq::new(fs@.len(), |i: int| fs@[i].ident@ + ": "@ + field_binding(fields, i)));
            assert(fs@.map_values(
                |f: crate::ir::NamedField| crate::expand::fields::named_constructor_item(f.ident@),
            ) =~= Seq::new(fs@.len(), |i: int| fs@[i].ident@ + ": __buf.decode()?"@));
        },
        _ => {},
    }
}

/// The number that decimal digits stand for, most significant first.
pub open spec fn decimal_value(digits: Seq<char>) -> int
    decreases digits.len(),
{
    if digits.len() == 0 {
        0
    } else {
        decimal_value(digits.drop_last()) * 10 + (digits.last() as int - 48)
    }
}

/// The tag or position written for `n` is made of the characters `0` to
/// `9`, stands for `n`, and has no leading zero.
pub proof fn lemma_decimal_value(n: nat)
    ensures
        forall|i: int| 0 <= i < decimal(n).len() ==> '0' <= #[trigger] decimal(n)[i] <= '9',
        decimal_value(decimal(n)) == n,
        decimal(n).len() >= 1,
        decimal(n).len() > 1 ==> decimal(n)[0] != '0',
    decreases n,
{
    crate::expand::text::lemma_decimal_len(n);
    if n < 10 {
        let c = crate::expand::text::digit_char(n);
        assert(c as int == 48 + n);
        assert(decimal(n) =~= seq![c]);
        assert(decimal(n).drop_last() =~= Seq::<char>::empty());
        assert(decimal(n).last() == c);
        assert(decimal_value(Seq::<char>::empty()) == 0);
        assert(decimal_value(decimal(n)) == decimal_value(decimal(n).drop_last()) * 10 + (c as int - 48));
    } else {
        lemma_decimal_value(n / 10);
        crate::expand::text::lemma_decimal_len(n / 10);
        let c = crate::expand::text::digit_char(n % 10);
        assert(c as int == 48 + n % 10);
        let d = decimal(n);
        assert(d == decimal(n / 10).push(c));
        assert(d.drop_last() =~= decimal(n / 10));
        assert(d.last() == c);
        assert(n == (n / 10) * 10 + n % 10);
        assert(decimal_value(d) == decimal_value(d.drop_last()) * 10 + (c as int - 48));
        if decimal(n / 10).len() == 1 {
            let h = crate::expand::text::digit_char(n / 10);
            assert(h as int == 48 + n / 10);
            assert(decimal(n / 10) == seq![h]);
            assert(decimal(n / 10)[0] == h);
        }
        assert(d[0] == decimal(n / 10)[0]);
    }
}

/// Without options, generated code names the crate `::sio2` and decodes
/// from a buffer of any lifetime; each option given replaces its default.
pub proof fn lemma_attr_defaults(attrs: InputAttrs)
    ensures
        attrs.krate is None ==> attrs.spec_krate() == "::sio2"@,
        attrs.krate matches Some(k) ==> attrs.spec_krate() == k@,
        attrs.borrow is None ==> attrs.spec_borrow() == "'_"@,
        attrs.borrow matches Some(b) ==> attrs.spec_borrow() == b@,
{
}

/// The derived `len` adds the fields' lengths: for a struct after binding
/// them with its pattern, for an enum one byte for the tag and then the
/// fields of the variant at hand.
pub proof fn lemma_len_body(data: Data)
    ensures
        data matches Data::Struct(s) ==> len_body(data) == "let Self "@ + pattern_text(s.fields)
            + " = self; "@ + len_fields(s.fields),
        data matches Data::Enum(e) ==> len_body(data) == "__size_of::<u8>() + match self { "@
            + concat(
            Seq::new(
                e.variants.0@.len(),
                |i: int|
                    "Self::"@ + e.variants.0@[i].ident@ + " "@ + pattern_text(
                        e.variants.0@[i].fields,
                    ) + " => { "@ + len_fields(e.variants.0@[i].fields) + " } "@,
            ),
        ) + "}"@,
{
    if let Data::Enum(e) = data {
        assert(e.variants.0@.map_values(|v: crate::ir::Variant| crate::expand::encode::len_variant(v))
            =~= Seq::new(
            e.variants.0@.len(),
            |i: int|
                "Self::"@ + e.variants.0@[i].ident@ + " "@ + pattern_text(e.variants.0@[i].fields)
                    + " => { "@ + len_fields(e.variants.0@[i].fields) + " } "@,
        ));
    }
}

/// Among attribute options, the last `crate(..)` and the last `borrow(..)`
/// win: none without one, a newly added one replaces what came before, and
/// an option of the other kind or an ignored one changes nothing.
pub proof fn lemma_last_options(options: Seq<AttrOption>, path: String, lifetime: String)
    ensures
        last_crate(Seq::empty()) is None,
        last_borrow(Seq::empty()) is None,
        last_crate(options.push(AttrOption::Crate(path))) == Some(path@),
        last_borrow(options.push(AttrOption::Borrow(lifetime))) == Some(lifetime@),
        last_crate(options.push(AttrOption::Borrow(lifetime))) == last_crate(options),
        last_borrow(options.push(AttrOption::Crate(path))) == last_borrow(options),
        last_crate(options.push(AttrOption::Other)) == last_crate(options),
        last_borrow(options.push(AttrOption::Other)) == last_borrow(options),
{
    assert(options.push(AttrOption::Crate(path)).drop_last() =~= options);
    assert(options.push(AttrOption::Borrow(lifetime)).drop_last() =~= options);
    assert(options.push(AttrOption::Other).drop_last() =~= options);
}

/// The derived `decode` takes a buffer of the chosen lifetime and wraps the
/// decoded value in `Ok`; it follows the derived `Decode` implementation's
/// header and its `Model`.
pub proof fn lemma_decode_fn(input: Input)
    ensures
        decode_fn(input) == "fn decode(__buf: &mut __Buf<"@ + input.attrs.spec_borrow()
            + ">) -> __DecodeResult<Self> { __DecodeResult::Ok({ "@ + decode_body(input.data)
            + " }) }"@,
        ({
            let p = "const _: () = { #[allow(unused_imports)] use "@ + input.attrs.spec_krate()
                + "::__private::{ Decode as __Decode, Buf as __Buf, DecodeResult as __DecodeResult, DecodeError as __DecodeError }; "@;
            let h = "impl"@ + input.generics.impl_generics@ + " "@ + ("__Decode<"@
                + input.attrs.spec_borrow() + ">"@) + " for "@ + input.ident@
                + input.generics.ty_generics@ + " "@ + input.generics.where_clause@ + " "@;
            stands_at(decode_fn(input), decode_impl(input), (p + h + "{ type Model = (); "@).len() as int)
        }),
{
    let p = "const _: () = { #[allow(unused_imports)] use "@ + input.attrs.spec_krate()
        + "::__private::{ Decode as __Decode, Buf as __Buf, DecodeResult as __DecodeResult, DecodeError as __DecodeError }; "@;
    let h = "impl"@ + input.generics.impl_generics@ + " "@ + ("__Decode<"@
        + input.attrs.spec_borrow() + ">"@) + " for "@ + input.ident@ + input.generics.ty_generics@
        + " "@ + input.generics.where_clause@ + " "@;
    let a = p + h + "{ type Model = (); "@;
    let f = decode_fn(input);
    assert(decode_impl(input) =~= a + f + " } };"@);
    assert(decode_impl(input).subrange(a.len() as int, (a.len() + f.len()) as int) =~= f);
}

} // verus!
