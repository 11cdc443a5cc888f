//! The source text of derived `Encode` and `fixed::Encode` implementations.
//!
//! A struct is encoded as its fields in declaration order; an enum as the
//! position of its variant, as one byte, followed by the variant's fields.
use crate::expand::fields::{pattern, pattern_text, uses, write_uses};
use crate::expand::text::{concat, decimal, lemma_concat_take, lemma_take_all, write_decimal};
use crate::ir::{Data, Fields, Input, Variant};
use vstd::prelude::*;

verus! {

/// The sum of the encoded lengths of the bound fields:
/// `0usize + __Encode::len(__a) + ..`.
pub open spec fn len_fields(fields: Fields) -> Seq<char> {
    "0usize"@ + uses(fields, " + __Encode::len("@, ")"@)
}

/// The match arm of `len` for one variant.
pub open spec fn len_variant(v: Variant) -> Seq<char> {
    "Self::"@ + v.ident@ + " "@ + pattern_text(v.fields) + " => { "@ + len_fields(v.fields) + " } "@
}

/// The body of `len`: the fields' lengths, plus one byte for an enum's tag.
pub open spec fn len_body(data: Data) -> Seq<char> {
    match data {
        Data::Struct(s) => "let Self "@ + pattern_text(s.fields) + " = self; "@ + len_fields(s.fields),
        Data::Enum(e) => "__size_of::<u8>() + match self { "@ + concat(
            e.variants.0@.map_values(|v: Variant| len_variant(v)),
        ) + "}"@,
    }
}

/// The `len` method.
pub open spec fn len_fn(data: Data) -> Seq<char> {
    "fn len(&self) -> usize { "@ + len_body(data) + " }"@
}

/// The statements that encode the bound fields, each closed by `close`.
pub open spec fn encode_fields(fields: Fields, close: Seq<char>) -> Seq<char> {
    uses(fields, "__buf.encode("@, close)
}

/// The match arm of an encoding method for the variant at position `d`: its
/// tag byte, then its fields.
pub open spec fn encode_variant(v: Variant, d: nat, close: Seq<char>) -> Seq<char> {
    "Self::"@ + v.ident@ + " "@ + pattern_text(v.fields) + " => { __buf.encode(&"@ + decimal(d)
        + "u8"@ + close + encode_fields(v.fields, close) + "} "@
}

/// The statements of an encoding method, each closed by `close`.
pub open spec fn encode_body(data: Data, close: Seq<char>) -> Seq<char> {
    match data {
        Data::Struct(s) => "let Self "@ + pattern_text(s.fields) + " = self; "@ + encode_fields(
            s.fields,
            close,
        ),
        Data::Enum(e) => "match self { "@ + concat(
            Seq::new(
                e.variants.0@.len(),
                |i: int| encode_variant(e.variants.0@[i], i as nat, close),
            ),
        ) + "} "@,
    }
}

/// How each statement of `Encode::encode` ends.
pub open spec fn growable_close() -> Seq<char> {
    "); "@
}

/// How each statement of `fixed::Encode::try_encode` ends: a failure is
/// passed on.
pub open spec fn fixed_close() -> Seq<char> {
    ")?; "@
}

/// The `encode` method of `Encode`.
pub open spec fn encode_fn(data: Data) -> Seq<char> {
    "#[allow(unused_variables)] fn encode(&self, __buf: &mut __BufMut) { "@ + encode_body(
        data,
        growable_close(),
    ) + "}"@
}

/// The `try_encode` method of `fixed::Encode`.
pub open spec fn try_encode_fn(data: Data) -> Seq<char> {
    "#[allow(unused_variables)] fn try_encode(&self, __buf: &mut __BufMut) -> __EncodeResult<()> { "@
        + encode_body(data, fixed_close()) + "__EncodeResult::Ok(()) }"@
}

/// `impl<..> <trait> for <Type><..> <where ..>`.
pub open spec fn impl_header(input: Input, tr: Seq<char>) -> Seq<char> {
    "impl"@ + input.generics.impl_generics@ + " "@ + tr + " for "@ + input.ident@
        + input.generics.ty_generics@ + " "@ + input.generics.where_clause@ + " "@
}

/// The derived `Encode` implementation, in a block of its own that imports
/// what it names from the crate's `__private` module.
pub open spec fn encode_impl(input: Input) -> Seq<char> {
    "const _: () = { use "@ + input.attrs.spec_krate()
        + "::__private::{ Encode as __Encode, BufMut as __BufMut, size_of as __size_of }; "@
        + impl_header(input, "__Encode"@) + "{ "@ + len_fn(input.data) + " "@ + encode_fn(
        input.data,
    ) + " } };"@
}

/// The derived `fixed::Encode` implementation, in a block of its own.
pub open spec fn fixed_encode_impl(input: Input) -> Seq<char> {
    "const _: () = { use "@ + input.attrs.spec_krate()
        + "::__private::{ FixedEncode as __Encode, FixedBufMut as __BufMut, EncodeResult as __EncodeResult }; "@
        + impl_header(input, "__Encode"@) + "{ "@ + try_encode_fn(input.data) + " } };"@
}

/// Appends the sum of the encoded lengths of the bound fields.
fn write_len_fields(out: &mut String, fields: &Fields)
    ensures
        final(out)@ == old(out)@ + len_fields(*fields),
{
    out.append("0usize");
    write_uses(out, fields, " + __Encode::len(", ")");
    assert(final(out)@ =~= old(out)@ + len_fields(*fields));
}

/// Appends the match arm of `len` for `v`.
fn write_len_variant(out: &mut String, v: &Variant)
    ensures
        final(out)@ == old(out)@ + len_variant(*v),
{
    out.append("Self::");
    out.append(v.ident.as_str());
    out.append(" ");
    pattern(out, &v.fields);
    out.append(" => { ");
    write_len_fields(out, &v.fields);
    out.append(" } ");
    assert(final(out)@ =~= old(out)@ + len_variant(*v));
}

/// Appends the `len` method for `data`.
pub fn write_len_fn(out: &mut String, data: &Data)
    ensures
        final(out)@ == old(out)@ + len_fn(*data),
{
    let ghost start = out@;
    out.append("fn len(&self) -> usize { ");
    match data {
        Data::Struct(s) => {
            out.append("let Self ");
            pattern(out, &s.fields);
            out.append(" = self; ");
            write_len_fields(out, &s.fields);
        },
        Data::Enum(e) => {
            let vs = &e.variants.0;
            let ghost pieces = vs@.map_values(|v: Variant| len_variant(v));
            out.append("__size_of::<u8>() + match self { ");
            let ghost head = out@;
            let mut i: usize = 0;
            while i < vs.len()
                invariant
                    i <= vs@.len(),
                    pieces == vs@.map_values(|v: Variant| len_variant(v)),
                    out@ == head + concat(pieces.take(i as int)),
                decreases vs@.len() - i,
            {
                proof {
                    lemma_concat_take(pieces, i as int);
                }
                write_len_variant(out, &vs[i]);
                assert(out@ =~= head + concat(pieces.take(i + 1)));
                i = i + 1;
            }
            proof {
                lemma_take_all(pieces);
            }
            out.append("}");
        },
    }
    out.append(" }");
    assert(final(out)@ =~= start + len_fn(*data));
}

/// Appends the statements that encode the fields of `fields`, each closed by
/// `close`.
fn write_encode_fields(out: &mut String, fields: &Fields, close: &str)
    ensures
        final(out)@ == old(out)@ + encode_fields(*fields, close@),
{
    write_uses(out, fields, "__buf.encode(", close);
}

/// Appends the match arm of an encoding method for `v` at position `d`.
fn write_encode_variant(out: &mut String, v: &Variant, d: u8, close: &str)
    ensures
        final(out)@ == old(out)@ + encode_variant(*v, d as nat, close@),
{
    out.append("Self::");
    out.append(v.ident.as_str());
    out.append(" ");
    pattern(out, &v.fields);
    out.append(" => { __buf.encode(&");
    write_decimal(out, d as usize);
    out.append("u8");
    out.append(close);
    write_encode_fields(out, &v.fields, close);
    out.append("} ");
    assert(final(out)@ =~= old(out)@ + encode_variant(*v, d as nat, close@));
}

/// Appends the statements of an encoding method for `data`, each closed by
/// `close`.
fn write_encode_body(out: &mut String, data: &Data, close: &str)
    requires
        data.wf(),
    ensures
        final(out)@ == old(out)@ + encode_body(*data, close@),
{
    let ghost start = out@;
    match data {
        Data::Struct(s) => {
            out.append("let Self ");
            pattern(out, &s.fields);
            out.append(" = self; ");
            write_encode_fields(out, &s.fields, close);
        },
        Data::Enum(e) => {
            let vs = &e.variants.0;
            let ghost pieces = Seq::new(
                vs@.len(),
                |i: int| encode_variant(vs@[i], i as nat, close@),
            );
            out.append("match self { ");
            let ghost head = out@;
            let mut i: usize = 0;
            while i < vs.len()
                invariant
                    i <= vs@.len(),
                    e.variants.wf(),
                    vs@ == e.variants.0@,
                    pieces == Seq::new(
                        vs@.len(),
                        |i: int| encode_variant(vs@[i], i as nat, close@),
                    ),
                    out@ == head + concat(pieces.take(i as int)),
                decreases vs@.len() - i,
            {
                proof {
                    lemma_concat_take(pieces, i as int);
                }
                let d = e.variants.discriminant(i);
                write_encode_variant(out, &vs[i], d, close);
                assert(out@ =~= head + concat(pieces.take(i + 1)));
                i = i + 1;
            }
            proof {
                lemma_take_all(pieces);
            }
            out.append("} ");
        },
    }
    assert(final(out)@ =~= start + encode_body(*data, close@));
}

/// Appends the `encode` method of `Encode` for `data`.
fn write_encode_fn(out: &mut String, data: &Data)
    requires
        data.wf(),
    ensures
        final(out)@ == old(out)@ + encode_fn(*data),
{
    out.append("#[allow(unused_variables)] fn encode(&self, __buf: &mut __BufMut) { ");
    write_encode_body(out, data, "); ");
    out.append("}");
    assert(final(out)@ =~= old(out)@ + encode_fn(*data));
}

/// Appends the `try_encode` method of `fixed::Encode` for `data`.
fn write_try_encode_fn(out: &mut String, data: &Data)
    requires
        data.wf(),
    ensures
        final(out)@ == old(out)@ + try_encode_fn(*data),
{
    out.append(
        "#[allow(unused_variables)] fn try_encode(&self, __buf: &mut __BufMut) -> __EncodeResult<()> { ",
    );
    write_encode_body(out, data, ")?; ");
    out.append("__EncodeResult::Ok(()) }");
    assert(final(out)@ =~= old(out)@ + try_encode_fn(*data));
}

/// Generates the derived `Encode` implementation for `input`.
pub fn expand(input: &Input) -> (r: String)
    requires
        input.data.wf(),
    ensures
        r@ == encode_impl(*input),
{
    let mut out = String::new();
    out.append("const _: () = { use ");
    out.append(input.attrs.krate_path());
    out.append("::__private::{ Encode as __Encode, BufMut as __BufMut, size_of as __size_of }; ");
    write_impl_header(&mut out, input, "__Encode");
    out.append("{ ");
    write_len_fn(&mut out, &input.data);
    out.append(" ");
    write_encode_fn(&mut out, &input.data);
    out.append(" } };");
    assert(out@ =~= encode_impl(*input));
    out
}

/// Generates the derived `fixed::Encode` implementation for `input`.
pub fn expand_fixed(input: &Input) -> (r: String)
    requires
        input.data.wf(),
    ensures
        r@ == fixed_encode_impl(*input),
{
    let mut out = String::new();
    out.append("const _: () = { use ");
    out.append(input.attrs.krate_path());
    out.append(
        "::__private::{ FixedEncode as __Encode, FixedBufMut as __BufMut, EncodeResult as __EncodeResult }; ",
    );
    write_impl_header(&mut out, input, "__Encode");
    out.append("{ ");
    write_try_encode_fn(&mut out, &input.data);
    out.append(" } };");
    assert(out@ =~= fixed_encode_impl(*input));
    out
}

/// Appends the header of an impl of `tr` for the type of `input`.
pub fn write_impl_header(out: &mut String, input: &Input, tr: &str)
    ensures
        final(out)@ == old(out)@ + impl_header(*input, tr@),
{
    out.append("impl");
    out.append(input.generics.impl_generics.as_str());
    out.append(" ");
    out.append(tr);
    out.append(" for ");
    out.append(input.ident.as_str());
    out.append(input.generics.ty_generics.as_str());
    out.append(" ");
    out.append(input.generics.where_clause.as_str());
    out.append(" ");
    assert(final(out)@ =~= old(out)@ + impl_header(*input, tr@));
}

} // verus!
