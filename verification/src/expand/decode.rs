//! The source text of derived `Decode` implementations.
//!
//! A struct is decoded field by field in declaration order; an enum reads its
//! tag byte first, and a tag that names no variant is refused.
use crate::expand::encode::{impl_header, write_impl_header};
use crate::expand::fields::{constructor, constructor_text};
use crate::expand::text::{concat, decimal, lemma_concat_take, lemma_take_all, write_decimal};
use crate::ir::{Data, Input, Variant};
use vstd::prelude::*;

verus! {

/// The match arm that decodes the variant at position `d`.
pub open spec fn decode_variant(v: Variant, d: nat) -> Seq<char> {
    decimal(d) + "u8 => { Self::"@ + v.ident@ + " "@ + constructor_text(v.fields) + " } "@
}

/// The expression that decodes a value of the type.
pub open spec fn decode_body(data: Data) -> Seq<char> {
    match data {
        Data::Struct(s) => "Self "@ + constructor_text(s.fields),
        Data::Enum(e) => "match __buf.decode::<u8>()? { "@ + concat(
            Seq::new(e.variants.0@.len(), |i: int| decode_variant(e.variants.0@[i], i as nat)),
        ) + "d => return __DecodeResult::Err(__DecodeError::InvalidDiscriminant(d as u16)), }"@,
    }
}

/// The `decode` method.
pub open spec fn decode_fn(input: Input) -> Seq<char> {
    "fn decode(__buf: &mut __Buf<"@ + input.attrs.spec_borrow()
        + ">) -> __DecodeResult<Self> { __DecodeResult::Ok({ "@ + decode_body(input.data)
        + " }) }"@
}

/// The trait that the derived implementation implements: `__Decode<'lifetime>`.
pub open spec fn decode_trait(input: Input) -> Seq<char> {
    "__Decode<"@ + input.attrs.spec_borrow() + ">"@
}

/// The derived `Decode` implementation, in a block of its own that imports
/// what it names from the crate's `__private` module. Its `Model` is `()`:
/// nothing is stated of what it decodes.
pub open spec fn decode_impl(input: Input) -> Seq<char> {
    "const _: () = { #[allow(unused_imports)] use "@ + input.attrs.spec_krate()
        + "::__private::{ Decode as __Decode, Buf as __Buf, DecodeResult as __DecodeResult, DecodeError as __DecodeError }; "@
        + impl_header(input, decode_trait(input)) + "{ type Model = (); "@ + decode_fn(input)
        + " } };"@
}

/// Appends the match arm that decodes `v` at position `d`.
fn write_decode_variant(out: &mut String, v: &Variant, d: u8)
    ensures
        final(out)@ == old(out)@ + decode_variant(*v, d as nat),
{
    write_decimal(out, d as usize);
    out.append("u8 => { Self::");
    out.append(v.ident.as_str());
    out.append(" ");
    constructor(out, &v.fields);
    out.append(" } ");
    assert(final(out)@ =~= old(out)@ + decode_variant(*v, d as nat));
}

/// Appends the expression that decodes a value of a type shaped as `data`.
fn write_decode_body(out: &mut String, data: &Data)
    requires
        data.wf(),
    ensures
        final(out)@ == old(out)@ + decode_body(*data),
{
    let ghost start = out@;
    match data {
        Data::Struct(s) => {
            out.append("Self ");
            constructor(out, &s.fields);
        },
        Data::Enum(e) => {
            let vs = &e.variants.0;
            let ghost pieces = Seq::new(vs@.len(), |i: int| decode_variant(vs@[i], i as nat));
            out.append("match __buf.decode::<u8>()? { ");
            let ghost head = out@;
            let mut i: usize = 0;
            while i < vs.len()
                invariant
                    i <= vs@.len(),
                    e.variants.wf(),
                    vs@ == e.variants.0@,
                    pieces == Seq::new(vs@.len(), |i: int| decode_variant(vs@[i], i as nat)),
                    out@ == head + concat(pieces.take(i as int)),
                decreases vs@.len() - i,
            {
                proof {
                    lemma_concat_take(pieces, i as int);
                }
                let d = e.variants.discriminant(i);
                write_decode_variant(out, &vs[i], d);
                assert(out@ =~= head + concat(pieces.take(i + 1)));
                i = i + 1;
            }
            proof {
                lemma_take_all(pieces);
            }
            out.append(
                "d => return __DecodeResult::Err(__DecodeError::InvalidDiscriminant(d as u16)), }",
            );
        },
    }
    assert(final(out)@ =~= start + decode_body(*data));
}

/// Generates the derived `Decode` implementation for `input`.
pub fn expand(input: &Input) -> (r: String)
    requires
        input.data.wf(),
    ensures
        r@ == decode_impl(*input),
{
    let borrow = input.attrs.borrow_lifetime();
    let mut tr = String::new();
    tr.append("__Decode<");
    tr.append(borrow);
    tr.append(">");
    assert(tr@ =~= decode_trait(*input));
    let mut out = String::new();
    out.append("const _: () = { #[allow(unused_imports)] use ");
    out.append(input.attrs.krate_path());
    out.append(
        "::__private::{ Decode as __Decode, Buf as __Buf, DecodeResult as __DecodeResult, DecodeError as __DecodeError }; ",
    );
    write_impl_header(&mut out, input, tr.as_str());
    out.append("{ type Model = (); ");
    out.append("fn decode(__buf: &mut __Buf<");
    out.append(borrow);
    out.append(">) -> __DecodeResult<Self> { __DecodeResult::Ok({ ");
    write_decode_body(&mut out, &input.data);
    out.append(" }) }");
    out.append(" } };");
    assert(out@ =~= decode_impl(*input));
    out
}

} // verus!
