//! The pieces of generated code that depend on a struct's or a variant's
//! fields: the pattern that binds them, the uses of the bound names, and the
//! constructor that decodes them.
use crate::expand::text::{
    comma_list, concat, lemma_comma_list_take, lemma_concat_take, lemma_take_all, named_binding,
    unnamed_binding, write_named_binding, write_unnamed_binding,
};
use crate::ir::{Fields, NamedField};
use vstd::prelude::*;

verus! {

/// `ident: __ident`: one named field in a destructuring pattern.
pub open spec fn named_pattern_item(ident: Seq<char>) -> Seq<char> {
    ident + ": "@ + named_binding(ident)
}

/// The destructuring pattern that follows a struct's or variant's path and
/// binds each field to its binding name: `{ a: __a, b: __b }`,
/// `(__self_0, __self_1)`, or nothing for a unit struct or variant.
pub open spec fn pattern_text(fields: Fields) -> Seq<char> {
    match fields {
        Fields::Named(fs) => "{ "@ + comma_list(
            fs@.map_values(|f: NamedField| named_pattern_item(f.ident@)),
        ) + " }"@,
        Fields::Unnamed(fs) => "("@ + comma_list(
            Seq::new(fs@.len(), |i: int| unnamed_binding(i as nat)),
        ) + ")"@,
        Fields::Unit => Seq::empty(),
    }
}

/// The binding names of the fields, in declaration order.
pub open spec fn bindings(fields: Fields) -> Seq<Seq<char>> {
    match fields {
        Fields::Named(fs) => fs@.map_values(|f: NamedField| named_binding(f.ident@)),
        Fields::Unnamed(fs) => Seq::new(fs@.len(), |i: int| unnamed_binding(i as nat)),
        Fields::Unit => Seq::empty(),
    }
}

/// Each binding name between `before` and `after`, one after another.
pub open spec fn uses(fields: Fields, before: Seq<char>, after: Seq<char>) -> Seq<char> {
    concat(bindings(fields).map_values(|b: Seq<char>| before + b + after))
}

/// `ident: __buf.decode()?`: one named field in a decoding constructor.
pub open spec fn named_constructor_item(ident: Seq<char>) -> Seq<char> {
    ident + ": __buf.decode()?"@
}

/// The constructor that follows a struct's or variant's path and decodes each
/// field in declaration order: `{ a: __buf.decode()?, .. }`,
/// `(__buf.decode()?, ..)`, or nothing for a unit struct or variant.
pub open spec fn constructor_text(fields: Fields) -> Seq<char> {
    match fields {
        Fields::Named(fs) => "{ "@ + comma_list(
            fs@.map_values(|f: NamedField| named_constructor_item(f.ident@)),
        ) + " }"@,
        Fields::Unnamed(fs) => "("@ + comma_list(
            Seq::new(fs@.len(), |i: int| "__buf.decode()?"@),
        ) + ")"@,
        Fields::Unit => Seq::empty(),
    }
}

/// Appends the destructuring pattern of `fields`.
pub fn pattern(out: &mut String, fields: &Fields)
    ensures
        final(out)@ == old(out)@ + pattern_text(*fields),
{
    let ghost start = out@;
    match fields {
        Fields::Named(fs) => {
            let ghost pieces = fs@.map_values(|f: NamedField| named_pattern_item(f.ident@));
            out.append("{ ");
            let mut i: usize = 0;
            while i < fs.len()
                invariant
                    i <= fs@.len(),
                    pieces == fs@.map_values(|f: NamedField| named_pattern_item(f.ident@)),
                    out@ == start + "{ "@ + comma_list(pieces.take(i as int)),
                decreases fs@.len() - i,
            {
                proof {
                    lemma_comma_list_take(pieces, i as int);
                }
                let ghost before = out@;
                if i > 0 {
                    out.append(", ");
                }
                let ident = &fs[i].ident;
                out.append(ident.as_str());
                out.append(": ");
                write_named_binding(out, ident);
                assert(out@ =~= start + "{ "@ + comma_list(pieces.take(i + 1)));
                i = i + 1;
            }
            out.append(" }");
            proof {
                lemma_take_all(pieces);
            }
            assert(out@ =~= start + pattern_text(*fields));
        },
        Fields::Unnamed(fs) => {
            let ghost pieces = Seq::new(fs@.len(), |i: int| unnamed_binding(i as nat));
            out.append("(");
            let mut i: usize = 0;
            while i < fs.len()
                invariant
                    i <= fs@.len(),
                    pieces == Seq::new(fs@.len(), |i: int| unnamed_binding(i as nat)),
                    out@ == start + "("@ + comma_list(pieces.take(i as int)),
                decreases fs@.len() - i,
            {
                proof {
                    lemma_comma_list_take(pieces, i as int);
                }
                if i > 0 {
                    out.append(", ");
                }
                write_unnamed_binding(out, i);
                assert(out@ =~= start + "("@ + comma_list(pieces.take(i + 1)));
                i = i + 1;
            }
            out.append(")");
            proof {
                lemma_take_all(pieces);
            }
            assert(out@ =~= start + pattern_text(*fields));
        },
        Fields::Unit => {
            assert(out@ =~= start + pattern_text(*fields));
        },
    }
}

/// Appends each binding name of `fields` between `before` and `after`.
pub fn write_uses(out: &mut String, fields: &Fields, before: &str, after: &str)
    ensures
        final(out)@ == old(out)@ + uses(*fields, before@, after@),
{
    let ghost start = out@;
    let ghost pieces = bindings(*fields).map_values(|b: Seq<char>| before@ + b + after@);
    match fields {
        Fields::Named(fs) => {
            let mut i: usize = 0;
            while i < fs.len()
                invariant
                    i <= fs@.len(),
                    *fields == Fields::Named(*fs),
                    pieces == bindings(*fields).map_values(|b: Seq<char>| before@ + b + after@),
                    out@ == start + concat(pieces.take(i as int)),
                decreases fs@.len() - i,
            {
                proof {
                    lemma_concat_take(pieces, i as int);
                }
                out.append(before);
                write_named_binding(out, &fs[i].ident);
                out.append(after);
                assert(out@ =~= start + concat(pieces.take(i + 1)));
                i = i + 1;
            }
            proof {
                lemma_take_all(pieces);
            }
        },
        Fields::Unnamed(fs) => {
            let mut i: usize = 0;
            while i < fs.len()
                invariant
                    i <= fs@.len(),
                    *fields == Fields::Unnamed(*fs),
                    pieces == bindings(*fields).map_values(|b: Seq<char>| before@ + b + after@),
                    out@ == start + concat(pieces.take(i as int)),
                decreases fs@.len() - i,
            {
                proof {
                    lemma_concat_take(pieces, i as int);
                }
                out.append(before);
                write_unnamed_binding(out, i);
                out.append(after);
                assert(out@ =~= start + concat(pieces.take(i + 1)));
                i = i + 1;
            }
            proof {
                lemma_take_all(pieces);
            }
        },
        Fields::Unit => {
            assert(pieces =~= Seq::<Seq<char>>::empty());
            assert(out@ =~= start + concat(pieces));
        },
    }
}

/// Appends the decoding constructor of `fields`.
pub fn constructor(out: &mut String, fields: &Fields)
    ensures
        final(out)@ == old(out)@ + constructor_text(*fields),
{
    let ghost start = out@;
    match fields {
        Fields::Named(fs) => {
            let ghost pieces = fs@.map_values(|f: NamedField| named_constructor_item(f.ident@));
            out.append("{ ");
            let mut i: usize = 0;
            while i < fs.len()
                invariant
                    i <= fs@.len(),
                    pieces == fs@.map_values(|f: NamedField| named_constructor_item(f.ident@)),
                    out@ == start + "{ "@ + comma_list(pieces.take(i as int)),
                decreases fs@.len() - i,
            {
                proof {
                    lemma_comma_list_take(pieces, i as int);
                }
                if i > 0 {
                    out.append(", ");
                }
                out.append(fs[i].ident.as_str());
                out.append(": __buf.decode()?");
                assert(out@ =~= start + "{ "@ + comma_list(pieces.take(i + 1)));
                i = i + 1;
            }
            out.append(" }");
            proof {
                lemma_take_all(pieces);
            }
            assert(out@ =~= start + constructor_text(*fields));
        },
        Fields::Unnamed(fs) => {
            let ghost pieces = Seq::new(fs@.len(), |i: int| "__buf.decode()?"@);
            out.append("(");
            let mut i: usize = 0;
            while i < fs.len()
                invariant
                    i <= fs@.len(),
                    pieces == Seq::new(fs@.len(), |i: int| "__buf.decode()?"@),
                    out@ == start + "("@ + comma_list(pieces.take(i as int)),
                decreases fs@.len() - i,
            {
                proof {
                    lemma_comma_list_take(pieces, i as int);
                }
                if i > 0 {
                    out.append(", ");
                }
                out.append("__buf.decode()?");
                assert(out@ =~= start + "("@ + comma_list(pieces.take(i + 1)));
                i = i + 1;
            }
            out.append(")");
            proof {
                lemma_take_all(pieces);
            }
            assert(out@ =~= start + constructor_text(*fields));
        },
        Fields::Unit => {
            assert(out@ =~= start + constructor_text(*fields));
        },
    }
}

} // verus!
