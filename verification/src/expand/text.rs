//! Building blocks of generated source text: decimal numbers, the names
//! bound to fields, and lists of pieces.
use vstd::prelude::*;

verus! {

/// `String::push`: appends the character `c`.
#[verifier::external_body]
fn push_char(s: &mut String, c: char)
    ensures
        final(s)@ == old(s)@.push(c),
{
    s.push(c);
}

/// The character of the decimal digit `d`.
pub open spec fn digit_char(d: nat) -> char
    recommends
        d < 10,
{
    (48 + d) as char
}

/// The decimal digits of `n`, most significant first, without leading zeros.
pub open spec fn decimal(n: nat) -> Seq<char>
    decreases n,
{
    if n < 10 {
        seq![digit_char(n)]
    } else {
        decimal(n / 10).push(digit_char(n % 10))
    }
}

/// A decimal number has at least one digit.
pub proof fn lemma_decimal_len(n: nat)
    ensures
        decimal(n).len() >= 1,
        n < 10 ==> decimal(n).len() == 1,
        n >= 10 ==> decimal(n).len() >= 2,
    decreases n,
{
    if n >= 10 {
        lemma_decimal_len(n / 10);
    }
}

/// Distinct numbers have distinct decimal digits, so generated code never
/// gives two variants the same tag or two unnamed fields the same binding.
pub proof fn lemma_decimal_injective(a: nat, b: nat)
    requires
        decimal(a) == decimal(b),
    ensures
        a == b,
    decreases a,
{
    lemma_decimal_len(a);
    lemma_decimal_len(b);
    if a < 10 && b < 10 {
        // Both are one digit, and the digits' code points are 48 + a and 48 + b.
        assert(decimal(a)[0] == digit_char(a));
        assert(decimal(b)[0] == digit_char(b));
        assert(digit_char(a) as int == 48 + a);
        assert(digit_char(b) as int == 48 + b);
    } else if a >= 10 && b >= 10 {
        // The leading digits are equal by induction, and so are the last ones.
        assert(decimal(a).drop_last() =~= decimal(a / 10));
        assert(decimal(b).drop_last() =~= decimal(b / 10));
        lemma_decimal_injective(a / 10, b / 10);
        assert(decimal(a).last() == digit_char(a % 10));
        assert(decimal(b).last() == digit_char(b % 10));
        assert(digit_char(a % 10) as int == 48 + a % 10);
        assert(digit_char(b % 10) as int == 48 + b % 10);
    }
}

/// Appends the decimal digits of `n` to `out`.
pub fn write_decimal(out: &mut String, n: usize)
    ensures
        final(out)@ == old(out)@ + decimal(n as nat),
    decreases n,
{
    if n >= 10 {
        write_decimal(out, n / 10);
    }
    let d: u8 = (n % 10) as u8;
    let c: char = (48u8 + d) as char;
    push_char(out, c);
    proof {
        assert(c == digit_char((n % 10) as nat));
        assert(final(out)@ =~= old(out)@ + decimal(n as nat));
    }
}

/// The pieces, one after another.
pub open spec fn concat(pieces: Seq<Seq<char>>) -> Seq<char>
    decreases pieces.len(),
{
    if pieces.len() == 0 {
        Seq::empty()
    } else {
        concat(pieces.drop_last()) + pieces.last()
    }
}

/// The pieces, with `", "` between each two.
pub open spec fn comma_list(pieces: Seq<Seq<char>>) -> Seq<char>
    decreases pieces.len(),
{
    if pieces.len() == 0 {
        Seq::empty()
    } else if pieces.len() == 1 {
        pieces[0]
    } else {
        comma_list(pieces.drop_last()) + ", "@ + pieces.last()
    }
}

/// The first `i + 1` pieces are the first `i` and then piece `i`.
pub proof fn lemma_concat_take(pieces: Seq<Seq<char>>, i: int)
    requires
        0 <= i < pieces.len(),
    ensures
        concat(pieces.take(i + 1)) == concat(pieces.take(i)) + pieces[i],
{
    assert(pieces.take(i + 1).drop_last() =~= pieces.take(i));
}

/// The first `i + 1` pieces, comma-separated, are the first `i`, a comma
/// unless `i` is 0, and then piece `i`.
pub proof fn lemma_comma_list_take(pieces: Seq<Seq<char>>, i: int)
    requires
        0 <= i < pieces.len(),
    ensures
        comma_list(pieces.take(i + 1)) == comma_list(pieces.take(i)) + (if i == 0 {
            Seq::empty()
        } else {
            ", "@
        }) + pieces[i],
{
    assert(pieces.take(i + 1).drop_last() =~= pieces.take(i));
    if i == 0 {
        assert(comma_list(pieces.take(0)) + Seq::<char>::empty() + pieces[0] =~= pieces[0]);
    }
}

/// All the pieces are the first `pieces.len()` of them.
pub proof fn lemma_take_all(pieces: Seq<Seq<char>>)
    ensures
        pieces.take(pieces.len() as int) == pieces,
{
    assert(pieces.take(pieces.len() as int) =~= pieces);
}

/// An identifier without the `r#` that marks a raw identifier.
pub open spec fn unraw(ident: Seq<char>) -> Seq<char> {
    if ident.len() >= 2 && ident[0] == 'r' && ident[1] == '#' {
        ident.skip(2)
    } else {
        ident
    }
}

/// `__<ident>`: the name that generated code binds a named field to, formed
/// from the field's name without any `r#`.
pub open spec fn named_binding(ident: Seq<char>) -> Seq<char> {
    "__"@ + unraw(ident)
}

/// Appends the binding of the named field `ident`.
pub fn write_named_binding(out: &mut String, ident: &String)
    ensures
        final(out)@ == old(out)@ + named_binding(ident@),
{
    out.append("__");
    let s = ident.as_str();
    let n = s.unicode_len();
    if n >= 2 && s.get_char(0) == 'r' && s.get_char(1) == '#' {
        out.append(s.substring_char(2, n));
        assert(s@.subrange(2, n as int) =~= s@.skip(2));
    } else {
        out.append(s);
    }
    assert(final(out)@ =~= old(out)@ + named_binding(ident@));
}

/// `__self_<i>`: the name that generated code binds the unnamed field at
/// position `i` to.
pub open spec fn unnamed_binding(i: nat) -> Seq<char> {
    "__self_"@ + decimal(i)
}

/// Appends the binding of the unnamed field at position `i`.
pub fn write_unnamed_binding(out: &mut String, i: usize)
    ensures
        final(out)@ == old(out)@ + unnamed_binding(i as nat),
{
    out.append("__self_");
    write_decimal(out, i);
    assert(final(out)@ =~= old(out)@ + unnamed_binding(i as nat));
}

} // verus!
