//! Big-endian byte strings: their mathematical meaning and the verified
//! conversions between integers and bytes that every number codec uses.
use vstd::prelude::*;

verus! {

/// `256` raised to the power `n`.
pub open spec fn pow256(n: nat) -> nat
    decreases n,
{
    if n == 0 {
        1
    } else {
        256 * pow256((n - 1) as nat)
    }
}

/// The `n` least significant base-256 digits of `v`, most significant first.
///
/// For a negative `v` this is its two's-complement representation in `n`
/// bytes, because `/` and `%` on `int` are Euclidean.
pub open spec fn be_bytes(v: int, n: nat) -> Seq<u8>
    decreases n,
{
    if n == 0 {
        Seq::empty()
    } else {
        be_bytes(v / 256, (n - 1) as nat).push((v % 256) as u8)
    }
}

/// The unsigned integer whose big-endian representation is `s`.
pub open spec fn be_value(s: Seq<u8>) -> nat
    decreases s.len(),
{
    if s.len() == 0 {
        0
    } else {
        be_value(s.drop_last()) * 256 + s.last() as nat
    }
}

/// The signed integer whose big-endian two's-complement representation is `s`.
pub open spec fn be_signed_value(s: Seq<u8>) -> int {
    if 2 * be_value(s) < pow256(s.len()) {
        be_value(s) as int
    } else {
        be_value(s) - pow256(s.len())
    }
}

pub proof fn lemma_pow256_positive(n: nat)
    ensures
        pow256(n) >= 1,
    decreases n,
{
    if n > 0 {
        lemma_pow256_positive((n - 1) as nat);
    }
}

pub proof fn lemma_pow256_monotone(m: nat, n: nat)
    requires
        m <= n,
    ensures
        pow256(m) <= pow256(n),
    decreases n,
{
    if m < n {
        lemma_pow256_monotone(m, (n - 1) as nat);
        lemma_pow256_positive((n - 1) as nat);
    }
}

pub proof fn lemma_pow256_values()
    ensures
        pow256(1) == 0x100,
        pow256(2) == 0x1_0000,
        pow256(4) == 0x1_0000_0000,
        pow256(8) == 0x1_0000_0000_0000_0000,
        pow256(16) == 0x1_0000_0000_0000_0000_0000_0000_0000_0000,
{
    reveal_with_fuel(pow256, 17);
}

pub proof fn lemma_be_bytes_len(v: int, n: nat)
    ensures
        be_bytes(v, n).len() == n,
    decreases n,
{
    if n > 0 {
        lemma_be_bytes_len(v / 256, (n - 1) as nat);
    }
}

pub proof fn lemma_be_value_bound(s: Seq<u8>)
    ensures
        be_value(s) < pow256(s.len()),
    decreases s.len(),
{
    if s.len() > 0 {
        lemma_be_value_bound(s.drop_last());
    }
}

/// A single byte is its own one-byte big-endian representation.
pub proof fn lemma_be_bytes_byte(b: u8)
    ensures
        be_bytes(b as int, 1) == seq![b],
{
    reveal_with_fuel(be_bytes, 2);
    assert(be_bytes(b as int, 1) =~= seq![b]);
}

/// Reading back the `n` bytes of a value below `256^n` gives the value.
pub proof fn lemma_be_value_of_bytes(v: int, n: nat)
    requires
        0 <= v < pow256(n),
    ensures
        be_value(be_bytes(v, n)) == v,
    decreases n,
{
    if n > 0 {
        let q = v / 256;
        assert(0 <= q < pow256((n - 1) as nat));
        lemma_be_value_of_bytes(q, (n - 1) as nat);
        let s = be_bytes(v, n);
        assert(s.drop_last() =~= be_bytes(q, (n - 1) as nat));
    }
}

/// Writing the value of `s` in `s.len()` bytes gives `s` back.
pub proof fn lemma_be_bytes_of_value(s: Seq<u8>)
    ensures
        be_bytes(be_value(s) as int, s.len()) == s,
    decreases s.len(),
{
    if s.len() > 0 {
        let p = s.drop_last();
        lemma_be_bytes_of_value(p);
        let v = be_value(s) as int;
        assert(v / 256 == be_value(p));
        assert(v % 256 == s.last());
        assert(be_bytes(v, s.len()) =~= s);
    }
}

/// Adding `256^n` does not change the last `n` bytes.
pub proof fn lemma_be_bytes_periodic(v: int, n: nat)
    ensures
        be_bytes(v + pow256(n), n) == be_bytes(v, n),
    decreases n,
{
    if n > 0 {
        let p = pow256((n - 1) as nat);
        assert((v + 256 * p) / 256 == v / 256 + p);
        assert((v + 256 * p) % 256 == v % 256);
        lemma_be_bytes_periodic(v / 256, (n - 1) as nat);
    }
}

/// A signed value that fits in `n` bytes is read back from its bytes.
pub proof fn lemma_be_signed_value_of_bytes(v: int, n: nat)
    requires
        n > 0,
        -pow256(n) <= 2 * v < pow256(n),
    ensures
        be_signed_value(be_bytes(v, n)) == v,
{
    lemma_be_bytes_len(v, n);
    if v >= 0 {
        lemma_be_value_of_bytes(v, n);
    } else {
        lemma_be_bytes_periodic(v, n);
        lemma_be_value_of_bytes(v + pow256(n), n);
    }
}

/// The `n` big-endian bytes of `v`.
pub fn be_bytes_of(v: u128, n: usize) -> (r: Vec<u8>)
    ensures
        r@ == be_bytes(v as int, n as nat),
    decreases n,
{
    if n == 0 {
        Vec::new()
    } else {
        let mut r = be_bytes_of(v / 256, n - 1);
        r.push((v % 256) as u8);
        r
    }
}

/// The unsigned value of at most sixteen big-endian bytes.
pub fn be_value_of(s: &[u8]) -> (r: u128)
    requires
        s@.len() <= 16,
    ensures
        r == be_value(s@),
{
    let mut acc: u128 = 0;
    let mut i: usize = 0;
    proof {
        lemma_pow256_values();
    }
    while i < s.len()
        invariant
            i <= s@.len() <= 16,
            acc == be_value(s@.take(i as int)),
            pow256(16) == 0x1_0000_0000_0000_0000_0000_0000_0000_0000,
        decreases s@.len() - i,
    {
        proof {
            lemma_be_value_bound(s@.take(i as int));
            lemma_pow256_monotone((i + 1) as nat, 16);
            assert(s@.take(i + 1).drop_last() =~= s@.take(i as int));
        }
        acc = acc * 256 + s[i] as u128;
        i = i + 1;
    }
    assert(s@.take(i as int) =~= s@);
    acc
}

/// `256^n` for `n` below sixteen.
pub fn pow256_of(n: usize) -> (r: u128)
    requires
        n < 16,
    ensures
        r == pow256(n as nat),
{
    let mut r: u128 = 1;
    let mut i: usize = 0;
    while i < n
        invariant
            i <= n < 16,
            r == pow256(i as nat),
        decreases n - i,
    {
        proof {
            lemma_pow256_values();
            lemma_pow256_monotone((i + 1) as nat, 15);
            reveal_with_fuel(pow256, 16);
        }
        r = r * 256;
        i = i + 1;
    }
    r
}

/// The `n` big-endian two's-complement bytes of a signed value that fits in
/// `n` bytes.
pub fn signed_be_bytes_of(v: i128, n: usize) -> (r: Vec<u8>)
    requires
        1 <= n <= 16,
        -pow256(n as nat) <= 2 * v < pow256(n as nat),
    ensures
        r@ == be_bytes(v as int, n as nat),
{
    if v >= 0 {
        be_bytes_of(v as u128, n)
    } else {
        proof {
            lemma_pow256_values();
            lemma_pow256_monotone(n as nat, 16);
            lemma_be_bytes_periodic(v as int, n as nat);
        }
        // `v + 256^n`, the unsigned value with the same `n` low bytes.
        let shifted: u128 = if n == 16 {
            ((v + i128::MAX) + 1) as u128 + (i128::MAX as u128 + 1)
        } else {
            let p = pow256_of(n);
            proof {
                lemma_pow256_monotone(n as nat, 15);
                reveal_with_fuel(pow256, 16);
                assert(pow256(15) == 0x0100_0000_0000_0000_0000_0000_0000_0000);
            }
            (v + p as i128) as u128
        };
        assert(shifted == v + pow256(n as nat));
        be_bytes_of(shifted, n)
    }
}

/// The signed value of between one and sixteen big-endian two's-complement
/// bytes.
pub fn signed_value_of(s: &[u8]) -> (r: i128)
    requires
        1 <= s@.len() <= 16,
    ensures
        r == be_signed_value(s@),
{
    let n = s.len();
    let u = be_value_of(s);
    proof {
        lemma_pow256_values();
        lemma_be_value_bound(s@);
        lemma_pow256_monotone(n as nat, 16);
        reveal_with_fuel(pow256, 2);
    }
    // `half` is `256^n / 2`, the least value whose top bit is set.
    let half: u128 = pow256_of(n - 1) * 128;
    assert(2 * half == pow256(n as nat));
    if u < half {
        u as i128
    } else {
        let d = (u - half) as i128;
        d - (half - 1) as i128 - 1
    }
}

} // verus!
