# sio2

A deterministic, zero-copy binary serialization library, verified with Verus.

Values are encoded by the `Encode` trait into a growable `BufMut` (or, through
`fixed::Encode`, into a fixed-capacity `fixed::BufMut` over a byte slice), and
decoded by the `Decode` trait from a read-only `Buf`. Numbers are big-endian;
sequences and strings carry their length as a `u64`; enums carry a one-byte tag.

Every `Encode` implementation in the crate states the exact bytes it writes
as a specification function of the value (`encoding`), and every `Decode`
implementation in the crate states what it yields from any input
(`spec_decode`). The module `laws` proves that each value of those types
decodes back from its own encoding, whatever bytes follow it. Derived
implementations are generated source text, specified exactly as text; the
code it becomes is not verified. Such an implementation, like any written
outside Verus, keeps the traits' defaults for `encoding`, `model` and
`spec_decode`: one fixed value each, the same for every value or input,
which its code does not meet. Nothing proved here holds of those types, on
their own or inside a container.

A fixed-capacity buffer writes an encoding piece by piece (a number, a tag
byte, a length); when the encoding does not fit, the leading whole pieces
that fit are written and nothing of the first that does not
(`fixed::Encode::pieces`).

## Layout

- `src/encode.rs`, `src/fixed.rs`, `src/decode.rs`: the traits and buffers.
- `src/bytes.rs`: big-endian two's-complement bytes of integers.
- `src/impls/`: the implementations for numbers, `bool`, `char`, strings,
  slices, arrays, `Vec`, `Option`, `Result`, tuples, bounds, orderings,
  pointers, `Cow` and `PhantomData`.
- `src/ir.rs`: the description of a type that `Encode` and `Decode` are
  derived for, and the rules it obeys.
- `src/expand/`: the source text of derived implementations, generated from
  that description.
- `src/laws.rs`: the round-trip laws.
- `app/`: the derive entry points (reading tokens with `syn`, lexing the
  generated text back into tokens), error types with `Display`, and
  conversions to and from `core::ops::Bound`.

## What is not here, and what differs

- `Bound` is the library's own enum with the variants of `core::ops::Bound`
  (`app/` converts between the two), and `Ordering` is encoded and decoded
  through the functions `encode_ordering`, `ordering_len`,
  `try_encode_ordering` and `decode_ordering` rather than trait impls.
- There are no impls for these types, and they cannot be added outside the
  crate, since Rust forbids implementing the crate's traits for another
  crate's type there:
  - `HashMap`, `HashSet`: their order varies between runs, so their bytes
    are not a function of the value;
  - `BTreeMap`, `BTreeSet`: the iteration order is specified only for keys
    known to obey Verus's model of `Ord`, which a generic impl cannot ask;
  - `IndexMap`, `IndexSet`, `Wrapping`, `Saturating`, `Reverse`: the
    contents of such a generic outside type cannot be named in a contract;
  - `NonZero*`: the type cannot be declared to Verus, since its parameter's
    bound is unstable;
  - `Cell`, `RefCell`, atomics: Verus does not support them;
  - IP and socket addresses: they live in `std::net`, which the verified
    code does not use.
- `DecodeError` has no `InvalidCStr` and no `Other` variant.
- An owned `Cow` encodes through its owned type's impl, which writes the
  same bytes as the borrowed form for `str`, slices and `Clone` types.
- The derives are plain functions in `app/` (`derive::encode`,
  `derive::fixed_encode`, `derive::decode`) from tokens to tokens, for a
  proc-macro crate to call.

## Usage

```rust
use sio2::{Buf, ToBytes, VecExt};

let bytes: Vec<u8> = "silica".to_bytes();

let mut buf = Vec::new();
buf.encode("silica2");
buf.encode(&32u8);

let mut input = Buf::new(&bytes);
let s: &str = input.decode().unwrap();
assert_eq!(s, "silica");
```
