//! Little-endian decoding of fixed-width values from raw bytes.
//!
//! Every typed accessor of the capability contract reads a run of bytes and
//! hands it to one of these functions; the contracts here pin the decoded
//! value down exactly, so nothing about a value's meaning is left to the
//! reader of the bytes.

use vstd::prelude::*;
use vstd::utf8::decode_utf8;
use vstd::utf8::valid_utf8;

verus! {

/// Decodes accumulated bytes as UTF-8, substituting the empty string when
/// they are not a valid encoding, rather than surfacing a decode error.
///
/// Relies on `String::from_utf8`: it succeeds exactly on valid UTF-8 and then
/// returns the characters those bytes encode.
#[verifier::external_body]
pub(crate) fn bytes_to_string_or_empty(bytes: Vec<u8>) -> (r: String)
    ensures
        valid_utf8(bytes@) ==> r@ == decode_utf8(bytes@),
        !valid_utf8(bytes@) ==> r@ == Seq::<char>::empty(),
{
    String::from_utf8(bytes).unwrap_or(String::new())
}

/// The value of a byte sequence read as a little-endian unsigned integer:
/// the first byte is the least significant.
pub open spec fn le_value(s: Seq<u8>) -> nat
    decreases s.len(),
{
    if s.len() == 0 {
        0
    } else {
        s[0] as nat + 256 * le_value(s.skip(1))
    }
}

/// 256 raised to the `n`th power: the number of values `n` bytes can hold.
pub open spec fn pow256(n: nat) -> nat
    decreases n,
{
    if n == 0 {
        1
    } else {
        256 * pow256((n - 1) as nat)
    }
}

/// A little-endian byte sequence holds less than 256^len.
pub proof fn lemma_le_value_bound(s: Seq<u8>)
    ensures
        le_value(s) < pow256(s.len()),
    decreases s.len(),
{
    if s.len() == 0 {
    } else {
        lemma_le_value_bound(s.skip(1));
    }
}

/// Decodes up to 16 bytes as a little-endian unsigned integer.
pub fn decode_le_bytes(bytes: &Vec<u8>) -> (r: u128)
    requires
        bytes@.len() <= 16,
    ensures
        r as nat == le_value(bytes@),
{
    let n = bytes.len();
    let mut acc: u128 = 0;
    let mut i: usize = n;
    while i > 0
        invariant
            i <= n,
            n == bytes@.len() <= 16,
            acc as nat == le_value(bytes@.skip(i as int)),
            (acc as nat) < pow256((n - i) as nat),
        decreases i,
    {
        proof {
            lemma_pow256_16();
            assert(pow256((n - i + 1) as nat) == 256 * pow256((n - i) as nat));
            lemma_pow256_increases((n - i + 1) as nat, 16);
            assert(bytes@.skip(i - 1).skip(1) =~= bytes@.skip(i as int));
        }
        acc = acc * 256 + (bytes[i - 1] as u128);
        i = i - 1;
    }
    assert(bytes@.skip(0) =~= bytes@);
    acc
}

/// 256^4 is exactly one more than the largest 4-byte value.
proof fn lemma_pow256_4()
    ensures
        pow256(4) == 0x1_0000_0000,
{
    assert(pow256(0) == 1);
    assert(pow256(1) == 0x100);
    assert(pow256(2) == 0x1_0000);
    assert(pow256(3) == 0x100_0000);
    assert(pow256(4) == 0x1_0000_0000);
}

/// 256^8 is exactly one more than the largest 8-byte value.
proof fn lemma_pow256_8()
    ensures
        pow256(8) == 0x1_0000_0000_0000_0000,
{
    lemma_pow256_4();
    assert(pow256(5) == 0x100_0000_0000);
    assert(pow256(6) == 0x1_0000_0000_0000);
    assert(pow256(7) == 0x100_0000_0000_0000);
    assert(pow256(8) == 0x1_0000_0000_0000_0000);
}

/// 256^16 is exactly one more than the largest 16-byte value.
proof fn lemma_pow256_16()
    ensures
        pow256(16) == 0x1_0000_0000_0000_0000_0000_0000_0000_0000,
{
    lemma_pow256_8();
    assert(pow256(9) == 0x100_0000_0000_0000_0000);
    assert(pow256(10) == 0x1_0000_0000_0000_0000_0000);
    assert(pow256(11) == 0x100_0000_0000_0000_0000_0000);
    assert(pow256(12) == 0x1_0000_0000_0000_0000_0000_0000);
    assert(pow256(13) == 0x100_0000_0000_0000_0000_0000_0000);
    assert(pow256(14) == 0x1_0000_0000_0000_0000_0000_0000_0000);
    assert(pow256(15) == 0x100_0000_0000_0000_0000_0000_0000_0000);
    assert(pow256(16) == 0x1_0000_0000_0000_0000_0000_0000_0000_0000);
}

/// `pow256` grows with its exponent.
proof fn lemma_pow256_increases(a: nat, b: nat)
    requires
        a <= b,
    ensures
        pow256(a) <= pow256(b),
    decreases b,
{
    if a < b {
        lemma_pow256_increases(a, (b - 1) as nat);
    }
}

/// A stored boolean is `true` only when the byte is exactly `1`; any other
/// byte, zero or not, decodes to `false`.
pub fn decode_bool(byte: u8) -> (r: bool)
    ensures
        r == (byte == 1),
{
    byte == 1
}

/// The value of a 4-byte little-endian sequence read as a two's-complement
/// signed integer.
pub open spec fn i32_of_le(s: Seq<u8>) -> int {
    if le_value(s) >= 0x8000_0000 {
        le_value(s) - 0x1_0000_0000
    } else {
        le_value(s) as int
    }
}

/// The value of an 8-byte little-endian sequence read as a two's-complement
/// signed integer.
pub open spec fn i64_of_le(s: Seq<u8>) -> int {
    if le_value(s) >= 0x8000_0000_0000_0000 {
        le_value(s) - 0x1_0000_0000_0000_0000
    } else {
        le_value(s) as int
    }
}

/// Decodes exactly 4 bytes as a little-endian `u32`.
pub fn decode_u32_le(bytes: &Vec<u8>) -> (r: u32)
    requires
        bytes@.len() == 4,
    ensures
        r as nat == le_value(bytes@),
{
    proof {
        lemma_le_value_bound(bytes@);
        lemma_pow256_4();
    }
    let v = decode_le_bytes(bytes);
    v as u32
}

/// Decodes exactly 8 bytes as a little-endian `u64`.
pub fn decode_u64_le(bytes: &Vec<u8>) -> (r: u64)
    requires
        bytes@.len() == 8,
    ensures
        r as nat == le_value(bytes@),
{
    proof {
        lemma_le_value_bound(bytes@);
        lemma_pow256_8();
    }
    let v = decode_le_bytes(bytes);
    v as u64
}

/// Decodes exactly 16 bytes as a little-endian `u128`.
pub fn decode_u128_le(bytes: &Vec<u8>) -> (r: u128)
    requires
        bytes@.len() == 16,
    ensures
        r as nat == le_value(bytes@),
{
    decode_le_bytes(bytes)
}

/// Decodes exactly 4 bytes as a little-endian two's-complement `i32`.
pub fn decode_i32_le(bytes: &Vec<u8>) -> (r: i32)
    requires
        bytes@.len() == 4,
    ensures
        r as int == i32_of_le(bytes@),
{
    let u = decode_u32_le(bytes);
    if u < 0x8000_0000 {
        u as i32
    } else {
        -((0xFFFF_FFFFu32 - u) as i32) - 1
    }
}

/// Decodes exactly 8 bytes as a little-endian two's-complement `i64`.
pub fn decode_i64_le(bytes: &Vec<u8>) -> (r: i64)
    requires
        bytes@.len() == 8,
    ensures
        r as int == i64_of_le(bytes@),
{
    let u = decode_u64_le(bytes);
    if u < 0x8000_0000_0000_0000 {
        u as i64
    } else {
        -((0xFFFF_FFFF_FFFF_FFFFu64 - u) as i64) - 1
    }
}

/// The little-endian encoding of `v` in `n` bytes: the inverse of
/// [`le_value`] on values that fit.
pub open spec fn le_bytes_of(v: nat, n: nat) -> Seq<u8>
    decreases n,
{
    if n == 0 {
        Seq::empty()
    } else {
        seq![(v % 256) as u8] + le_bytes_of(v / 256, (n - 1) as nat)
    }
}

/// Encoding a value that fits in `n` bytes and decoding it again returns the
/// value unchanged: the round trip behind every fixed-width accessor.
pub proof fn lemma_le_round_trip(v: nat, n: nat)
    requires
        v < pow256(n),
    ensures
        le_bytes_of(v, n).len() == n,
        le_value(le_bytes_of(v, n)) == v,
    decreases n,
{
    if n == 0 {
    } else {
        assert(pow256(n) == 256 * pow256((n - 1) as nat));
        lemma_le_round_trip(v / 256, (n - 1) as nat);
        let s = le_bytes_of(v, n);
        assert(s.skip(1) =~= le_bytes_of(v / 256, (n - 1) as nat));
    }
}

/// Decoding is also the inverse of encoding: a byte pattern is recovered
/// unchanged from the value it spells, so each value of a fixed width has
/// exactly one byte pattern.
pub proof fn lemma_le_bytes_unique(s: Seq<u8>)
    ensures
        le_bytes_of(le_value(s), s.len()) == s,
    decreases s.len(),
{
    if s.len() == 0 {
        assert(le_bytes_of(le_value(s), s.len()) =~= s);
    } else {
        lemma_le_bytes_unique(s.skip(1));
        let v = le_value(s);
        assert(v == s[0] as nat + 256 * le_value(s.skip(1)));
        assert(v % 256 == s[0] as nat && v / 256 == le_value(s.skip(1))) by (nonlinear_arith)
            requires
                v == s[0] as nat + 256 * le_value(s.skip(1)),
                s[0] < 256,
        ;
        assert(le_bytes_of(v, s.len()) =~= s);
    }
}

/// Round trip for 4-byte unsigned values.
pub proof fn lemma_u32_round_trip(v: u32)
    ensures
        le_value(le_bytes_of(v as nat, 4)) == v,
{
    lemma_pow256_4();
    lemma_le_round_trip(v as nat, 4);
}

/// Round trip for 8-byte unsigned values.
pub proof fn lemma_u64_round_trip(v: u64)
    ensures
        le_value(le_bytes_of(v as nat, 8)) == v,
{
    lemma_pow256_8();
    lemma_le_round_trip(v as nat, 8);
}

/// Round trip for 16-byte unsigned values.
pub proof fn lemma_u128_round_trip(v: u128)
    ensures
        le_value(le_bytes_of(v as nat, 16)) == v,
{
    lemma_pow256_16();
    lemma_le_round_trip(v as nat, 16);
}

/// The 4-byte two's-complement representation of a signed value, as the
/// unsigned number whose little-endian bytes encode it.
pub open spec fn i32_rep(v: i32) -> nat {
    if v >= 0 {
        v as nat
    } else {
        (v + 0x1_0000_0000) as nat
    }
}

/// The 8-byte two's-complement representation of a signed value.
pub open spec fn i64_rep(v: i64) -> nat {
    if v >= 0 {
        v as nat
    } else {
        (v + 0x1_0000_0000_0000_0000) as nat
    }
}

/// Round trip for 4-byte two's-complement values.
pub proof fn lemma_i32_round_trip(v: i32)
    ensures
        i32_of_le(le_bytes_of(i32_rep(v), 4)) == v,
{
    lemma_pow256_4();
    lemma_le_round_trip(i32_rep(v), 4);
}

/// Round trip for 8-byte two's-complement values.
pub proof fn lemma_i64_round_trip(v: i64)
    ensures
        i64_of_le(le_bytes_of(i64_rep(v), 8)) == v,
{
    lemma_pow256_8();
    lemma_le_round_trip(i64_rep(v), 8);
}

} // verus!
