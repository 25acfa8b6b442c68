//! The primitives of the wire format: little-endian integers, one-byte
//! booleans and length-prefixed UTF-8 strings, as functions on byte
//! sequences.

use vstd::prelude::*;
use vstd::utf8::*;

verus! {

/// The four bytes of `v`, least significant first.
#[verifier::opaque]
pub open spec fn u32_le(v: u32) -> Seq<u8> {
    seq![
        (v as int % 256) as u8,
        (v as int / 256 % 256) as u8,
        (v as int / 65536 % 256) as u8,
        (v as int / 16777216 % 256) as u8,
    ]
}

/// The number whose little-endian bytes are the first four of `b`.
#[verifier::opaque]
pub open spec fn u32_from_le(b: Seq<u8>) -> u32
    recommends
        b.len() >= 4,
{
    (b[0] as int + b[1] as int * 256 + b[2] as int * 65536 + b[3] as int * 16777216) as u32
}

/// The eight bytes of `v`, least significant first.
#[verifier::opaque]
pub open spec fn u64_le(v: u64) -> Seq<u8> {
    u32_le((v as int % 4294967296) as u32) + u32_le((v as int / 4294967296) as u32)
}

/// The number whose little-endian bytes are the first eight of `b`.
#[verifier::opaque]
pub open spec fn u64_from_le(b: Seq<u8>) -> u64
    recommends
        b.len() >= 8,
{
    (u32_from_le(b) as int + u32_from_le(b.skip(4)) as int * 4294967296) as u64
}

/// The two's-complement bit pattern of `v`.
pub open spec fn i32_bits(v: i32) -> u32 {
    if v >= 0 {
        v as u32
    } else {
        (v as int + 4294967296) as u32
    }
}

/// The signed number with the two's-complement bit pattern `u`.
pub open spec fn i32_of_bits(u: u32) -> i32 {
    if u < 2147483648 {
        u as i32
    } else {
        (u as int - 4294967296) as i32
    }
}

/// The four bytes of `v` in two's complement, least significant first.
#[verifier::opaque]
pub open spec fn i32_le(v: i32) -> Seq<u8> {
    u32_le(i32_bits(v))
}

/// The signed number whose little-endian bytes are the first four of `b`.
#[verifier::opaque]
pub open spec fn i32_from_le(b: Seq<u8>) -> i32
    recommends
        b.len() >= 4,
{
    i32_of_bits(u32_from_le(b))
}

/// A boolean on the wire: one byte, 1 for true and 0 for false.
pub open spec fn bool_byte(b: bool) -> Seq<u8> {
    seq![if b { 1u8 } else { 0u8 }]
}

/// A string on the wire: its byte length in four bytes, reduced modulo
/// 2^32, then its UTF-8 bytes.
#[verifier::opaque]
pub open spec fn string_le(s: Seq<char>) -> Seq<u8> {
    u32_le((encode_utf8(s).len() as int % 4294967296) as u32) + encode_utf8(s)
}

/// A run of bytes on the wire: its length in four bytes, reduced modulo
/// 2^32, then the bytes.
#[verifier::opaque]
pub open spec fn bytes_le(b: Seq<u8>) -> Seq<u8> {
    u32_le((b.len() as int % 4294967296) as u32) + b
}

/// Decoding the four bytes of a number gives the number back.
pub proof fn lemma_u32_roundtrip(v: u32)
    ensures
        u32_le(v).len() == 4,
        u32_from_le(u32_le(v)) == v,
{
    reveal(u32_le);
    reveal(u32_from_le);
}

/// Encoding the number read from four bytes gives the bytes back.
pub proof fn lemma_u32_bytes_roundtrip(b: Seq<u8>)
    requires
        b.len() == 4,
    ensures
        u32_le(u32_from_le(b)) == b,
{
    reveal(u32_le);
    reveal(u32_from_le);
    let b0 = b[0] as int;
    let b1 = b[1] as int;
    let b2 = b[2] as int;
    let b3 = b[3] as int;
    let high = b1 + 256 * (b2 + 256 * b3);
    let v = b0 + 256 * high;
    assert(v == b0 + b1 * 256 + b2 * 65536 + b3 * 16777216);
    assert(u32_from_le(b) as int == v);
    assert(v % 256 == b0 && v / 256 == high);
    assert(high % 256 == b1 && high / 256 == b2 + 256 * b3);
    assert(v / 65536 == b2 + 256 * b3);
    assert((b2 + 256 * b3) % 256 == b2 && (b2 + 256 * b3) / 256 == b3);
    assert(v / 16777216 == b3);
    let out = u32_le(u32_from_le(b));
    assert(out[0] == b[0] && out[1] == b[1] && out[2] == b[2] && out[3] == b[3]);
    assert(out =~= b);
}

/// Decoding the eight bytes of a number gives the number back.
pub proof fn lemma_u64_roundtrip(v: u64)
    ensures
        u64_le(v).len() == 8,
        u64_from_le(u64_le(v)) == v,
{
    reveal(u64_le);
    reveal(u64_from_le);
    let lo = (v as int % 4294967296) as u32;
    let hi = (v as int / 4294967296) as u32;
    lemma_u32_roundtrip(lo);
    lemma_u32_roundtrip(hi);
    assert(u64_le(v).skip(4) =~= u32_le(hi));
    lemma_u32_prefix(u64_le(v), u32_le(lo));
}

/// The number read from four bytes depends on those four bytes alone.
pub proof fn lemma_u32_prefix(a: Seq<u8>, b: Seq<u8>)
    requires
        a.len() >= 4,
        b.len() >= 4,
        a[0] == b[0],
        a[1] == b[1],
        a[2] == b[2],
        a[3] == b[3],
    ensures
        u32_from_le(a) == u32_from_le(b),
{
    reveal(u32_from_le);
}

/// Decoding the four bytes of a signed number gives the number back.
pub proof fn lemma_i32_roundtrip(v: i32)
    ensures
        i32_le(v).len() == 4,
        i32_from_le(i32_le(v)) == v,
{
    reveal(i32_le);
    reveal(i32_from_le);
    lemma_u32_roundtrip(i32_bits(v));
}

} // verus!
