//! Little-endian encoding of 32-bit values as four bytes.
use vstd::prelude::*;

verus! {

/// The four little-endian bytes of a 32-bit word.
pub open spec fn u32_le_bytes(v: u32) -> Seq<u8> {
    seq![(v & 0xff) as u8, ((v >> 8u32) & 0xff) as u8, ((v >> 16u32) & 0xff) as u8, ((v >> 24u32) & 0xff) as u8]
}

/// The word whose little-endian bytes are the first four of `b`.
pub open spec fn u32_from_le(b: Seq<u8>) -> u32 {
    (b[0] as u32) | ((b[1] as u32) << 8u32) | ((b[2] as u32) << 16u32) | ((b[3] as u32) << 24u32)
}

/// The little-endian bytes of a signed 32-bit value (two's complement).
pub open spec fn i32_le_bytes(v: i32) -> Seq<u8> {
    u32_le_bytes(v as u32)
}

/// The signed 32-bit value whose little-endian bytes are the first four of `b`.
pub open spec fn i32_from_le(b: Seq<u8>) -> i32 {
    u32_from_le(b) as i32
}

/// Decoding the encoding of a word gives the word back.
pub proof fn lemma_u32_round_trip(v: u32)
    ensures
        u32_from_le(u32_le_bytes(v)) == v,
        u32_le_bytes(v).len() == 4,
{
    let b0 = (v & 0xff) as u8;
    let b1 = ((v >> 8u32) & 0xff) as u8;
    let b2 = ((v >> 16u32) & 0xff) as u8;
    let b3 = ((v >> 24u32) & 0xff) as u8;
    assert((b0 as u32) | ((b1 as u32) << 8u32) | ((b2 as u32) << 16u32) | ((b3 as u32) << 24u32) == v)
        by (bit_vector)
        requires
            b0 == (v & 0xff) as u8,
            b1 == ((v >> 8u32) & 0xff) as u8,
            b2 == ((v >> 16u32) & 0xff) as u8,
            b3 == ((v >> 24u32) & 0xff) as u8,
    ;
}

/// Encoding the decoding of four bytes gives the bytes back.
pub proof fn lemma_bytes_round_trip(b: Seq<u8>)
    requires
        b.len() == 4,
    ensures
        u32_le_bytes(u32_from_le(b)) == b,
{
    let (b0, b1, b2, b3) = (b[0], b[1], b[2], b[3]);
    let v = u32_from_le(b);
    assert(v == (b0 as u32) | ((b1 as u32) << 8u32) | ((b2 as u32) << 16u32) | ((b3 as u32) << 24u32));
    assert(
        (v & 0xff) as u8 == b0 && ((v >> 8u32) & 0xff) as u8 == b1 && ((v >> 16u32) & 0xff) as u8 == b2
            && ((v >> 24u32) & 0xff) as u8 == b3
    ) by (bit_vector)
        requires
            v == (b0 as u32) | ((b1 as u32) << 8u32) | ((b2 as u32) << 16u32) | ((b3 as u32) << 24u32),
    ;
    assert(u32_le_bytes(v) =~= b);
}

/// A signed value survives encoding and decoding.
pub proof fn lemma_i32_round_trip(v: i32)
    ensures
        i32_from_le(i32_le_bytes(v)) == v,
        i32_le_bytes(v).len() == 4,
{
    lemma_u32_round_trip(v as u32);
    assert((v as u32) as i32 == v) by (bit_vector);
}

/// Reading four bytes as a signed value and writing that value back gives the same bytes.
pub proof fn lemma_word_round_trip(w: Seq<u8>)
    requires
        w.len() == 4,
    ensures
        u32_le_bytes(i32_from_le(w) as u32) == w,
        i32_from_le(w) as u32 == u32_from_le(w),
{
    let x = u32_from_le(w);
    assert((x as i32) as u32 == x) by (bit_vector);
    lemma_bytes_round_trip(w);
}

/// Encodes a word as four little-endian bytes.
pub fn u32_to_le(v: u32) -> (r: [u8; 4])
    ensures
        r@ == u32_le_bytes(v),
{
    let r = [(v & 0xff) as u8, ((v >> 8u32) & 0xff) as u8, ((v >> 16u32) & 0xff) as u8, ((v >> 24u32) & 0xff) as u8];
    assert(r@ =~= u32_le_bytes(v));
    r
}

/// Decodes four little-endian bytes into a word.
pub fn u32_of_le(b: &[u8]) -> (r: u32)
    requires
        b@.len() == 4,
    ensures
        r == u32_from_le(b@),
{
    (b[0] as u32) | ((b[1] as u32) << 8u32) | ((b[2] as u32) << 16u32) | ((b[3] as u32) << 24u32)
}

} // verus!
