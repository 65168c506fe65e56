//! Big-endian length prefixes: every frame on the wire starts with the
//! payload byte count as an unsigned 32-bit big-endian integer.
use vstd::prelude::*;

verus! {

/// The four big-endian bytes of a 32-bit value.
pub open spec fn be32(x: u32) -> Seq<u8> {
    seq![
        ((x >> 24) & 0xff) as u8,
        ((x >> 16) & 0xff) as u8,
        ((x >> 8) & 0xff) as u8,
        (x & 0xff) as u8,
    ]
}

/// The 32-bit value described by four big-endian bytes.
pub open spec fn be32_val(b: Seq<u8>) -> u32
    recommends
        b.len() == 4,
{
    ((b[0] as u32) << 24) | ((b[1] as u32) << 16) | ((b[2] as u32) << 8) | (b[3] as u32)
}

/// Reading back the four big-endian bytes of a value yields that value,
/// and writing the bytes of a read-back value yields those bytes.
pub proof fn lemma_be32_roundtrip(x: u32)
    ensures
        be32(x).len() == 4,
        be32_val(be32(x)) == x,
{
    assert(((((x >> 24) & 0xff) as u8) as u32) << 24 | ((((x >> 16) & 0xff) as u8) as u32) << 16
        | ((((x >> 8) & 0xff) as u8) as u32) << 8 | (((x & 0xff) as u8) as u32) == x)
        by (bit_vector);
}

/// The four big-endian bytes of `x`, as a vector.
pub fn u32_to_be_bytes(x: u32) -> (r: Vec<u8>)
    ensures
        r@ == be32(x),
{
    assert((x >> 24) & 0xff < 256 && (x >> 16) & 0xff < 256 && (x >> 8) & 0xff < 256 && x & 0xff
        < 256) by (bit_vector);
    let mut r: Vec<u8> = Vec::new();
    r.push(((x >> 24) & 0xff) as u8);
    r.push(((x >> 16) & 0xff) as u8);
    r.push(((x >> 8) & 0xff) as u8);
    r.push((x & 0xff) as u8);
    proof {
        assert(r@ =~= be32(x));
    }
    r
}

/// The value described by four big-endian bytes.
pub fn u32_from_be_bytes(b0: u8, b1: u8, b2: u8, b3: u8) -> (x: u32)
    ensures
        x == be32_val(seq![b0, b1, b2, b3]),
{
    ((b0 as u32) << 24) | ((b1 as u32) << 16) | ((b2 as u32) << 8) | (b3 as u32)
}

} // verus!
