//! Byte-level helpers shared by the wire codec and the working set:
//! little-endian integer encodings, byte-vector equality and slicing.

use vstd::prelude::*;

verus! {

/// The four little-endian bytes of a 32-bit value.
#[verifier::opaque]
pub open spec fn u32_le_bytes(n: u32) -> Seq<u8> {
    seq![
        (n % 256) as u8,
        ((n / 256) % 256) as u8,
        ((n / 65536) % 256) as u8,
        ((n / 16777216) % 256) as u8,
    ]
}

/// The eight little-endian bytes of a 64-bit value.
#[verifier::opaque]
pub open spec fn u64_le_bytes(n: u64) -> Seq<u8> {
    seq![
        (n % 256) as u8,
        ((n / 256) % 256) as u8,
        ((n / 65536) % 256) as u8,
        ((n / 16777216) % 256) as u8,
        ((n / 4294967296) % 256) as u8,
        ((n / 1099511627776) % 256) as u8,
        ((n / 281474976710656) % 256) as u8,
        ((n / 72057594037927936) % 256) as u8,
    ]
}

/// The 32-bit value read from four little-endian bytes.
pub open spec fn u32_from_le(s: Seq<u8>) -> u32
    recommends
        s.len() == 4,
{
    (s[0] + s[1] * 256 + s[2] * 65536 + s[3] * 16777216) as u32
}

/// The 64-bit value read from eight little-endian bytes.
pub open spec fn u64_from_le(s: Seq<u8>) -> u64
    recommends
        s.len() == 8,
{
    (s[0] + s[1] * 256 + s[2] * 65536 + s[3] * 16777216 + s[4] * 4294967296
        + s[5] * 1099511627776 + s[6] * 281474976710656 + s[7] * 72057594037927936) as u64
}

pub fn encode_u32_le(n: u32) -> (r: Vec<u8>)
    ensures
        r@ == u32_le_bytes(n),
{
    let mut r: Vec<u8> = Vec::new();
    r.push((n % 256) as u8);
    r.push(((n / 256) % 256) as u8);
    r.push(((n / 65536) % 256) as u8);
    r.push(((n / 16777216) % 256) as u8);
    proof {
        reveal(u32_le_bytes);
        assert(r@ =~= u32_le_bytes(n));
    }
    r
}

pub fn encode_u64_le(n: u64) -> (r: Vec<u8>)
    ensures
        r@ == u64_le_bytes(n),
{
    let mut r: Vec<u8> = Vec::new();
    r.push((n % 256) as u8);
    r.push(((n / 256) % 256) as u8);
    r.push(((n / 65536) % 256) as u8);
    r.push(((n / 16777216) % 256) as u8);
    r.push(((n / 4294967296) % 256) as u8);
    r.push(((n / 1099511627776) % 256) as u8);
    r.push(((n / 281474976710656) % 256) as u8);
    r.push(((n / 72057594037927936) % 256) as u8);
    proof {
        reveal(u64_le_bytes);
        assert(r@ =~= u64_le_bytes(n));
    }
    r
}

/// Reads the 32-bit little-endian value stored at `offset`.
pub fn decode_u32_le(b: &Vec<u8>, offset: usize) -> (r: u32)
    requires
        offset + 4 <= b@.len(),
    ensures
        r == u32_from_le(b@.subrange(offset as int, offset as int + 4)),
{
    // The length call puts the vector's length, and with it the reach of
    // offset + 4, below usize::MAX for the index arithmetic.
    let _n = b.len();
    let b0: u32 = b[offset] as u32;
    let b1: u32 = b[offset + 1] as u32;
    let b2: u32 = b[offset + 2] as u32;
    let b3: u32 = b[offset + 3] as u32;
    b0 + b1 * 256 + b2 * 65536 + b3 * 16777216
}

/// Reads the 64-bit little-endian value stored at `offset`.
pub fn decode_u64_le(b: &Vec<u8>, offset: usize) -> (r: u64)
    requires
        offset + 8 <= b@.len(),
    ensures
        r == u64_from_le(b@.subrange(offset as int, offset as int + 8)),
{
    // As in the 32-bit reader: learn that offset + 8 fits usize.
    let _n = b.len();
    let b0: u64 = b[offset] as u64;
    let b1: u64 = b[offset + 1] as u64;
    let b2: u64 = b[offset + 2] as u64;
    let b3: u64 = b[offset + 3] as u64;
    let b4: u64 = b[offset + 4] as u64;
    let b5: u64 = b[offset + 5] as u64;
    let b6: u64 = b[offset + 6] as u64;
    let b7: u64 = b[offset + 7] as u64;
    b0 + b1 * 256 + b2 * 65536 + b3 * 16777216 + b4 * 4294967296 + b5 * 1099511627776
        + b6 * 281474976710656 + b7 * 72057594037927936
}

/// Reading back the four bytes written for a value yields that value.
pub proof fn lemma_u32_le_round_trip(n: u32)
    ensures
        u32_from_le(u32_le_bytes(n)) == n,
{
    reveal(u32_le_bytes);
    assert((n % 256) + ((n / 256) % 256) * 256 + ((n / 65536) % 256) * 65536 + ((n / 16777216)
        % 256) * 16777216 == n) by (bit_vector);
}

/// Reading back the eight bytes written for a value yields that value.
pub proof fn lemma_u64_le_round_trip(n: u64)
    ensures
        u64_from_le(u64_le_bytes(n)) == n,
{
    reveal(u64_le_bytes);
    assert((n % 256) + ((n / 256) % 256) * 256 + ((n / 65536) % 256) * 65536 + ((n / 16777216)
        % 256) * 16777216 + ((n / 4294967296) % 256) * 4294967296 + ((n / 1099511627776) % 256)
        * 1099511627776 + ((n / 281474976710656) % 256) * 281474976710656 + ((n
        / 72057594037927936) % 256) * 72057594037927936 == n) by (bit_vector);
}

/// Byte-vector equality, reflected to the views.
pub fn bytes_eq(a: &Vec<u8>, b: &Vec<u8>) -> (r: bool)
    ensures
        r == (a@ == b@),
{
    let r = a == b;
    proof {
        if r {
            assert(a@ =~= b@);
        }
    }
    r
}

/// Copies `b[start..end]` into a fresh vector.
pub fn bytes_range(b: &Vec<u8>, start: usize, end: usize) -> (r: Vec<u8>)
    requires
        start <= end <= b@.len(),
    ensures
        r@ == b@.subrange(start as int, end as int),
{
    let mut r: Vec<u8> = Vec::new();
    let mut i: usize = start;
    while i < end
        invariant
            start <= i <= end <= b@.len(),
            r@ == b@.subrange(start as int, i as int),
        decreases end - i,
    {
        r.push(b[i]);
        proof {
            assert(r@ =~= b@.subrange(start as int, i as int + 1));
        }
        i = i + 1;
    }
    r
}

/// Appends all of `src` onto `dst`.
pub fn bytes_extend(dst: &mut Vec<u8>, src: &Vec<u8>)
    ensures
        final(dst)@ == old(dst)@ + src@,
{
    let mut i: usize = 0;
    while i < src.len()
        invariant
            i <= src@.len(),
            dst@ == old(dst)@ + src@.subrange(0, i as int),
        decreases src@.len() - i,
    {
        dst.push(src[i]);
        proof {
            assert(dst@ =~= old(dst)@ + src@.subrange(0, i as int + 1));
        }
        i = i + 1;
    }
    proof {
        assert(src@.subrange(0, src@.len() as int) =~= src@);
    }
}

/// The views of a sequence of byte vectors.
pub open spec fn bytes_seq_view(v: Seq<Vec<u8>>) -> Seq<Seq<u8>> {
    v.map_values(|x: Vec<u8>| x@)
}

} // verus!
