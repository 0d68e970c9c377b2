//! Big-endian integer fields of the on-disk frame: reading from and
//! appending to byte vectors, with the byte-level meaning stated as
//! spec functions over `Seq<u8>`.

use vstd::prelude::*;

verus! {

/// The number a big-endian 2-byte field denotes.
pub open spec fn be_u16(s: Seq<u8>) -> u16
    recommends
        s.len() == 2,
{
    ((s[0] as u16) * 0x100 + (s[1] as u16)) as u16
}

/// The number a big-endian 4-byte field denotes.
pub open spec fn be_u32(s: Seq<u8>) -> u32
    recommends
        s.len() == 4,
{
    ((s[0] as u32) * 0x100_0000 + (s[1] as u32) * 0x1_0000 + (s[2] as u32) * 0x100 + (
    s[3] as u32)) as u32
}

/// The number a big-endian 8-byte field denotes.
pub open spec fn be_u64(s: Seq<u8>) -> u64
    recommends
        s.len() == 8,
{
    ((s[0] as u64) * 0x100_0000_0000_0000 + (s[1] as u64) * 0x1_0000_0000_0000 + (s[2] as u64)
        * 0x100_0000_0000 + (s[3] as u64) * 0x1_0000_0000 + (s[4] as u64) * 0x100_0000 + (
    s[5] as u64) * 0x1_0000 + (s[6] as u64) * 0x100 + (s[7] as u64)) as u64
}

/// The big-endian 2-byte encoding of `x`.
pub open spec fn be_bytes_u16(x: u16) -> Seq<u8> {
    seq![(x / 0x100) as u8, (x % 0x100) as u8]
}

/// The big-endian 4-byte encoding of `x`.
pub open spec fn be_bytes_u32(x: u32) -> Seq<u8> {
    seq![
        (x / 0x100_0000) as u8,
        ((x / 0x1_0000) % 0x100) as u8,
        ((x / 0x100) % 0x100) as u8,
        (x % 0x100) as u8,
    ]
}

/// The big-endian 8-byte encoding of `x`.
pub open spec fn be_bytes_u64(x: u64) -> Seq<u8> {
    seq![
        (x / 0x100_0000_0000_0000) as u8,
        ((x / 0x1_0000_0000_0000) % 0x100) as u8,
        ((x / 0x100_0000_0000) % 0x100) as u8,
        ((x / 0x1_0000_0000) % 0x100) as u8,
        ((x / 0x100_0000) % 0x100) as u8,
        ((x / 0x1_0000) % 0x100) as u8,
        ((x / 0x100) % 0x100) as u8,
        (x % 0x100) as u8,
    ]
}

/// Encoding and decoding of a 2-byte field invert each other.
pub broadcast proof fn lemma_be_u16_round_trip(x: u16)
    ensures
        #[trigger] be_u16(be_bytes_u16(x)) == x,
        be_bytes_u16(x).len() == 2,
{
}

/// Encoding and decoding of a 4-byte field invert each other.
pub broadcast proof fn lemma_be_u32_round_trip(x: u32)
    ensures
        #[trigger] be_u32(be_bytes_u32(x)) == x,
        be_bytes_u32(x).len() == 4,
{
}

/// Encoding and decoding of an 8-byte field invert each other.
pub broadcast proof fn lemma_be_u64_round_trip(x: u64)
    ensures
        #[trigger] be_u64(be_bytes_u64(x)) == x,
        be_bytes_u64(x).len() == 8,
{
    assert(((x / 0x100_0000_0000_0000) as u8 as u64) * 0x100_0000_0000_0000 + (((x
        / 0x1_0000_0000_0000) % 0x100) as u8 as u64) * 0x1_0000_0000_0000 + (((x / 0x100_0000_0000)
        % 0x100) as u8 as u64) * 0x100_0000_0000 + (((x / 0x1_0000_0000) % 0x100) as u8 as u64)
        * 0x1_0000_0000 + (((x / 0x100_0000) % 0x100) as u8 as u64) * 0x100_0000 + (((x / 0x1_0000)
        % 0x100) as u8 as u64) * 0x1_0000 + (((x / 0x100) % 0x100) as u8 as u64) * 0x100 + ((x
        % 0x100) as u8 as u64) == x) by (bit_vector);
}

/// Append the big-endian 2-byte encoding of `x` to `out`.
pub fn put_u16_be(out: &mut Vec<u8>, x: u16)
    ensures
        final(out)@ == old(out)@ + be_bytes_u16(x),
{
    out.push((x / 0x100) as u8);
    out.push((x % 0x100) as u8);

}

/// Append the big-endian 4-byte encoding of `x` to `out`.
pub fn put_u32_be(out: &mut Vec<u8>, x: u32)
    ensures
        final(out)@ == old(out)@ + be_bytes_u32(x),
{
    out.push((x / 0x100_0000) as u8);
    out.push(((x / 0x1_0000) % 0x100) as u8);
    out.push(((x / 0x100) % 0x100) as u8);
    out.push((x % 0x100) as u8);

}

/// Append the big-endian 8-byte encoding of `x` to `out`.
pub fn put_u64_be(out: &mut Vec<u8>, x: u64)
    ensures
        final(out)@ == old(out)@ + be_bytes_u64(x),
{
    out.push((x / 0x100_0000_0000_0000) as u8);
    out.push(((x / 0x1_0000_0000_0000) % 0x100) as u8);
    out.push(((x / 0x100_0000_0000) % 0x100) as u8);
    out.push(((x / 0x1_0000_0000) % 0x100) as u8);
    out.push(((x / 0x100_0000) % 0x100) as u8);
    out.push(((x / 0x1_0000) % 0x100) as u8);
    out.push(((x / 0x100) % 0x100) as u8);
    out.push((x % 0x100) as u8);

}

/// Read the big-endian 2-byte field at `pos`.
pub fn get_u16_be(b: &Vec<u8>, pos: usize) -> (r: u16)
    requires
        pos + 2 <= b@.len(),
    ensures
        r == be_u16(b@.subrange(pos as int, pos + 2)),
{
    let n: usize = b.len();
    let r = (b[pos] as u16) * 0x100 + (b[pos + 1] as u16);
    proof {
        let s = b@.subrange(pos as int, pos + 2);
        assert(s[0] == b@[pos as int] && s[1] == b@[pos + 1]);
    }
    r
}

/// Read the big-endian 4-byte field at `pos`.
pub fn get_u32_be(b: &Vec<u8>, pos: usize) -> (r: u32)
    requires
        pos + 4 <= b@.len(),
    ensures
        r == be_u32(b@.subrange(pos as int, pos + 4)),
{
    let n: usize = b.len();
    let r = (b[pos] as u32) * 0x100_0000 + (b[pos + 1] as u32) * 0x1_0000 + (b[pos + 2] as u32)
        * 0x100 + (b[pos + 3] as u32);
    proof {
        let s = b@.subrange(pos as int, pos + 4);
        assert(s[0] == b@[pos as int]);
        assert(s[1] == b@[pos + 1]);
        assert(s[2] == b@[pos + 2]);
        assert(s[3] == b@[pos + 3]);
    }
    r
}

/// Read the big-endian 8-byte field at `pos`.
pub fn get_u64_be(b: &Vec<u8>, pos: usize) -> (r: u64)
    requires
        pos + 8 <= b@.len(),
    ensures
        r == be_u64(b@.subrange(pos as int, pos + 8)),
{
    let n: usize = b.len();
    let r = (b[pos] as u64) * 0x100_0000_0000_0000 + (b[pos + 1] as u64) * 0x1_0000_0000_0000 + (
    b[pos + 2] as u64) * 0x100_0000_0000 + (b[pos + 3] as u64) * 0x1_0000_0000 + (b[pos
        + 4] as u64) * 0x100_0000 + (b[pos + 5] as u64) * 0x1_0000 + (b[pos + 6] as u64) * 0x100 + (
    b[pos + 7] as u64);
    proof {
        let s = b@.subrange(pos as int, pos + 8);
        assert(s[0] == b@[pos as int]);
        assert(s[1] == b@[pos + 1]);
        assert(s[2] == b@[pos + 2]);
        assert(s[3] == b@[pos + 3]);
        assert(s[4] == b@[pos + 4]);
        assert(s[5] == b@[pos + 5]);
        assert(s[6] == b@[pos + 6]);
        assert(s[7] == b@[pos + 7]);
    }
    r
}

} // verus!
