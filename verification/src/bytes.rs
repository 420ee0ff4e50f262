//! Numbers in network byte order.
use vstd::prelude::*;

verus! {

pub open spec fn be16(value: u16) -> Seq<u8> {
    seq![(value / 0x100) as u8, (value % 0x100) as u8]
}

pub open spec fn be32(value: u32) -> Seq<u8> {
    seq![
        (value / 0x100_0000) as u8,
        (value / 0x1_0000 % 0x100) as u8,
        (value / 0x100 % 0x100) as u8,
        (value % 0x100) as u8,
    ]
}

pub open spec fn be64(value: u64) -> Seq<u8> {
    be32((value / 0x1_0000_0000) as u32) + be32((value % 0x1_0000_0000) as u32)
}

pub open spec fn be128(value: u128) -> Seq<u8> {
    be64((value / 0x1_0000_0000_0000_0000) as u64) + be64(
        (value % 0x1_0000_0000_0000_0000) as u64,
    )
}

/// The number that two bytes spell.
pub open spec fn read16(high: u8, low: u8) -> u16 {
    (high * 0x100 + low) as u16
}

/// The number that four bytes spell.
pub open spec fn read32(a: u8, b: u8, c: u8, d: u8) -> u32 {
    (a * 0x100_0000 + b * 0x1_0000 + c * 0x100 + d) as u32
}

/// The number that the sixteen bytes at `at` spell.
#[verifier::opaque]
pub open spec fn read128(bytes: Seq<u8>, at: int) -> u128 {
    (read32(bytes[at], bytes[at + 1], bytes[at + 2], bytes[at + 3]) * 0x1_0000_0000_0000_0000_0000_0000
        + read32(bytes[at + 4], bytes[at + 5], bytes[at + 6], bytes[at + 7])
        * 0x1_0000_0000_0000_0000 + read32(
        bytes[at + 8],
        bytes[at + 9],
        bytes[at + 10],
        bytes[at + 11],
    ) * 0x1_0000_0000 + read32(bytes[at + 12], bytes[at + 13], bytes[at + 14], bytes[at + 15]))
        as u128
}

pub fn push_be16(out: &mut Vec<u8>, value: u16)
    ensures
        final(out)@ == old(out)@ + be16(value),
{
    out.push((value / 0x100) as u8);
    out.push((value % 0x100) as u8);
    proof {
        assert(out@ =~= old(out)@ + be16(value));
    }
}

pub fn push_be32(out: &mut Vec<u8>, value: u32)
    ensures
        final(out)@ == old(out)@ + be32(value),
{
    out.push((value / 0x100_0000) as u8);
    out.push((value / 0x1_0000 % 0x100) as u8);
    out.push((value / 0x100 % 0x100) as u8);
    out.push((value % 0x100) as u8);
    proof {
        assert(out@ =~= old(out)@ + be32(value));
    }
}

pub fn push_be64(out: &mut Vec<u8>, value: u64)
    ensures
        final(out)@ == old(out)@ + be64(value),
{
    push_be32(out, (value / 0x1_0000_0000) as u32);
    push_be32(out, (value % 0x1_0000_0000) as u32);
    proof {
        assert(out@ =~= old(out)@ + be64(value));
    }
}

pub fn push_be128(out: &mut Vec<u8>, value: u128)
    ensures
        final(out)@ == old(out)@ + be128(value),
{
    push_be64(out, (value / 0x1_0000_0000_0000_0000) as u64);
    push_be64(out, (value % 0x1_0000_0000_0000_0000) as u64);
    proof {
        assert(out@ =~= old(out)@ + be128(value));
    }
}

/// Appends the bytes of `part`.
pub fn push_bytes(out: &mut Vec<u8>, part: &[u8])
    ensures
        final(out)@ == old(out)@ + part@,
{
    let mut i: usize = 0;
    assert(out@ =~= old(out)@ + part@.take(0));
    while i < part.len()
        invariant
            i <= part@.len(),
            out@ == old(out)@ + part@.take(i as int),
        decreases part@.len() - i,
    {
        out.push(part[i]);
        i = i + 1;
        assert(out@ =~= old(out)@ + part@.take(i as int));
    }
    assert(part@.take(i as int) =~= part@);
}

/// The number at `offset`.
pub fn be_u16(bytes: &[u8], offset: usize) -> (r: u16)
    requires
        offset + 2 <= bytes@.len(),
    ensures
        r == read16(bytes@[offset as int], bytes@[offset + 1]),
{
    bytes[offset] as u16 * 0x100 + bytes[offset + 1] as u16
}

/// The number at `offset`.
pub fn be_u32(bytes: &[u8], offset: usize) -> (r: u32)
    requires
        offset + 4 <= bytes@.len(),
    ensures
        r == read32(
            bytes@[offset as int],
            bytes@[offset + 1],
            bytes@[offset + 2],
            bytes@[offset + 3],
        ),
{
    bytes[offset] as u32 * 0x100_0000 + bytes[offset + 1] as u32 * 0x1_0000 + bytes[offset + 2]
        as u32 * 0x100 + bytes[offset + 3] as u32
}

/// The number at `offset`.
pub fn be_u128(bytes: &[u8], offset: usize) -> (r: u128)
    requires
        offset + 16 <= bytes@.len(),
    ensures
        r == read128(bytes@, offset as int),
{
    let count: usize = bytes.len();
    assert(offset + 16 <= count);
    proof {
        reveal(read128);
    }
    be_u32(bytes, offset) as u128 * 0x1_0000_0000_0000_0000_0000_0000 + be_u32(bytes, offset + 4)
        as u128 * 0x1_0000_0000_0000_0000 + be_u32(bytes, offset + 8) as u128 * 0x1_0000_0000
        + be_u32(bytes, offset + 12) as u128
}

/// A 16-bit number is read back as it was written.
pub proof fn be16_round_trip(value: u16)
    ensures
        read16(be16(value)[0], be16(value)[1]) == value,
{
}

/// A 32-bit number is read back as it was written.
pub proof fn be32_round_trip(value: u32)
    ensures
        read32(be32(value)[0], be32(value)[1], be32(value)[2], be32(value)[3]) == value,
{
}

/// A 128-bit number is read back as it was written.
pub proof fn be128_round_trip(value: u128)
    ensures
        read128(be128(value), 0) == value,
{
    reveal(read128);
    let high = (value / 0x1_0000_0000_0000_0000) as u64;
    let low = (value % 0x1_0000_0000_0000_0000) as u64;
    let bytes = be128(value);
    be32_round_trip((high / 0x1_0000_0000) as u32);
    be32_round_trip((high % 0x1_0000_0000) as u32);
    be32_round_trip((low / 0x1_0000_0000) as u32);
    be32_round_trip((low % 0x1_0000_0000) as u32);
    assert(bytes.subrange(0, 4) =~= be32((high / 0x1_0000_0000) as u32));
    assert(bytes.subrange(4, 8) =~= be32((high % 0x1_0000_0000) as u32));
    assert(bytes.subrange(8, 12) =~= be32((low / 0x1_0000_0000) as u32));
    assert(bytes.subrange(12, 16) =~= be32((low % 0x1_0000_0000) as u32));
}

/// A 128-bit number is read back from where it was written.
pub proof fn be128_read_at(content: Seq<u8>, at: int, value: u128)
    requires
        0 <= at,
        at + 16 <= content.len(),
        content.subrange(at, at + 16) == be128(value),
    ensures
        read128(content, at) == value,
{
    reveal(read128);
    be128_round_trip(value);
    let part = content.subrange(at, at + 16);
    assert(part[0] == content[at] && part[1] == content[at + 1] && part[2] == content[at + 2]
        && part[3] == content[at + 3]);
    assert(part[4] == content[at + 4] && part[5] == content[at + 5] && part[6] == content[at + 6]
        && part[7] == content[at + 7]);
    assert(part[8] == content[at + 8] && part[9] == content[at + 9] && part[10] == content[at + 10]
        && part[11] == content[at + 11]);
    assert(part[12] == content[at + 12] && part[13] == content[at + 13] && part[14] == content[at
        + 14] && part[15] == content[at + 15]);
}

} // verus!
