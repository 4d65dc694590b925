//! Big-endian fields: what they are as byte sequences, and how they are appended
//! to a growing buffer.

use vstd::prelude::*;

verus! {

/// The largest count or byte length that a 16-bit prefix can announce.
pub const MAX_FIELD: usize = 65535;

/// The two bytes of a 16-bit field, most significant first.
pub open spec fn be16(x: u16) -> Seq<u8> {
    seq![(x / 256) as u8, (x % 256) as u8]
}

/// The four bytes of a 32-bit field, most significant first.
pub open spec fn be32(x: u32) -> Seq<u8> {
    seq![
        (x / 0x100_0000) as u8,
        (x / 0x1_0000 % 256) as u8,
        (x / 0x100 % 256) as u8,
        (x % 256) as u8,
    ]
}

/// The eight bytes of a 64-bit field, most significant first.
pub open spec fn be64(x: u64) -> Seq<u8> {
    seq![
        (x / 0x100_0000_0000_0000) as u8,
        (x / 0x1_0000_0000_0000 % 256) as u8,
        (x / 0x100_0000_0000 % 256) as u8,
        (x / 0x1_0000_0000 % 256) as u8,
        (x / 0x100_0000 % 256) as u8,
        (x / 0x1_0000 % 256) as u8,
        (x / 0x100 % 256) as u8,
        (x % 256) as u8,
    ]
}

/// The unsigned 64-bit number with the same bits as `i` in two's complement.
pub open spec fn twos_complement(i: i64) -> u64 {
    if i >= 0 {
        i as u64
    } else {
        (i + 0x1_0000_0000_0000_0000) as u64
    }
}

/// The high byte of a 16-bit field.
pub fn hi(x: u16) -> (b: u8)
    ensures
        b == be16(x)[0],
{
    (x / 256) as u8
}

/// The low byte of a 16-bit field.
pub fn lo(x: u16) -> (b: u8)
    ensures
        b == be16(x)[1],
{
    (x % 256) as u8
}

/// Appends `bytes` to `buf`.
pub fn put_bytes(buf: &mut Vec<u8>, bytes: &Vec<u8>)
    ensures
        final(buf)@ == old(buf)@ + bytes@,
{
    let mut i: usize = 0;
    while i < bytes.len()
        invariant
            i <= bytes.len(),
            buf@ == old(buf)@ + bytes@.take(i as int),
        decreases bytes.len() - i,
    {
        buf.push(bytes[i]);
        proof {
            assert(bytes@.take(i + 1) == bytes@.take(i as int).push(bytes@[i as int]));
        }
        i += 1;
    }
    proof {
        assert(bytes@.take(i as int) == bytes@);
    }
}

/// Appends a 16-bit field to `buf`.
pub fn put_u16(buf: &mut Vec<u8>, x: u16)
    ensures
        final(buf)@ == old(buf)@ + be16(x),
{
    buf.push((x / 256) as u8);
    buf.push((x % 256) as u8);
    proof {
        assert(buf@ == old(buf)@ + be16(x));
    }
}

/// Appends a 32-bit field to `buf`.
pub fn put_u32(buf: &mut Vec<u8>, x: u32)
    ensures
        final(buf)@ == old(buf)@ + be32(x),
{
    buf.push((x / 0x100_0000) as u8);
    buf.push((x / 0x1_0000 % 256) as u8);
    buf.push((x / 0x100 % 256) as u8);
    buf.push((x % 256) as u8);
    proof {
        assert(buf@ == old(buf)@ + be32(x));
    }
}

/// Appends a 64-bit field to `buf`.
pub fn put_u64(buf: &mut Vec<u8>, x: u64)
    ensures
        final(buf)@ == old(buf)@ + be64(x),
{
    buf.push((x / 0x100_0000_0000_0000) as u8);
    buf.push((x / 0x1_0000_0000_0000 % 256) as u8);
    buf.push((x / 0x100_0000_0000 % 256) as u8);
    buf.push((x / 0x1_0000_0000 % 256) as u8);
    buf.push((x / 0x100_0000 % 256) as u8);
    buf.push((x / 0x1_0000 % 256) as u8);
    buf.push((x / 0x100 % 256) as u8);
    buf.push((x % 256) as u8);
    proof {
        assert(buf@ == old(buf)@ + be64(x));
    }
}

/// The bits of a signed 64-bit number, as an unsigned one.
pub fn to_twos_complement(i: i64) -> (u: u64)
    ensures
        u == twos_complement(i),
{
    if i >= 0 {
        i as u64
    } else {
        let below: u64 = (-(i + 1)) as u64;
        u64::MAX - below
    }
}

/// A field's bytes determine the field.
pub proof fn lemma_be16_injective(a: u16, b: u16)
    requires
        be16(a) == be16(b),
    ensures
        a == b,
{
    assert(be16(a)[0] == be16(b)[0]);
    assert(be16(a)[1] == be16(b)[1]);
}

} // verus!
