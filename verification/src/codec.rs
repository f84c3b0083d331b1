//! Big-endian integer layout, as the header codec and the checksum read it.
//!
//! A multi-byte field is the base-256 numeral of its bytes, most significant
//! byte first. The functions here state that once, over `Seq<u8>`, so that
//! the contracts of the readers and writers can refer to it.

use vstd::prelude::*;

verus! {

/// The value of a two-byte big-endian field.
pub open spec fn be_u16(s: Seq<u8>) -> u16
    recommends
        s.len() == 2,
{
    (s[0] as int * 0x100 + s[1] as int) as u16
}

/// The value of a four-byte big-endian field.
pub open spec fn be_u32(s: Seq<u8>) -> u32
    recommends
        s.len() == 4,
{
    (s[0] as int * 0x100_0000 + s[1] as int * 0x1_0000 + s[2] as int * 0x100 + s[3] as int) as u32
}

/// The value of an eight-byte big-endian field: its first four bytes are the
/// high word, its last four the low word.
pub open spec fn be_u64(s: Seq<u8>) -> u64
    recommends
        s.len() == 8,
{
    (be_u32(s.subrange(0, 4)) as int * 0x1_0000_0000 + be_u32(s.subrange(4, 8)) as int) as u64
}

/// The two bytes that hold `x`, most significant first.
pub open spec fn u16_bytes(x: u16) -> Seq<u8> {
    seq![(x / 0x100) as u8, (x % 0x100) as u8]
}

/// The four bytes that hold `x`, most significant first.
pub open spec fn u32_bytes(x: u32) -> Seq<u8> {
    seq![
        (x / 0x100_0000) as u8,
        (x / 0x1_0000 % 0x100) as u8,
        (x / 0x100 % 0x100) as u8,
        (x % 0x100) as u8,
    ]
}

/// The eight bytes that hold `x`, most significant first.
pub open spec fn u64_bytes(x: u64) -> Seq<u8> {
    u32_bytes((x / 0x1_0000_0000) as u32) + u32_bytes((x % 0x1_0000_0000) as u32)
}

/// Reading back the bytes of a 16-bit value gives the value.
pub proof fn lemma_u16_round_trip(x: u16)
    ensures
        u16_bytes(x).len() == 2,
        be_u16(u16_bytes(x)) == x,
{
}

/// Reading back the bytes of a 32-bit value gives the value.
pub proof fn lemma_u32_round_trip(x: u32)
    ensures
        u32_bytes(x).len() == 4,
        be_u32(u32_bytes(x)) == x,
{
}

/// Reading back the bytes of a 64-bit value gives the value.
pub proof fn lemma_u64_round_trip(x: u64)
    ensures
        u64_bytes(x).len() == 8,
        be_u64(u64_bytes(x)) == x,
{
    let hi = (x / 0x1_0000_0000) as u32;
    let lo = (x % 0x1_0000_0000) as u32;
    lemma_u32_round_trip(hi);
    lemma_u32_round_trip(lo);
    assert(u64_bytes(x).subrange(0, 4) =~= u32_bytes(hi));
    assert(u64_bytes(x).subrange(4, 8) =~= u32_bytes(lo));
}

/// Writing out the value of two bytes gives the bytes.
pub proof fn lemma_u16_bytes_of_value(s: Seq<u8>)
    requires
        s.len() == 2,
    ensures
        u16_bytes(be_u16(s)) == s,
{
    assert(u16_bytes(be_u16(s)) =~= s);
}

/// Writing out the value of four bytes gives the bytes.
pub proof fn lemma_u32_bytes_of_value(s: Seq<u8>)
    requires
        s.len() == 4,
    ensures
        u32_bytes(be_u32(s)) == s,
{
    let (b0, b1, b2, b3) = (s[0] as int, s[1] as int, s[2] as int, s[3] as int);
    let low = b1 * 0x1_0000 + b2 * 0x100 + b3;
    let x = be_u32(s);
    assert(x == b0 * 0x100_0000 + low);
    assert(x / 0x100_0000 == b0);
    assert(x / 0x1_0000 == b0 * 0x100 + b1);
    assert(x / 0x100 == b0 * 0x1_0000 + b1 * 0x100 + b2);
    assert(u32_bytes(x) =~= s);
}

/// Writing out the value of eight bytes gives the bytes.
pub proof fn lemma_u64_bytes_of_value(s: Seq<u8>)
    requires
        s.len() == 8,
    ensures
        u64_bytes(be_u64(s)) == s,
{
    let hi = s.subrange(0, 4);
    let lo = s.subrange(4, 8);
    lemma_u32_bytes_of_value(hi);
    lemma_u32_bytes_of_value(lo);
    let h = be_u32(hi);
    let l = be_u32(lo);
    let x = be_u64(s);
    assert(x == h as int * 0x1_0000_0000 + l as int);
    assert((x / 0x1_0000_0000) as u32 == h);
    assert((x % 0x1_0000_0000) as u32 == l);
    assert(hi + lo =~= s);
}

} // verus!
