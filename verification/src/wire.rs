//! Integers on the wire. EtherCAT sends every integer with its lowest byte first.

use vstd::prelude::*;

verus! {

/// Why a value could not be read from bytes.
#[derive(Clone, Copy, Debug, PartialEq, Eq, Structural)]
pub enum WireError {
    /// There are fewer bytes than the value takes.
    ReadBufferTooShort,
    /// The bytes are there, but no value is written that way.
    InvalidValue,
}

/// The two bytes of `x`, lowest first.
pub open spec fn le16(x: u16) -> Seq<u8> {
    seq![(x % 256) as u8, (x / 256) as u8]
}

/// The four bytes of `x`, lowest first.
pub open spec fn le32(x: u32) -> Seq<u8> {
    seq![
        (x % 0x100) as u8,
        (x / 0x100 % 0x100) as u8,
        (x / 0x1_0000 % 0x100) as u8,
        (x / 0x100_0000) as u8,
    ]
}

/// The integer whose bytes, lowest first, are `lo` and `hi`.
pub open spec fn u16_of(lo: u8, hi: u8) -> u16 {
    (lo + 256 * hi) as u16
}

/// `n` zero bytes.
pub open spec fn zeros(n: nat) -> Seq<u8> {
    Seq::new(n, |i: int| 0u8)
}

/// A flag as the bit that stands for it.
pub open spec fn bit(flag: bool) -> u8 {
    if flag {
        1
    } else {
        0
    }
}

/// Eight flags as the eight bits of a byte, lowest first.
pub open spec fn byte_of(flags: [bool; 8]) -> u8 {
    (bit(flags[0]) + 2 * bit(flags[1]) + 4 * bit(flags[2]) + 8 * bit(flags[3]) + 16 * bit(
        flags[4],
    ) + 32 * bit(flags[5]) + 64 * bit(flags[6]) + 128 * bit(flags[7])) as u8
}

/// Packs `x`, lowest byte first.
pub fn pack_u16(x: u16) -> (buf: [u8; 2])
    ensures
        buf@ == le16(x),
{
    let buf = [(x % 256) as u8, (x / 256) as u8];
    assert(buf@ =~= le16(x));
    buf
}

/// Packs `x`, lowest byte first.
pub fn pack_u32(x: u32) -> (buf: [u8; 4])
    ensures
        buf@ == le32(x),
{
    let buf = [
        (x % 0x100) as u8,
        (x / 0x100 % 0x100) as u8,
        (x / 0x1_0000 % 0x100) as u8,
        (x / 0x100_0000) as u8,
    ];
    assert(buf@ =~= le32(x));
    buf
}

/// Reads the integer whose bytes, lowest first, are `lo` and `hi`.
pub fn unpack_u16(lo: u8, hi: u8) -> (x: u16)
    ensures
        x == u16_of(lo, hi),
{
    lo as u16 + 256 * (hi as u16)
}

/// The bit that stands for a flag.
pub fn pack_bit(flag: bool) -> (b: u8)
    ensures
        b == bit(flag),
        b <= 1,
{
    if flag {
        1
    } else {
        0
    }
}

/// The byte whose bits are eight flags, lowest first.
pub fn pack_bits(flags: [bool; 8]) -> (b: u8)
    ensures
        b == byte_of(flags),
{
    pack_bit(flags[0]) + 2 * pack_bit(flags[1]) + 4 * pack_bit(flags[2]) + 8 * pack_bit(flags[3])
        + 16 * pack_bit(flags[4]) + 32 * pack_bit(flags[5]) + 64 * pack_bit(flags[6]) + 128
        * pack_bit(flags[7])
}

/// Appends `n` zero bytes to `buf`.
pub fn push_zeros(buf: &mut Vec<u8>, n: usize)
    ensures
        final(buf)@ == old(buf)@ + zeros(n as nat),
{
    let ghost before = buf@;
    let mut i: usize = 0;
    while i < n
        invariant
            i <= n,
            buf@ == before + zeros(i as nat),
        decreases n - i,
    {
        buf.push(0);
        i = i + 1;
        assert(buf@ =~= before + zeros(i as nat));
    }
}

/// Reading the two bytes of an integer gives the integer back.
pub proof fn law_u16_round_trip(x: u16)
    ensures
        u16_of(le16(x)[0], le16(x)[1]) == x,
{
}

/// Writing the integer read from two bytes gives the bytes back.
pub proof fn law_u16_bytes_round_trip(lo: u8, hi: u8)
    ensures
        le16(u16_of(lo, hi)) == seq![lo, hi],
{
    assert(le16(u16_of(lo, hi)) =~= seq![lo, hi]);
}

/// The four bytes of an integer, weighted by their places, add up to the integer.
pub proof fn law_u32_bytes(x: u32)
    ensures
        x == le32(x)[0] + 0x100 * le32(x)[1] + 0x1_0000 * le32(x)[2] + 0x100_0000 * le32(x)[3],
{
    let high = x / 0x1_0000;
    let low = x % 0x1_0000;
    assert(x / 0x100 == 0x100 * high + low / 0x100);
    assert(x / 0x100 % 0x100 == low / 0x100);
    assert(x % 0x100 == low % 0x100);
    assert(x / 0x100_0000 == high / 0x100);
}

/// An integer is sent as two bytes, and the first of them is the lower one.
pub proof fn law_u16_is_sent_low_byte_first(x: u16)
    ensures
        le16(x).len() == 2,
        le16(x)[0] + 256 * le16(x)[1] == x,
{
}

/// An integer is sent as four bytes.
pub proof fn law_u32_is_four_bytes(x: u32)
    ensures
        le32(x).len() == 4,
        le32(x)[0] == x % 256,
        le32(x)[3] == x / 0x100_0000,
{
}

/// Of two bytes that are read as an integer, the second counts 256 times.
pub proof fn law_u16_is_read_low_byte_first(lo: u8, hi: u8)
    ensures
        u16_of(lo, hi) == lo + 256 * hi,
{
}

/// Filling up adds as many bytes as it says, each of them zero.
pub proof fn law_zeros(n: nat, i: int)
    ensures
        zeros(n).len() == n,
        0 <= i < n ==> zeros(n)[i] == 0,
{
}

/// A flag is one bit, set where the flag is.
pub proof fn law_bit(flag: bool)
    ensures
        bit(flag) == 0 || bit(flag) == 1,
        bit(flag) == 1 <==> flag,
{
}

/// Each of eight flags is the bit of its place, whatever the others are.
pub proof fn law_byte_of(flags: [bool; 8])
    ensures
        byte_of(flags) % 2 == 1 <==> flags[0],
        byte_of(flags) / 2 % 2 == 1 <==> flags[1],
        byte_of(flags) / 4 % 2 == 1 <==> flags[2],
        byte_of(flags) / 8 % 2 == 1 <==> flags[3],
        byte_of(flags) / 16 % 2 == 1 <==> flags[4],
        byte_of(flags) / 32 % 2 == 1 <==> flags[5],
        byte_of(flags) / 64 % 2 == 1 <==> flags[6],
        byte_of(flags) / 128 == 1 <==> flags[7],
{
}

} // verus!
