//! The MPEG-2 CRC-32: seed `0xFFFFFFFF`, polynomial `0x04C11DB7`, bits taken
//! most significant first, no reflection and no final inversion.

use vstd::prelude::*;

verus! {

/// The generator polynomial, without its leading term.
pub const CRC32_POLYNOMIAL: u32 = 0x04C1_1DB7;

/// The value the accumulator starts from.
pub const CRC32_SEED: u32 = 0xFFFF_FFFF;

/// Bit `7 - k` of `byte`: the `k`-th bit when counting from the top.
pub open spec fn bit_from_top(byte: u8, k: nat) -> bool {
    (byte >> (7 - k) as u8) & 1 == 1
}

/// One division step: the accumulator moves up by one bit, and the polynomial
/// is folded in when the bit that left it differs from the incoming one.
pub open spec fn crc32_step(acc: u32, incoming: bool) -> u32 {
    if (acc >= 0x8000_0000u32) != incoming {
        (acc << 1) ^ CRC32_POLYNOMIAL
    } else {
        acc << 1
    }
}

/// The accumulator after the top `n` bits of `byte` have been taken in.
pub open spec fn crc32_feed(acc: u32, byte: u8, n: nat) -> u32
    decreases n,
{
    if n == 0 {
        acc
    } else {
        crc32_step(crc32_feed(acc, byte, (n - 1) as nat), bit_from_top(byte, (n - 1) as nat))
    }
}

/// The accumulator after all of `data` has been taken in, starting from the
/// seed.
pub open spec fn crc32_over(data: Seq<u8>) -> u32
    decreases data.len(),
{
    if data.len() == 0 {
        CRC32_SEED
    } else {
        crc32_feed(crc32_over(data.drop_last()), data.last(), 8)
    }
}

/// The checksum of a section: every byte but the last four, which are taken
/// to be the place of the checksum itself. A section too short to hold that
/// place has checksum zero.
pub open spec fn section_crc32(section: Seq<u8>) -> u32 {
    if section.len() >= 4 {
        crc32_over(section.subrange(0, section.len() - 4))
    } else {
        0
    }
}

/// After `k` shifts to the left the top bit of a byte is the bit that was
/// its `k`-th, counted from the top.
proof fn lemma_shifted_top_bit(byte: u8, k: u8)
    requires
        k < 8,
    ensures
        ((byte << k) >= 0x80u8) == bit_from_top(byte, k as nat),
{
    assert(((byte << k) >= 0x80u8) == ((byte >> (7 - k) as u8) & 1 == 1)) by (bit_vector)
        requires
            k < 8,
    ;
}

/// Takes one byte into the accumulator, bit by bit.
fn crc32_take_byte(acc: u32, byte: u8) -> (out: u32)
    ensures
        out == crc32_feed(acc, byte, 8),
{
    let mut crc: u32 = acc;
    let mut k: u8 = 0;
    while k < 8
        invariant
            k <= 8,
            crc == crc32_feed(acc, byte, k as nat),
        decreases 8 - k,
    {
        let dat: u8 = byte << k;
        proof {
            lemma_shifted_top_bit(byte, k);
        }
        if (crc >= 0x8000_0000) != (dat >= 0x80) {
            crc = (crc << 1) ^ CRC32_POLYNOMIAL;
        } else {
            crc = crc << 1;
        }
        k = k + 1;
    }
    crc
}

/// The MPEG-2 CRC-32 of a section, computed over all of it but its last four
/// bytes; zero for a section of fewer than four bytes.
pub fn calc_crc32(section_data: &[u8]) -> (crc: u32)
    ensures
        crc == section_crc32(section_data@),
{
    let section_len: usize = section_data.len();
    if section_len < 4 {
        return 0;
    }
    let covered: usize = section_len - 4;
    let ghost data = section_data@.subrange(0, covered as int);
    let mut crc: u32 = CRC32_SEED;
    let mut pos: usize = 0;
    while pos < covered
        invariant
            pos <= covered,
            covered + 4 == section_data@.len(),
            data == section_data@.subrange(0, covered as int),
            crc == crc32_over(data.subrange(0, pos as int)),
        decreases covered - pos,
    {
        proof {
            let taken = data.subrange(0, pos + 1);
            assert(taken.drop_last() == data.subrange(0, pos as int));
        }
        crc = crc32_take_byte(crc, section_data[pos]);
        pos = pos + 1;
    }
    proof {
        assert(data.subrange(0, covered as int) == data);
    }
    crc
}

} // verus!
