//! Big-endian integers, read and written through the `byteorder` crate.

use byteorder::{BigEndian, ByteOrder};
use vstd::prelude::*;

verus! {

/// The 16-bit value whose big-endian encoding is `b0`, `b1`.
pub open spec fn be16(b0: u8, b1: u8) -> u16 {
    ((b0 as u16) << 8) | (b1 as u16)
}

/// The 32-bit value whose big-endian encoding is `b0`, `b1`, `b2`, `b3`.
pub open spec fn be32(b0: u8, b1: u8, b2: u8, b3: u8) -> u32 {
    ((b0 as u32) << 24) | ((b1 as u32) << 16) | ((b2 as u32) << 8) | (b3 as u32)
}

/// The big-endian integer held by the two bytes of `s` that start at `at`.
pub open spec fn be16_at(s: Seq<u8>, at: int) -> u16 {
    be16(s[at], s[at + 1])
}

/// The big-endian integer held by the four bytes of `s` that start at `at`.
pub open spec fn be32_at(s: Seq<u8>, at: int) -> u32 {
    be32(s[at], s[at + 1], s[at + 2], s[at + 3])
}

/// The four bytes that encode `n`, most significant first.
pub open spec fn be32_encoding(n: u32) -> Seq<u8> {
    seq![(n >> 24) as u8, (n >> 16) as u8, (n >> 8) as u8, n as u8]
}

/// Decoding the encoding of `n` gives `n` back.
pub proof fn lemma_be32_round_trip(n: u32)
    ensures
        be32_encoding(n).len() == 4,
        be32_at(be32_encoding(n), 0) == n,
{
    assert(be32((n >> 24) as u8, (n >> 16) as u8, (n >> 8) as u8, n as u8) == n) by (bit_vector);
}

/// Trusted: `byteorder::BigEndian::read_u16`. It decodes the first two bytes
/// of `buf` as a big-endian integer and panics on a shorter slice, which the
/// precondition rules out.
#[verifier::external_body]
pub(crate) fn read_be16(buf: &[u8]) -> (v: u16)
    requires
        buf@.len() >= 2,
    ensures
        v == be16_at(buf@, 0),
{
    BigEndian::read_u16(buf)
}

/// Trusted: `byteorder::BigEndian::read_u32`. It decodes the first four bytes
/// of `buf` as a big-endian integer and panics on a shorter slice, which the
/// precondition rules out.
#[verifier::external_body]
pub(crate) fn read_be32(buf: &[u8]) -> (v: u32)
    requires
        buf@.len() >= 4,
    ensures
        v == be32_at(buf@, 0),
{
    BigEndian::read_u32(buf)
}

/// Trusted: `byteorder::BigEndian::write_u32`. It overwrites the first four
/// bytes of `buf` with the big-endian encoding of `n`, leaves the rest as it
/// was, and panics on a shorter slice, which the precondition rules out.
#[verifier::external_body]
pub(crate) fn write_be32(buf: &mut [u8], n: u32)
    requires
        old(buf)@.len() >= 4,
    ensures
        final(buf)@ == be32_encoding(n) + old(buf)@.subrange(4, old(buf)@.len() as int),
{
    BigEndian::write_u32(buf, n)
}

} // verus!
