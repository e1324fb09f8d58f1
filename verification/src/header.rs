//! The four-byte packet header, read as one big-endian word.

use crate::bytes::{be16, be32};
use vstd::prelude::*;

verus! {

/// The value every packet's first byte is expected to hold.
pub const SYNC_BYTE: u8 = 0x47;

/// The sync byte: the top eight bits of the header word.
pub open spec fn header_sync(w: u32) -> u8 {
    (w >> 24) as u8
}

/// The transport error indicator.
pub open spec fn header_tei(w: u32) -> bool {
    w & 0x80_0000 != 0
}

/// The payload unit start indicator.
pub open spec fn header_pusi(w: u32) -> bool {
    w & 0x40_0000 != 0
}

/// The transport priority flag.
pub open spec fn header_priority(w: u32) -> bool {
    w & 0x20_0000 != 0
}

/// The 13-bit packet identifier.
pub open spec fn header_pid(w: u32) -> u16 {
    ((w >> 8) & 0x1fff) as u16
}

/// The two transport scrambling control bits.
pub open spec fn header_tsc(w: u32) -> u8 {
    ((w >> 6) & 0x3) as u8
}

/// The two adaptation field control bits.
pub open spec fn header_afc(w: u32) -> u8 {
    ((w >> 4) & 0x3) as u8
}

/// The four-bit continuity counter.
pub open spec fn header_cc(w: u32) -> u8 {
    (w & 0xf) as u8
}

/// An adaptation field follows the header exactly when the adaptation field
/// control is 2 (adaptation only) or 3 (both).
pub open spec fn header_has_adaptation_field(w: u32) -> bool {
    header_afc(w) == 2 || header_afc(w) == 3
}

/// A payload is carried exactly when the adaptation field control is 1
/// (payload only) or 3 (both).
pub open spec fn header_has_payload(w: u32) -> bool {
    header_afc(w) == 1 || header_afc(w) == 3
}

/// Where each header field lies in the four header bytes.
pub proof fn lemma_header_fields_of_bytes(b0: u8, b1: u8, b2: u8, b3: u8)
    by (bit_vector)
    ensures
        header_sync(be32(b0, b1, b2, b3)) == b0,
        header_tei(be32(b0, b1, b2, b3)) == (b1 & 0x80 != 0),
        header_pusi(be32(b0, b1, b2, b3)) == (b1 & 0x40 != 0),
        header_priority(be32(b0, b1, b2, b3)) == (b1 & 0x20 != 0),
        header_pid(be32(b0, b1, b2, b3)) == be16(b1 & 0x1f, b2),
        header_tsc(be32(b0, b1, b2, b3)) == b3 >> 6,
        header_afc(be32(b0, b1, b2, b3)) == (b3 >> 4) & 0x3,
        header_cc(be32(b0, b1, b2, b3)) == b3 & 0xf,
{
}

/// Masking before the shift reads the same bits as shifting before the mask,
/// and each field stays within its width.
proof fn lemma_masked_fields(w: u32)
    by (bit_vector)
    ensures
        ((w & 0xff000000) >> 24) as u8 == header_sync(w),
        ((w & 0x1fff00) >> 8) as u16 == header_pid(w),
        header_pid(w) <= 0x1fff,
        ((w & 0xc0) >> 6) as u8 == header_tsc(w),
        header_tsc(w) <= 3,
        ((w & 0x30) >> 4) as u8 == header_afc(w),
        header_afc(w) <= 3,
        header_cc(w) <= 15,
{
}

/// The two presence bits of an adaptation field control value.
proof fn lemma_presence_bits(afc: u8)
    by (bit_vector)
    requires
        afc <= 3,
    ensures
        (0 != afc & 0x2) == (afc == 2 || afc == 3),
        (0 != afc & 0x1) == (afc == 1 || afc == 3),
{
}

/// Read access to the fields of a packet header.
pub trait PacketHeader {
    /// The first four bytes of the packet as one big-endian word.
    spec fn header_word(&self) -> u32;

    fn sync(&self) -> (r: u8)
        ensures
            r == header_sync(self.header_word()),
    ;

    fn tei(&self) -> (r: bool)
        ensures
            r == header_tei(self.header_word()),
    ;

    fn pusi(&self) -> (r: bool)
        ensures
            r == header_pusi(self.header_word()),
    ;

    fn priority(&self) -> (r: bool)
        ensures
            r == header_priority(self.header_word()),
    ;

    fn pid(&self) -> (r: u16)
        ensures
            r == header_pid(self.header_word()),
            r <= 0x1fff,
    ;

    fn tsc(&self) -> (r: u8)
        ensures
            r == header_tsc(self.header_word()),
            r <= 3,
    ;

    fn afc(&self) -> (r: u8)
        ensures
            r == header_afc(self.header_word()),
            r <= 3,
    ;

    fn has_adaptation_field(&self) -> (r: bool)
        ensures
            r == header_has_adaptation_field(self.header_word()),
    ;

    fn has_payload(&self) -> (r: bool)
        ensures
            r == header_has_payload(self.header_word()),
    ;

    fn cc(&self) -> (r: u8)
        ensures
            r == header_cc(self.header_word()),
            r <= 15,
    ;
}

impl PacketHeader for u32 {
    open spec fn header_word(&self) -> u32 {
        *self
    }

    fn sync(&self) -> (r: u8) {
        let w: u32 = *self;
        proof {
            lemma_masked_fields(w);
        }
        ((w & 0xff000000) >> 24) as u8
    }

    fn tei(&self) -> (r: bool) {
        0 != *self & 0x800000
    }

    fn pusi(&self) -> (r: bool) {
        0 != *self & 0x400000
    }

    fn priority(&self) -> (r: bool) {
        0 != *self & 0x200000
    }

    fn pid(&self) -> (r: u16) {
        let w: u32 = *self;
        proof {
            lemma_masked_fields(w);
        }
        ((w & 0x1fff00) >> 8) as u16
    }

    fn tsc(&self) -> (r: u8) {
        let w: u32 = *self;
        proof {
            lemma_masked_fields(w);
        }
        ((w & 0xc0) >> 6) as u8
    }

    fn afc(&self) -> (r: u8) {
        let w: u32 = *self;
        proof {
            lemma_masked_fields(w);
        }
        ((w & 0x30) >> 4) as u8
    }

    fn has_adaptation_field(&self) -> (r: bool) {
        let afc: u8 = self.afc();
        proof {
            lemma_presence_bits(afc);
        }
        0 != afc & 0x2
    }

    fn has_payload(&self) -> (r: bool) {
        let afc: u8 = self.afc();
        proof {
            lemma_presence_bits(afc);
        }
        0 != afc & 0x1
    }

    fn cc(&self) -> (r: u8) {
        let w: u32 = *self;
        proof {
            lemma_masked_fields(w);
        }
        (w & 0xf) as u8
    }
}

} // verus!
