//! The adaptation field: its presence flags, the cascading offsets of its
//! optional sub-fields, and the clock reference codec.

use crate::bytes::{be16_at, be32_at, read_be16, read_be32};
use crate::error::{window_view, DecodeError};
use vstd::prelude::*;

verus! {

/// The index of the adaptation field's length byte within the frame.
pub const LENGTH_INDEX: usize = 4;

/// The index of the presence flags within the frame.
pub const FLAGS_INDEX: usize = 5;

/// The discontinuity indicator.
pub const FLAG_DISCONTINUITY: u8 = 0x80;

/// The random access indicator.
pub const FLAG_RANDOM_ACCESS: u8 = 0x40;

/// The elementary stream priority indicator.
pub const FLAG_PRIORITY_STREAM: u8 = 0x20;

/// A program clock reference is present.
pub const FLAG_PCR: u8 = 0x10;

/// An original program clock reference is present.
pub const FLAG_OPCR: u8 = 0x08;

/// A splice countdown is present.
pub const FLAG_SPLICE_COUNTDOWN: u8 = 0x04;

/// Private data is present.
pub const FLAG_PRIVATE_DATA: u8 = 0x02;

/// An extension is present.
pub const FLAG_EXTENSION: u8 = 0x01;

/// The place of the program clock reference among the optional sub-fields.
pub const FIELD_PCR: u8 = 0;

/// The place of the original program clock reference.
pub const FIELD_OPCR: u8 = 1;

/// The place of the splice countdown.
pub const FIELD_SPLICE_COUNTDOWN: u8 = 2;

/// The place of the private data, which starts with its length byte.
pub const FIELD_PRIVATE_DATA: u8 = 3;

/// Whether the flag selected by `mask` is set in `flags`.
pub open spec fn flag_set(flags: u8, mask: u8) -> bool {
    flags & mask != 0
}

/// The presence flag of the `k`-th optional sub-field, in wire order: the
/// clock reference, the original clock reference, the splice countdown, the
/// private data length.
pub open spec fn optional_field_flag(k: int) -> u8 {
    if k == FIELD_PCR {
        FLAG_PCR
    } else if k == FIELD_OPCR {
        FLAG_OPCR
    } else if k == FIELD_SPLICE_COUNTDOWN {
        FLAG_SPLICE_COUNTDOWN
    } else {
        FLAG_PRIVATE_DATA
    }
}

/// The number of bytes the `k`-th optional sub-field takes when present. For
/// the private data this counts the length byte alone; past the four
/// sub-fields there is nothing to count.
pub open spec fn optional_field_len(k: int) -> int {
    if k == FIELD_PCR || k == FIELD_OPCR {
        6
    } else if k == FIELD_SPLICE_COUNTDOWN || k == FIELD_PRIVATE_DATA {
        1
    } else {
        0
    }
}

/// The frame index at which the `k`-th optional sub-field starts: 6, plus the
/// length of every earlier optional sub-field that is present.
pub open spec fn optional_field_offset(flags: u8, k: int) -> int
    decreases k,
{
    if k <= 0 {
        6
    } else {
        optional_field_offset(flags, k - 1) + if flag_set(flags, optional_field_flag(k - 1)) {
            optional_field_len(k - 1)
        } else {
            0
        }
    }
}

/// Where the program clock reference starts.
pub open spec fn pcr_offset(flags: u8) -> int {
    optional_field_offset(flags, FIELD_PCR as int)
}

/// Where the original program clock reference starts.
pub open spec fn opcr_offset(flags: u8) -> int {
    optional_field_offset(flags, FIELD_OPCR as int)
}

/// Where the splice countdown lies.
pub open spec fn splice_countdown_offset(flags: u8) -> int {
    optional_field_offset(flags, FIELD_SPLICE_COUNTDOWN as int)
}

/// Where the length byte of the private data lies.
pub open spec fn private_data_len_offset(flags: u8) -> int {
    optional_field_offset(flags, FIELD_PRIVATE_DATA as int)
}

/// Where the private data bytes start, given that they are present.
pub open spec fn private_data_offset(flags: u8) -> int {
    private_data_len_offset(flags) + 1
}

/// The offset of every optional sub-field, for every combination of presence
/// flags: each starts at 6 plus 6 for a present clock reference, 6 for a
/// present original clock reference and 1 for a present splice countdown, as
/// far as those precede it.
pub proof fn lemma_optional_field_offsets(flags: u8)
    ensures
        pcr_offset(flags) == 6,
        opcr_offset(flags) == 6 + (if flag_set(flags, FLAG_PCR) {
            6int
        } else {
            0
        }),
        splice_countdown_offset(flags) == 6 + (if flag_set(flags, FLAG_PCR) {
            6int
        } else {
            0
        }) + (if flag_set(flags, FLAG_OPCR) {
            6int
        } else {
            0
        }),
        private_data_len_offset(flags) == 6 + (if flag_set(flags, FLAG_PCR) {
            6int
        } else {
            0
        }) + (if flag_set(flags, FLAG_OPCR) {
            6int
        } else {
            0
        }) + (if flag_set(flags, FLAG_SPLICE_COUNTDOWN) {
            1int
        } else {
            0
        }),
        private_data_offset(flags) == private_data_len_offset(flags) + 1,
        6 <= opcr_offset(flags) <= splice_countdown_offset(flags) <= private_data_len_offset(
            flags,
        ) <= 19,
{
    reveal_with_fuel(optional_field_offset, 4);
}

/// Past the four optional sub-fields the offset stays where the last of them
/// ends.
proof fn lemma_offset_past_last(flags: u8, k: int)
    requires
        k >= 4,
    ensures
        optional_field_offset(flags, k) == optional_field_offset(flags, 4),
    decreases k,
{
    if k > 4 {
        lemma_offset_past_last(flags, k - 1);
    }
}

/// Computes the offset of the `k`-th optional sub-field from the flags; for
/// `k` of four and more, the offset at which the last of them ends.
pub fn optional_field_start(flags: u8, k: u8) -> (at: usize)
    ensures
        at == optional_field_offset(flags, k as int),
        6 <= at <= 20,
        k <= FIELD_PRIVATE_DATA ==> at <= 19,
{
    proof {
        reveal_with_fuel(optional_field_offset, 5);
        if k >= 4 {
            lemma_offset_past_last(flags, k as int);
        }
    }
    let mut at: usize = 6;
    if k > FIELD_PCR && flags & FLAG_PCR != 0 {
        at = at + 6;
    }
    if k > FIELD_OPCR && flags & FLAG_OPCR != 0 {
        at = at + 6;
    }
    if k > FIELD_SPLICE_COUNTDOWN && flags & FLAG_SPLICE_COUNTDOWN != 0 {
        at = at + 1;
    }
    if k > FIELD_PRIVATE_DATA && flags & FLAG_PRIVATE_DATA != 0 {
        at = at + 1;
    }
    at
}

/// The largest value a clock reference can take: a 33-bit base of all ones
/// and an extension of all ones.
pub const PCR_MAX: u64 = 0x1_FFFF_FFFF * 300 + 0x1FF;

/// The clock reference held by the six bytes of `s` that start at `at`, in
/// ticks of 27 MHz: a 33-bit base counted in units of 300 ticks, made of the
/// first four bytes and the top bit of the fifth, plus the nine-bit extension
/// in the low bits of the last two bytes.
pub open spec fn pcr_value(s: Seq<u8>, at: int) -> int {
    let high = be32_at(s, at);
    let low = be16_at(s, at + 4);
    let base = 2 * high + if low & 0x8000 != 0 {
        1int
    } else {
        0
    };
    base * 300 + (low & 0x1ff)
}

/// A number of 27 MHz ticks in nanoseconds, rounded down.
pub open spec fn ticks_to_nanos(ticks: int) -> int {
    ticks * 1_000_000_000 / 27_000_000
}

/// The shifts and masks of the decoder compute the base and the extension.
proof fn lemma_pcr_parts(high: u32, low: u16)
    by (bit_vector)
    ensures
        (((high as u64) << 1) | (((low as u64) & 0x8000) >> 15)) == 2 * high + (if low & 0x8000
            != 0 {
            1int
        } else {
            0
        }),
        (low as u64) & 0x1ff == low & 0x1ff,
        low & 0x1ff <= 0x1ff,
{
}

/// Decodes the clock reference held by the first six bytes of `buf`.
pub fn read_pcr_data(buf: &[u8]) -> (ticks: u64)
    requires
        buf@.len() >= 6,
    ensures
        ticks == pcr_value(buf@, 0),
        ticks <= PCR_MAX,
{
    let high_word: u32 = read_be32(&buf[0..4]);
    let low_word: u16 = read_be16(&buf[4..6]);
    let high: u64 = high_word as u64;
    let low: u64 = low_word as u64;
    proof {
        lemma_pcr_parts(high_word, low_word);
    }
    let base: u64 = (high << 1) | ((low & 0x8000) >> 15);
    let extension: u64 = low & 0x1ff;
    base * 300 + extension
}

/// Converts 27 MHz ticks to nanoseconds, rounding down. The product is taken
/// in 128 bits, so only the result has to fit.
pub fn pcr_to_nanos(pcr: u64) -> (nanos: u64)
    requires
        ticks_to_nanos(pcr as int) <= u64::MAX,
    ensures
        nanos == ticks_to_nanos(pcr as int),
{
    let wide: u128 = (pcr as u128) * 1_000_000_000;
    (wide / 27_000_000) as u64
}

/// Every clock reference converts to nanoseconds within 64 bits.
pub proof fn lemma_pcr_nanos_fit(ticks: int)
    requires
        0 <= ticks <= PCR_MAX,
    ensures
        0 <= ticks_to_nanos(ticks) <= u64::MAX,
{
}

/// The presence flags of a frame.
pub open spec fn frame_flags(frame: Seq<u8>) -> u8 {
    frame[FLAGS_INDEX as int]
}

/// The program clock reference of a frame: decoded where the flag says one
/// is present, zero otherwise.
pub open spec fn frame_pcr(frame: Seq<u8>) -> int {
    if flag_set(frame_flags(frame), FLAG_PCR) {
        pcr_value(frame, pcr_offset(frame_flags(frame)))
    } else {
        0
    }
}

/// The original program clock reference of a frame. It is decoded from the
/// place that follows the program clock reference whenever the latter is
/// flagged present, whatever the flag of the original says; without a program
/// clock reference it is zero.
pub open spec fn frame_opcr(frame: Seq<u8>) -> int {
    if flag_set(frame_flags(frame), FLAG_PCR) {
        pcr_value(frame, opcr_offset(frame_flags(frame)))
    } else {
        frame_pcr(frame)
    }
}

/// The splice countdown of a frame, zero when absent.
pub open spec fn frame_splice_countdown(frame: Seq<u8>) -> u8 {
    if flag_set(frame_flags(frame), FLAG_SPLICE_COUNTDOWN) {
        frame[splice_countdown_offset(frame_flags(frame))]
    } else {
        0
    }
}

/// The declared length of a frame's private data, zero when absent.
pub open spec fn frame_private_data_len(frame: Seq<u8>) -> u8 {
    if flag_set(frame_flags(frame), FLAG_PRIVATE_DATA) {
        frame[private_data_len_offset(frame_flags(frame))]
    } else {
        0
    }
}

/// The private data of a frame: empty when absent, the declared number of
/// bytes after the length byte when they lie within the frame, and an error
/// when the declared length runs past the frame's end.
pub open spec fn frame_private_data(frame: Seq<u8>) -> Result<Seq<u8>, DecodeError> {
    if !flag_set(frame_flags(frame), FLAG_PRIVATE_DATA) {
        Ok(Seq::empty())
    } else {
        let start = private_data_offset(frame_flags(frame));
        let end = start + frame_private_data_len(frame);
        if end <= frame.len() {
            Ok(frame.subrange(start, end))
        } else {
            Err(DecodeError::OutOfBounds)
        }
    }
}

/// Read access to the adaptation field of a packet. Nothing here looks at
/// the header: the bytes are read where an adaptation field would lie.
pub trait AdaptationField: View<V = Seq<u8>> {
    fn aflen(&self) -> (r: u8)
        ensures
            r == self@[LENGTH_INDEX as int],
    ;

    fn is_discontinuity(&self) -> (r: bool)
        ensures
            r == flag_set(frame_flags(self@), FLAG_DISCONTINUITY),
    ;

    fn is_random_access(&self) -> (r: bool)
        ensures
            r == flag_set(frame_flags(self@), FLAG_RANDOM_ACCESS),
    ;

    fn priority_stream(&self) -> (r: bool)
        ensures
            r == flag_set(frame_flags(self@), FLAG_PRIORITY_STREAM),
    ;

    fn has_pcr(&self) -> (r: bool)
        ensures
            r == flag_set(frame_flags(self@), FLAG_PCR),
    ;

    fn has_opcr(&self) -> (r: bool)
        ensures
            r == flag_set(frame_flags(self@), FLAG_OPCR),
    ;

    fn has_splice_countdown(&self) -> (r: bool)
        ensures
            r == flag_set(frame_flags(self@), FLAG_SPLICE_COUNTDOWN),
    ;

    fn has_transport_private_data(&self) -> (r: bool)
        ensures
            r == flag_set(frame_flags(self@), FLAG_PRIVATE_DATA),
    ;

    fn has_extension(&self) -> (r: bool)
        ensures
            r == flag_set(frame_flags(self@), FLAG_EXTENSION),
    ;

    fn pcr(&self) -> (r: u64)
        ensures
            r == frame_pcr(self@),
            r <= PCR_MAX,
    ;

    fn pcr_nanos(&self) -> (r: u64)
        ensures
            r == ticks_to_nanos(frame_pcr(self@)),
    ;

    fn opcr(&self) -> (r: u64)
        ensures
            r == frame_opcr(self@),
            r <= PCR_MAX,
    ;

    fn opcr_nanos(&self) -> (r: u64)
        ensures
            r == ticks_to_nanos(frame_opcr(self@)),
    ;

    fn splice_countdown(&self) -> (r: u8)
        ensures
            r == frame_splice_countdown(self@),
    ;

    fn transport_private_data_len(&self) -> (r: u8)
        ensures
            r == frame_private_data_len(self@),
    ;

    fn transport_private_data(&self) -> (r: Result<&[u8], DecodeError>)
        ensures
            window_view(r) == frame_private_data(self@),
    ;

    /// The extension region is not interpreted: no bytes are handed out.
    fn extension(&self) -> (r: &[u8])
        ensures
            r@ == Seq::<u8>::empty(),
    ;

    /// The stuffing is not handed out.
    fn stuffing(&self) -> (r: &[u8])
        ensures
            r@ == Seq::<u8>::empty(),
    ;
}

} // verus!
