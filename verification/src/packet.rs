//! The 188-byte transport packet: synthesis of frames, and a decoded view
//! that gives access to the header, the adaptation field and the payload.

use crate::adaptation::{
    lemma_pcr_nanos_fit, optional_field_start, pcr_to_nanos, read_pcr_data, FIELD_OPCR,
    FIELD_PCR, FIELD_PRIVATE_DATA, FIELD_SPLICE_COUNTDOWN, FLAGS_INDEX, FLAG_DISCONTINUITY,
    FLAG_EXTENSION, FLAG_OPCR, FLAG_PCR, FLAG_PRIORITY_STREAM, FLAG_PRIVATE_DATA,
    FLAG_RANDOM_ACCESS, FLAG_SPLICE_COUNTDOWN, LENGTH_INDEX,
};
use crate::bytes::{be32, be32_at, read_be32};
use crate::error::{window_view, DecodeError};
use crate::header::{
    header_afc, header_cc, header_has_adaptation_field, header_has_payload, header_pid,
    header_priority, header_pusi, header_sync, header_tei, header_tsc, SYNC_BYTE,
};
use vstd::prelude::*;

pub use crate::adaptation::AdaptationField;
pub use crate::header::PacketHeader;

verus! {

/// The number of bytes in a transport packet.
pub const PACKET_LEN: usize = 188;

/// The number of bytes in the packet header.
pub const HEADER_LEN: usize = 4;

/// The largest payload a packet can carry.
pub const MAX_PAYLOAD_LEN: usize = 184;

/// The byte that fills every part of a synthesized frame that is not set.
pub const STUFFING_BYTE: u8 = 0xFF;

/// The bytes of one transport packet.
pub type PacketData = [u8; 188];

/// The header word of a frame: its first four bytes, big-endian.
pub open spec fn frame_header(frame: Seq<u8>) -> u32 {
    be32_at(frame, 0)
}

/// The second header byte of a synthesized frame: the three flags and the
/// top five bits of the 13-bit packet identifier.
pub open spec fn built_flags_byte(tei: bool, pusi: bool, priority: bool, pid: u16) -> u8 {
    (if tei {
        0x80u8
    } else {
        0u8
    }) | (if pusi {
        0x40u8
    } else {
        0u8
    }) | (if priority {
        0x20u8
    } else {
        0u8
    }) | ((pid >> 8) & 0x1f) as u8
}

/// The fourth header byte of a synthesized frame: two bits of scrambling
/// control, two bits of adaptation field control, four bits of counter.
pub open spec fn built_control_byte(tsc: u8, afc: u8, cc: u8) -> u8 {
    ((tsc & 0x3) << 6) | ((afc & 0x3) << 4) | (cc & 0xf)
}

/// The frame that `create_packet` lays out: the header, then stuffing.
pub open spec fn built_frame(
    tei: bool,
    pusi: bool,
    priority: bool,
    pid: u16,
    tsc: u8,
    afc: u8,
    cc: u8,
) -> Seq<u8> {
    seq![
        SYNC_BYTE,
        built_flags_byte(tei, pusi, priority, pid),
        (pid & 0xff) as u8,
        built_control_byte(tsc, afc, cc),
    ] + Seq::new(MAX_PAYLOAD_LEN as nat, |i: int| STUFFING_BYTE)
}

/// The number of payload bytes that are copied into a frame.
pub open spec fn copied_len(payload: Seq<u8>) -> int {
    if payload.len() > MAX_PAYLOAD_LEN {
        MAX_PAYLOAD_LEN as int
    } else {
        payload.len() as int
    }
}

/// A frame whose bytes after the header are overwritten by the payload, as
/// far as it fits; what the payload does not reach stays as it was.
pub open spec fn frame_with_payload(frame: Seq<u8>, payload: Seq<u8>) -> Seq<u8> {
    frame.subrange(0, HEADER_LEN as int) + payload.subrange(0, copied_len(payload))
        + frame.subrange(HEADER_LEN + copied_len(payload), PACKET_LEN as int)
}

/// A frame with the low four bits of its fourth byte replaced by those of
/// `cc`.
pub open spec fn frame_with_cc(frame: Seq<u8>, cc: u8) -> Seq<u8> {
    frame.update(3, (frame[3] & 0xf0) | (cc & 0x0f))
}

/// The bit operations by which the header bytes are assembled.
proof fn lemma_built_bytes(
    tei: bool,
    pusi: bool,
    priority: bool,
    pid: u16,
    tsc: u8,
    afc: u8,
    cc: u8,
    flags: u8,
)
    by (bit_vector)
    requires
        flags == 0x1f + (if tei {
            0x80int
        } else {
            0
        }) + (if pusi {
            0x40int
        } else {
            0
        }) + (if priority {
            0x20int
        } else {
            0
        }),
    ensures
        flags & (0xe0u16 | (pid >> 8)) as u8 == built_flags_byte(tei, pusi, priority, pid),
        ((tsc << 6) & 0xc0) | ((afc << 4) & 0x30) | (cc & 0xf) == built_control_byte(tsc, afc, cc),
{
}

/// A decoded view of one transport packet. It owns the frame and keeps the
/// header word beside it.
pub struct Packet {
    data: PacketData,
    header: u32,
}

impl View for Packet {
    type V = Seq<u8>;

    /// The 188 bytes of the frame.
    closed spec fn view(&self) -> Seq<u8> {
        self.data@
    }
}

impl Packet {
    #[verifier::type_invariant]
    spec fn header_cached(&self) -> bool {
        self.header == frame_header(self.data@)
    }

    /// The frame of a packet has 188 bytes.
    pub proof fn lemma_frame_len(&self)
        ensures
            self@.len() == PACKET_LEN,
    {
    }

    /// Wraps a frame. Nothing is validated: the sync byte is not looked at.
    pub fn new(data: PacketData) -> (packet: Packet)
        ensures
            packet@ == data@,
    {
        let header: u32 = read_be32(&data[0..4]);
        Packet { data, header }
    }

    /// Returns the frame with its continuity counter set to the low four
    /// bits of `cc`; every other bit is kept.
    pub fn with_cc(data: PacketData, cc: u8) -> (updated: PacketData)
        ensures
            updated@ == frame_with_cc(data@, cc),
    {
        let mut updated: PacketData = data;
        updated[3] = (data[3] & 0xF0) | (cc & 0xF);
        updated
    }

    /// Synthesizes a frame as `create_packet` does, then copies the payload
    /// over the bytes that follow the header, at most 184 of them. The
    /// payload is placed there whatever `afc` says: no adaptation field is
    /// computed or skipped, so with an `afc` that announces one the payload
    /// lies where that field would be read.
    pub fn create_packet_with_payload(
        tei: bool,
        pusi: bool,
        priority: bool,
        pid: u16,
        tsc: u8,
        afc: u8,
        cc: u8,
        payload: &[u8],
    ) -> (data: PacketData)
        ensures
            data@ == frame_with_payload(
                built_frame(tei, pusi, priority, pid, tsc, afc, cc),
                payload@,
            ),
    {
        let mut data: PacketData = Packet::create_packet(tei, pusi, priority, pid, tsc, afc, cc);
        let ghost built = data@;
        let mut payload_len: usize = payload.len();
        if payload_len > MAX_PAYLOAD_LEN {
            payload_len = MAX_PAYLOAD_LEN;
        }
        let mut pos: usize = 0;
        while pos < payload_len
            invariant
                pos <= payload_len,
                payload_len == copied_len(payload@),
                built.len() == PACKET_LEN,
                data@ == built.subrange(0, HEADER_LEN as int) + payload@.subrange(0, pos as int)
                    + built.subrange(HEADER_LEN + pos, PACKET_LEN as int),
            decreases payload_len - pos,
        {
            data[HEADER_LEN + pos] = payload[pos];
            pos = pos + 1;
        }
        data
    }

    /// Synthesizes a frame: the sync byte, the header fields, and stuffing in
    /// all the rest. The packet identifier is cut to 13 bits, the scrambling
    /// and adaptation field controls to two bits each, the counter to four.
    pub fn create_packet(
        tei: bool,
        pusi: bool,
        priority: bool,
        pid: u16,
        tsc: u8,
        afc: u8,
        cc: u8,
    ) -> (pkt: PacketData)
        ensures
            pkt@ == built_frame(tei, pusi, priority, pid, tsc, afc, cc),
    {
        let mut pkt: PacketData = [STUFFING_BYTE;188];
        pkt[0] = SYNC_BYTE;
        let mut flags: u8 = 0x1F;
        if tei {
            flags = flags + 0x80;
        }
        if pusi {
            flags = flags + 0x40;
        }
        if priority {
            flags = flags + 0x20;
        }
        proof {
            lemma_built_bytes(tei, pusi, priority, pid, tsc, afc, cc, flags);
        }
        pkt[1] = flags & #[verifier::truncate] ((0xE0 | (pid >> 8)) as u8);
        pkt[2] = #[verifier::truncate] ((pid & 0xFF) as u8);
        pkt[3] = ((tsc << 6) & 0xC0) | ((afc << 4) & 0x30) | (cc & 0xF);
        pkt
    }
}

/// The frame index at which the payload starts: right after the header, or
/// after the adaptation field, which takes its length byte and as many bytes
/// as that byte says.
pub open spec fn payload_offset(frame: Seq<u8>) -> int {
    if header_has_adaptation_field(frame_header(frame)) {
        HEADER_LEN + 1 + frame[LENGTH_INDEX as int]
    } else {
        HEADER_LEN as int
    }
}

/// The payload of a frame: all bytes from the payload offset to the frame's
/// end, trailing stuffing included; an error when the adaptation field's
/// length points past the end.
pub open spec fn frame_payload(frame: Seq<u8>) -> Result<Seq<u8>, DecodeError> {
    if payload_offset(frame) <= frame.len() {
        Ok(frame.subrange(payload_offset(frame), frame.len() as int))
    } else {
        Err(DecodeError::OutOfBounds)
    }
}

/// Access to the payload of a packet.
pub trait Payload: View<V = Seq<u8>> {
    fn payload_data(&self) -> (r: Result<&[u8], DecodeError>)
        ensures
            window_view(r) == frame_payload(self@),
    ;
}

impl PacketHeader for Packet {
    open spec fn header_word(&self) -> u32 {
        frame_header(self@)
    }

    fn sync(&self) -> (r: u8) {
        proof {
            use_type_invariant(self);
        }
        self.header.sync()
    }

    fn tei(&self) -> (r: bool) {
        proof {
            use_type_invariant(self);
        }
        self.header.tei()
    }

    fn pusi(&self) -> (r: bool) {
        proof {
            use_type_invariant(self);
        }
        self.header.pusi()
    }

    fn priority(&self) -> (r: bool) {
        proof {
            use_type_invariant(self);
        }
        self.header.priority()
    }

    fn pid(&self) -> (r: u16) {
        proof {
            use_type_invariant(self);
        }
        self.header.pid()
    }

    fn tsc(&self) -> (r: u8) {
        proof {
            use_type_invariant(self);
        }
        self.header.tsc()
    }

    fn afc(&self) -> (r: u8) {
        proof {
            use_type_invariant(self);
        }
        self.header.afc()
    }

    fn has_adaptation_field(&self) -> (r: bool) {
        proof {
            use_type_invariant(self);
        }
        self.header.has_adaptation_field()
    }

    fn has_payload(&self) -> (r: bool) {
        proof {
            use_type_invariant(self);
        }
        self.header.has_payload()
    }

    fn cc(&self) -> (r: u8) {
        proof {
            use_type_invariant(self);
        }
        self.header.cc()
    }
}

impl AdaptationField for Packet {
    fn aflen(&self) -> (r: u8) {
        self.data[LENGTH_INDEX]
    }

    fn is_discontinuity(&self) -> (r: bool) {
        0 != self.data[FLAGS_INDEX] & FLAG_DISCONTINUITY
    }

    fn is_random_access(&self) -> (r: bool) {
        0 != self.data[FLAGS_INDEX] & FLAG_RANDOM_ACCESS
    }

    fn priority_stream(&self) -> (r: bool) {
        0 != self.data[FLAGS_INDEX] & FLAG_PRIORITY_STREAM
    }

    fn has_pcr(&self) -> (r: bool) {
        0 != self.data[FLAGS_INDEX] & FLAG_PCR
    }

    fn has_opcr(&self) -> (r: bool) {
        0 != self.data[FLAGS_INDEX] & FLAG_OPCR
    }

    fn has_splice_countdown(&self) -> (r: bool) {
        0 != self.data[FLAGS_INDEX] & FLAG_SPLICE_COUNTDOWN
    }

    fn has_transport_private_data(&self) -> (r: bool) {
        0 != self.data[FLAGS_INDEX] & FLAG_PRIVATE_DATA
    }

    fn has_extension(&self) -> (r: bool) {
        0 != self.data[FLAGS_INDEX] & FLAG_EXTENSION
    }

    fn pcr(&self) -> (r: u64) {
        if self.has_pcr() {
            let at: usize = optional_field_start(self.data[FLAGS_INDEX], FIELD_PCR);
            return read_pcr_data(&self.data[at..at + 6]);
        }
        0
    }

    fn pcr_nanos(&self) -> (r: u64) {
        let ticks: u64 = self.pcr();
        proof {
            lemma_pcr_nanos_fit(ticks as int);
        }
        pcr_to_nanos(ticks)
    }

    fn opcr(&self) -> (r: u64) {
        if self.has_pcr() {
            let at: usize = optional_field_start(self.data[FLAGS_INDEX], FIELD_OPCR);
            read_pcr_data(&self.data[at..at + 6])
        } else {
            self.pcr()
        }
    }

    fn opcr_nanos(&self) -> (r: u64) {
        let ticks: u64 = self.opcr();
        proof {
            lemma_pcr_nanos_fit(ticks as int);
        }
        pcr_to_nanos(ticks)
    }

    fn splice_countdown(&self) -> (r: u8) {
        if self.has_splice_countdown() {
            self.data[optional_field_start(self.data[FLAGS_INDEX], FIELD_SPLICE_COUNTDOWN)]
        } else {
            0
        }
    }

    fn transport_private_data_len(&self) -> (r: u8) {
        if self.has_transport_private_data() {
            self.data[optional_field_start(self.data[FLAGS_INDEX], FIELD_PRIVATE_DATA)]
        } else {
            0
        }
    }

    fn transport_private_data(&self) -> (r: Result<&[u8], DecodeError>) {
        if self.has_transport_private_data() {
            let len_at: usize = optional_field_start(self.data[FLAGS_INDEX], FIELD_PRIVATE_DATA);
            let start: usize = len_at + 1;
            let end: usize = start + self.data[len_at] as usize;
            if end <= PACKET_LEN {
                Ok(&self.data[start..end])
            } else {
                Err(DecodeError::OutOfBounds)
            }
        } else {
            assert(self.data@.subrange(0, 0) =~= Seq::<u8>::empty());
            Ok(&self.data[0..0])
        }
    }

    fn extension(&self) -> (r: &[u8]) {
        &self.data[0..0]
    }

    fn stuffing(&self) -> (r: &[u8]) {
        &self.data[0..0]
    }
}

impl Payload for Packet {
    fn payload_data(&self) -> (r: Result<&[u8], DecodeError>) {
        let mut offset: usize = HEADER_LEN;
        if self.has_adaptation_field() {
            offset = offset + 1 + self.aflen() as usize;
        }
        if offset <= PACKET_LEN {
            Ok(&self.data[offset..PACKET_LEN])
        } else {
            Err(DecodeError::OutOfBounds)
        }
    }
}

/// The header bytes of a synthesized frame decode to the fields they were
/// built from.
proof fn lemma_built_bytes_decode(
    tei: bool,
    pusi: bool,
    priority: bool,
    pid: u16,
    tsc: u8,
    afc: u8,
    cc: u8,
    w: u32,
)
    by (bit_vector)
    requires
        w == be32(
            SYNC_BYTE,
            built_flags_byte(tei, pusi, priority, pid),
            (pid & 0xff) as u8,
            built_control_byte(tsc, afc, cc),
        ),
    ensures
        header_sync(w) == SYNC_BYTE,
        header_tei(w) == tei,
        header_pusi(w) == pusi,
        header_priority(w) == priority,
        header_pid(w) == pid & 0x1fff,
        header_tsc(w) == tsc & 0x3,
        header_afc(w) == afc & 0x3,
        header_cc(w) == cc & 0xf,
{
}

/// Every synthesized frame starts with the sync byte and decodes to the
/// fields it was built from, each cut to its width. In particular the
/// adaptation field control decides what the frame is said to carry: nothing
/// for 0, a payload for 1, an adaptation field for 2, both for 3.
pub proof fn lemma_built_frame_header(
    tei: bool,
    pusi: bool,
    priority: bool,
    pid: u16,
    tsc: u8,
    afc: u8,
    cc: u8,
)
    ensures
        built_frame(tei, pusi, priority, pid, tsc, afc, cc).len() == PACKET_LEN,
        header_sync(frame_header(built_frame(tei, pusi, priority, pid, tsc, afc, cc)))
            == SYNC_BYTE,
        header_tei(frame_header(built_frame(tei, pusi, priority, pid, tsc, afc, cc))) == tei,
        header_pusi(frame_header(built_frame(tei, pusi, priority, pid, tsc, afc, cc))) == pusi,
        header_priority(frame_header(built_frame(tei, pusi, priority, pid, tsc, afc, cc)))
            == priority,
        header_pid(frame_header(built_frame(tei, pusi, priority, pid, tsc, afc, cc))) == pid
            & 0x1fff,
        header_tsc(frame_header(built_frame(tei, pusi, priority, pid, tsc, afc, cc))) == tsc & 0x3,
        header_afc(frame_header(built_frame(tei, pusi, priority, pid, tsc, afc, cc))) == afc & 0x3,
        header_cc(frame_header(built_frame(tei, pusi, priority, pid, tsc, afc, cc))) == cc & 0xf,
        header_has_adaptation_field(
            frame_header(built_frame(tei, pusi, priority, pid, tsc, afc, cc)),
        ) <==> afc & 0x3 == 2 || afc & 0x3 == 3,
        header_has_payload(frame_header(built_frame(tei, pusi, priority, pid, tsc, afc, cc)))
            <==> afc & 0x3 == 1 || afc & 0x3 == 3,
        forall|i: int|
            HEADER_LEN <= i < PACKET_LEN ==> built_frame(tei, pusi, priority, pid, tsc, afc, cc)[i]
                == STUFFING_BYTE,
{
    let frame = built_frame(tei, pusi, priority, pid, tsc, afc, cc);
    lemma_built_bytes_decode(tei, pusi, priority, pid, tsc, afc, cc, frame_header(frame));
}

/// Replacing the low nibble of the fourth header byte changes the counter
/// and no other field.
proof fn lemma_counter_nibble(b0: u8, b1: u8, b2: u8, b3: u8, cc: u8)
    by (bit_vector)
    ensures
        header_cc(be32(b0, b1, b2, (b3 & 0xf0) | (cc & 0x0f))) == cc & 0xf,
        header_sync(be32(b0, b1, b2, (b3 & 0xf0) | (cc & 0x0f))) == header_sync(
            be32(b0, b1, b2, b3),
        ),
        header_tei(be32(b0, b1, b2, (b3 & 0xf0) | (cc & 0x0f))) == header_tei(
            be32(b0, b1, b2, b3),
        ),
        header_pusi(be32(b0, b1, b2, (b3 & 0xf0) | (cc & 0x0f))) == header_pusi(
            be32(b0, b1, b2, b3),
        ),
        header_priority(be32(b0, b1, b2, (b3 & 0xf0) | (cc & 0x0f))) == header_priority(
            be32(b0, b1, b2, b3),
        ),
        header_pid(be32(b0, b1, b2, (b3 & 0xf0) | (cc & 0x0f))) == header_pid(
            be32(b0, b1, b2, b3),
        ),
        header_tsc(be32(b0, b1, b2, (b3 & 0xf0) | (cc & 0x0f))) == header_tsc(
            be32(b0, b1, b2, b3),
        ),
        header_afc(be32(b0, b1, b2, (b3 & 0xf0) | (cc & 0x0f))) == header_afc(
            be32(b0, b1, b2, b3),
        ),
{
}

/// Setting the continuity counter changes the counter and nothing else: the
/// counter reads as the low four bits of `cc`, every other header field
/// reads as before, and every byte but the fourth is the same.
pub proof fn lemma_with_cc_changes_only_cc(frame: Seq<u8>, cc: u8)
    requires
        frame.len() == PACKET_LEN,
    ensures
        frame_with_cc(frame, cc).len() == PACKET_LEN,
        header_cc(frame_header(frame_with_cc(frame, cc))) == cc & 0xf,
        header_sync(frame_header(frame_with_cc(frame, cc))) == header_sync(frame_header(frame)),
        header_tei(frame_header(frame_with_cc(frame, cc))) == header_tei(frame_header(frame)),
        header_pusi(frame_header(frame_with_cc(frame, cc))) == header_pusi(frame_header(frame)),
        header_priority(frame_header(frame_with_cc(frame, cc))) == header_priority(
            frame_header(frame),
        ),
        header_pid(frame_header(frame_with_cc(frame, cc))) == header_pid(frame_header(frame)),
        header_tsc(frame_header(frame_with_cc(frame, cc))) == header_tsc(frame_header(frame)),
        header_afc(frame_header(frame_with_cc(frame, cc))) == header_afc(frame_header(frame)),
        header_has_adaptation_field(frame_header(frame_with_cc(frame, cc)))
            == header_has_adaptation_field(frame_header(frame)),
        header_has_payload(frame_header(frame_with_cc(frame, cc))) == header_has_payload(
            frame_header(frame),
        ),
        forall|i: int| 0 <= i < PACKET_LEN && i != 3 ==> frame_with_cc(frame, cc)[i] == frame[i],
{
    lemma_counter_nibble(frame[0], frame[1], frame[2], frame[3], cc);
}

/// The payload of a frame spans what the header and the adaptation field
/// leave: 184 bytes without an adaptation field; with one, 184 less the
/// bytes that field takes, which are its length byte and as many as that
/// byte says.
pub proof fn lemma_payload_len(frame: Seq<u8>)
    requires
        frame.len() == PACKET_LEN,
    ensures
        frame_payload(frame) is Ok <==> payload_offset(frame) <= PACKET_LEN,
        frame_payload(frame) is Ok && !header_has_adaptation_field(frame_header(frame))
            ==> frame_payload(frame)->Ok_0.len() == MAX_PAYLOAD_LEN,
        frame_payload(frame) is Ok && header_has_adaptation_field(frame_header(frame))
            ==> frame_payload(frame)->Ok_0.len() == MAX_PAYLOAD_LEN - (1
            + frame[LENGTH_INDEX as int]),
{
}

} // verus!
