//! Program-specific information: the table sections in a packet's payload,
//! their syntax section, and the program association and program map tables
//! read from it. Every view is a window into the bytes it was read from.

use crate::bytes::{be16_at, be32_at, read_be16, read_be32};
use crate::error::{optional_view, optional_window_view, window_view, DecodeError};
use crate::header::{header_has_payload, PacketHeader};
use crate::packet::{frame_header, frame_payload, Packet, Payload};
use vstd::prelude::*;

pub use crate::crc::calc_crc32;
pub use crate::synth::{create_pat_packet, create_pmt_packet};

verus! {

/// The value that marks the end of a chain: no table starts with it, and no
/// elementary stream has it as its type.
pub const FILLER: u8 = 0xFF;

/// The number of bytes of a section up to and including its length field.
pub const TABLE_HEADER_LEN: usize = 3;

/// The number of bytes of a section that precede its table data.
pub const SYNTAX_HEADER_LEN: usize = 8;

/// The number of bytes of the checksum that ends a section.
pub const CRC_LEN: usize = 4;

/// The number of bytes of one entry of a program association table.
pub const PAT_ENTRY_LEN: usize = 4;

/// The number of bytes of a program map table before its descriptors.
pub const PMT_HEADER_LEN: usize = 4;

/// The number of bytes of an elementary stream entry before its descriptors.
pub const STREAM_HEADER_LEN: usize = 5;

/// The tables of a frame: none when the header announces no payload;
/// otherwise the payload after its pointer field, that is after one byte and
/// as many more as that byte says. An error when the payload is empty or the
/// pointer reaches past it.
pub open spec fn frame_tables(frame: Seq<u8>) -> Result<Option<Seq<u8>>, DecodeError> {
    if !header_has_payload(frame_header(frame)) {
        Ok(None)
    } else {
        match frame_payload(frame) {
            Err(e) => Err(e),
            Ok(payload) => if payload.len() >= 1 && 1 + payload[0] <= payload.len() {
                Ok(Some(payload.subrange(1 + payload[0], payload.len() as int)))
            } else {
                Err(DecodeError::OutOfBounds)
            },
        }
    }
}

/// Access to the tables that a packet carries.
pub trait PSI: View<V = Seq<u8>> {
    fn tables(&self) -> (r: Result<Option<&[u8]>, DecodeError>)
        ensures
            optional_window_view(r) == frame_tables(self@),
    ;
}

impl PSI for Packet {
    fn tables(&self) -> (r: Result<Option<&[u8]>, DecodeError>) {
        if self.has_payload() {
            match self.payload_data() {
                Err(e) => Err(e),
                Ok(data) => {
                    if data.len() < 1 {
                        return Err(DecodeError::OutOfBounds);
                    }
                    let start: usize = 1 + data[0] as usize;
                    if start <= data.len() {
                        Ok(Some(&data[start..data.len()]))
                    } else {
                        Err(DecodeError::OutOfBounds)
                    }
                },
            }
        } else {
            Ok(None)
        }
    }
}

/// The section length of a table: the low ten bits of its second and third
/// bytes.
pub open spec fn table_section_length(table: Seq<u8>) -> u16 {
    be16_at(table, 1) & 0x3ff
}

/// The number of bytes of a table's first section: the three bytes that end
/// with the length field, and as many as that field says.
pub open spec fn table_section_end(table: Seq<u8>) -> int {
    TABLE_HEADER_LEN + table_section_length(table)
}

/// The first section of a table. An error when the table is too short to
/// hold the length field, or shorter than that field says.
pub open spec fn table_section(table: Seq<u8>) -> Result<Seq<u8>, DecodeError> {
    if table.len() >= TABLE_HEADER_LEN && table_section_end(table) <= table.len() {
        Ok(table.subrange(0, table_section_end(table)))
    } else {
        Err(DecodeError::OutOfBounds)
    }
}

/// The table that follows the first section: what lies beyond that section,
/// if any byte does and the first of them is not the filler.
pub open spec fn next_table(table: Seq<u8>) -> Option<Seq<u8>> {
    if table.len() >= TABLE_HEADER_LEN && table_section_end(table) < table.len()
        && table[table_section_end(table)] != FILLER {
        Some(table.subrange(table_section_end(table), table.len() as int))
    } else {
        None
    }
}

/// The table reached from `table` by `n` steps along the chain, if the chain
/// is that long.
pub open spec fn nth_table(table: Seq<u8>, n: nat) -> Option<Seq<u8>>
    decreases n,
{
    if n == 0 {
        Some(table)
    } else {
        match nth_table(table, (n - 1) as nat) {
            Some(t) => next_table(t),
            None => None,
        }
    }
}

/// The header of a table section, and the chain of sections that follow it.
pub trait TableHeader: View<V = Seq<u8>> {
    fn table_id(&self) -> (r: u8)
        requires
            self@.len() >= 1,
        ensures
            r == self@[0],
    ;

    fn has_syntax_section(&self) -> (r: bool)
        requires
            self@.len() >= 2,
        ensures
            r == (self@[1] & 0x80 != 0),
    ;

    fn private(&self) -> (r: bool)
        requires
            self@.len() >= 2,
        ensures
            r == (self@[1] & 0x40 != 0),
    ;

    fn section_length(&self) -> (r: u16)
        requires
            self@.len() >= 3,
        ensures
            r == table_section_length(self@),
            r <= 0x3ff,
    ;

    fn section_data(&self) -> (r: Result<&[u8], DecodeError>)
        ensures
            window_view(r) == table_section(self@),
    ;

    fn next(&self) -> (r: Option<&[u8]>)
        ensures
            optional_view(r) == next_table(self@),
            r is Some ==> r->Some_0@.len() < self@.len(),
    ;
}

/// Masking keeps a value within the mask.
proof fn lemma_masked_u16(v: u16)
    by (bit_vector)
    ensures
        v & 0x3ff <= 0x3ff,
        v & 0x1fff <= 0x1fff,
{
}

impl TableHeader for &[u8] {
    fn table_id(&self) -> (r: u8) {
        self[0]
    }

    fn has_syntax_section(&self) -> (r: bool) {
        (self[1] & 0x80) != 0
    }

    fn private(&self) -> (r: bool) {
        (self[1] & 0x40) != 0
    }

    fn section_length(&self) -> (r: u16) {
        let word: u16 = read_be16(&self[1..3]);
        proof {
            lemma_masked_u16(word);
        }
        word & 0x3ff
    }

    fn section_data(&self) -> (r: Result<&[u8], DecodeError>) {
        if self.len() < TABLE_HEADER_LEN {
            return Err(DecodeError::OutOfBounds);
        }
        let end: usize = TABLE_HEADER_LEN + self.section_length() as usize;
        if end <= self.len() {
            Ok(&self[0..end])
        } else {
            Err(DecodeError::OutOfBounds)
        }
    }

    fn next(&self) -> (r: Option<&[u8]>) {
        if self.len() >= TABLE_HEADER_LEN {
            let end: usize = TABLE_HEADER_LEN + self.section_length() as usize;
            if self.len() > end {
                let next: &[u8] = &self[end..self.len()];
                if next.table_id() < FILLER {
                    return Some(next);
                }
            }
        }
        None
    }
}

/// The table data of a section with a syntax section: what lies between the
/// eight bytes of header and the four bytes of checksum.
pub open spec fn section_table_data(section: Seq<u8>) -> Seq<u8> {
    section.subrange(SYNTAX_HEADER_LEN as int, section.len() - CRC_LEN)
}

/// The checksum stored in the last four bytes of a section.
pub open spec fn section_stored_crc32(section: Seq<u8>) -> u32 {
    be32_at(section, section.len() - CRC_LEN)
}

/// The fields of a section that has a syntax section. The receiver is the
/// section itself, as `section_data` hands it out.
pub trait TableSyntaxSection: View<V = Seq<u8>> {
    /// Whether the two reserved bits before the version are both set.
    fn valid_syntax(&self) -> (r: bool)
        requires
            self@.len() >= 6,
        ensures
            r == (self@[5] & 0xc0 == 0xc0),
    ;

    fn table_id_ext(&self) -> (r: u16)
        requires
            self@.len() >= 5,
        ensures
            r == be16_at(self@, 3),
    ;

    fn version(&self) -> (r: u8)
        requires
            self@.len() >= 6,
        ensures
            r == (self@[5] >> 1) & 0x1f,
    ;

    fn current(&self) -> (r: bool)
        requires
            self@.len() >= 6,
        ensures
            r == (self@[5] & 1 == 1),
    ;

    fn section_num(&self) -> (r: u8)
        requires
            self@.len() >= 7,
        ensures
            r == self@[6],
    ;

    fn last_section_num(&self) -> (r: u8)
        requires
            self@.len() >= 8,
        ensures
            r == self@[7],
    ;

    fn table_data(&self) -> (r: &[u8])
        requires
            self@.len() >= SYNTAX_HEADER_LEN + CRC_LEN,
        ensures
            r@ == section_table_data(self@),
    ;

    fn crc32(&self) -> (r: u32)
        requires
            self@.len() >= CRC_LEN,
        ensures
            r == section_stored_crc32(self@),
    ;
}

impl TableSyntaxSection for &[u8] {
    fn valid_syntax(&self) -> (r: bool) {
        (self[5] & 0xC0) == 0xC0
    }

    fn table_id_ext(&self) -> (r: u16) {
        read_be16(&self[3..5])
    }

    fn version(&self) -> (r: u8) {
        (self[5] >> 1) & 0x1F
    }

    fn current(&self) -> (r: bool) {
        (self[5] & 1) == 1
    }

    fn section_num(&self) -> (r: u8) {
        self[6]
    }

    fn last_section_num(&self) -> (r: u8) {
        self[7]
    }

    fn table_data(&self) -> (r: &[u8]) {
        let table_len: usize = self.len();
        let crc_idx: usize = table_len - CRC_LEN;
        &self[SYNTAX_HEADER_LEN..crc_idx]
    }

    fn crc32(&self) -> (r: u32) {
        let table_len: usize = self.len();
        let crc_idx: usize = table_len - CRC_LEN;
        read_be32(&self[crc_idx..table_len])
    }
}

/// The program map identifier of the first entry: the low 13 bits of its
/// third and fourth bytes.
pub open spec fn entry_program_map_pid(entries: Seq<u8>) -> u16 {
    be16_at(entries, 2) & 0x1fff
}

/// The entries that follow the first, if a whole entry follows it.
pub open spec fn next_entry(entries: Seq<u8>) -> Option<Seq<u8>> {
    if entries.len() >= 2 * PAT_ENTRY_LEN {
        Some(entries.subrange(PAT_ENTRY_LEN as int, entries.len() as int))
    } else {
        None
    }
}

/// The entries of a program association table. The receiver is the table
/// data of a section; its first four bytes are the entry that is read.
pub trait PAT: View<V = Seq<u8>> {
    /// Whether the three reserved bits before the identifier are all set.
    fn valid_pat(&self) -> (r: bool)
        requires
            self@.len() >= 3,
        ensures
            r == (self@[2] & 0xe0 == 0xe0),
    ;

    fn program_num(&self) -> (r: u16)
        requires
            self@.len() >= 2,
        ensures
            r == be16_at(self@, 0),
    ;

    fn program_map_pid(&self) -> (r: u16)
        requires
            self@.len() >= 4,
        ensures
            r == entry_program_map_pid(self@),
            r <= 0x1fff,
    ;

    fn next_program(&self) -> (r: Option<&[u8]>)
        ensures
            optional_view(r) == next_entry(self@),
            r is Some ==> r->Some_0@.len() < self@.len(),
    ;
}

impl PAT for &[u8] {
    fn valid_pat(&self) -> (r: bool) {
        (self[2] & 0xE0) == 0xE0
    }

    fn program_num(&self) -> (r: u16) {
        read_be16(&self[0..2])
    }

    fn program_map_pid(&self) -> (r: u16) {
        let word: u16 = read_be16(&self[2..4]);
        proof {
            lemma_masked_u16(word);
        }
        word & 0x1FFF
    }

    fn next_program(&self) -> (r: Option<&[u8]>) {
        if self.len() >= 2 * PAT_ENTRY_LEN {
            return Some(&self[PAT_ENTRY_LEN..self.len()]);
        }
        None
    }
}

/// The identifier of the packets that carry the program's clock reference:
/// the low 13 bits of the first two bytes.
pub open spec fn map_pcr_pid(map: Seq<u8>) -> u16 {
    be16_at(map, 0) & 0x1fff
}

/// The declared length of the program descriptors: the low ten bits of the
/// third and fourth bytes.
pub open spec fn map_program_info_len(map: Seq<u8>) -> u16 {
    be16_at(map, 2) & 0x3ff
}

/// Whether the program descriptors, as long as declared, lie within the map.
pub open spec fn map_descriptors_fit(map: Seq<u8>) -> bool {
    map.len() >= PMT_HEADER_LEN && PMT_HEADER_LEN + map_program_info_len(map) <= map.len()
}

/// The program descriptors: none when their declared length is zero, the
/// declared number of bytes after the four header bytes otherwise. An error
/// when the map is too short for its header or for the declared length.
pub open spec fn map_descriptor_data(map: Seq<u8>) -> Result<Option<Seq<u8>>, DecodeError> {
    if !map_descriptors_fit(map) {
        Err(DecodeError::OutOfBounds)
    } else if map_program_info_len(map) == 0 {
        Ok(None)
    } else {
        Ok(Some(map.subrange(PMT_HEADER_LEN as int, PMT_HEADER_LEN + map_program_info_len(map))))
    }
}

/// The elementary streams: what follows the program descriptors. An error
/// when the map is too short for its header or for the declared length.
pub open spec fn map_elementary_streams(map: Seq<u8>) -> Result<Seq<u8>, DecodeError> {
    if map_descriptors_fit(map) {
        Ok(map.subrange(PMT_HEADER_LEN + map_program_info_len(map), map.len() as int))
    } else {
        Err(DecodeError::OutOfBounds)
    }
}

/// The fields of a program map table. The receiver is the table data of a
/// section.
pub trait PMT: View<V = Seq<u8>> {
    /// Whether the reserved bits before the clock reference identifier and
    /// before the descriptor length are all set.
    fn valid_pmt(&self) -> (r: bool)
        requires
            self@.len() >= 3,
        ensures
            r == (self@[0] & 0xe0 == 0xe0 && self@[2] & 0xf0 == 0xf0),
    ;

    fn pcr_pid(&self) -> (r: u16)
        requires
            self@.len() >= 2,
        ensures
            r == map_pcr_pid(self@),
            r <= 0x1fff,
    ;

    fn program_info_len(&self) -> (r: u16)
        requires
            self@.len() >= 4,
        ensures
            r == map_program_info_len(self@),
            r <= 0x3ff,
    ;

    fn descriptor_data(&self) -> (r: Result<Option<&[u8]>, DecodeError>)
        ensures
            optional_window_view(r) == map_descriptor_data(self@),
    ;

    fn elementary_streams(&self) -> (r: Result<&[u8], DecodeError>)
        ensures
            window_view(r) == map_elementary_streams(self@),
    ;
}

impl PMT for &[u8] {
    fn valid_pmt(&self) -> (r: bool) {
        (self[0] & 0xE0) == 0xE0 && (self[2] & 0xF0) == 0xF0
    }

    fn pcr_pid(&self) -> (r: u16) {
        let word: u16 = read_be16(&self[0..2]);
        proof {
            lemma_masked_u16(word);
        }
        word & 0x1FFF
    }

    fn program_info_len(&self) -> (r: u16) {
        let word: u16 = read_be16(&self[2..4]);
        proof {
            lemma_masked_u16(word);
        }
        word & 0x3FF
    }

    fn descriptor_data(&self) -> (r: Result<Option<&[u8]>, DecodeError>) {
        if self.len() < PMT_HEADER_LEN {
            return Err(DecodeError::OutOfBounds);
        }
        let desc_len: usize = self.program_info_len() as usize;
        if PMT_HEADER_LEN + desc_len > self.len() {
            return Err(DecodeError::OutOfBounds);
        }
        if desc_len > 0 {
            return Ok(Some(&self[PMT_HEADER_LEN..PMT_HEADER_LEN + desc_len]));
        }
        Ok(None)
    }

    fn elementary_streams(&self) -> (r: Result<&[u8], DecodeError>) {
        if self.len() < PMT_HEADER_LEN {
            return Err(DecodeError::OutOfBounds);
        }
        let desc_len: usize = self.program_info_len() as usize;
        if PMT_HEADER_LEN + desc_len > self.len() {
            return Err(DecodeError::OutOfBounds);
        }
        Ok(&self[PMT_HEADER_LEN + desc_len..self.len()])
    }
}

/// The packet identifier of the first stream: the low 13 bits of its second
/// and third bytes.
pub open spec fn stream_entry_pid(streams: Seq<u8>) -> u16 {
    be16_at(streams, 1) & 0x1fff
}

/// The declared length of the first stream's descriptors: the low ten bits
/// of its fourth and fifth bytes.
pub open spec fn stream_info_len(streams: Seq<u8>) -> u16 {
    be16_at(streams, 3) & 0x3ff
}

/// The number of bytes the first stream's entry takes, descriptors included.
pub open spec fn stream_entry_end(streams: Seq<u8>) -> int {
    STREAM_HEADER_LEN + stream_info_len(streams)
}

/// The descriptors of the first stream. An error when the entry is too short
/// for its header or for the declared length.
pub open spec fn stream_info(streams: Seq<u8>) -> Result<Seq<u8>, DecodeError> {
    if streams.len() >= STREAM_HEADER_LEN && stream_entry_end(streams) <= streams.len() {
        Ok(streams.subrange(STREAM_HEADER_LEN as int, stream_entry_end(streams)))
    } else {
        Err(DecodeError::OutOfBounds)
    }
}

/// The streams that follow the first: what lies beyond its entry, if any
/// byte does and the first of them is not the filler.
pub open spec fn next_stream_entry(streams: Seq<u8>) -> Option<Seq<u8>> {
    if streams.len() >= STREAM_HEADER_LEN && stream_entry_end(streams) < streams.len()
        && streams[stream_entry_end(streams)] != FILLER {
        Some(streams.subrange(stream_entry_end(streams), streams.len() as int))
    } else {
        None
    }
}

/// The streams reached from `streams` by `n` steps along the chain, if the
/// chain is that long.
pub open spec fn nth_stream(streams: Seq<u8>, n: nat) -> Option<Seq<u8>>
    decreases n,
{
    if n == 0 {
        Some(streams)
    } else {
        match nth_stream(streams, (n - 1) as nat) {
            Some(s) => next_stream_entry(s),
            None => None,
        }
    }
}

/// The elementary streams of a program map table. The receiver is what
/// `elementary_streams` hands out; its first entry is the one that is read.
pub trait ElementaryStream: View<V = Seq<u8>> {
    /// Whether the reserved bits before the identifier and before the
    /// descriptor length are all set.
    fn valid_stream(&self) -> (r: bool)
        requires
            self@.len() >= 4,
        ensures
            r == (self@[1] & 0xe0 == 0xe0 && self@[3] & 0xf0 == 0xf0),
    ;

    fn stream_type(&self) -> (r: u8)
        requires
            self@.len() >= 1,
        ensures
            r == self@[0],
    ;

    fn stream_pid(&self) -> (r: u16)
        requires
            self@.len() >= 3,
        ensures
            r == stream_entry_pid(self@),
            r <= 0x1fff,
    ;

    fn es_info_len(&self) -> (r: u16)
        requires
            self@.len() >= 5,
        ensures
            r == stream_info_len(self@),
            r <= 0x3ff,
    ;

    fn es_info(&self) -> (r: Result<&[u8], DecodeError>)
        ensures
            window_view(r) == stream_info(self@),
    ;

    fn next_stream(&self) -> (r: Option<&[u8]>)
        ensures
            optional_view(r) == next_stream_entry(self@),
            r is Some ==> r->Some_0@.len() < self@.len(),
    ;
}

impl ElementaryStream for &[u8] {
    fn valid_stream(&self) -> (r: bool) {
        (self[1] & 0xE0) == 0xE0 && (self[3] & 0xF0) == 0xF0
    }

    fn stream_type(&self) -> (r: u8) {
        self[0]
    }

    fn stream_pid(&self) -> (r: u16) {
        let word: u16 = read_be16(&self[1..3]);
        proof {
            lemma_masked_u16(word);
        }
        word & 0x1FFF
    }

    fn es_info_len(&self) -> (r: u16) {
        let word: u16 = read_be16(&self[3..5]);
        proof {
            lemma_masked_u16(word);
        }
        word & 0x3FF
    }

    fn es_info(&self) -> (r: Result<&[u8], DecodeError>) {
        if self.len() < STREAM_HEADER_LEN {
            return Err(DecodeError::OutOfBounds);
        }
        let end: usize = STREAM_HEADER_LEN + self.es_info_len() as usize;
        if end <= self.len() {
            Ok(&self[STREAM_HEADER_LEN..end])
        } else {
            Err(DecodeError::OutOfBounds)
        }
    }

    fn next_stream(&self) -> (r: Option<&[u8]>) {
        if self.len() >= STREAM_HEADER_LEN {
            let end: usize = STREAM_HEADER_LEN + self.es_info_len() as usize;
            if self.len() > end {
                let next: &[u8] = &self[end..self.len()];
                if next.stream_type() < FILLER {
                    return Some(next);
                }
            }
        }
        None
    }
}

} // verus!
