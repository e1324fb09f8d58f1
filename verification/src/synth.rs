//! Synthesis of packets that carry a program association table or a program
//! map table: one frame each, the sections right-justified against its end
//! and every section stamped with its checksum.

use crate::bytes::{be32_encoding, write_be32};
use crate::crc::{calc_crc32, crc32_over};
use crate::packet::{built_frame, Packet, PacketData, HEADER_LEN, PACKET_LEN, STUFFING_BYTE};
use vstd::prelude::*;

verus! {

/// The number of bytes of a frame that can hold sections: what follows the
/// header and the pointer field.
pub const MAX_TABLES_LEN: usize = 183;

/// The number of bytes of the section that announces one program.
pub const PAT_SECTION_LEN: usize = 16;

/// The largest number of programs whose sections fit one frame.
pub const MAX_PAT_PROGRAMS: usize = 11;

/// The number of bytes one elementary stream takes in a program map.
pub const STREAM_ENTRY_LEN: usize = 5;

/// The number of bytes of a program map section without any stream.
pub const PMT_SECTION_BASE_LEN: usize = 16;

/// The largest number of elementary streams whose section fits one frame.
pub const MAX_PMT_STREAMS: usize = 33;

/// `n` stuffing bytes.
pub open spec fn stuffing(n: int) -> Seq<u8> {
    Seq::new(n as nat, |i: int| STUFFING_BYTE)
}

/// A section body followed by the four bytes of its checksum.
pub open spec fn with_crc(body: Seq<u8>) -> Seq<u8> {
    body + be32_encoding(crc32_over(body))
}

/// A frame that carries `sections` at its very end: the four header bytes,
/// the pointer field, the stuffing the pointer skips, and the sections.
pub open spec fn table_frame(header: Seq<u8>, sections: Seq<u8>) -> Seq<u8> {
    header + seq![(MAX_TABLES_LEN - sections.len()) as u8] + stuffing(
        MAX_TABLES_LEN - sections.len(),
    ) + sections
}

/// The section that announces program `num` with program map identifier
/// `pid`, without its checksum: table 0 with a syntax section, 13 bytes after
/// the length field, table extension 1, version 0 and current, section 0 of
/// 0, and the one entry with the identifier's reserved bits set.
pub open spec fn pat_section_body(num: u16, pid: u16) -> Seq<u8> {
    seq![
        0u8,
        0xB0u8,
        13u8,
        0u8,
        1u8,
        0xC1u8,
        0u8,
        0u8,
        (num >> 8) as u8,
        (num & 0xff) as u8,
        0xE0u8 | ((pid >> 8) as u8),
        (pid & 0xff) as u8,
    ]
}

/// The section that announces program `num` with program map identifier
/// `pid`.
pub open spec fn pat_section(num: u16, pid: u16) -> Seq<u8> {
    with_crc(pat_section_body(num, pid))
}

/// One section per identifier, in order, the programs numbered from 1.
pub open spec fn pat_sections(pids: Seq<u16>) -> Seq<u8>
    decreases pids.len(),
{
    if pids.len() == 0 {
        Seq::empty()
    } else {
        pat_sections(pids.drop_last()) + pat_section(pids.len() as u16, pids.last())
    }
}

/// The frame that `create_pat_packet` lays out.
pub open spec fn pat_frame(pids: Seq<u16>, cc: u8) -> Seq<u8> {
    table_frame(
        built_frame(false, true, false, 0, 0, 1, cc).subrange(0, HEADER_LEN as int),
        pat_sections(pids),
    )
}

/// The sections of `n` programs take 16 bytes each.
pub proof fn lemma_pat_sections_len(pids: Seq<u16>)
    ensures
        pat_sections(pids).len() == PAT_SECTION_LEN * pids.len(),
    decreases pids.len(),
{
    if pids.len() > 0 {
        lemma_pat_sections_len(pids.drop_last());
    }
}

/// Computes the checksum of the section that spans `start..end` and writes
/// it over the section's last four bytes.
fn stamp_crc32(start: usize, end: usize, frame: &mut PacketData)
    requires
        start + 4 <= end <= PACKET_LEN,
    ensures
        final(frame)@ == old(frame)@.subrange(0, end - 4) + be32_encoding(
            crc32_over(old(frame)@.subrange(start as int, end - 4)),
        ) + old(frame)@.subrange(end as int, PACKET_LEN as int),
{
    let crc: u32 = calc_crc32(&frame[start..end]);
    assert(frame@.subrange(start as int, end as int).subrange(0, end - start - 4)
        =~= frame@.subrange(start as int, end - 4));
    let mut trailer: [u8; 4] = [0u8;4];
    write_be32(&mut trailer, crc);
    frame[end - 4] = trailer[0];
    frame[end - 3] = trailer[1];
    frame[end - 2] = trailer[2];
    frame[end - 1] = trailer[3];
    assert(frame@ =~= old(frame)@.subrange(0, end - 4) + be32_encoding(crc) + old(
        frame,
    )@.subrange(end as int, PACKET_LEN as int));
}

/// Writes at `offset` the section that announces program `num` with program
/// map identifier `pid`, checksum included.
fn insert_pat_payload(offset: usize, num: u16, pid: u16, pat: &mut PacketData)
    requires
        offset + PAT_SECTION_LEN <= PACKET_LEN,
    ensures
        final(pat)@ == old(pat)@.subrange(0, offset as int) + pat_section(num, pid) + old(
            pat,
        )@.subrange(offset + PAT_SECTION_LEN, PACKET_LEN as int),
{
    pat[offset] = 0;
    pat[offset + 1] = 0xB0;
    pat[offset + 2] = 13;
    pat[offset + 3] = 0;
    pat[offset + 4] = 1;
    pat[offset + 5] = 0xC1;
    pat[offset + 6] = 0;
    pat[offset + 7] = 0;
    pat[offset + 8] = #[verifier::truncate] ((num >> 8) as u8);
    pat[offset + 9] = #[verifier::truncate] ((num & 0xFF) as u8);
    pat[offset + 10] = 0xE0 | #[verifier::truncate] ((pid >> 8) as u8);
    pat[offset + 11] = #[verifier::truncate] ((pid & 0xFF) as u8);
    assert(pat@.subrange(offset as int, offset + 12) =~= pat_section_body(num, pid));
    stamp_crc32(offset, offset + PAT_SECTION_LEN, pat);
    assert(pat@ =~= old(pat)@.subrange(0, offset as int) + pat_section(num, pid) + old(
        pat,
    )@.subrange(offset + PAT_SECTION_LEN, PACKET_LEN as int));
}

/// Synthesizes the packet, with packet identifier 0, that announces one
/// program per identifier: the programs are numbered from 1 in the order
/// given, and each gets a section of its own, with its own checksum.
pub fn create_pat_packet(pids: &[u16], cc: u8) -> (pat: PacketData)
    requires
        pids@.len() <= MAX_PAT_PROGRAMS,
    ensures
        pat@ == pat_frame(pids@, cc),
{
    let mut pat: PacketData = Packet::create_packet(false, true, false, 0, 0, 1, cc);
    let ghost header = pat@.subrange(0, HEADER_LEN as int);
    let pid_count: usize = pids.len();
    let pointer: usize = PACKET_LEN - 5 - (PAT_SECTION_LEN * pid_count);
    pat[4] = pointer as u8;
    let mut prog_num: usize = 0;
    assert(pat@ =~= header + seq![pointer as u8] + stuffing(pointer as int) + pat_sections(
        pids@.take(0),
    ) + stuffing(PAT_SECTION_LEN * pid_count));
    while prog_num < pid_count
        invariant
            prog_num <= pid_count,
            pid_count == pids@.len(),
            pid_count <= MAX_PAT_PROGRAMS,
            pointer == PACKET_LEN - 5 - (PAT_SECTION_LEN * pid_count),
            header.len() == HEADER_LEN,
            pat@ == header + seq![pointer as u8] + stuffing(pointer as int) + pat_sections(
                pids@.take(prog_num as int),
            ) + stuffing(PAT_SECTION_LEN * (pid_count - prog_num)),
        decreases pid_count - prog_num,
    {
        let offset: usize = pointer + 5 + (PAT_SECTION_LEN * prog_num);
        proof {
            lemma_pat_sections_len(pids@.take(prog_num as int));
            let done = pids@.take(prog_num + 1);
            assert(done.drop_last() =~= pids@.take(prog_num as int));
        }
        prog_num = prog_num + 1;
        insert_pat_payload(offset, prog_num as u16, pids[prog_num - 1], &mut pat);
        assert(pat@ =~= header + seq![pointer as u8] + stuffing(pointer as int) + pat_sections(
            pids@.take(prog_num as int),
        ) + stuffing(PAT_SECTION_LEN * (pid_count - prog_num)));
    }
    proof {
        assert(pids@.take(pid_count as int) =~= pids@);
        lemma_pat_sections_len(pids@);
        assert(pat@ =~= pat_frame(pids@, cc));
    }
    pat
}

/// The entry of one elementary stream: its type, its packet identifier cut
/// to 13 bits under the reserved bits, and a descriptor length of zero under
/// the reserved bits.
pub open spec fn stream_entry(pid: u16, stream_type: u8) -> Seq<u8> {
    seq![stream_type, 0xE0u8 | (((pid >> 8) & 0x1f) as u8), (pid & 0xff) as u8, 0xF0u8, 0u8]
}

/// One entry per stream, in order.
pub open spec fn stream_entries(streams: Seq<(u16, u8)>) -> Seq<u8>
    decreases streams.len(),
{
    if streams.len() == 0 {
        Seq::empty()
    } else {
        stream_entries(streams.drop_last()) + stream_entry(streams.last().0, streams.last().1)
    }
}

/// The first twelve bytes of a program map section for `count` streams:
/// table 2 with a syntax section, 13 bytes and 5 per stream after the length
/// field, table extension 1, version 0 and current, section 0 of 0, the
/// clock reference identifier left unassigned (all ones), and no program
/// descriptors.
pub open spec fn pmt_section_head(count: int) -> Seq<u8> {
    seq![
        2u8,
        0xB0u8,
        (13 + STREAM_ENTRY_LEN * count) as u8,
        0u8,
        1u8,
        0xC1u8,
        0u8,
        0u8,
        0xFFu8,
        0xFFu8,
        0xF0u8,
        0u8,
    ]
}

/// The program map section for `streams`, without its checksum.
pub open spec fn pmt_section_body(streams: Seq<(u16, u8)>) -> Seq<u8> {
    pmt_section_head(streams.len() as int) + stream_entries(streams)
}

/// The program map section for `streams`.
pub open spec fn pmt_section(streams: Seq<(u16, u8)>) -> Seq<u8> {
    with_crc(pmt_section_body(streams))
}

/// The frame that `create_pmt_packet` lays out.
pub open spec fn pmt_frame(pid: u16, streams: Seq<(u16, u8)>, cc: u8) -> Seq<u8> {
    table_frame(
        built_frame(false, true, false, pid, 0, 1, cc).subrange(0, HEADER_LEN as int),
        pmt_section(streams),
    )
}

/// The entries of `n` streams take 5 bytes each.
pub proof fn lemma_stream_entries_len(streams: Seq<(u16, u8)>)
    ensures
        stream_entries(streams).len() == STREAM_ENTRY_LEN * streams.len(),
    decreases streams.len(),
{
    if streams.len() > 0 {
        lemma_stream_entries_len(streams.drop_last());
    }
}

/// Writes at `offset` the first twelve bytes of a program map section for
/// `count` streams.
fn insert_pmt_head(offset: usize, count: usize, pmt: &mut PacketData)
    requires
        count <= MAX_PMT_STREAMS,
        offset + 12 <= PACKET_LEN,
    ensures
        final(pmt)@ == old(pmt)@.subrange(0, offset as int) + pmt_section_head(count as int)
            + old(pmt)@.subrange(offset + 12, PACKET_LEN as int),
{
    pmt[offset] = 2;
    pmt[offset + 1] = 0xB0;
    pmt[offset + 2] = (13 + (STREAM_ENTRY_LEN * count)) as u8;
    pmt[offset + 3] = 0;
    pmt[offset + 4] = 1;
    pmt[offset + 5] = 0xC1;
    pmt[offset + 6] = 0;
    pmt[offset + 7] = 0;
    pmt[offset + 8] = 0xFF;
    pmt[offset + 9] = 0xFF;
    pmt[offset + 10] = 0xF0;
    pmt[offset + 11] = 0;
    assert(pmt@ =~= old(pmt)@.subrange(0, offset as int) + pmt_section_head(count as int) + old(
        pmt,
    )@.subrange(offset + 12, PACKET_LEN as int));
}

/// Writes at `at` the entry of one elementary stream.
fn insert_stream_entry(at: usize, pid: u16, stream_type: u8, pmt: &mut PacketData)
    requires
        at + STREAM_ENTRY_LEN <= PACKET_LEN,
    ensures
        final(pmt)@ == old(pmt)@.subrange(0, at as int) + stream_entry(pid, stream_type) + old(
            pmt,
        )@.subrange(at + STREAM_ENTRY_LEN, PACKET_LEN as int),
{
    pmt[at] = stream_type;
    pmt[at + 1] = 0xE0 | #[verifier::truncate] (((pid >> 8) & 0x1F) as u8);
    pmt[at + 2] = #[verifier::truncate] ((pid & 0xFF) as u8);
    pmt[at + 3] = 0xF0;
    pmt[at + 4] = 0;
    assert(pmt@ =~= old(pmt)@.subrange(0, at as int) + stream_entry(pid, stream_type) + old(
        pmt,
    )@.subrange(at + STREAM_ENTRY_LEN, PACKET_LEN as int));
}

/// Synthesizes the packet, with the given packet identifier, that carries one
/// program map section: no program descriptors, the clock reference
/// identifier left unassigned, and one entry without descriptors for each
/// pair of a stream's packet identifier and its type.
pub fn create_pmt_packet(pid: u16, pid_type_pairs: &[(u16, u8)], cc: u8) -> (pmt: PacketData)
    requires
        pid_type_pairs@.len() <= MAX_PMT_STREAMS,
    ensures
        pmt@ == pmt_frame(pid, pid_type_pairs@, cc),
{
    let mut pmt: PacketData = Packet::create_packet(false, true, false, pid, 0, 1, cc);
    let ghost header = pmt@.subrange(0, HEADER_LEN as int);
    let stream_count: usize = pid_type_pairs.len();
    let pointer: usize = PACKET_LEN - 5 - PMT_SECTION_BASE_LEN - (STREAM_ENTRY_LEN * stream_count);
    pmt[4] = pointer as u8;
    let offset: usize = pointer + 5;
    insert_pmt_head(offset, stream_count, &mut pmt);
    let mut pair_num: usize = 0;
    assert(pmt@ =~= header + seq![pointer as u8] + stuffing(pointer as int) + pmt_section_head(
        stream_count as int,
    ) + stream_entries(pid_type_pairs@.take(0)) + stuffing(
        STREAM_ENTRY_LEN * stream_count + 4,
    ));
    while pair_num < stream_count
        invariant
            pair_num <= stream_count,
            stream_count == pid_type_pairs@.len(),
            stream_count <= MAX_PMT_STREAMS,
            pointer == PACKET_LEN - 5 - PMT_SECTION_BASE_LEN - (STREAM_ENTRY_LEN * stream_count),
            offset == pointer + 5,
            header.len() == HEADER_LEN,
            pmt@ == header + seq![pointer as u8] + stuffing(pointer as int) + pmt_section_head(
                stream_count as int,
            ) + stream_entries(pid_type_pairs@.take(pair_num as int)) + stuffing(
                STREAM_ENTRY_LEN * (stream_count - pair_num) + 4,
            ),
        decreases stream_count - pair_num,
    {
        let at: usize = offset + 12 + (STREAM_ENTRY_LEN * pair_num);
        proof {
            lemma_stream_entries_len(pid_type_pairs@.take(pair_num as int));
            let done = pid_type_pairs@.take(pair_num + 1);
            assert(done.drop_last() =~= pid_type_pairs@.take(pair_num as int));
        }
        insert_stream_entry(at, pid_type_pairs[pair_num].0, pid_type_pairs[pair_num].1, &mut pmt);
        pair_num = pair_num + 1;
        assert(pmt@ =~= header + seq![pointer as u8] + stuffing(pointer as int)
            + pmt_section_head(stream_count as int) + stream_entries(
            pid_type_pairs@.take(pair_num as int),
        ) + stuffing(STREAM_ENTRY_LEN * (stream_count - pair_num) + 4));
    }
    let end: usize = offset + PMT_SECTION_BASE_LEN + (STREAM_ENTRY_LEN * stream_count);
    proof {
        assert(pid_type_pairs@.take(stream_count as int) =~= pid_type_pairs@);
        lemma_stream_entries_len(pid_type_pairs@);
        assert(pmt@.subrange(offset as int, end - 4) =~= pmt_section_body(pid_type_pairs@));
    }
    stamp_crc32(offset, end, &mut pmt);
    assert(pmt@ =~= pmt_frame(pid, pid_type_pairs@, cc));
    pmt
}

} // verus!
