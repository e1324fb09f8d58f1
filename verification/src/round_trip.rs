//! What decoding makes of a synthesized frame: the tables are the sections
//! that were laid out, every section carries the checksum that is computed
//! over it, its fields are the values it was built from, and the chains end
//! where the sections and the streams do.

use crate::bytes::{be16, be16_at, be32_at, be32_encoding, lemma_be32_round_trip};
use crate::crc::{crc32_over, section_crc32};
use crate::error::DecodeError;
use crate::header::{
    header_afc, header_cc, header_has_adaptation_field, header_has_payload, header_pid,
    header_priority, header_pusi, header_sync, header_tei, header_tsc, SYNC_BYTE,
};
use crate::packet::{
    built_frame, frame_header, frame_payload, lemma_built_frame_header, HEADER_LEN, PACKET_LEN,
};
use crate::psi::{
    entry_program_map_pid, frame_tables, map_descriptor_data, map_elementary_streams,
    map_pcr_pid, map_program_info_len, next_entry, next_stream_entry, next_table, nth_stream,
    nth_table, section_stored_crc32, section_table_data, stream_entry_pid, stream_info,
    stream_info_len, table_section, table_section_length, FILLER,
};
use crate::synth::{
    lemma_pat_sections_len, lemma_stream_entries_len, pat_frame, pat_section, pat_section_body,
    pat_sections, pmt_frame, pmt_section, pmt_section_body, pmt_section_head, stream_entries,
    stream_entry, table_frame, with_crc, MAX_PAT_PROGRAMS, MAX_PMT_STREAMS,
    MAX_TABLES_LEN, PAT_SECTION_LEN, PMT_SECTION_BASE_LEN, STREAM_ENTRY_LEN,
};
use vstd::prelude::*;

verus! {

/// The checksum computed over a stamped section is the checksum stored in
/// its last four bytes.
pub proof fn lemma_stamped_crc32(body: Seq<u8>)
    ensures
        with_crc(body).len() == body.len() + 4,
        section_crc32(with_crc(body)) == crc32_over(body),
        section_stored_crc32(with_crc(body)) == crc32_over(body),
        section_crc32(with_crc(body)) == section_stored_crc32(with_crc(body)),
{
    let crc = crc32_over(body);
    lemma_be32_round_trip(crc);
    assert(with_crc(body).subrange(0, with_crc(body).len() - 4) =~= body);
    assert(be32_at(with_crc(body), with_crc(body).len() - 4) == be32_at(be32_encoding(crc), 0));
}

/// A frame that carries sections behind a header which announces a payload
/// and no adaptation field decodes to exactly those sections.
pub proof fn lemma_table_frame_tables(header: Seq<u8>, sections: Seq<u8>)
    requires
        header.len() == HEADER_LEN,
        sections.len() <= MAX_TABLES_LEN,
        header_has_payload(be32_at(header, 0)),
        !header_has_adaptation_field(be32_at(header, 0)),
    ensures
        table_frame(header, sections).len() == PACKET_LEN,
        frame_header(table_frame(header, sections)) == be32_at(header, 0),
        frame_tables(table_frame(header, sections)) == Ok::<Option<Seq<u8>>, DecodeError>(
            Some(sections),
        ),
{
    let frame = table_frame(header, sections);
    let pointer = MAX_TABLES_LEN - sections.len();
    assert(frame[0] == header[0] && frame[1] == header[1] && frame[2] == header[2] && frame[3]
        == header[3]);
    let payload = frame.subrange(HEADER_LEN as int, PACKET_LEN as int);
    assert(frame_payload(frame) == Ok::<Seq<u8>, DecodeError>(payload));
    assert(payload[0] == pointer as u8);
    assert(payload.subrange(1 + pointer, payload.len() as int) =~= sections);
}

/// The constant bytes of a synthesized section, as the accessors read them.
proof fn lemma_section_constants()
    by (bit_vector)
    ensures
        0xB0u8 & 0x80 != 0,
        be16(0xB0, 13) & 0x3ff == 13,
        be16(0, 1) == 1,
        0xC1u8 & 0xc0 == 0xc0,
        (0xC1u8 >> 1) & 0x1f == 0,
        0xC1u8 & 1 == 1,
        be16(0xFF, 0xFF) & 0x1fff == 0x1fff,
        be16(0xF0, 0) & 0x3ff == 0,
        0xFFu8 & 0xe0 == 0xe0,
        0xF0u8 & 0xf0 == 0xf0,
{
}

/// The bytes that hold a program number, an identifier or a length, as the
/// accessors read them.
proof fn lemma_field_bytes(num: u16, pid: u16, len: u8)
    by (bit_vector)
    ensures
        be16((num >> 8) as u8, (num & 0xff) as u8) == num,
        be16(0xE0u8 | ((pid >> 8) as u8), (pid & 0xff) as u8) & 0x1fff == pid & 0x1fff,
        (0xE0u8 | ((pid >> 8) as u8)) & 0xe0 == 0xe0,
        be16(0xE0u8 | (((pid >> 8) & 0x1f) as u8), (pid & 0xff) as u8) & 0x1fff == pid & 0x1fff,
        (0xE0u8 | (((pid >> 8) & 0x1f) as u8)) & 0xe0 == 0xe0,
        be16(0xB0, len) & 0x3ff == len,
{
}

/// The section that announces a program reads back as it was built: table 0
/// with a syntax section of 13 bytes, table extension 1, version 0 and
/// current, section 0 of 0, one entry that holds the program number and the
/// identifier cut to 13 bits with its reserved bits set, and the checksum
/// that is computed over the section.
pub proof fn lemma_pat_section_fields(num: u16, pid: u16)
    ensures
        pat_section(num, pid).len() == PAT_SECTION_LEN,
        pat_section(num, pid)[0] == 0,
        pat_section(num, pid)[1] & 0x80 != 0,
        table_section_length(pat_section(num, pid)) == 13,
        table_section(pat_section(num, pid)) == Ok::<Seq<u8>, DecodeError>(pat_section(num, pid)),
        next_table(pat_section(num, pid)) == None::<Seq<u8>>,
        be16_at(pat_section(num, pid), 3) == 1,
        pat_section(num, pid)[5] & 0xc0 == 0xc0,
        (pat_section(num, pid)[5] >> 1) & 0x1f == 0,
        pat_section(num, pid)[5] & 1 == 1,
        pat_section(num, pid)[6] == 0,
        pat_section(num, pid)[7] == 0,
        section_table_data(pat_section(num, pid)).len() == 4,
        be16_at(section_table_data(pat_section(num, pid)), 0) == num,
        entry_program_map_pid(section_table_data(pat_section(num, pid))) == pid & 0x1fff,
        section_table_data(pat_section(num, pid))[2] & 0xe0 == 0xe0,
        next_entry(section_table_data(pat_section(num, pid))) == None::<Seq<u8>>,
        section_crc32(pat_section(num, pid)) == section_stored_crc32(pat_section(num, pid)),
{
    let body = pat_section_body(num, pid);
    let section = pat_section(num, pid);
    lemma_section_constants();
    lemma_field_bytes(num, pid, 0);
    lemma_stamped_crc32(body);
    assert(section.len() == 16);
    assert(section[1] == 0xB0 && section[2] == 13 && section[3] == 0 && section[4] == 1
        && section[5] == 0xC1);
    assert(section.subrange(0, 16) =~= section);
    let data = section_table_data(section);
    assert(data.len() == 4);
    assert(data[0] == body[8] && data[1] == body[9] && data[2] == body[10] && data[3]
        == body[11]);
}

/// The `k`-th section of a program association, counted from 0, lies 16
/// bytes after the one before it.
proof fn lemma_pat_sections_slice(pids: Seq<u16>, k: int)
    requires
        0 <= k < pids.len(),
    ensures
        pat_sections(pids).len() == PAT_SECTION_LEN * pids.len(),
        pat_sections(pids).subrange(PAT_SECTION_LEN * k, PAT_SECTION_LEN * k + PAT_SECTION_LEN)
            == pat_section((k + 1) as u16, pids[k]),
    decreases pids.len(),
{
    lemma_pat_sections_len(pids);
    lemma_pat_sections_len(pids.drop_last());
    let last = pat_section(pids.len() as u16, pids.last());
    lemma_pat_section_fields(pids.len() as u16, pids.last());
    if k == pids.len() - 1 {
        assert(pat_sections(pids).subrange(
            PAT_SECTION_LEN * k,
            PAT_SECTION_LEN * k + PAT_SECTION_LEN,
        ) =~= last);
    } else {
        lemma_pat_sections_slice(pids.drop_last(), k);
        assert(pat_sections(pids).subrange(
            PAT_SECTION_LEN * k,
            PAT_SECTION_LEN * k + PAT_SECTION_LEN,
        ) =~= pat_sections(pids.drop_last()).subrange(
            PAT_SECTION_LEN * k,
            PAT_SECTION_LEN * k + PAT_SECTION_LEN,
        ));
    }
}

/// What remains of a program association from its `k`-th section on starts
/// with the section of program `k + 1`, and is followed along the chain by
/// what remains from the next section on, or by nothing after the last.
pub proof fn lemma_pat_window(pids: Seq<u16>, k: int)
    requires
        0 <= k < pids.len(),
    ensures
        table_section(
            pat_sections(pids).subrange(PAT_SECTION_LEN * k, PAT_SECTION_LEN * pids.len()),
        ) == Ok::<Seq<u8>, DecodeError>(pat_section((k + 1) as u16, pids[k])),
        next_table(
            pat_sections(pids).subrange(PAT_SECTION_LEN * k, PAT_SECTION_LEN * pids.len()),
        ) == (if k + 1 < pids.len() {
            Some(
                pat_sections(pids).subrange(
                    PAT_SECTION_LEN * (k + 1),
                    PAT_SECTION_LEN * pids.len(),
                ),
            )
        } else {
            None
        }),
{
    let all = pat_sections(pids);
    let end = PAT_SECTION_LEN * pids.len();
    let window = all.subrange(PAT_SECTION_LEN * k, end);
    let section = pat_section((k + 1) as u16, pids[k]);
    lemma_pat_sections_slice(pids, k);
    lemma_pat_section_fields((k + 1) as u16, pids[k]);
    assert(window.subrange(0, 16) =~= all.subrange(PAT_SECTION_LEN * k, PAT_SECTION_LEN * k + 16));
    assert(window[1] == section[1] && window[2] == section[2]);
    assert(table_section_length(window) == 13);
    if k + 1 < pids.len() {
        lemma_pat_sections_slice(pids, k + 1);
        lemma_pat_section_fields((k + 2) as u16, pids[k + 1]);
        let following = all.subrange(PAT_SECTION_LEN * (k + 1), PAT_SECTION_LEN * (k + 1) + 16);
        assert(window[16] == following[0]);
        assert(window.subrange(16, window.len() as int) =~= all.subrange(
            PAT_SECTION_LEN * (k + 1),
            end,
        ));
    }
}

/// Following the chain from the first section of a program association
/// reaches, after `k` steps, what remains from the `k`-th section on; after
/// as many steps as there are sections, the chain has ended.
pub proof fn lemma_pat_chain(pids: Seq<u16>, k: nat)
    requires
        1 <= pids.len(),
        k <= pids.len(),
    ensures
        k < pids.len() ==> nth_table(pat_sections(pids), k) == Some(
            pat_sections(pids).subrange(PAT_SECTION_LEN * k, PAT_SECTION_LEN * pids.len()),
        ),
        k == pids.len() ==> nth_table(pat_sections(pids), k) == None::<Seq<u8>>,
    decreases k,
{
    lemma_pat_sections_len(pids);
    if k == 0 {
        assert(pat_sections(pids).subrange(0, PAT_SECTION_LEN * pids.len()) =~= pat_sections(
            pids,
        ));
    } else {
        lemma_pat_chain(pids, (k - 1) as nat);
        lemma_pat_window(pids, k - 1);
    }
}

/// The frame of a synthesized program association: its header announces
/// packet identifier 0, a payload unit start, a payload and no adaptation
/// field, and the counter given; its tables are the sections laid out, one
/// per identifier.
pub proof fn lemma_pat_frame_tables(pids: Seq<u16>, cc: u8)
    requires
        pids.len() <= MAX_PAT_PROGRAMS,
    ensures
        pat_frame(pids, cc).len() == PACKET_LEN,
        header_sync(frame_header(pat_frame(pids, cc))) == SYNC_BYTE,
        header_pusi(frame_header(pat_frame(pids, cc))),
        !header_tei(frame_header(pat_frame(pids, cc))),
        !header_priority(frame_header(pat_frame(pids, cc))),
        header_pid(frame_header(pat_frame(pids, cc))) == 0,
        header_tsc(frame_header(pat_frame(pids, cc))) == 0,
        header_afc(frame_header(pat_frame(pids, cc))) == 1,
        header_cc(frame_header(pat_frame(pids, cc))) == cc & 0xf,
        frame_tables(pat_frame(pids, cc)) == Ok::<Option<Seq<u8>>, DecodeError>(
            Some(pat_sections(pids)),
        ),
{
    let built = built_frame(false, true, false, 0, 0, 1, cc);
    let header = built.subrange(0, HEADER_LEN as int);
    lemma_built_frame_header(false, true, false, 0, 0, 1, cc);
    lemma_built_header_values();
    lemma_pat_sections_len(pids);
    assert(be32_at(header, 0) == frame_header(built));
    lemma_table_frame_tables(header, pat_sections(pids));
}

/// A synthesized program association decodes to what it was built from. The
/// `k`-th table along the chain is the section of program `k + 1`: it holds
/// that program number and the `k`-th identifier, cut to 13 bits, and it
/// stores the checksum that is computed over it. After as many steps as
/// there are identifiers the chain has ended.
pub proof fn lemma_pat_round_trip(pids: Seq<u16>, cc: u8, k: int)
    requires
        pids.len() <= MAX_PAT_PROGRAMS,
        0 <= k < pids.len(),
    ensures
        frame_tables(pat_frame(pids, cc)) == Ok::<Option<Seq<u8>>, DecodeError>(
            Some(pat_sections(pids)),
        ),
        nth_table(pat_sections(pids), k as nat) is Some,
        table_section(nth_table(pat_sections(pids), k as nat)->Some_0) == Ok::<
            Seq<u8>,
            DecodeError,
        >(pat_section((k + 1) as u16, pids[k])),
        be16_at(section_table_data(pat_section((k + 1) as u16, pids[k])), 0) == k + 1,
        entry_program_map_pid(section_table_data(pat_section((k + 1) as u16, pids[k])))
            == pids[k] & 0x1fff,
        section_crc32(pat_section((k + 1) as u16, pids[k])) == section_stored_crc32(
            pat_section((k + 1) as u16, pids[k]),
        ),
        nth_table(pat_sections(pids), pids.len()) == None::<Seq<u8>>,
{
    lemma_pat_frame_tables(pids, cc);
    lemma_pat_chain(pids, k as nat);
    lemma_pat_chain(pids, pids.len());
    lemma_pat_window(pids, k);
    lemma_pat_section_fields((k + 1) as u16, pids[k]);
}

/// The header values that every synthesized table frame is built with.
proof fn lemma_built_header_values()
    by (bit_vector)
    ensures
        0u16 & 0x1fff == 0,
        0u8 & 0x3 == 0,
        1u8 & 0x3 == 1,
{
}

/// The entry of an elementary stream reads back as it was built: the type,
/// the identifier cut to 13 bits with its reserved bits set, and no
/// descriptors.
pub proof fn lemma_stream_entry_fields(pid: u16, stream_type: u8, rest: Seq<u8>)
    ensures
        stream_entry(pid, stream_type).len() == STREAM_ENTRY_LEN,
        (stream_entry(pid, stream_type) + rest)[0] == stream_type,
        stream_entry_pid(stream_entry(pid, stream_type) + rest) == pid & 0x1fff,
        stream_info_len(stream_entry(pid, stream_type) + rest) == 0,
        (stream_entry(pid, stream_type) + rest)[1] & 0xe0 == 0xe0,
        (stream_entry(pid, stream_type) + rest)[3] & 0xf0 == 0xf0,
        stream_info(stream_entry(pid, stream_type) + rest) == Ok::<Seq<u8>, DecodeError>(
            Seq::empty(),
        ),
        next_stream_entry(stream_entry(pid, stream_type) + rest) == (if rest.len() > 0 && rest[0]
            != FILLER {
            Some(rest)
        } else {
            None
        }),
{
    let entry = stream_entry(pid, stream_type);
    let window = entry + rest;
    lemma_section_constants();
    lemma_field_bytes(0, pid, 0);
    assert(window[1] == entry[1] && window[2] == entry[2] && window[3] == entry[3] && window[4]
        == entry[4]);
    assert(window.subrange(5, 5) =~= Seq::<u8>::empty());
    if rest.len() > 0 {
        assert(window[5] == rest[0]);
        assert(window.subrange(5, window.len() as int) =~= rest);
    }
}

/// The `k`-th entry of a list of streams, counted from 0, lies 5 bytes after
/// the one before it.
proof fn lemma_stream_entries_slice(streams: Seq<(u16, u8)>, k: int)
    requires
        0 <= k < streams.len(),
    ensures
        stream_entries(streams).len() == STREAM_ENTRY_LEN * streams.len(),
        stream_entries(streams).subrange(
            STREAM_ENTRY_LEN * k,
            STREAM_ENTRY_LEN * k + STREAM_ENTRY_LEN,
        ) == stream_entry(streams[k].0, streams[k].1),
    decreases streams.len(),
{
    lemma_stream_entries_len(streams);
    lemma_stream_entries_len(streams.drop_last());
    let last = stream_entry(streams.last().0, streams.last().1);
    if k == streams.len() - 1 {
        assert(stream_entries(streams).subrange(
            STREAM_ENTRY_LEN * k,
            STREAM_ENTRY_LEN * k + STREAM_ENTRY_LEN,
        ) =~= last);
    } else {
        lemma_stream_entries_slice(streams.drop_last(), k);
        assert(stream_entries(streams).subrange(
            STREAM_ENTRY_LEN * k,
            STREAM_ENTRY_LEN * k + STREAM_ENTRY_LEN,
        ) =~= stream_entries(streams.drop_last()).subrange(
            STREAM_ENTRY_LEN * k,
            STREAM_ENTRY_LEN * k + STREAM_ENTRY_LEN,
        ));
    }
}

/// What remains of a list of streams from its `k`-th entry on starts with
/// that stream's type and identifier, without descriptors, and is followed
/// along the chain by what remains from the next entry on; the chain ends
/// after the last entry, and before an entry whose type is the filler.
pub proof fn lemma_stream_window(streams: Seq<(u16, u8)>, k: int)
    requires
        0 <= k < streams.len(),
    ensures
        stream_entries(streams).subrange(
            STREAM_ENTRY_LEN * k,
            STREAM_ENTRY_LEN * streams.len(),
        )[0] == streams[k].1,
        stream_entry_pid(
            stream_entries(streams).subrange(
                STREAM_ENTRY_LEN * k,
                STREAM_ENTRY_LEN * streams.len(),
            ),
        ) == streams[k].0 & 0x1fff,
        stream_info(
            stream_entries(streams).subrange(
                STREAM_ENTRY_LEN * k,
                STREAM_ENTRY_LEN * streams.len(),
            ),
        ) == Ok::<Seq<u8>, DecodeError>(Seq::empty()),
        next_stream_entry(
            stream_entries(streams).subrange(
                STREAM_ENTRY_LEN * k,
                STREAM_ENTRY_LEN * streams.len(),
            ),
        ) == (if k + 1 < streams.len() && streams[k + 1].1 != FILLER {
            Some(
                stream_entries(streams).subrange(
                    STREAM_ENTRY_LEN * (k + 1),
                    STREAM_ENTRY_LEN * streams.len(),
                ),
            )
        } else {
            None
        }),
{
    let all = stream_entries(streams);
    let end = STREAM_ENTRY_LEN * streams.len();
    let window = all.subrange(STREAM_ENTRY_LEN * k, end);
    let rest = all.subrange(STREAM_ENTRY_LEN * (k + 1), end);
    lemma_stream_entries_slice(streams, k);
    assert(window =~= stream_entry(streams[k].0, streams[k].1) + rest) by {
        assert(window.subrange(0, 5) =~= all.subrange(
            STREAM_ENTRY_LEN * k,
            STREAM_ENTRY_LEN * k + 5,
        ));
        assert(window =~= window.subrange(0, 5) + rest);
    }
    lemma_stream_entry_fields(streams[k].0, streams[k].1, rest);
    if k + 1 < streams.len() {
        lemma_stream_entries_slice(streams, k + 1);
        let following = all.subrange(STREAM_ENTRY_LEN * (k + 1), STREAM_ENTRY_LEN * (k + 1) + 5);
        assert(rest[0] == following[0]);
    }
}

/// Following the chain from the first of a list of streams reaches, after
/// `k` steps, what remains from the `k`-th entry on, as long as none of the
/// entries passed on the way has the filler as its type.
pub proof fn lemma_stream_chain(streams: Seq<(u16, u8)>, k: nat)
    requires
        k < streams.len(),
        forall|j: int| 1 <= j <= k ==> (#[trigger] streams[j]).1 != FILLER,
    ensures
        nth_stream(stream_entries(streams), k) == Some(
            stream_entries(streams).subrange(
                STREAM_ENTRY_LEN * k,
                STREAM_ENTRY_LEN * streams.len(),
            ),
        ),
    decreases k,
{
    lemma_stream_entries_len(streams);
    if k == 0 {
        assert(stream_entries(streams).subrange(0, STREAM_ENTRY_LEN * streams.len())
            =~= stream_entries(streams));
    } else {
        lemma_stream_chain(streams, (k - 1) as nat);
        lemma_stream_window(streams, k - 1);
        assert(streams[k as int].1 != FILLER);
    }
}

/// The section of a program map reads back as it was built: table 2 with a
/// syntax section of 13 bytes and 5 per stream, table extension 1, version 0
/// and current, section 0 of 0, and the checksum that is computed over the
/// section. Its table data holds the unassigned clock reference identifier,
/// no program descriptors, and the entries of the streams. No table follows
/// it.
pub proof fn lemma_pmt_section_fields(streams: Seq<(u16, u8)>)
    requires
        streams.len() <= MAX_PMT_STREAMS,
    ensures
        pmt_section(streams).len() == PMT_SECTION_BASE_LEN + STREAM_ENTRY_LEN * streams.len(),
        pmt_section(streams)[0] == 2,
        pmt_section(streams)[1] & 0x80 != 0,
        table_section_length(pmt_section(streams)) == 13 + STREAM_ENTRY_LEN * streams.len(),
        table_section(pmt_section(streams)) == Ok::<Seq<u8>, DecodeError>(pmt_section(streams)),
        next_table(pmt_section(streams)) == None::<Seq<u8>>,
        be16_at(pmt_section(streams), 3) == 1,
        pmt_section(streams)[5] & 0xc0 == 0xc0,
        (pmt_section(streams)[5] >> 1) & 0x1f == 0,
        pmt_section(streams)[5] & 1 == 1,
        pmt_section(streams)[6] == 0,
        pmt_section(streams)[7] == 0,
        section_crc32(pmt_section(streams)) == section_stored_crc32(pmt_section(streams)),
        map_pcr_pid(section_table_data(pmt_section(streams))) == 0x1fff,
        map_program_info_len(section_table_data(pmt_section(streams))) == 0,
        section_table_data(pmt_section(streams))[0] & 0xe0 == 0xe0,
        section_table_data(pmt_section(streams))[2] & 0xf0 == 0xf0,
        map_descriptor_data(section_table_data(pmt_section(streams))) == Ok::<
            Option<Seq<u8>>,
            DecodeError,
        >(None),
        map_elementary_streams(section_table_data(pmt_section(streams))) == Ok::<
            Seq<u8>,
            DecodeError,
        >(stream_entries(streams)),
{
    let head = pmt_section_head(streams.len() as int);
    let body = pmt_section_body(streams);
    let section = pmt_section(streams);
    lemma_section_constants();
    lemma_field_bytes(0, 0, (13 + STREAM_ENTRY_LEN * streams.len()) as u8);
    lemma_stream_entries_len(streams);
    lemma_stamped_crc32(body);
    assert(section[0] == head[0] && section[1] == head[1] && section[2] == head[2] && section[3]
        == head[3] && section[4] == head[4] && section[5] == head[5] && section[6] == head[6]
        && section[7] == head[7]);
    assert(section.subrange(0, section.len() as int) =~= section);
    let map = section_table_data(section);
    assert(map[0] == head[8] && map[1] == head[9] && map[2] == head[10] && map[3] == head[11]);
    assert(map.subrange(4, map.len() as int) =~= stream_entries(streams));
}

/// The frame of a synthesized program map: its header announces the packet
/// identifier given, cut to 13 bits, a payload unit start, a payload and no
/// adaptation field, and the counter given; its tables are the one section
/// laid out.
pub proof fn lemma_pmt_frame_tables(pid: u16, streams: Seq<(u16, u8)>, cc: u8)
    requires
        streams.len() <= MAX_PMT_STREAMS,
    ensures
        pmt_frame(pid, streams, cc).len() == PACKET_LEN,
        header_sync(frame_header(pmt_frame(pid, streams, cc))) == SYNC_BYTE,
        header_pusi(frame_header(pmt_frame(pid, streams, cc))),
        !header_tei(frame_header(pmt_frame(pid, streams, cc))),
        !header_priority(frame_header(pmt_frame(pid, streams, cc))),
        header_pid(frame_header(pmt_frame(pid, streams, cc))) == pid & 0x1fff,
        header_tsc(frame_header(pmt_frame(pid, streams, cc))) == 0,
        header_afc(frame_header(pmt_frame(pid, streams, cc))) == 1,
        header_cc(frame_header(pmt_frame(pid, streams, cc))) == cc & 0xf,
        frame_tables(pmt_frame(pid, streams, cc)) == Ok::<Option<Seq<u8>>, DecodeError>(
            Some(pmt_section(streams)),
        ),
{
    let built = built_frame(false, true, false, pid, 0, 1, cc);
    let header = built.subrange(0, HEADER_LEN as int);
    lemma_built_frame_header(false, true, false, pid, 0, 1, cc);
    lemma_built_header_values();
    lemma_pmt_section_fields(streams);
    assert(be32_at(header, 0) == frame_header(built));
    lemma_table_frame_tables(header, pmt_section(streams));
}

/// A synthesized program map decodes to what it was built from. The tables
/// are the one section laid out, which stores the checksum that is computed
/// over it. Its streams are the entries of the pairs given: what remains
/// from the `k`-th entry on starts with the `k`-th type and the `k`-th
/// identifier, cut to 13 bits.
pub proof fn lemma_pmt_round_trip(pid: u16, streams: Seq<(u16, u8)>, cc: u8, k: int)
    requires
        streams.len() <= MAX_PMT_STREAMS,
        0 <= k < streams.len(),
    ensures
        frame_tables(pmt_frame(pid, streams, cc)) == Ok::<Option<Seq<u8>>, DecodeError>(
            Some(pmt_section(streams)),
        ),
        table_section(pmt_section(streams)) == Ok::<Seq<u8>, DecodeError>(pmt_section(streams)),
        section_crc32(pmt_section(streams)) == section_stored_crc32(pmt_section(streams)),
        map_elementary_streams(section_table_data(pmt_section(streams))) == Ok::<
            Seq<u8>,
            DecodeError,
        >(stream_entries(streams)),
        stream_entries(streams).subrange(
            STREAM_ENTRY_LEN * k,
            STREAM_ENTRY_LEN * streams.len(),
        )[0] == streams[k].1,
        stream_entry_pid(
            stream_entries(streams).subrange(
                STREAM_ENTRY_LEN * k,
                STREAM_ENTRY_LEN * streams.len(),
            ),
        ) == streams[k].0 & 0x1fff,
{
    lemma_pmt_frame_tables(pid, streams, cc);
    lemma_pmt_section_fields(streams);
    lemma_stream_window(streams, k);
}

} // verus!
