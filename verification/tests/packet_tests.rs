use mpegts::error::DecodeError;
use mpegts::packet::{Packet, PacketData, PacketHeader, Payload};

fn frame_with_header(b1: u8, b2: u8, b3: u8) -> PacketData {
    let mut frame: PacketData = [0u8; 188];
    frame[0] = 0x47;
    frame[1] = b1;
    frame[2] = b2;
    frame[3] = b3;
    for i in 4..188 {
        frame[i] = i as u8;
    }
    frame
}

#[test]
fn built_packet_has_sync_and_presence_by_afc() {
    let expected = [(0u8, false, false), (1, false, true), (2, true, false), (3, true, true)];
    for (afc, adaptation, payload) in expected {
        let pkt = Packet::new(Packet::create_packet(false, false, false, 0x123, 0, afc, 0));
        assert_eq!(pkt.sync(), 0x47);
        assert_eq!(pkt.afc(), afc);
        assert_eq!(pkt.has_adaptation_field(), adaptation);
        assert_eq!(pkt.has_payload(), payload);
    }
}

#[test]
fn built_packet_exact_bytes() {
    let raw = Packet::create_packet(true, false, true, 0x1ABC, 2, 3, 0xC);
    assert_eq!(raw[0], 0x47);
    assert_eq!(raw[1], 0x80 | 0x20 | 0x1A);
    assert_eq!(raw[2], 0xBC);
    assert_eq!(raw[3], 0x80 | 0x30 | 0x0C);
    for i in 4..188 {
        assert_eq!(raw[i], 0xFF);
    }
    let raw = Packet::create_packet(false, true, false, 0, 0, 1, 9);
    assert_eq!(&raw[0..4], &[0x47, 0x40, 0x00, 0x19]);
}

#[test]
fn built_packet_reads_back_every_field() {
    for tei in [false, true] {
        for pusi in [false, true] {
            for priority in [false, true] {
                let raw = Packet::create_packet(tei, pusi, priority, 0x0ABC, 1, 2, 5);
                let pkt = Packet::new(raw);
                assert_eq!(pkt.tei(), tei);
                assert_eq!(pkt.pusi(), pusi);
                assert_eq!(pkt.priority(), priority);
                assert_eq!(pkt.pid(), 0x0ABC);
                assert_eq!(pkt.tsc(), 1);
                assert_eq!(pkt.afc(), 2);
                assert_eq!(pkt.cc(), 5);
            }
        }
    }
}

#[test]
fn built_packet_cuts_fields_to_their_width() {
    let pkt = Packet::new(Packet::create_packet(false, false, false, 0xFFFF, 0xFF, 0xFF, 0xFF));
    assert_eq!(pkt.tei(), false);
    assert_eq!(pkt.pusi(), false);
    assert_eq!(pkt.priority(), false);
    assert_eq!(pkt.pid(), 0x1FFF);
    assert_eq!(pkt.tsc(), 3);
    assert_eq!(pkt.afc(), 3);
    assert_eq!(pkt.cc(), 15);
    let pkt = Packet::new(Packet::create_packet(false, false, false, 0x2001, 4, 5, 0x13));
    assert_eq!(pkt.pid(), 0x0001);
    assert_eq!(pkt.tsc(), 0);
    assert_eq!(pkt.afc(), 1);
    assert_eq!(pkt.cc(), 3);
}

#[test]
fn header_fields_of_a_word() {
    let word: u32 = 0x47_5F_FE_9A;
    assert_eq!(word.sync(), 0x47);
    assert_eq!(word.tei(), false);
    assert_eq!(word.pusi(), true);
    assert_eq!(word.priority(), false);
    assert_eq!(word.pid(), 0x1FFE);
    assert_eq!(word.tsc(), 2);
    assert_eq!(word.afc(), 1);
    assert_eq!(word.has_adaptation_field(), false);
    assert_eq!(word.has_payload(), true);
    assert_eq!(word.cc(), 0xA);
    let word: u32 = 0x00_A0_00_20;
    assert_eq!(word.sync(), 0);
    assert_eq!(word.tei(), true);
    assert_eq!(word.pusi(), false);
    assert_eq!(word.priority(), true);
    assert_eq!(word.pid(), 0);
    assert_eq!(word.tsc(), 0);
    assert_eq!(word.afc(), 2);
    assert_eq!(word.has_adaptation_field(), true);
    assert_eq!(word.has_payload(), false);
    assert_eq!(word.cc(), 0);
}

#[test]
fn packet_header_is_read_big_endian() {
    // Byte order matters: the identifier spans the second and third bytes.
    let pkt = Packet::new(frame_with_header(0x41, 0x23, 0x17));
    assert_eq!(pkt.sync(), 0x47);
    assert_eq!(pkt.pusi(), true);
    assert_eq!(pkt.pid(), 0x0123);
    assert_eq!(pkt.afc(), 1);
    assert_eq!(pkt.cc(), 7);
}

#[test]
fn new_does_not_check_the_sync_byte() {
    let mut frame = frame_with_header(0, 0, 0x10);
    frame[0] = 0x00;
    let pkt = Packet::new(frame);
    assert_eq!(pkt.sync(), 0x00);
    assert_eq!(pkt.has_payload(), true);
}

#[test]
fn with_cc_changes_only_the_counter() {
    let raw = frame_with_header(0xE5, 0x5A, 0xB6);
    for cc in 0u8..=255 {
        let updated = Packet::with_cc(raw, cc);
        for i in 0..188 {
            if i != 3 {
                assert_eq!(updated[i], raw[i]);
            }
        }
        assert_eq!(updated[3], 0xB0 | (cc & 0x0F));
        let before = Packet::new(raw);
        let after = Packet::new(updated);
        assert_eq!(after.cc(), cc & 0x0F);
        assert_eq!(after.sync(), before.sync());
        assert_eq!(after.tei(), before.tei());
        assert_eq!(after.pusi(), before.pusi());
        assert_eq!(after.priority(), before.priority());
        assert_eq!(after.pid(), before.pid());
        assert_eq!(after.tsc(), before.tsc());
        assert_eq!(after.afc(), before.afc());
        assert_eq!(after.has_adaptation_field(), before.has_adaptation_field());
        assert_eq!(after.has_payload(), before.has_payload());
    }
}

#[test]
fn payload_is_copied_behind_the_header() {
    let payload: Vec<u8> = (0..100u8).collect();
    let raw = Packet::create_packet_with_payload(false, true, false, 7, 0, 1, 2, &payload);
    assert_eq!(&raw[0..4], &Packet::create_packet(false, true, false, 7, 0, 1, 2)[0..4]);
    assert_eq!(&raw[4..104], &payload[..]);
    for i in 104..188 {
        assert_eq!(raw[i], 0xFF);
    }
}

#[test]
fn empty_payload_leaves_the_built_frame() {
    let raw = Packet::create_packet_with_payload(true, true, true, 0x1FFF, 3, 3, 15, &[]);
    assert_eq!(raw, Packet::create_packet(true, true, true, 0x1FFF, 3, 3, 15));
}

#[test]
fn payload_beyond_184_bytes_is_cut() {
    let payload: Vec<u8> = (0..250u8).collect();
    let raw = Packet::create_packet_with_payload(false, false, false, 1, 0, 1, 0, &payload);
    assert_eq!(&raw[4..188], &payload[0..184]);
}

#[test]
fn payload_is_copied_whatever_the_afc() {
    // With an adaptation field announced the payload still starts at byte 4,
    // where the adaptation field's length would be read.
    let payload = [0x05u8, 0x00, 0xAA, 0xBB];
    let raw = Packet::create_packet_with_payload(false, false, false, 1, 0, 3, 0, &payload);
    assert_eq!(&raw[4..8], &payload[..]);
    let pkt = Packet::new(raw);
    assert_eq!(pkt.has_adaptation_field(), true);
    assert_eq!(pkt.payload_data().unwrap().len(), 184 - 6);
}

#[test]
fn payload_without_adaptation_field() {
    let frame = frame_with_header(0x00, 0x11, 0x10);
    let pkt = Packet::new(frame);
    let payload = pkt.payload_data().unwrap();
    assert_eq!(payload.len(), 184);
    assert_eq!(payload, &frame[4..188]);
}

#[test]
fn payload_after_adaptation_field() {
    for len in [0u8, 1, 7, 100, 182, 183] {
        let mut frame = frame_with_header(0x00, 0x11, 0x30);
        frame[4] = len;
        let pkt = Packet::new(frame);
        let payload = pkt.payload_data().unwrap();
        // The field takes its length byte and the bytes it announces.
        assert_eq!(payload.len(), 184 - (len as usize + 1));
        assert_eq!(payload, &frame[4 + 1 + len as usize..188]);
    }
}

#[test]
fn payload_keeps_trailing_stuffing() {
    let mut raw = Packet::create_packet(false, false, false, 1, 0, 1, 0);
    raw[4] = 0x01;
    let pkt = Packet::new(raw);
    let payload = pkt.payload_data().unwrap();
    assert_eq!(payload.len(), 184);
    assert_eq!(payload[183], 0xFF);
}

#[test]
fn payload_with_adaptation_only_follows_the_field() {
    let mut frame = frame_with_header(0x00, 0x11, 0x20);
    frame[4] = 183;
    let pkt = Packet::new(frame);
    assert_eq!(pkt.has_payload(), false);
    assert_eq!(pkt.payload_data().unwrap().len(), 0);
}

#[test]
fn adaptation_length_past_the_frame_is_out_of_bounds() {
    for len in [184u8, 185, 200, 255] {
        let mut frame = frame_with_header(0x00, 0x11, 0x30);
        frame[4] = len;
        let pkt = Packet::new(frame);
        assert_eq!(pkt.payload_data(), Err(DecodeError::OutOfBounds));
    }
    // Without an adaptation field the byte is not a length.
    let mut frame = frame_with_header(0x00, 0x11, 0x10);
    frame[4] = 255;
    assert_eq!(Packet::new(frame).payload_data().unwrap().len(), 184);
}
