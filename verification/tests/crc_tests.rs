use mpegts::psi::calc_crc32;

#[test]
fn crc_of_short_input_is_zero() {
    assert_eq!(calc_crc32(&[]), 0);
    assert_eq!(calc_crc32(&[0x12]), 0);
    assert_eq!(calc_crc32(&[0x12, 0x34, 0x56]), 0);
}

#[test]
fn crc_of_four_bytes_is_the_seed() {
    // Nothing but the place of the checksum: no byte is taken in.
    assert_eq!(calc_crc32(&[0, 0, 0, 0]), 0xFFFF_FFFF);
    assert_eq!(calc_crc32(&[1, 2, 3, 4]), 0xFFFF_FFFF);
}

#[test]
fn crc_check_value() {
    // The check value of CRC-32/MPEG-2 over "123456789".
    let mut data: Vec<u8> = b"123456789".to_vec();
    data.extend_from_slice(&[0, 0, 0, 0]);
    assert_eq!(calc_crc32(&data), 0x0376_E6E7);
}

#[test]
fn crc_ignores_the_last_four_bytes() {
    let mut a: Vec<u8> = b"123456789".to_vec();
    let mut b: Vec<u8> = a.clone();
    a.extend_from_slice(&[0xFF, 0xFF, 0xFF, 0xFF]);
    b.extend_from_slice(&[0x03, 0x76, 0xE6, 0xE7]);
    assert_eq!(calc_crc32(&a), calc_crc32(&b));
}

#[test]
fn crc_is_not_the_reflected_variant() {
    // The reflected CRC-32 of "123456789" is 0xCBF43926.
    let mut data: Vec<u8> = b"123456789".to_vec();
    data.extend_from_slice(&[0, 0, 0, 0]);
    assert_ne!(calc_crc32(&data), 0xCBF4_3926);
}

#[test]
fn crc_of_one_byte() {
    // All ones taken into the seed: the incoming bit always equals the bit
    // that leaves, so the accumulator is only shifted, eight times.
    assert_eq!(calc_crc32(&[0xFF, 9, 9, 9, 9]), 0xFFFF_FF00);
    assert_eq!(calc_crc32(&[0x00, 9, 9, 9, 9]), 0x4E08_BFB4);
    assert_eq!(calc_crc32(&[0x80, 9, 9, 9, 9]), 0x2704_5F5A);
}

#[test]
fn crc_of_known_sections() {
    let pat: [u8; 16] = [
        0x00, 0xB0, 0x0D, 0x00, 0x01, 0xC1, 0x00, 0x00, 0x00, 0x01, 0xF0, 0x00, 0, 0, 0, 0,
    ];
    assert_eq!(calc_crc32(&pat), 0x2AB1_04B2);
    let pmt: [u8; 21] = [
        0x02, 0xB0, 0x12, 0x00, 0x01, 0xC1, 0x00, 0x00, 0xE1, 0x00, 0xF0, 0x00, 0x1B, 0xE1, 0x00,
        0xF0, 0x00, 0, 0, 0, 0,
    ];
    assert_eq!(calc_crc32(&pmt), 0x15BD_4D56);
}
