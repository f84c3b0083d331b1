use nust64::rom::{image_name, Header};

fn sample() -> Header {
    Header {
        pi_regs: 0x8037_1240,
        clockrate: 0x0000_000F,
        pc: 0x8000_0400,
        unknown0: 0x1234,
        release: 0x1E4E,
        checksum: 0x0123_4567_89AB_CDEF,
        unknown1: 0xFEDC_BA98_7654_3210,
        image_name: *b"SAMPLE GAME         ",
        unknown2: [1, 2, 3, 4, 5, 6, 7],
        media_format: 0x52,
        cart_id: 0x3634,
        country: 0x37,
        revision: 0x01,
    }
}

fn sample_bytes() -> [u8; 64] {
    let mut bytes = [0u8; 64];
    bytes[0..4].copy_from_slice(&[0x80, 0x37, 0x12, 0x40]);
    bytes[4..8].copy_from_slice(&[0x00, 0x00, 0x00, 0x0F]);
    bytes[8..12].copy_from_slice(&[0x80, 0x00, 0x04, 0x00]);
    bytes[12..14].copy_from_slice(&[0x12, 0x34]);
    bytes[14..16].copy_from_slice(&[0x1E, 0x4E]);
    bytes[16..24].copy_from_slice(&[0x01, 0x23, 0x45, 0x67, 0x89, 0xAB, 0xCD, 0xEF]);
    bytes[24..32].copy_from_slice(&[0xFE, 0xDC, 0xBA, 0x98, 0x76, 0x54, 0x32, 0x10]);
    bytes[32..52].copy_from_slice(b"SAMPLE GAME         ");
    bytes[52..59].copy_from_slice(&[1, 2, 3, 4, 5, 6, 7]);
    bytes[59] = 0x52;
    bytes[60..62].copy_from_slice(&[0x36, 0x34]);
    bytes[62] = 0x37;
    bytes[63] = 0x01;
    bytes
}

#[test]
fn header_encodes_fields_big_endian_in_order() {
    assert_eq!(sample().to_vec(), sample_bytes().to_vec());
}

#[test]
fn header_encoding_is_64_bytes() {
    assert_eq!(sample().to_vec().len(), 64);
    assert_eq!(Header::default().to_vec(), vec![0u8; 64]);
}

#[test]
fn header_decodes_fields_at_fixed_offsets() {
    assert_eq!(Header::new(sample_bytes()), sample());
}

#[test]
fn header_decodes_every_byte_to_its_own_field() {
    let mut bytes = [0u8; 64];
    for (i, byte) in bytes.iter_mut().enumerate() {
        *byte = i as u8;
    }
    let header = Header::new(bytes);
    assert_eq!(header.pi_regs, 0x0001_0203);
    assert_eq!(header.clockrate, 0x0405_0607);
    assert_eq!(header.pc, 0x0809_0A0B);
    assert_eq!(header.unknown0, 0x0C0D);
    assert_eq!(header.release, 0x0E0F);
    assert_eq!(header.checksum, 0x1011_1213_1415_1617);
    assert_eq!(header.unknown1, 0x1819_1A1B_1C1D_1E1F);
    let name: Vec<u8> = (32u8..52).collect();
    assert_eq!(header.image_name.to_vec(), name);
    assert_eq!(header.unknown2, [52, 53, 54, 55, 56, 57, 58]);
    assert_eq!(header.media_format, 59);
    assert_eq!(header.cart_id, 0x3C3D);
    assert_eq!(header.country, 62);
    assert_eq!(header.revision, 63);
}

#[test]
fn header_round_trip_from_value() {
    let header = sample();
    let bytes: [u8; 64] = header.to_vec().try_into().unwrap();
    assert_eq!(Header::new(bytes), header);
}

#[test]
fn header_round_trip_from_bytes() {
    let mut bytes = [0u8; 64];
    for (i, byte) in bytes.iter_mut().enumerate() {
        *byte = (i as u8).wrapping_mul(37).wrapping_add(11);
    }
    assert_eq!(Header::new(bytes).to_vec(), bytes.to_vec());
}

#[test]
fn header_round_trip_extreme_values() {
    let all_ones = Header::new([0xFF; 64]);
    assert_eq!(all_ones.pi_regs, u32::MAX);
    assert_eq!(all_ones.checksum, u64::MAX);
    assert_eq!(all_ones.cart_id, u16::MAX);
    assert_eq!(all_ones.to_vec(), vec![0xFF; 64]);
    let zero = Header::new([0; 64]);
    assert_eq!(zero, Header::default());
}

#[test]
fn image_name_pads_with_spaces() {
    assert_eq!(&image_name("nust64"), b"nust64              ");
}

#[test]
fn image_name_of_empty_name_is_blank() {
    assert_eq!(image_name(""), [0x20u8; 20]);
}

#[test]
fn image_name_keeps_exactly_twenty_bytes() {
    assert_eq!(&image_name("ABCDEFGHIJKLMNOPQRST"), b"ABCDEFGHIJKLMNOPQRST");
}

#[test]
fn image_name_cuts_longer_names() {
    assert_eq!(&image_name("ABCDEFGHIJKLMNOPQRSTUVWXYZ"), b"ABCDEFGHIJKLMNOPQRST");
}

#[test]
fn image_name_cuts_at_a_byte_not_at_a_character() {
    // 19 ASCII letters and a two-byte character: only its first byte fits.
    let field = image_name("ABCDEFGHIJKLMNOPQRS\u{e9}");
    assert_eq!(&field[..19], b"ABCDEFGHIJKLMNOPQRS");
    assert_eq!(field[19], 0xC3);
}

#[test]
fn generated_header_holds_the_platform_constants() {
    let binary = vec![0u8; 0x10_0000];
    let header = Header::generate(&binary, [0u8; 4032], "demo", 0x8000_0400);
    assert_eq!(header.pi_regs, 0x8037_1240);
    assert_eq!(header.clockrate, 0x0000_000F);
    assert_eq!(header.pc, 0x8000_0400);
    assert_eq!(header.unknown0, 0);
    assert_eq!(header.release, 0x1E4E);
    assert_eq!(header.unknown1, 0);
    assert_eq!(&header.image_name, b"demo                ");
    assert_eq!(header.unknown2, [0u8; 7]);
    assert_eq!(header.media_format, 0x52);
    assert_eq!(header.cart_id, 0x3634);
    assert_eq!(header.country, 0x37);
    assert_eq!(header.revision, 0x01);
}

#[test]
fn generated_header_carries_the_checksum_of_the_payload() {
    let binary = vec![0u8; 0x10_0000];
    let ipl3 = [0u8; 4032];
    let header = Header::generate(&binary, ipl3, "demo", 0);
    assert_eq!(header.checksum, Header::calculate_checksum(&binary, ipl3));
}

#[test]
fn synthesized_header_takes_entry_checksum_and_name() {
    let header = Header::synthesize(0x8000_0400, 0x1122_3344_5566_7788, "a much longer name than fits");
    assert_eq!(header.pc, 0x8000_0400);
    assert_eq!(header.checksum, 0x1122_3344_5566_7788);
    assert_eq!(&header.image_name, b"a much longer name t");
    let mut expected = vec![0x80, 0x37, 0x12, 0x40, 0, 0, 0, 0x0F, 0x80, 0, 0x04, 0, 0, 0, 0x1E, 0x4E];
    expected.extend_from_slice(&[0x11, 0x22, 0x33, 0x44, 0x55, 0x66, 0x77, 0x88]);
    expected.extend_from_slice(&[0; 8]);
    expected.extend_from_slice(b"a much longer name t");
    expected.extend_from_slice(&[0, 0, 0, 0, 0, 0, 0, 0x52, 0x36, 0x34, 0x37, 0x01]);
    assert_eq!(header.to_vec(), expected);
}
