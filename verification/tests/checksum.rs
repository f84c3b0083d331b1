use nust64::checksum::{
    advance, checksum_with_fingerprint, fold, initial_value, read_table, rotate_left,
    select_variant, Sums, Variant,
};
use nust64::rom::Header;

const MIB: usize = 0x10_0000;

/// A payload of one mebibyte with no two neighbouring words alike.
fn patterned(len: usize) -> Vec<u8> {
    (0..len).map(|i| (i * 31 + (i >> 8) * 17 + 5) as u8).collect()
}

/// A boot stage whose last four bytes are `patch`, chosen so that its CRC-32
/// is one of the known fingerprints.
fn boot_stage(patch: [u8; 4]) -> [u8; 4032] {
    let mut ipl3 = [0u8; 4032];
    for (i, byte) in ipl3.iter_mut().enumerate() {
        *byte = (i * 7 + 3) as u8;
    }
    ipl3[4028..].copy_from_slice(&patch);
    ipl3
}

const PATCH_6101: [u8; 4] = [0xF2, 0x13, 0xF6, 0x2A];
const PATCH_6102: [u8; 4] = [0x99, 0x53, 0xD9, 0x66];
const PATCH_7102: [u8; 4] = [0x37, 0xCC, 0xEA, 0xC0];
const PATCH_6103: [u8; 4] = [0x97, 0x2B, 0x32, 0xA2];
const PATCH_6105: [u8; 4] = [0x9F, 0x93, 0xFE, 0xBC];
const PATCH_6106: [u8; 4] = [0xFD, 0xE6, 0x7C, 0x24];

#[test]
fn initial_values_of_the_known_boot_chips() {
    assert_eq!(initial_value(0x3F, 0x5D58_8B65), 0xF8CA_4DDC);
    assert_eq!(initial_value(0x78, 0x6C07_8965), 0xA388_6759);
    assert_eq!(initial_value(0x91, 0x5D58_8B65), 0xDF26_F436);
    assert_eq!(initial_value(0x85, 0x6C07_8965), 0x1FEA_617A);
}

#[test]
fn initial_value_is_cut_to_32_bits() {
    assert_eq!(initial_value(0xFF, 0xFFFF_FFFF), 0xFFFF_FF02);
    assert_eq!(initial_value(0, 0x1234_5678), 1);
}

#[test]
fn variant_is_selected_by_fingerprint() {
    assert_eq!(select_variant(0x6170_A4A1), Some((0xF8CA_4DDC, Variant::Others)));
    assert_eq!(select_variant(0x90BB_6CB5), Some((0xF8CA_4DDC, Variant::Others)));
    assert_eq!(select_variant(0x009E_9EA3), Some((0xF8CA_4DDC, Variant::Others)));
    assert_eq!(select_variant(0x0B05_0EE0), Some((0xA388_6759, Variant::X103)));
    assert_eq!(select_variant(0x98BC_2C86), Some((0xDF26_F436, Variant::X105)));
    assert_eq!(select_variant(0xACC8_580A), Some((0x1FEA_617A, Variant::X106)));
}

#[test]
fn unknown_fingerprints_select_nothing() {
    assert_eq!(select_variant(0), None);
    assert_eq!(select_variant(0x6170_A4A0), None);
    assert_eq!(select_variant(0xFFFF_FFFF), None);
}

#[test]
fn rotate_left_moves_the_top_bits_to_the_bottom() {
    assert_eq!(rotate_left(0x8000_0001, 1), 0x0000_0003);
    assert_eq!(rotate_left(0x1234_5678, 8), 0x3456_7812);
    assert_eq!(rotate_left(0x1234_5678, 31), 0x091A_2B3C);
    assert_eq!(rotate_left(0xDEAD_BEEF, 0), 0xDEAD_BEEF);
    for r in 0..32 {
        assert_eq!(rotate_left(0xCAFE_F00D, r), 0xCAFE_F00Du32.rotate_left(r));
    }
}

#[test]
fn one_step_of_the_sums() {
    let start = Sums { t1: 10, t2: 20, t3: 30, t4: 40, t5: 50, t6: 0xFFFF_FFFF };
    // w = 3: rotated left by 3 is 24; t6 wraps, so t4 counts up.
    let next = advance(start, 3, 0, Variant::Others);
    assert_eq!(next.t6, 2);
    assert_eq!(next.t4, 41);
    assert_eq!(next.t3, 30 ^ 3);
    assert_eq!(next.t5, 74);
    assert_eq!(next.t2, 20 ^ 24);
    assert_eq!(next.t1, 10 + (74 ^ 3));
}

#[test]
fn one_step_with_a_word_not_below_t2() {
    let start = Sums { t1: 1, t2: 5, t3: 0, t4: 0, t5: 0, t6: 7 };
    // t2 <= w, so t2 takes in the new t6 and the word.
    let next = advance(start, 5, 0, Variant::X103);
    assert_eq!(next.t6, 12);
    assert_eq!(next.t4, 0);
    assert_eq!(next.t2, 5 ^ (12 ^ 5));
}

#[test]
fn one_step_of_the_table_variant_reads_the_table_word() {
    let start = Sums { t1: 100, t2: 0, t3: 0, t4: 0, t5: 0, t6: 0 };
    let next = advance(start, 0x0F, 0xF0, Variant::X105);
    assert_eq!(next.t1, 100 + 0xFF);
    let other = advance(start, 0x0F, 0xF0, Variant::X106);
    assert_eq!(other.t5, 0x0F << 15);
    assert_eq!(other.t1, 100 + ((0x0F << 15) ^ 0x0F));
}

#[test]
fn fold_by_variant() {
    let sums = Sums { t1: 1, t2: 2, t3: 3, t4: 4, t5: 5, t6: 6 };
    assert_eq!(fold(sums, Variant::Others), (((6 ^ 4) ^ 3) << 32) | ((5 ^ 2) ^ 1));
    assert_eq!(fold(sums, Variant::X105), (((6 ^ 4) ^ 3) << 32) | ((5 ^ 2) ^ 1));
    assert_eq!(fold(sums, Variant::X103), (((6 ^ 4) + 3) << 32) | ((5 ^ 2) + 1));
    assert_eq!(fold(sums, Variant::X106), ((6 * 4 + 3) << 32) | (5 * 2 + 1));
}

#[test]
fn fold_wraps_at_32_bits() {
    let sums = Sums {
        t1: 0xFFFF_FFFF,
        t2: 0x8000_0000,
        t3: 0xFFFF_FFFF,
        t4: 0x0001_0000,
        t5: 2,
        t6: 0x0001_0000,
    };
    // t6 * t4 = 2^32, which is 0; plus t3. t5 * t2 = 2^32, which is 0; plus t1.
    assert_eq!(fold(sums, Variant::X106), 0xFFFF_FFFF_FFFF_FFFF);
    // (t6 ^ t4) + t3 = 0 + t3; (t5 ^ t2) + t1 = 0x80000002 - 1.
    assert_eq!(fold(sums, Variant::X103), 0xFFFF_FFFF_8000_0001);
}

#[test]
fn table_is_sixteen_big_endian_words_from_0x710() {
    let ipl3 = boot_stage([0; 4]);
    let table = read_table(&ipl3);
    assert_eq!(table.len(), 16);
    for k in 0..16 {
        let at = 0x710 + 4 * k;
        let word = u32::from_be_bytes([ipl3[at], ipl3[at + 1], ipl3[at + 2], ipl3[at + 3]]);
        assert_eq!(table[k], word);
    }
    assert_eq!(table[0], 0x737A_8188);
}

#[test]
fn checksum_of_unknown_boot_stage_is_zero() {
    let binary = patterned(MIB);
    assert_eq!(Header::calculate_checksum(&binary, [0u8; 4032]), 0);
    assert_eq!(Header::calculate_checksum(&binary, boot_stage([0; 4])), 0);
    assert_eq!(checksum_with_fingerprint(&binary, &[0u8; 4032], 0x1234_5678), 0);
}

#[test]
fn checksum_golden_6101() {
    let binary = patterned(MIB);
    assert_eq!(Header::calculate_checksum(&binary, boot_stage(PATCH_6101)), 0xF8CE_4DDC_9098_A4FC);
}

#[test]
fn checksum_golden_6102() {
    let binary = patterned(MIB);
    assert_eq!(Header::calculate_checksum(&binary, boot_stage(PATCH_6102)), 0xF8CE_4DDC_9098_A4FC);
}

#[test]
fn checksum_golden_7102() {
    let binary = patterned(MIB);
    assert_eq!(Header::calculate_checksum(&binary, boot_stage(PATCH_7102)), 0xF8CE_4DDC_9098_A4FC);
}

#[test]
fn checksum_golden_6103() {
    let binary = patterned(MIB);
    assert_eq!(Header::calculate_checksum(&binary, boot_stage(PATCH_6103)), 0xA394_6759_C847_85EB);
}

#[test]
fn checksum_golden_6105() {
    let binary = patterned(MIB);
    assert_eq!(Header::calculate_checksum(&binary, boot_stage(PATCH_6105)), 0xDF2A_F436_BABB_8019);
}

#[test]
fn checksum_golden_6106() {
    let binary = patterned(MIB);
    assert_eq!(Header::calculate_checksum(&binary, boot_stage(PATCH_6106)), 0x0410_0F9E_62D4_DEB6);
}

#[test]
fn checksum_of_zero_payload_by_variant() {
    let binary = vec![0u8; MIB];
    assert_eq!(Header::calculate_checksum(&binary, boot_stage(PATCH_6102)), 0xF8CA_4DDC_303A_4DDC);
    assert_eq!(Header::calculate_checksum(&binary, boot_stage(PATCH_6103)), 0xA388_6759_40EC_6759);
    assert_eq!(Header::calculate_checksum(&binary, boot_stage(PATCH_6105)), 0xDF26_F436_ED4E_F436);
    assert_eq!(Header::calculate_checksum(&binary, boot_stage(PATCH_6106)), 0x0410_0F9E_89F8_0F9E);
}

#[test]
fn checksum_with_fingerprint_agrees_with_the_fingerprinted_boot_stage() {
    let binary = patterned(MIB);
    let ipl3 = boot_stage(PATCH_6105);
    assert_eq!(
        checksum_with_fingerprint(&binary, &ipl3, 0x98BC_2C86),
        Header::calculate_checksum(&binary, ipl3)
    );
    // The boot stage itself is read only for the table of the 6105 variant.
    assert_eq!(checksum_with_fingerprint(&binary, &[0u8; 4032], 0xACC8_580A), 0x0410_0F9E_62D4_DEB6);
    assert_eq!(checksum_with_fingerprint(&binary, &[0u8; 4032], 0x0B05_0EE0), 0xA394_6759_C847_85EB);
}

#[test]
fn checksum_reads_only_the_first_mebibyte() {
    let mut binary = patterned(MIB);
    let ipl3 = boot_stage(PATCH_6103);
    let before = Header::calculate_checksum(&binary, ipl3);
    binary.extend_from_slice(&[0xAB; 4096]);
    assert_eq!(Header::calculate_checksum(&binary, ipl3), before);
    let last = MIB - 1;
    binary[last] ^= 1;
    assert_ne!(Header::calculate_checksum(&binary, ipl3), before);
}
