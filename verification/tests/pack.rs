use nust64::elf::ElfSection;
use nust64::names::contains_name;
use nust64::pack::{fits, is_section_packed, pack, round_up, section_names};
use object::SectionKind;

const MIB: usize = 0x10_0000;

fn section(name: &str, addr: u64, data: Vec<u8>) -> ElfSection {
    ElfSection { name: Some(name.to_string()), addr, data, flags: 0x6, kind: SectionKind::Text }
}

fn names(list: &[&str]) -> Vec<String> {
    list.iter().map(|name| name.to_string()).collect()
}

fn defaults() -> Vec<String> {
    section_names(Vec::new())
}

#[test]
fn default_sections_when_none_are_named() {
    assert_eq!(defaults(), names(&[".boot", ".text", ".rodata", ".data", ".assets", ".bss"]));
}

#[test]
fn named_sections_replace_the_default_ones() {
    assert_eq!(section_names(names(&[".boot", ".extra"])), names(&[".boot", ".extra"]));
    assert_eq!(section_names(names(&[".only"])), names(&[".only"]));
}

#[test]
fn contains_name_compares_whole_names() {
    let list = defaults();
    assert!(contains_name(&list, &".text".to_string()));
    assert!(!contains_name(&list, &".tex".to_string()));
    assert!(!contains_name(&list, &".text2".to_string()));
    assert!(!contains_name(&list, &String::new()));
    assert!(!contains_name(&Vec::new(), &".text".to_string()));
}

#[test]
fn empty_and_unlisted_sections_are_not_packed() {
    let list = defaults();
    assert!(is_section_packed(&section(".text", 0, vec![1]), &list));
    assert!(!is_section_packed(&section(".text", 0, vec![]), &list));
    assert!(!is_section_packed(&section(".comment", 0, vec![1]), &list));
    let nameless =
        ElfSection { name: None, addr: 0, data: vec![1], flags: 0, kind: SectionKind::Unknown };
    assert!(!is_section_packed(&nameless, &list));
    assert!(is_section_packed(&nameless, &names(&[""])));
}

#[test]
fn gap_between_sections_is_filled_with_zeros() {
    let sections =
        vec![section(".boot", 0x1000, vec![0xAA; 16]), section(".text", 0x1030, vec![0xBB; 16])];
    let binary = pack(&sections, &defaults(), 0x1000);
    assert_eq!(&binary[0..16], &[0xAA; 16]);
    assert_eq!(&binary[16..48], &[0x00; 32]);
    assert_eq!(&binary[48..64], &[0xBB; 16]);
    assert!(binary[64..].iter().all(|&byte| byte == 0xFF));
    assert_eq!(binary.len(), MIB);
}

#[test]
fn sixteen_byte_gap_gives_sixteen_zero_bytes() {
    let sections =
        vec![section(".boot", 0x1000, vec![0xAA; 16]), section(".text", 0x1020, vec![0xBB; 16])];
    let binary = pack(&sections, &defaults(), 0x1000);
    assert_eq!(&binary[0..16], &[0xAA; 16]);
    assert_eq!(&binary[16..32], &[0x00; 16]);
    assert_eq!(&binary[32..48], &[0xBB; 16]);
    assert_eq!(binary[48], 0xFF);
}

#[test]
fn adjacent_sections_have_nothing_between_them() {
    let sections =
        vec![section(".boot", 0x1000, vec![0xAA; 16]), section(".text", 0x1010, vec![0xBB; 16])];
    let binary = pack(&sections, &defaults(), 0x1000);
    assert_eq!(&binary[0..16], &[0xAA; 16]);
    assert_eq!(&binary[16..32], &[0xBB; 16]);
}

#[test]
fn empty_sections_are_skipped_without_padding() {
    let with_empty = vec![
        section(".boot", 0x1000, vec![0xAA; 16]),
        section(".bss", 0x8000, vec![]),
        section(".text", 0x1010, vec![0xBB; 16]),
    ];
    let without = vec![with_empty[0].clone(), with_empty[2].clone()];
    let binary = pack(&with_empty, &defaults(), 0x1000);
    assert_eq!(binary, pack(&without, &defaults(), 0x1000));
    assert_eq!(&binary[16..32], &[0xBB; 16]);
}

#[test]
fn unlisted_sections_are_skipped_without_padding() {
    let sections = vec![
        section(".boot", 0x1000, vec![0xAA; 4]),
        section(".comment", 0x9000, vec![0xCC; 4]),
        section(".data", 0x1004, vec![0xDD; 4]),
    ];
    let binary = pack(&sections, &defaults(), 0x1000);
    assert_eq!(&binary[0..8], &[0xAA, 0xAA, 0xAA, 0xAA, 0xDD, 0xDD, 0xDD, 0xDD]);
    assert_eq!(binary[8], 0xFF);
}

#[test]
fn named_sections_are_packed_in_place_of_the_default_ones() {
    let sections = vec![
        section(".boot", 0x1000, vec![0xAA; 4]),
        section(".text", 0x1004, vec![0xBB; 4]),
        section(".extra", 0x1008, vec![0xEE; 4]),
    ];
    let binary = pack(&sections, &section_names(names(&[".boot", ".extra"])), 0x1000);
    assert_eq!(&binary[0..4], &[0xAA; 4]);
    assert_eq!(&binary[4..8], &[0x00; 4]);
    assert_eq!(&binary[8..12], &[0xEE; 4]);
    assert_eq!(binary[12], 0xFF);
}

#[test]
fn section_behind_the_write_position_follows_without_padding() {
    let sections =
        vec![section(".boot", 0x1000, vec![0xAA; 16]), section(".text", 0x1008, vec![0xBB; 4])];
    let binary = pack(&sections, &defaults(), 0x1000);
    assert_eq!(&binary[0..16], &[0xAA; 16]);
    assert_eq!(&binary[16..20], &[0xBB; 4]);
    assert_eq!(binary[20], 0xFF);
}

#[test]
fn start_address_ahead_of_the_first_section() {
    let sections = vec![section(".boot", 0x1010, vec![0xAA; 4])];
    let binary = pack(&sections, &defaults(), 0x1000);
    assert_eq!(&binary[0..16], &[0x00; 16]);
    assert_eq!(&binary[16..20], &[0xAA; 4]);
}

#[test]
fn no_sections_give_a_mebibyte_of_fill() {
    assert_eq!(pack(&Vec::new(), &defaults(), 0), vec![0xFF; MIB]);
}

#[test]
fn payload_of_exactly_a_mebibyte_is_left_as_it_is() {
    let sections = vec![section(".boot", 0, vec![0x11; MIB])];
    assert_eq!(pack(&sections, &defaults(), 0), vec![0x11; MIB]);
}

#[test]
fn payload_over_a_mebibyte_ends_the_image_on_a_whole_mebibyte() {
    let sections = vec![section(".boot", 0, vec![0x11; MIB + 1])];
    let binary = pack(&sections, &defaults(), 0);
    assert_eq!(binary.len(), 2 * MIB - 0x1000);
    assert_eq!((binary.len() + 0x1000) % MIB, 0);
    assert!(binary[..MIB + 1].iter().all(|&byte| byte == 0x11));
    assert!(binary[MIB + 1..].iter().all(|&byte| byte == 0xFF));
}

#[test]
fn image_that_ends_on_a_whole_mebibyte_still_grows_by_one() {
    let mut binary = vec![0x22; 2 * MIB - 0x1000];
    round_up(&mut binary);
    assert_eq!(binary.len(), 3 * MIB - 0x1000);
}

#[test]
fn round_up_sizes() {
    for (len, rounded) in [
        (0, MIB),
        (1, MIB),
        (MIB - 1, MIB),
        (MIB, MIB),
        (MIB + 1, 2 * MIB - 0x1000),
        (2 * MIB - 0x1001, 2 * MIB - 0x1000),
        (2 * MIB - 0x0FFF, 3 * MIB - 0x1000),
    ] {
        let mut binary = vec![0u8; len];
        round_up(&mut binary);
        assert_eq!(binary.len(), rounded);
        assert!(binary[..len].iter().all(|&byte| byte == 0));
        assert!(binary[len..].iter().all(|&byte| byte == 0xFF));
    }
}

#[test]
fn ordinary_layouts_fit() {
    let sections =
        vec![section(".boot", 0x8000_0400, vec![1; 64]), section(".text", 0x8010_0000, vec![2; 64])];
    assert!(fits(&sections, &defaults(), 0x8000_0400));
    assert!(fits(&Vec::new(), &defaults(), u64::MAX));
}

#[test]
fn layout_that_passes_the_end_of_the_address_space_does_not_fit() {
    let sections = vec![section(".boot", u64::MAX - 3, vec![1; 4])];
    assert!(!fits(&sections, &defaults(), u64::MAX - 3));
    let behind = vec![section(".boot", 0, vec![1; 4])];
    assert!(!fits(&behind, &defaults(), u64::MAX - 3));
}

#[test]
fn layout_with_a_gap_too_wide_for_memory_does_not_fit() {
    let sections = vec![section(".boot", 0, vec![1; 4]), section(".text", u64::MAX - 8, vec![2; 4])];
    assert!(!fits(&sections, &defaults(), 0));
    // The same sections fit once the far one is not laid out.
    assert!(fits(&sections, &section_names(names(&[".boot"])), 0));
}
