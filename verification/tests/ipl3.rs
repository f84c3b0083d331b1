use nust64::ipl3::{boot_stage, libdragon_image};
use nust64::rom::Header;

fn counted(len: usize) -> Vec<u8> {
    (0..len).map(|i| (i % 251) as u8 + 1).collect()
}

#[test]
fn boot_stage_of_the_right_length_is_taken_as_it_is() {
    let data = counted(4032);
    assert_eq!(boot_stage(&data).to_vec(), data);
}

#[test]
fn short_boot_stage_is_filled_up_with_zeros() {
    let data = counted(100);
    let ipl3 = boot_stage(&data);
    assert_eq!(&ipl3[..100], &data[..]);
    assert!(ipl3[100..].iter().all(|&byte| byte == 0));
    assert_eq!(boot_stage(&[]), [0u8; 4032]);
}

#[test]
fn long_boot_stage_is_cut() {
    let data = counted(5000);
    assert_eq!(boot_stage(&data).to_vec(), data[..4032].to_vec());
    let one_more = counted(4033);
    assert_eq!(boot_stage(&one_more).to_vec(), one_more[..4032].to_vec());
}

#[test]
fn libdragon_image_replaces_entry_point_and_name() {
    let container = counted(4096);
    let executable = vec![0xEE; 10];
    let image = libdragon_image(&container, &executable, 0x8000_1000, "demo");
    let stored: [u8; 64] = container[..64].try_into().unwrap();
    let header: [u8; 64] = image[..64].try_into().unwrap();
    let expected = Header {
        pc: 0x8000_1000,
        image_name: *b"demo                ",
        ..Header::new(stored)
    };
    assert_eq!(Header::new(header), expected);
    assert_eq!(&image[..8], &container[..8]);
    assert_eq!(&image[8..12], &[0x80, 0x00, 0x10, 0x00]);
    assert_eq!(&image[12..32], &container[12..32]);
    assert_eq!(&image[32..52], b"demo                ");
    assert_eq!(&image[52..4096], &container[52..]);
}

#[test]
fn libdragon_image_of_an_aligned_container_has_a_whole_step_of_zeros() {
    let container = counted(4096);
    let executable = vec![0xEE; 10];
    let image = libdragon_image(&container, &executable, 0, "x");
    assert_eq!(image.len(), 4096 + 256 + 10);
    assert!(image[4096..4096 + 256].iter().all(|&byte| byte == 0));
    assert_eq!(&image[4096 + 256..], &executable[..]);
}

#[test]
fn libdragon_image_aligns_the_executable() {
    let container = counted(4100);
    let executable = vec![0xEE; 3];
    let image = libdragon_image(&container, &executable, 0, "x");
    assert_eq!(image.len(), 4352 + 3);
    assert_eq!(&image[64..4100], &container[64..]);
    assert!(image[4100..4352].iter().all(|&byte| byte == 0));
    assert_eq!(&image[4352..], &[0xEE; 3]);
}

#[test]
fn libdragon_image_of_a_bare_header() {
    let container = counted(64);
    let image = libdragon_image(&container, &[], 7, "");
    assert_eq!(image.len(), 256);
    assert_eq!(&image[8..12], &[0, 0, 0, 7]);
    assert_eq!(&image[32..52], &[0x20; 20]);
    assert_eq!(&image[52..64], &container[52..64]);
    assert!(image[64..].iter().all(|&byte| byte == 0));
}
