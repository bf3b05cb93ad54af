use hf2::catalog::{BinInfo, BinInfoMode, WRITE_FLASH_PAGE};
use hf2::flash::{
    all_pages, checksum, checksum_batches, max_pages_per_batch, needs_start_flash, pad_image,
    page_checksums, pages_to_write, verify_checksums, write_page_command, Mismatch,
};

fn info(page: u32, max: u32, mode: BinInfoMode) -> BinInfo {
    BinInfo { mode, flash_page_size: page, flash_num_pages: 1024, max_message_size: max }
}

#[test]
fn crc16_xmodem_check_value() {
    assert_eq!(checksum(&b"123456789".to_vec()), 0x31C3);
    assert_eq!(checksum(&Vec::new()), 0);
}

#[test]
fn pad_ten_bytes_to_one_page() {
    let mut image = vec![0xaau8; 10];
    pad_image(&mut image, 256);
    assert_eq!(image.len(), 256);
    assert!(image[..10].iter().all(|b| *b == 0xaa));
    assert!(image[10..].iter().all(|b| *b == 0));
}

#[test]
fn pad_keeps_whole_pages() {
    let mut image = vec![1u8; 512];
    pad_image(&mut image, 256);
    assert_eq!(image.len(), 512);
    let mut empty: Vec<u8> = Vec::new();
    pad_image(&mut empty, 256);
    assert!(empty.is_empty());
    let mut odd = vec![1u8; 257];
    pad_image(&mut odd, 256);
    assert_eq!(odd.len(), 512);
}

#[test]
fn only_differing_page_is_written() {
    let local = vec![0x1111u16, 0x2222, 0x3333];
    let device = vec![0x1111u16, 0x9999, 0x3333];
    assert_eq!(pages_to_write(&local, &device), vec![1]);
    assert_eq!(pages_to_write(&local, &local), Vec::<usize>::new());
}

#[test]
fn extra_device_checksums_are_ignored() {
    let local = vec![1u16, 2];
    let device = vec![1u16, 3, 7, 8];
    assert_eq!(pages_to_write(&local, &device), vec![1]);
}

#[test]
fn batching_three_hundred_pages() {
    let i = info(256, 512, BinInfoMode::Bootloader);
    assert_eq!(max_pages_per_batch(&i), 254);
    let batches = checksum_batches(0x4000, 300, &i);
    assert_eq!(batches, vec![(0x4000, 254), (0x4000 + 254 * 256, 46)]);
    assert!(checksum_batches(0x4000, 0, &i).is_empty());
}

#[test]
fn verify_unmodified_device() {
    let mut image: Vec<u8> = (0..700u32).map(|i| (i % 251) as u8).collect();
    pad_image(&mut image, 256);
    let local = page_checksums(&image, 256);
    assert_eq!(local.len(), 3);
    assert!(verify_checksums(&local, &local).is_empty());
}

#[test]
fn verify_one_corrupted_page() {
    let mut image: Vec<u8> = (0..700u32).map(|i| (i % 251) as u8).collect();
    pad_image(&mut image, 256);
    let local = page_checksums(&image, 256);
    let mut corrupted = image.clone();
    corrupted[300] ^= 0xff;
    let device = page_checksums(&corrupted, 256);
    assert_eq!(
        verify_checksums(&local, &device),
        vec![Mismatch { index: 1, expected: local[1], observed: device[1] }]
    );
    assert_ne!(local[1], device[1]);
    assert_eq!(pages_to_write(&local, &device), vec![1]);
}

#[test]
fn page_checksums_cover_each_page() {
    let image: Vec<u8> = (0..512u32).map(|i| (i / 3) as u8).collect();
    let sums = page_checksums(&image, 256);
    assert_eq!(sums, vec![checksum(&image[..256].to_vec()), checksum(&image[256..].to_vec())]);
    assert_ne!(sums[0], sums[1]);
}

#[test]
fn write_command_addresses_page() {
    let image: Vec<u8> = (0..512u32).map(|i| i as u8).collect();
    let c = write_page_command(&image, 0x1000, 256, 1);
    assert_eq!(c.opcode, WRITE_FLASH_PAGE);
    assert_eq!(&c.payload[..4], &[0x00, 0x11, 0, 0]);
    assert_eq!(&c.payload[4..], &image[256..]);
}

#[test]
fn start_flash_only_outside_bootloader() {
    assert!(!needs_start_flash(&info(256, 64, BinInfoMode::Bootloader)));
    assert!(needs_start_flash(&info(256, 64, BinInfoMode::UserApplication)));
}

#[test]
fn skip_checksum_writes_every_page() {
    assert_eq!(all_pages(3), vec![0, 1, 2]);
}
