use hf2::catalog::{
    bin_info_response, checksum_pages_command, checksum_pages_response, decode_bin_info,
    decode_checksum_pages, decode_text, write_flash_page_command, BinInfo, BinInfoMode, Dmesg,
    DmesgResult, InfoResult, CHKSUM_PAGES, DMESG, WRITE_FLASH_PAGE,
};
use hf2::command::{response_payload, Command, CommandResponse, DecodeError, Error, ResponseStatus};
use hf2::frame::{accept_frame, fragment, reassemble, FramingError};

fn message(len: usize) -> Vec<u8> {
    (0..len).map(|i| (i * 7 + 3) as u8).collect()
}

fn round_trip(len: usize, cap: usize) {
    let m = message(len);
    let frames = fragment(&m, cap);
    for f in &frames {
        assert_eq!(f.len(), cap);
    }
    assert_eq!(reassemble(&frames, cap), Ok(m));
}

#[test]
fn round_trip_empty_message() {
    round_trip(0, 64);
    assert_eq!(fragment(&Vec::new(), 64).len(), 1);
    assert_eq!(fragment(&Vec::new(), 64)[0][0], 0x80);
}

#[test]
fn round_trip_single_full_frame() {
    round_trip(63, 64);
    assert_eq!(fragment(&message(63), 64).len(), 1);
}

#[test]
fn round_trip_capacity_bytes_makes_two_frames() {
    round_trip(64, 64);
    let frames = fragment(&message(64), 64);
    assert_eq!(frames.len(), 2);
    assert_eq!(frames[0][0], 63);
    assert_eq!(frames[1][0], 0x80 | 1);
}

#[test]
fn round_trip_many_sizes() {
    for len in [1usize, 2, 62, 125, 126, 127, 500, 4096] {
        round_trip(len, 64);
    }
    round_trip(300, 2);
    round_trip(300, 128);
}

#[test]
fn fragment_thousand_bytes() {
    let frames = fragment(&message(1000), 64);
    assert_eq!(frames.len(), 16);
    for f in &frames[..15] {
        assert_eq!(f[0], 63);
    }
    assert_eq!(frames[15][0], 0x80 | 55);
    assert_eq!(&frames[15][1..56], &message(1000)[945..]);
}

#[test]
fn reassemble_rejects_oversized_chunk() {
    let mut f = vec![0u8; 64];
    f[0] = 0x80 | 64;
    assert_eq!(reassemble(&vec![f], 64), Err(FramingError::OversizedChunk));
    let short = vec![0x80 | 10, 1, 2];
    assert_eq!(reassemble(&vec![short], 64), Err(FramingError::OversizedChunk));
}

#[test]
fn reassemble_needs_final_frame() {
    let frames = fragment(&message(200), 64);
    assert_eq!(reassemble(&frames[..2].to_vec(), 64), Err(FramingError::StreamEnded));
    assert_eq!(reassemble(&Vec::new(), 64), Err(FramingError::StreamEnded));
}

#[test]
fn accept_frame_appends_payload() {
    let mut acc = vec![9u8];
    let frame = vec![2u8, 5, 6, 7, 8];
    assert_eq!(accept_frame(&mut acc, &frame, 64), Ok(false));
    assert_eq!(acc, vec![9, 5, 6]);
    let last = vec![0x81u8, 4, 0];
    assert_eq!(accept_frame(&mut acc, &last, 64), Ok(true));
    assert_eq!(acc, vec![9, 5, 6, 4]);
}

#[test]
fn command_encoding_is_opcode_then_payload() {
    let c = Command::new(0x0102_0304, vec![0xaa, 0xbb]);
    assert_eq!(c.encode(), vec![4, 3, 2, 1, 0xaa, 0xbb]);
    let frames = c.frames(64);
    assert_eq!(frames.len(), 1);
    assert_eq!(&frames[0][..7], &[0x86, 4, 3, 2, 1, 0xaa, 0xbb]);
}

#[test]
fn request_encoders() {
    let w = write_flash_page_command(0x2000, &vec![1, 2, 3]);
    assert_eq!(w.opcode, WRITE_FLASH_PAGE);
    assert_eq!(w.payload, vec![0x00, 0x20, 0, 0, 1, 2, 3]);
    let c = checksum_pages_command(0x0001_0000, 254);
    assert_eq!(c.opcode, CHKSUM_PAGES);
    assert_eq!(c.payload, vec![0, 0, 1, 0, 254, 0, 0, 0]);
    let d = Dmesg {}.command();
    assert_eq!(d.opcode, DMESG);
    assert!(d.payload.is_empty());
}

#[test]
fn response_status_and_payload() {
    let ok = vec![0, 0, 0, 0, 7, 8];
    let r = CommandResponse::parse(&ok).unwrap();
    assert_eq!(r.status, ResponseStatus::Success);
    assert_eq!(r.payload, vec![7, 8]);
    assert_eq!(response_payload(&ok), Ok(vec![7, 8]));
    let failed = vec![0, 0, 2, 0, 7];
    assert_eq!(response_payload(&failed), Err(Error::StatusNotSuccess(2)));
    assert_eq!(response_payload(&vec![0, 0, 0]), Err(Error::Decode(DecodeError::Truncated)));
}

fn bin_info_payload(mode: u32, page: u32, pages: u32, max: u32) -> Vec<u8> {
    let mut p = Vec::new();
    for v in [mode, page, pages, max] {
        p.extend_from_slice(&v.to_le_bytes());
    }
    p
}

#[test]
fn bin_info_decodes() {
    let p = bin_info_payload(1, 256, 1024, 512);
    assert_eq!(
        decode_bin_info(&p),
        Ok(BinInfo {
            mode: BinInfoMode::Bootloader,
            flash_page_size: 256,
            flash_num_pages: 1024,
            max_message_size: 512
        })
    );
    let info = decode_bin_info(&bin_info_payload(2, 512, 2048, 64)).unwrap();
    assert_eq!(info.mode, BinInfoMode::UserApplication);
    assert_eq!(info.flash_size_kib(), 1024);
    let mut msg = vec![0, 0, 0, 0];
    msg.extend(p);
    assert_eq!(bin_info_response(&msg).unwrap().flash_page_size, 256);
}

#[test]
fn bin_info_errors() {
    let p = bin_info_payload(1, 256, 1024, 512);
    assert_eq!(decode_bin_info(&p[..15].to_vec()), Err(DecodeError::Truncated));
    assert_eq!(decode_bin_info(&bin_info_payload(3, 256, 1, 512)), Err(DecodeError::UnknownVariant));
    assert_eq!(decode_bin_info(&bin_info_payload(1, 0, 1, 512)), Err(DecodeError::InvalidGeometry));
    assert_eq!(decode_bin_info(&bin_info_payload(1, 256, 1, 5)), Err(DecodeError::InvalidGeometry));
}

#[test]
fn checksum_pages_decode() {
    let p = vec![0xc3, 0x31, 0x34, 0x12, 0xff];
    assert_eq!(decode_checksum_pages(&p, 2).unwrap().checksums, vec![0x31c3, 0x1234]);
    assert_eq!(decode_checksum_pages(&p, 3).err(), Some(DecodeError::Truncated));
    let mut msg = vec![0, 0, 0, 0];
    msg.extend(p);
    assert_eq!(checksum_pages_response(&msg, 1).unwrap().checksums, vec![0x31c3]);
    assert_eq!(
        checksum_pages_response(&vec![0, 0, 1, 0], 1).err(),
        Some(Error::StatusNotSuccess(1))
    );
}

#[test]
fn text_decoding() {
    assert_eq!(decode_text(&b"hello".to_vec()), Ok("hello".to_string()));
    assert_eq!(decode_text(&vec![0xff, 0xfe]), Err(DecodeError::InvalidText));
    assert_eq!(DmesgResult::try_from_bytes(&"héllo".as_bytes().to_vec()).unwrap().logs, "héllo");
    let mut msg = vec![0, 0, 0, 0];
    msg.extend_from_slice(b"UF2 Bootloader");
    assert_eq!(InfoResult::from_response(&msg).unwrap().info, "UF2 Bootloader");
    assert_eq!(Dmesg {}.parse_response(&msg).unwrap().logs, "UF2 Bootloader");
    let bad = vec![0, 0, 0, 0, 0xc3];
    assert_eq!(
        Dmesg {}.parse_response(&bad).err(),
        Some(Error::Decode(DecodeError::InvalidText))
    );
}
