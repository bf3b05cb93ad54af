use hf2::catalog::{BININFO, CHKSUM_PAGES, RESET_INTO_APP, START_FLASH, WRITE_FLASH_PAGE};
use hf2::command::{Command, Error};
use hf2::flash::{checksum, FlashStage, Mismatch};
use hf2::frame::reassemble;
use hf2::session::{Action, Phase, Session};

struct Device {
    mode: u32,
    page: u32,
    max_message: u32,
    base: u32,
    mem: Vec<u8>,
    opcodes: Vec<u32>,
    checksum_requests: Vec<(u32, u32)>,
    written: Vec<u32>,
    fail_writes: bool,
}

fn le32(b: &[u8]) -> u32 {
    u32::from_le_bytes([b[0], b[1], b[2], b[3]])
}

impl Device {
    fn new(mode: u32, page: u32, max_message: u32, base: u32, mem: Vec<u8>) -> Device {
        Device {
            mode,
            page,
            max_message,
            base,
            mem,
            opcodes: Vec::new(),
            checksum_requests: Vec::new(),
            written: Vec::new(),
            fail_writes: false,
        }
    }

    fn respond(&mut self, cmd: &Command) -> Vec<u8> {
        // the command travels through the frame codec as on the wire
        let msg = reassemble(&cmd.frames(64), 64).unwrap();
        let opcode = le32(&msg[..4]);
        let body = &msg[4..];
        self.opcodes.push(opcode);
        let mut out = vec![0u8, 0, 0, 0];
        match opcode {
            BININFO => {
                for v in [self.mode, self.page, 1024, self.max_message] {
                    out.extend_from_slice(&v.to_le_bytes());
                }
            }
            CHKSUM_PAGES => {
                let (addr, n) = (le32(&body[..4]), le32(&body[4..8]));
                self.checksum_requests.push((addr, n));
                for i in 0..n {
                    let start = (addr - self.base + i * self.page) as usize;
                    let end = start + self.page as usize;
                    if self.mem.len() < end {
                        self.mem.resize(end, 0xff);
                    }
                    let sum = checksum(&self.mem[start..end].to_vec());
                    out.extend_from_slice(&sum.to_le_bytes());
                }
            }
            WRITE_FLASH_PAGE => {
                if self.fail_writes {
                    out[2] = 1;
                } else {
                    let addr = le32(&body[..4]);
                    let start = (addr - self.base) as usize;
                    let data = &body[4..];
                    if self.mem.len() < start + data.len() {
                        self.mem.resize(start + data.len(), 0xff);
                    }
                    self.mem[start..start + data.len()].copy_from_slice(data);
                    self.written.push(addr);
                }
            }
            _ => {}
        }
        out
    }
}

fn run(dev: &mut Device, mut s: Session, first: Command) -> (Session, Action) {
    let mut cmd = first;
    loop {
        let reply = Ok(dev.respond(&cmd));
        match s.on_reply(reply) {
            Action::Send(c) => cmd = c,
            other => return (s, other),
        }
    }
}

fn image(len: usize) -> Vec<u8> {
    (0..len).map(|i| (i * 31 % 253) as u8).collect()
}

#[test]
fn flash_writes_only_changed_page() {
    let img = image(3 * 256);
    let mut mem = img.clone();
    mem[256 + 5] ^= 0x55;
    let mut dev = Device::new(1, 256, 512, 0x4000, mem);
    let (s, first) = Session::new(0x4000, img.clone(), false, false);
    let (s, done) = run(&mut dev, s, first);
    assert!(matches!(done, Action::Finished(ref m) if m.is_empty()));
    assert_eq!(s.phase, Phase::Done);
    assert_eq!(dev.written, vec![0x4000 + 256]);
    assert_eq!(&dev.mem[..768], &img[..]);
    assert_eq!(dev.opcodes.first(), Some(&BININFO));
    assert_eq!(dev.opcodes.last(), Some(&RESET_INTO_APP));
    assert!(!dev.opcodes.contains(&START_FLASH));
}

#[test]
fn flash_pads_last_page_with_zeros() {
    let img = image(300);
    let mut dev = Device::new(1, 256, 512, 0, vec![0xff; 512]);
    let (s, first) = Session::new(0, img.clone(), false, false);
    let (s, _) = run(&mut dev, s, first);
    assert_eq!(s.image.len(), 512);
    assert_eq!(&dev.mem[..300], &img[..]);
    assert!(dev.mem[300..512].iter().all(|b| *b == 0));
    assert_eq!(dev.written, vec![0, 256]);
}

#[test]
fn flash_batches_checksum_requests() {
    let img = image(300 * 256);
    let mut dev = Device::new(1, 256, 512, 0x1000, img.clone());
    let (s, first) = Session::new(0x1000, img, false, false);
    let (_, done) = run(&mut dev, s, first);
    assert!(matches!(done, Action::Finished(_)));
    assert_eq!(dev.checksum_requests, vec![(0x1000, 254), (0x1000 + 254 * 256, 46)]);
    assert!(dev.written.is_empty());
}

#[test]
fn flash_arms_device_outside_bootloader() {
    let img = image(256);
    let mut dev = Device::new(2, 256, 64, 0, Vec::new());
    let (s, first) = Session::new(0, img, false, false);
    let _ = run(&mut dev, s, first);
    assert_eq!(dev.opcodes[..2], [BININFO, START_FLASH]);
}

#[test]
fn session_without_checksums_writes_every_page() {
    let img = image(3 * 256);
    let mut dev = Device::new(1, 256, 512, 0, img.clone());
    let (s, first) = Session::new(0, img, true, false);
    let _ = run(&mut dev, s, first);
    assert!(dev.checksum_requests.is_empty());
    assert_eq!(dev.written, vec![0, 256, 512]);
}

#[test]
fn verify_reports_success_then_one_mismatch() {
    let img = image(4 * 256);
    let mut dev = Device::new(1, 256, 64, 0, img.clone());
    let (s, first) = Session::new(0, img.clone(), false, true);
    let (_, done) = run(&mut dev, s, first);
    assert!(matches!(done, Action::Finished(ref m) if m.is_empty()));
    assert!(dev.written.is_empty());

    dev.mem[2 * 256 + 7] ^= 0x0f;
    let observed = checksum(&dev.mem[512..768].to_vec());
    let expected = checksum(&img[512..768].to_vec());
    let (s, first) = Session::new(0, img, false, true);
    let (_, done) = run(&mut dev, s, first);
    match done {
        Action::Finished(m) => {
            assert_eq!(m, vec![Mismatch { index: 2, expected, observed }]);
        }
        _ => panic!("verification did not finish"),
    }
    assert!(dev.written.is_empty());
}

#[test]
fn failed_write_aborts_with_stage() {
    let img = image(256);
    let mut dev = Device::new(1, 256, 64, 0, vec![0xff; 256]);
    dev.fail_writes = true;
    let (s, first) = Session::new(0, img, false, false);
    let (s, done) = run(&mut dev, s, first);
    assert_eq!(s.phase, Phase::Failed);
    match done {
        Action::Abort(e) => {
            assert_eq!(e.stage, FlashStage::PageWrite);
            assert_eq!(e.error, Error::StatusNotSuccess(1));
        }
        _ => panic!("session did not abort"),
    }
    assert!(!dev.opcodes.contains(&RESET_INTO_APP));
}

#[test]
fn transport_failure_aborts_mode_query() {
    let (mut s, _) = Session::new(0, image(10), false, false);
    match s.on_reply(Err(Error::Transport)) {
        Action::Abort(e) => {
            assert_eq!(e.stage, FlashStage::ModeQuery);
            assert_eq!(e.error, Error::Transport);
        }
        _ => panic!("session did not abort"),
    }
}

#[test]
fn image_beyond_address_space_is_refused() {
    let mut dev = Device::new(1, 256, 64, 0, Vec::new());
    let (s, first) = Session::new(u32::MAX - 100, image(10), false, false);
    let (_, done) = run(&mut dev, s, first);
    match done {
        Action::Abort(e) => assert_eq!(e.error, Error::ImageOutOfRange),
        _ => panic!("session did not abort"),
    }
}

#[test]
fn verify_in_user_mode_never_arms_device() {
    let img = image(3 * 256);
    // a message of 10 bytes leaves room for 3 checksums per request
    let mut dev = Device::new(2, 256, 10, 0, img.clone());
    let (s, first) = Session::new(0, img, false, true);
    let (s, done) = run(&mut dev, s, first);
    assert!(matches!(done, Action::Finished(ref m) if m.is_empty()));
    assert_eq!(s.phase, Phase::Done);
    assert_eq!(dev.opcodes, vec![BININFO, CHKSUM_PAGES]);
    assert!(dev.written.is_empty());
    assert_eq!(dev.checksum_requests, vec![(0, 3)]);
}
