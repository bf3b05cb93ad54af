//! The command catalog: opcodes, request encoders and response decoders.
use vstd::prelude::*;
use vstd::utf8::{decode_utf8, valid_utf8};
use crate::command::{response_outcome, response_payload, Command, DecodeError, Error};
use crate::wire::{le_u16_at, le_u32_at, le_u32_bytes, push_le_u32, read_le_u16, read_le_u32};

verus! {

pub const BININFO: u32 = 0x0001;
pub const INFO: u32 = 0x0002;
pub const RESET_INTO_APP: u32 = 0x0003;
pub const RESET_INTO_BOOTLOADER: u32 = 0x0004;
pub const START_FLASH: u32 = 0x0005;
pub const WRITE_FLASH_PAGE: u32 = 0x0006;
pub const CHKSUM_PAGES: u32 = 0x0007;
pub const DMESG: u32 = 0x0010;

/// Mode code of a device running its bootloader.
pub const MODE_BOOTLOADER: u32 = 0x01;
/// Mode code of a device running the user application.
pub const MODE_USER_APPLICATION: u32 = 0x02;

/// Number of bytes of the bin-info response fields.
pub const BIN_INFO_LEN: usize = 16;

/// Smallest message size that leaves room for one checksum in a
/// checksum-pages response (the header counts as two checksums).
pub const MIN_MESSAGE_SIZE: u32 = 6;

/// What the device is running.
#[derive(Debug, Clone, Copy, PartialEq, Eq, Structural)]
pub enum BinInfoMode {
    Bootloader,
    UserApplication,
}

/// Mode and flash geometry of the device.
#[derive(Debug, Clone, Copy, PartialEq, Eq, Structural)]
pub struct BinInfo {
    pub mode: BinInfoMode,
    pub flash_page_size: u32,
    pub flash_num_pages: u32,
    pub max_message_size: u32,
}

impl BinInfo {
    /// Geometry that flashing can work with.
    pub open spec fn wf(&self) -> bool {
        &&& self.flash_page_size > 0
        &&& self.max_message_size >= MIN_MESSAGE_SIZE
    }

    /// Size of the device's flash in KiB, rounded down.
    pub fn flash_size_kib(&self) -> (r: u64)
        ensures
            r == (self.flash_num_pages as int * self.flash_page_size as int) / 1024,
    {
        let a = self.flash_num_pages as u64;
        let b = self.flash_page_size as u64;
        assert(a * b <= 0xffff_ffff_ffff_ffff) by (nonlinear_arith)
            requires
                a <= 0xffff_ffff,
                b <= 0xffff_ffff,
        ;
        let total: u64 = a * b;
        total / 1024
    }
}

/// Checksums of consecutive pages, in request order.
#[derive(Debug)]
pub struct ChecksumPagesResult {
    pub checksums: Vec<u16>,
}

/// Text that the device reports about itself.
#[derive(Debug)]
pub struct InfoResult {
    pub info: String,
}

/// The device's internal log buffer.
#[derive(Debug)]
pub struct DmesgResult {
    pub logs: String,
}

/// The mode that a mode code stands for.
pub open spec fn mode_of(code: int) -> Option<BinInfoMode> {
    if code == MODE_BOOTLOADER {
        Some(BinInfoMode::Bootloader)
    } else if code == MODE_USER_APPLICATION {
        Some(BinInfoMode::UserApplication)
    } else {
        None
    }
}

/// The bin-info that a response payload holds.
pub open spec fn bin_info_of(p: Seq<u8>) -> Result<BinInfo, DecodeError> {
    if p.len() < BIN_INFO_LEN {
        Err(DecodeError::Truncated)
    } else if mode_of(le_u32_at(p, 0)) is None {
        Err(DecodeError::UnknownVariant)
    } else if le_u32_at(p, 4) == 0 || le_u32_at(p, 12) < MIN_MESSAGE_SIZE {
        Err(DecodeError::InvalidGeometry)
    } else {
        Ok(
            BinInfo {
                mode: mode_of(le_u32_at(p, 0))->Some_0,
                flash_page_size: le_u32_at(p, 4) as u32,
                flash_num_pages: le_u32_at(p, 8) as u32,
                max_message_size: le_u32_at(p, 12) as u32,
            },
        )
    }
}

/// Decodes a bin-info response payload.
pub fn decode_bin_info(p: &Vec<u8>) -> (r: Result<BinInfo, DecodeError>)
    ensures
        r == bin_info_of(p@),
        r matches Ok(info) ==> info.wf(),
{
    if p.len() < BIN_INFO_LEN {
        return Err(DecodeError::Truncated);
    }
    let code = read_le_u32(p, 0);
    let mode = if code == MODE_BOOTLOADER {
        BinInfoMode::Bootloader
    } else if code == MODE_USER_APPLICATION {
        BinInfoMode::UserApplication
    } else {
        return Err(DecodeError::UnknownVariant);
    };
    let flash_page_size = read_le_u32(p, 4);
    let flash_num_pages = read_le_u32(p, 8);
    let max_message_size = read_le_u32(p, 12);
    if flash_page_size == 0 || max_message_size < MIN_MESSAGE_SIZE {
        return Err(DecodeError::InvalidGeometry);
    }
    Ok(BinInfo { mode, flash_page_size, flash_num_pages, max_message_size })
}

/// The `n` little-endian checksums at the start of a payload.
pub open spec fn checksums_of(p: Seq<u8>, n: nat) -> Seq<u16> {
    Seq::new(n, |i: int| le_u16_at(p, 2 * i) as u16)
}

/// Decodes the response payload of a request for `n` page checksums.
pub fn decode_checksum_pages(p: &Vec<u8>, n: u32) -> (r: Result<ChecksumPagesResult, DecodeError>)
    ensures
        p@.len() < 2 * n ==> r is Err && r->Err_0 == DecodeError::Truncated,
        p@.len() >= 2 * n ==> (r matches Ok(c) && c.checksums@ == checksums_of(p@, n as nat)),
{
    if (p.len() as u64) < 2 * (n as u64) {
        return Err(DecodeError::Truncated);
    }
    let mut checksums: Vec<u16> = Vec::new();
    let mut i: usize = 0;
    while i < n as usize
        invariant
            i <= n,
            2 * n <= p.len(),
            checksums@ == checksums_of(p@, i as nat),
        decreases n - i,
    {
        let c = read_le_u16(p, 2 * i);
        checksums.push(c);
        assert(checksums@ =~= checksums_of(p@, (i + 1) as nat));
        i = i + 1;
    }
    Ok(ChecksumPagesResult { checksums })
}

/// Relies on std's `String::from_utf8`: it succeeds exactly on valid UTF-8,
/// and the string then holds the characters that the bytes encode.
#[verifier::external_body]
fn string_from_utf8(bytes: Vec<u8>) -> (r: Option<String>)
    ensures
        r is Some <==> valid_utf8(bytes@),
        r matches Some(s) ==> s@ == decode_utf8(bytes@),
{
    String::from_utf8(bytes).ok()
}

/// Copies a byte vector.
pub(crate) fn copy_bytes(p: &Vec<u8>) -> (r: Vec<u8>)
    ensures
        r@ == p@,
{
    let mut r: Vec<u8> = Vec::new();
    let mut i: usize = 0;
    while i < p.len()
        invariant
            i <= p@.len(),
            r@ == p@.take(i as int),
        decreases p@.len() - i,
    {
        r.push(p[i]);
        assert(p@.take(i + 1) =~= p@.take(i as int).push(p@[i as int]));
        i = i + 1;
    }
    assert(p@.take(i as int) =~= p@);
    r
}

/// Decodes a UTF-8 text payload.
pub fn decode_text(p: &Vec<u8>) -> (r: Result<String, DecodeError>)
    ensures
        valid_utf8(p@) ==> (r matches Ok(s) && s@ == decode_utf8(p@)),
        !valid_utf8(p@) ==> r == Err::<String, DecodeError>(DecodeError::InvalidText),
{
    match string_from_utf8(copy_bytes(p)) {
        Some(s) => Ok(s),
        None => Err(DecodeError::InvalidText),
    }
}

/// A command without a request payload.
pub fn bare_command(opcode: u32) -> (c: Command)
    ensures
        c.opcode == opcode,
        c.payload@ == Seq::<u8>::empty(),
{
    Command::new(opcode, Vec::new())
}

/// Request to write `page` at device address `address`.
pub fn write_flash_page_command(address: u32, page: &Vec<u8>) -> (c: Command)
    ensures
        c.opcode == WRITE_FLASH_PAGE,
        c.payload@ == le_u32_bytes(address) + page@,
{
    let mut payload: Vec<u8> = Vec::new();
    push_le_u32(&mut payload, address);
    let mut i: usize = 0;
    while i < page.len()
        invariant
            i <= page@.len(),
            payload@ == le_u32_bytes(address) + page@.take(i as int),
        decreases page@.len() - i,
    {
        payload.push(page[i]);
        assert(page@.take(i + 1) =~= page@.take(i as int).push(page@[i as int]));
        i = i + 1;
    }
    assert(page@.take(i as int) =~= page@);
    Command::new(WRITE_FLASH_PAGE, payload)
}

/// Request for the checksums of `num_pages` pages starting at `address`.
pub fn checksum_pages_command(address: u32, num_pages: u32) -> (c: Command)
    ensures
        c.opcode == CHKSUM_PAGES,
        c.payload@ == le_u32_bytes(address) + le_u32_bytes(num_pages),
{
    let mut payload: Vec<u8> = Vec::new();
    push_le_u32(&mut payload, address);
    push_le_u32(&mut payload, num_pages);
    Command::new(CHKSUM_PAGES, payload)
}

/// The bin-info outcome of a response message.
pub open spec fn bin_info_outcome(msg: Seq<u8>) -> Result<BinInfo, Error> {
    match response_outcome(msg) {
        Err(e) => Err(e),
        Ok(p) => match bin_info_of(p) {
            Ok(info) => Ok(info),
            Err(e) => Err(Error::Decode(e)),
        },
    }
}

/// Decodes a complete bin-info response message.
pub fn bin_info_response(msg: &Vec<u8>) -> (r: Result<BinInfo, Error>)
    ensures
        r == bin_info_outcome(msg@),
        r matches Ok(info) ==> info.wf(),
{
    let p = response_payload(msg)?;
    match decode_bin_info(&p) {
        Ok(info) => Ok(info),
        Err(e) => Err(Error::Decode(e)),
    }
}

/// Decodes a complete checksum-pages response message for `n` pages.
pub fn checksum_pages_response(msg: &Vec<u8>, n: u32) -> (r: Result<ChecksumPagesResult, Error>)
    ensures
        response_outcome(msg@) matches Err(e) ==> r is Err && r->Err_0 == e,
        response_outcome(msg@) matches Ok(p) ==> {
            &&& p.len() < 2 * n ==> r is Err && r->Err_0 == Error::Decode(DecodeError::Truncated)
            &&& p.len() >= 2 * n ==> (r matches Ok(c) && c.checksums@ == checksums_of(p, n as nat))
        },
{
    let p = response_payload(msg)?;
    match decode_checksum_pages(&p, n) {
        Ok(c) => Ok(c),
        Err(e) => Err(Error::Decode(e)),
    }
}

/// Decodes a complete text response message.
fn text_response(msg: &Vec<u8>) -> (r: Result<String, Error>)
    ensures
        response_outcome(msg@) matches Err(e) ==> r is Err && r->Err_0 == e,
        response_outcome(msg@) matches Ok(p) ==> {
            &&& valid_utf8(p) ==> (r matches Ok(s) && s@ == decode_utf8(p))
            &&& !valid_utf8(p) ==> r is Err && r->Err_0 == Error::Decode(DecodeError::InvalidText)
        },
{
    let p = response_payload(msg)?;
    match decode_text(&p) {
        Ok(s) => Ok(s),
        Err(e) => Err(Error::Decode(e)),
    }
}

impl InfoResult {
    /// Decodes a complete info response message.
    pub fn from_response(msg: &Vec<u8>) -> (r: Result<InfoResult, Error>)
        ensures
            response_outcome(msg@) matches Err(e) ==> r is Err && r->Err_0 == e,
            response_outcome(msg@) matches Ok(p) ==> {
                &&& valid_utf8(p) ==> (r matches Ok(i) && i.info@ == decode_utf8(p))
                &&& !valid_utf8(p) ==> r is Err && r->Err_0 == Error::Decode(DecodeError::InvalidText)
            },
    {
        let info = text_response(msg)?;
        Ok(InfoResult { info })
    }
}

impl DmesgResult {
    /// Decodes a log-buffer payload.
    pub fn try_from_bytes(p: &Vec<u8>) -> (r: Result<DmesgResult, DecodeError>)
        ensures
            valid_utf8(p@) ==> (r matches Ok(d) && d.logs@ == decode_utf8(p@)),
            !valid_utf8(p@) ==> r is Err && r->Err_0 == DecodeError::InvalidText,
    {
        let logs = decode_text(p)?;
        Ok(DmesgResult { logs })
    }
}

/// Returns the internal log buffer of the device, if any.
pub struct Dmesg {}

impl Dmesg {
    /// The request for the log buffer.
    pub fn command(&self) -> (c: Command)
        ensures
            c.opcode == DMESG,
            c.payload@ == Seq::<u8>::empty(),
    {
        bare_command(DMESG)
    }

    /// Decodes a complete log-buffer response message.
    pub fn parse_response(&self, msg: &Vec<u8>) -> (r: Result<DmesgResult, Error>)
        ensures
            response_outcome(msg@) matches Err(e) ==> r is Err && r->Err_0 == e,
            response_outcome(msg@) matches Ok(p) ==> {
                &&& valid_utf8(p) ==> (r matches Ok(d) && d.logs@ == decode_utf8(p))
                &&& !valid_utf8(p) ==> r is Err && r->Err_0 == Error::Decode(DecodeError::InvalidText)
            },
    {
        let logs = text_response(msg)?;
        Ok(DmesgResult { logs })
    }
}

} // verus!
