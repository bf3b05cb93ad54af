//! Command-line vocabulary: the subcommands and the number syntax of their
//! arguments.
use vstd::prelude::*;
use vstd::string::StrSliceExecFns;

verus! {

#[verifier::external_type_specification]
#[verifier::external_body]
pub struct ExParseIntError(std::num::ParseIntError);

/// The subcommands of the flashing tool.
#[allow(non_camel_case_types)]
#[derive(Debug, PartialEq)]
pub enum Cmd {
    /// Reset the device into the user application.
    resetIntoApp,
    /// Reset the device into the bootloader, usually for flashing.
    resetIntoBootloader,
    /// Various device information, as text.
    info,
    /// The current mode of the device.
    bininfo,
    /// The internal log buffer, if any, as text.
    dmesg,
    /// Flash a file at an address.
    flash { file: String, address: u32, skip_checksum: bool },
    /// Compare a file at an address with the device's flash.
    verify { file: String, address: u32 },
}

/// The value of one digit character in `radix`, if it is one.
pub open spec fn digit_value(c: char, radix: nat) -> Option<nat> {
    let v: int = if '0' <= c && c <= '9' {
        c as u32 - '0' as u32
    } else if 'a' <= c && c <= 'z' {
        c as u32 - 'a' as u32 + 10
    } else if 'A' <= c && c <= 'Z' {
        c as u32 - 'A' as u32 + 10
    } else {
        36
    };
    if v < radix {
        Some(v as nat)
    } else {
        None
    }
}

/// The value of a string of digits in `radix`, most significant first.
pub open spec fn digits_value(s: Seq<char>, radix: nat) -> Option<nat>
    decreases s.len(),
{
    if s.len() == 0 {
        Some(0)
    } else {
        match (digits_value(s.drop_last(), radix), digit_value(s.last(), radix)) {
            (Some(a), Some(d)) => Some(a * radix + d),
            _ => None,
        }
    }
}

/// The unsigned number that `s` spells in `radix`: an optional `+` and one
/// or more digits.
pub open spec fn unsigned_of(s: Seq<char>, radix: nat) -> Option<nat> {
    let d = if s.len() > 0 && s[0] == '+' {
        s.drop_first()
    } else {
        s
    };
    if d.len() == 0 {
        None
    } else {
        digits_value(d, radix)
    }
}

/// The number that a command-line argument spells: hexadecimal after a
/// `0x` prefix, decimal otherwise.
pub open spec fn argument_value(s: Seq<char>) -> Option<nat> {
    if s.len() >= 2 && s[0] == '0' && s[1] == 'x' {
        unsigned_of(s.skip(2), 16)
    } else {
        unsigned_of(s, 10)
    }
}

/// Relies on std's `u32::from_str_radix`: an optional `+` then digits of
/// the radix, with a value that fits; an error otherwise.
#[verifier::external_body]
fn u32_from_str_radix(s: &str, radix: u32) -> (r: Result<u32, std::num::ParseIntError>)
    requires
        radix == 10 || radix == 16,
    ensures
        r is Ok <==> (unsigned_of(s@, radix as nat) matches Some(v) && v <= u32::MAX),
        r matches Ok(v) ==> unsigned_of(s@, radix as nat) == Some(v as nat),
{
    u32::from_str_radix(s, radix)
}

/// Relies on std's `u16::from_str_radix`: an optional `+` then digits of
/// the radix, with a value that fits; an error otherwise.
#[verifier::external_body]
fn u16_from_str_radix(s: &str, radix: u32) -> (r: Result<u16, std::num::ParseIntError>)
    requires
        radix == 10 || radix == 16,
    ensures
        r is Ok <==> (unsigned_of(s@, radix as nat) matches Some(v) && v <= u16::MAX),
        r matches Ok(v) ==> unsigned_of(s@, radix as nat) == Some(v as nat),
{
    u16::from_str_radix(s, radix)
}

/// Splits off a `0x` prefix: the digits after it, if it is there.
fn hex_digits(input: &str) -> (r: Option<&str>)
    ensures
        (input@.len() >= 2 && input@[0] == '0' && input@[1] == 'x') ==> (r matches Some(d)
            && d@ == input@.skip(2)),
        !(input@.len() >= 2 && input@[0] == '0' && input@[1] == 'x') ==> r is None,
{
    let n = input.unicode_len();
    if n >= 2 && input.get_char(0) == '0' && input.get_char(1) == 'x' {
        let d = input.substring_char(2, n);
        assert(d@ =~= input@.skip(2));
        Some(d)
    } else {
        None
    }
}

/// Parses a 32-bit argument, hexadecimal after `0x`, decimal otherwise.
pub fn parse_hex_32(input: &str) -> (r: Result<u32, std::num::ParseIntError>)
    ensures
        r is Ok <==> (argument_value(input@) matches Some(v) && v <= u32::MAX),
        r matches Ok(v) ==> argument_value(input@) == Some(v as nat),
{
    match hex_digits(input) {
        Some(d) => u32_from_str_radix(d, 16),
        None => u32_from_str_radix(input, 10),
    }
}

/// Parses a 16-bit argument, hexadecimal after `0x`, decimal otherwise.
pub fn parse_hex_16(input: &str) -> (r: Result<u16, std::num::ParseIntError>)
    ensures
        r is Ok <==> (argument_value(input@) matches Some(v) && v <= u16::MAX),
        r matches Ok(v) ==> argument_value(input@) == Some(v as nat),
{
    match hex_digits(input) {
        Some(d) => u16_from_str_radix(d, 16),
        None => u16_from_str_radix(input, 10),
    }
}

} // verus!
