use hf2::cli::{parse_hex_16, parse_hex_32, Cmd};

#[test]
fn parses_hex_and_decimal() {
    assert_eq!(parse_hex_32("0x4000"), Ok(0x4000));
    assert_eq!(parse_hex_32("0xFFFFFFFF"), Ok(u32::MAX));
    assert_eq!(parse_hex_32("16384"), Ok(16384));
    assert_eq!(parse_hex_16("0x239A"), Ok(0x239a));
    assert_eq!(parse_hex_16("65535"), Ok(65535));
}

#[test]
fn rejects_bad_numbers() {
    assert!(parse_hex_32("0x").is_err());
    assert!(parse_hex_32("0x1_0").is_err());
    assert!(parse_hex_32("0x100000000").is_err());
    assert!(parse_hex_32("abc").is_err());
    assert!(parse_hex_16("65536").is_err());
    assert!(parse_hex_16("").is_err());
}

#[test]
fn commands_compare() {
    let a = Cmd::verify { file: "fw.bin".to_string(), address: 0x4000 };
    assert_eq!(a, Cmd::verify { file: "fw.bin".to_string(), address: 0x4000 });
    assert_ne!(Cmd::info, Cmd::dmesg);
}
