use rugpi_ctrl::utils::ascii_numbers::{
    byte_to_ascii_hex, nibble_to_ascii_hex, parse_ascii_hex_byte, parse_ascii_hex_digit, Case,
};

#[test]
fn bytes_are_rendered_in_either_case() {
    assert_eq!(byte_to_ascii_hex(0x00, Case::Upper), *b"00");
    assert_eq!(byte_to_ascii_hex(0x9a, Case::Upper), *b"9A");
    assert_eq!(byte_to_ascii_hex(0x9a, Case::Lower), *b"9a");
    assert_eq!(byte_to_ascii_hex(0xff, Case::Lower), *b"ff");
    assert_eq!(byte_to_ascii_hex(0xf0, Case::Upper), *b"F0");
    assert_eq!(nibble_to_ascii_hex(9, Case::Lower), b'9');
    assert_eq!(nibble_to_ascii_hex(10, Case::Lower), b'a');
    assert_eq!(nibble_to_ascii_hex(15, Case::Upper), b'F');
}

#[test]
fn digits_are_read_as_the_case_admits() {
    assert_eq!(parse_ascii_hex_digit(b'7', 3, None).unwrap(), 7);
    assert_eq!(parse_ascii_hex_digit(b'c', 3, None).unwrap(), 12);
    assert_eq!(parse_ascii_hex_digit(b'C', 3, None).unwrap(), 12);
    assert_eq!(parse_ascii_hex_digit(b'c', 3, Some(Case::Lower)).unwrap(), 12);
    assert_eq!(parse_ascii_hex_digit(b'C', 3, Some(Case::Upper)).unwrap(), 12);
    assert_eq!(
        parse_ascii_hex_digit(b'C', 3, Some(Case::Lower))
            .unwrap_err()
            .position(),
        3
    );
    assert_eq!(
        parse_ascii_hex_digit(b'c', 4, Some(Case::Upper))
            .unwrap_err()
            .position(),
        4
    );
    for byte in [b'/', b':', b'@', b'G', b'`', b'g', b' ', 0, 0xff] {
        assert!(parse_ascii_hex_digit(byte, 0, None).is_err());
    }
}

#[test]
fn pairs_are_read_and_faults_located() {
    assert_eq!(parse_ascii_hex_byte(*b"3b", 10, None).unwrap(), 0x3b);
    assert_eq!(parse_ascii_hex_byte(*b"3B", 10, None).unwrap(), 0x3b);
    assert_eq!(parse_ascii_hex_byte(*b"00", 10, None).unwrap(), 0);
    assert_eq!(parse_ascii_hex_byte(*b"fF", 10, None).unwrap(), 0xff);
    assert_eq!(parse_ascii_hex_byte(*b"x0", 10, None).unwrap_err().position(), 10);
    assert_eq!(parse_ascii_hex_byte(*b"0x", 10, None).unwrap_err().position(), 11);
    assert_eq!(parse_ascii_hex_byte(*b"xx", 10, None).unwrap_err().position(), 10);
}

#[test]
fn every_byte_round_trips_through_its_digits() {
    for byte in 0..=255u8 {
        for case in [Case::Lower, Case::Upper] {
            let hex = byte_to_ascii_hex(byte, case);
            assert_eq!(parse_ascii_hex_byte(hex, 0, Some(case)).unwrap(), byte);
            assert_eq!(parse_ascii_hex_byte(hex, 0, None).unwrap(), byte);
        }
    }
}
