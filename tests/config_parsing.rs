use pulse_fm_rds_encoder::config::{build_pi_from_parts, parse_hex_byte, parse_pi};
use pulse_fm_rds_encoder::programme::{di_bits, pty_items, pty_label};

#[test]
fn parse_pi_accepts_plain_and_prefixed_hex() {
    assert_eq!(parse_pi("7200"), Ok(0x7200));
    assert_eq!(parse_pi("0x7200"), Ok(0x7200));
    assert_eq!(parse_pi("  c201\t"), Ok(0xC201));
    assert_eq!(parse_pi("+1F"), Ok(0x1F));
}

#[test]
fn parse_pi_errors() {
    assert_eq!(parse_pi("   "), Err("PI code is required".to_string()));
    assert_eq!(parse_pi(""), Err("PI code is required".to_string()));
    assert_eq!(parse_pi("zz"), Err("PI must be a 4-hex-digit value".to_string()));
    assert_eq!(parse_pi("12345"), Err("PI must be a 4-hex-digit value".to_string()));
    assert_eq!(parse_pi("0x"), Err("PI must be a 4-hex-digit value".to_string()));
    assert_eq!(parse_pi("-1"), Err("PI must be a 4-hex-digit value".to_string()));
    assert_eq!(parse_pi("0x0x12"), Err("PI must be a 4-hex-digit value".to_string()));
}

#[test]
fn parse_hex_byte_cases() {
    assert_eq!(parse_hex_byte("E2"), Ok(0xE2));
    assert_eq!(parse_hex_byte("0xe2"), Ok(0xE2));
    assert_eq!(parse_hex_byte("7"), Ok(0x07));
    assert_eq!(parse_hex_byte("100"), Err("Hex must be 2 digits".to_string()));
    assert_eq!(parse_hex_byte(" "), Err("Hex byte is required".to_string()));
}

#[test]
fn build_pi_from_parts_cases() {
    assert_eq!(build_pi_from_parts("", "2", "00", "E2"), Ok(0x7200));
    assert_eq!(build_pi_from_parts("", "2", "00", "0xe2"), Ok(0x7200));
    assert_eq!(build_pi_from_parts("7", "2", "00", ""), Ok(0x7200));
    assert_eq!(build_pi_from_parts("0x0x7", "0x2", "0x10", ""), Ok(0x7210));
    assert_eq!(
        build_pi_from_parts("", "2", "00", "E1"),
        Err("Country code is empty and ECC is unknown. Set country code manually.".to_string())
    );
    assert_eq!(build_pi_from_parts("x", "2", "00", ""), Err("Invalid country code hex".to_string()));
    assert_eq!(build_pi_from_parts("7", "G", "00", ""), Err("Invalid area code hex".to_string()));
    assert_eq!(build_pi_from_parts("7", "2", "", ""), Err("Invalid program ref hex".to_string()));
    assert_eq!(build_pi_from_parts("10", "2", "00", ""), Err("Country code must be 0..F".to_string()));
    assert_eq!(build_pi_from_parts("7", "12", "00", ""), Err("Area code must be 0..F".to_string()));
    assert_eq!(build_pi_from_parts("7", "2", "100", ""), Err("Program ref must be 00..FF".to_string()));
}

#[test]
fn pty_table_in_code_order() {
    let items = pty_items();
    assert_eq!(items.len(), 32);
    for (i, item) in items.iter().enumerate() {
        assert_eq!(item.code as usize, i);
    }
    assert_eq!(items[0].label, "None");
    assert_eq!(items[10].label, "Pop music");
    assert_eq!(items[18].label, "Children's programmes");
    assert_eq!(items[31].label, "Alarm");
    assert_eq!(pty_label(30), "Alarm test");
}

#[test]
fn di_nibble_from_flags() {
    assert_eq!(di_bits(true, false, false, false), 0b1000);
    assert_eq!(di_bits(false, true, false, true), 0b0101);
    assert_eq!(di_bits(true, true, true, true), 0b1111);
    assert_eq!(di_bits(false, false, false, false), 0);
}
