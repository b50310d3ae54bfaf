use tcpclient::codec::{bytes_to_hex, hex_to_bytes, is_valid_hex_string};

#[test]
fn decodes_hex_text() {
    assert_eq!(hex_to_bytes("48 65 6C 6c 6F"), b"Hello".to_vec());
    assert_eq!(hex_to_bytes("48656c6c6f"), b"Hello".to_vec());
    assert_eq!(hex_to_bytes(""), Vec::<u8>::new());
    assert_eq!(hex_to_bytes("   "), Vec::<u8>::new());
}

#[test]
fn drops_unpaired_and_invalid_pairs() {
    assert_eq!(hex_to_bytes("4"), Vec::<u8>::new());
    assert_eq!(hex_to_bytes("48 6"), vec![0x48]);
    assert_eq!(hex_to_bytes("zz41"), vec![0x41]);
    assert_eq!(hex_to_bytes("4G41"), vec![0x41]);
    assert_eq!(hex_to_bytes("+F"), Vec::<u8>::new());
    assert_eq!(hex_to_bytes("+F41"), vec![0x41]);
    assert_eq!(hex_to_bytes("F+"), Vec::<u8>::new());
}

#[test]
fn encodes_hex_dump() {
    assert_eq!(bytes_to_hex(&[0x48, 0x65, 0x0A]), "48 65 0A");
    assert_eq!(bytes_to_hex(&[0xFF]), "FF");
    assert_eq!(bytes_to_hex(&[]), "");
    assert_eq!(bytes_to_hex(&[0, 1, 0xAB]), "00 01 AB");
}

#[test]
fn hex_round_trip_normalizes_case() {
    for s in ["deadBEEF", "00ff10", "", "aB", "0123456789abcdefABCDEF"] {
        let bytes = hex_to_bytes(s);
        assert_eq!(bytes.len(), s.len() / 2);
        assert_eq!(bytes_to_hex(&bytes).replace(' ', ""), s.to_uppercase());
    }
    assert_eq!(hex_to_bytes("deadBEEF"), vec![0xDE, 0xAD, 0xBE, 0xEF]);
}

#[test]
fn hex_dump_round_trip() {
    let bytes: Vec<u8> = (0u8..=255).collect();
    assert_eq!(hex_to_bytes(&bytes_to_hex(&bytes)), bytes);
}

#[test]
fn checks_hex_text() {
    assert!(is_valid_hex_string(""));
    assert!(is_valid_hex_string("   "));
    assert!(is_valid_hex_string("48 65 6C 6C 6F"));
    assert!(is_valid_hex_string("4 8"));
    assert!(is_valid_hex_string("abCD"));
    assert!(!is_valid_hex_string("486"));
    assert!(!is_valid_hex_string("4G"));
    assert!(!is_valid_hex_string("+F"));
    assert!(!is_valid_hex_string("é1"));
}
