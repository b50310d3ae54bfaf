use tcpclient::address::{
    ip_to_u32, is_valid_ip, is_valid_ip_range, is_valid_port, is_valid_port_range,
    parse_unsigned, u32_to_ip,
};

#[test]
fn formats_addresses() {
    assert_eq!(u32_to_ip(0x7f00_0001), "127.0.0.1");
    assert_eq!(u32_to_ip(0), "0.0.0.0");
    assert_eq!(u32_to_ip(u32::MAX), "255.255.255.255");
    assert_eq!(u32_to_ip(0xC0A8_010A), "192.168.1.10");
}

#[test]
fn parses_addresses() {
    assert_eq!(ip_to_u32("127.0.0.1"), Some(0x7f00_0001));
    assert_eq!(ip_to_u32("255.255.255.255"), Some(u32::MAX));
    assert_eq!(ip_to_u32("0.0.0.0"), Some(0));
    assert_eq!(ip_to_u32("10.0.3.233"), Some(0x0A00_03E9));
}

#[test]
fn rejects_malformed_addresses() {
    for s in [
        "", "1.2.3", "1.2.3.4.5", "256.0.0.1", "01.2.3.4", "1.2.3.00", "1..3.4", "1.2.3.4 ",
        " 1.2.3.4", "+1.2.3.4", "a.b.c.d", "1.2.3.", "1.2.3.1000", "localhost",
    ] {
        assert_eq!(ip_to_u32(s), None, "{}", s);
        assert!(!is_valid_ip(s), "{}", s);
    }
}

#[test]
fn format_of_parse_is_identity() {
    for s in ["0.0.0.0", "1.2.3.4", "127.0.0.1", "10.20.30.40", "255.0.255.0", "192.168.100.200"] {
        let ip = ip_to_u32(s).unwrap();
        assert_eq!(u32_to_ip(ip), s);
    }
    for ip in [0u32, 1, 255, 256, 65535, 0x0102_0304, 0xFFFF_FFFE, u32::MAX] {
        assert_eq!(ip_to_u32(&u32_to_ip(ip)), Some(ip));
    }
}

#[test]
fn checks_ports() {
    assert!(is_valid_port("0"));
    assert!(is_valid_port("8888"));
    assert!(is_valid_port("65535"));
    assert!(is_valid_port("+80"));
    assert!(is_valid_port("0080"));
    assert!(!is_valid_port("65536"));
    assert!(!is_valid_port("-1"));
    assert!(!is_valid_port(""));
    assert!(!is_valid_port("+"));
    assert!(!is_valid_port("80a"));
    assert!(!is_valid_port(" 80"));
    assert!(!is_valid_port("99999999999999999999999"));
}

#[test]
fn parses_unsigned_numbers() {
    assert_eq!(parse_unsigned("500", u64::MAX), Some(500));
    assert_eq!(parse_unsigned("18446744073709551615", u64::MAX), Some(u64::MAX));
    assert_eq!(parse_unsigned("18446744073709551616", u64::MAX), None);
    assert_eq!(parse_unsigned("256", 255), None);
    assert_eq!(parse_unsigned("255", 255), Some(255));
    assert_eq!(parse_unsigned("1.5", u64::MAX), None);
}

#[test]
fn checks_port_ranges() {
    assert!(is_valid_port_range("8888", "8889"));
    assert!(is_valid_port_range("80", "80"));
    assert!(is_valid_port_range("1", "1001"));
    assert!(!is_valid_port_range("1", "1002"));
    assert!(!is_valid_port_range("9", "8"));
    assert!(!is_valid_port_range("x", "8"));
    assert!(!is_valid_port_range("1", "70000"));
}

#[test]
fn checks_address_ranges() {
    assert!(is_valid_ip_range("127.0.0.1", "127.0.0.10"));
    assert!(is_valid_ip_range("127.0.0.1", "127.0.0.1"));
    assert!(is_valid_ip_range("10.0.0.0", "10.0.3.232"));
    assert!(!is_valid_ip_range("10.0.0.0", "10.0.3.233"));
    assert!(!is_valid_ip_range("127.0.0.10", "127.0.0.1"));
    assert!(!is_valid_ip_range("127.0.0.1", "127.0.0.256"));
    assert!(!is_valid_ip_range("bad", "127.0.0.1"));
    assert!(!is_valid_ip_range("0.0.0.0", "255.255.255.255"));
}
