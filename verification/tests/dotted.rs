use vpnparty::dotted::{decimal_of, find_dot, parse_ipv4, parse_ipv4_bytes, parse_octet};
use vpnparty::net::Ipv4;

#[test]
fn addresses_are_read() {
    assert_eq!(parse_ipv4("10.2.0.5"), Some(Ipv4::new(10, 2, 0, 5)));
    assert_eq!(parse_ipv4("0.0.0.0"), Some(Ipv4::new(0, 0, 0, 0)));
    assert_eq!(parse_ipv4("255.255.255.255"), Some(Ipv4::new(255, 255, 255, 255)));
    assert_eq!(parse_ipv4("239.1.2.3"), Some(Ipv4::new(239, 1, 2, 3)));
    assert_eq!(parse_ipv4_bytes(b"192.168.0.199"), Some(Ipv4::new(192, 168, 0, 199)));
}

#[test]
fn other_text_is_refused() {
    for text in [
        "", ".", "...", "10.2.0", "10.2.0.", ".10.2.0", "10.2.0.5.6", "10..0.5", "256.2.0.5",
        "10.2.0.256", "010.2.0.5", "10.2.0.05", "10.2.0.5 ", " 10.2.0.5", "10.2.0.x", "+1.2.3.4",
        "1.2.3.-4", "1000.2.3.4", "1.2.3.4\n", "a.b.c.d", "00.0.0.0", "1,2,3,4", "::1",
    ] {
        assert_eq!(parse_ipv4(text), None, "{:?}", text);
    }
}

#[test]
fn octets_are_read() {
    assert_eq!(parse_octet(b"x255y", 1, 4), Some(255));
    assert_eq!(parse_octet(b"x255y", 1, 3), Some(25));
    assert_eq!(parse_octet(b"0", 0, 1), Some(0));
    assert_eq!(parse_octet(b"256", 0, 3), None);
    assert_eq!(parse_octet(b"999", 0, 3), None);
    assert_eq!(parse_octet(b"01", 0, 2), None);
    assert_eq!(parse_octet(b"1a", 0, 2), None);
    assert_eq!(parse_octet(b"1234", 0, 4), None);
    assert_eq!(parse_octet(b"12", 1, 1), None);
}

#[test]
fn decimal_text() {
    assert_eq!(decimal_of(0), b"0".to_vec());
    assert_eq!(decimal_of(9), b"9".to_vec());
    assert_eq!(decimal_of(10), b"10".to_vec());
    assert_eq!(decimal_of(255), b"255".to_vec());
    assert_eq!(decimal_of(999), b"999".to_vec());
}

#[test]
fn dots_are_found() {
    assert_eq!(find_dot(b"10.2.0.5", 0), 2);
    assert_eq!(find_dot(b"10.2.0.5", 2), 2);
    assert_eq!(find_dot(b"10.2.0.5", 3), 4);
    assert_eq!(find_dot(b"10.2.0.5", 7), 8);
    assert_eq!(find_dot(b"10.2.0.5", 8), 8);
    assert_eq!(find_dot(b"", 0), 0);
}
