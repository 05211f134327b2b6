use zenith_gateway::ipv4::{entry_covers_address, parse_cidr, parse_ipv4, range_contains};

#[test]
fn dotted_decimal_addresses() {
    assert_eq!(parse_ipv4("10.1.2.3"), Some(0x0a010203));
    assert_eq!(parse_ipv4("0.0.0.0"), Some(0));
    assert_eq!(parse_ipv4("255.255.255.255"), Some(u32::MAX));
    assert_eq!(parse_ipv4("256.0.0.1"), None);
    assert_eq!(parse_ipv4("1.2.3"), None);
    assert_eq!(parse_ipv4("1.2.3.4.5"), None);
    assert_eq!(parse_ipv4("01.2.3.4"), None);
    assert_eq!(parse_ipv4("1..3.4"), None);
    assert_eq!(parse_ipv4("1.2.3.x"), None);
    assert_eq!(parse_ipv4(""), None);
    assert_eq!(parse_ipv4("127.0.0.1"), Some(0x7f000001));
    assert_eq!(parse_ipv4("1.2.3.04"), None);
}

#[test]
fn cidr_ranges() {
    assert_eq!(parse_cidr("10.0.0.0/8"), Some((0x0a000000, 8)));
    assert_eq!(parse_cidr("10.0.0.0/32"), Some((0x0a000000, 32)));
    assert_eq!(parse_cidr("10.0.0.0/0"), Some((0x0a000000, 0)));
    assert_eq!(parse_cidr("10.0.0.0/33"), None);
    assert_eq!(parse_cidr("10.0.0.0/08"), None);
    assert_eq!(parse_cidr("10.0.0.0"), None);
    assert_eq!(parse_cidr("10.0.0.0/8/8"), None);
}

#[test]
fn range_membership() {
    assert!(range_contains(0x0a000000, 8, 0x0a010203));
    assert!(!range_contains(0x0a000000, 8, 0x0b000000));
    assert!(range_contains(0, 0, u32::MAX));
    assert!(range_contains(0x08080808, 32, 0x08080808));
    assert!(!range_contains(0x08080808, 32, 0x08080809));
}

#[test]
fn entry_cover() {
    assert!(entry_covers_address("10.0.0.0/8", "10.9.9.9", parse_ipv4("10.9.9.9")));
    assert!(entry_covers_address("host", "host", parse_ipv4("host")));
    assert!(!entry_covers_address("10.0.0.0/8", "host", parse_ipv4("host")));
}
