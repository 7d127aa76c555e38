use netscan::target::{expand_target, parse_cidr, parse_subnet, parse_target, Cidr, Ipv4, TargetError};

#[test]
fn test_valid_subnet_parsing() {
    let result = parse_subnet("192.168.1.0/24");
    assert!(result.is_ok());
    assert_eq!(result.unwrap().len(), 256); // 2^(32-24) = 256
}

#[test]
fn test_invalid_subnet_format() {
    let result = parse_subnet("192.168.1.0");
    assert!(result.is_err());
    let err = result.unwrap_err();
    assert_eq!(err, TargetError::InvalidTargetFormat);
    assert_eq!(
        err.message(),
        "Invalid subnet format. Use CIDR notation (e.g., 192.168.1.0/24)."
    );
}

#[test]
fn test_invalid_ip_address() {
    let result = parse_subnet("999.999.999.999/24");
    assert!(result.is_err());
    let err = result.unwrap_err();
    assert_eq!(err, TargetError::InvalidAddress);
    assert_eq!(err.message(), "Invalid IP address.");
}

#[test]
fn test_invalid_prefix() {
    let result = parse_subnet("192.168.1.0/33");
    assert!(result.is_err());
    let err = result.unwrap_err();
    assert_eq!(err, TargetError::PrefixOutOfRange);
    assert_eq!(err.message(), "Invalid prefix.");
}

#[test]
fn empty_text_is_not_a_subnet() {
    assert_eq!(parse_subnet("").unwrap_err(), TargetError::InvalidTargetFormat);
}

#[test]
fn non_numeric_prefix_is_invalid() {
    assert_eq!(parse_subnet("10.0.0.0/ab").unwrap_err(), TargetError::InvalidPrefix);
    assert_eq!(parse_subnet("10.0.0.0/").unwrap_err(), TargetError::InvalidPrefix);
    assert_eq!(TargetError::InvalidPrefix.message(), "Invalid prefix.");
}

#[test]
fn two_slashes_are_not_a_subnet() {
    assert_eq!(parse_subnet("10.0.0.0/8/8").unwrap_err(), TargetError::InvalidTargetFormat);
}

#[test]
fn octets_with_leading_zeros_are_refused() {
    assert_eq!(parse_subnet("10.0.0.01/32").unwrap_err(), TargetError::InvalidAddress);
    assert_eq!(parse_subnet("10.0.0/32").unwrap_err(), TargetError::InvalidAddress);
}

#[test]
fn subnet_addresses_are_ascending_from_the_network_address() {
    let ips = parse_subnet("192.168.1.5/30").unwrap();
    let expected: Vec<Ipv4> = (4u8..8).map(|d| Ipv4::new(192, 168, 1, d)).collect();
    assert_eq!(ips, expected);
}

#[test]
fn prefix_32_is_a_single_address() {
    let ips = parse_subnet("10.1.2.3/32").unwrap();
    assert_eq!(ips, vec![Ipv4::new(10, 1, 2, 3)]);
}

#[test]
fn prefix_0_covers_the_whole_space() {
    let c = parse_cidr("1.2.3.4/0").unwrap();
    assert_eq!(c.prefix, 0);
    assert_eq!(c.len(), 4294967296);
}

#[test]
fn enumerating_twice_gives_the_same_sequence() {
    let c = parse_cidr("172.16.0.0/28").unwrap();
    let first = c.addresses();
    let second = c.addresses();
    assert_eq!(first, second);
    assert_eq!(first.len(), 16);
    assert_eq!(parse_subnet("172.16.0.0/28").unwrap(), first);
}

#[test]
fn bare_address_is_a_target_of_one() {
    assert_eq!(
        parse_target("127.0.0.1").unwrap(),
        Cidr { base: Ipv4::new(127, 0, 0, 1), prefix: 32 }
    );
    assert_eq!(expand_target("127.0.0.1").unwrap(), vec![Ipv4::new(127, 0, 0, 1)]);
    assert_eq!(expand_target("not an address").unwrap_err(), TargetError::InvalidTargetFormat);
    assert_eq!(expand_target("192.168.1.0/30").unwrap().len(), 4);
}

#[test]
fn address_text_and_octets() {
    let ip = Ipv4::new(192, 168, 1, 158);
    assert_eq!(ip.octets(), [192, 168, 1, 158]);
    assert_eq!(ip.to_text(), "192.168.1.158");
    assert_eq!(ip.bits, 0xC0A8019E);
}
