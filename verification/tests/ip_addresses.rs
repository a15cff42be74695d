use portwatch::alerts::evaluator::IpAddress;
use portwatch::ip::parse_ip;

#[test]
fn ipv4_addresses() {
    assert_eq!(parse_ip("127.0.0.1"), Some(IpAddress::V4(127, 0, 0, 1)));
    assert_eq!(parse_ip("255.255.255.255"), Some(IpAddress::V4(255, 255, 255, 255)));
    assert_eq!(parse_ip("0.0.0.0"), Some(IpAddress::V4(0, 0, 0, 0)));
    for bad in ["256.0.0.1", "01.2.3.4", "1.2.3.04", "1.2.3", "1.2.3.4.5", "+1.2.3.4", " 1.2.3.4", "", "1..2.3", "1.2.3.1000"] {
        assert_eq!(parse_ip(bad), None, "{}", bad);
    }
}

#[test]
fn ipv6_addresses() {
    assert_eq!(parse_ip("::"), Some(IpAddress::V6(0)));
    assert_eq!(parse_ip("::1"), Some(IpAddress::V6(1)));
    assert_eq!(parse_ip("1::"), Some(IpAddress::V6(1u128 << 112)));
    assert_eq!(parse_ip("FFFF::"), Some(IpAddress::V6(0xffffu128 << 112)));
    assert_eq!(parse_ip("::ffff:1.2.3.4"), Some(IpAddress::V6(0xffff_0102_0304)));
    assert_eq!(
        parse_ip("1:2:3:4:5:6:7:8"),
        Some(IpAddress::V6(0x0001_0002_0003_0004_0005_0006_0007_0008))
    );
    assert_eq!(
        parse_ip("1:2:3:4:5:6:1.2.3.4"),
        Some(IpAddress::V6(0x0001_0002_0003_0004_0005_0006_0102_0304))
    );
    assert_eq!(
        parse_ip("1:2:3:4:5:6:7::"),
        Some(IpAddress::V6(0x0001_0002_0003_0004_0005_0006_0007_0000))
    );
    assert_eq!(
        parse_ip("::1:2:3:4:5:6:7"),
        Some(IpAddress::V6(0x0000_0001_0002_0003_0004_0005_0006_0007))
    );
    assert_eq!(parse_ip("fe80::0db8:1"), Some(IpAddress::V6(0xfe80_0000_0000_0000_0000_0000_0db8_0001)));
    for bad in [
        "1:2:3:4:5:6:7:8:9",
        "1::2::3",
        ":1::",
        "12345::",
        "1.2.3.4::",
        "::1.2.3",
        "::1:2:3:4:5:6:7:8",
        "1:2:3:4:5:6:7",
        "1:2:3:4:5:6:7:1.2.3.4",
        ":::",
        "1:2:",
        "fe80::1%eth0",
        "[::1]",
        "g::",
    ] {
        assert_eq!(parse_ip(bad), None, "{}", bad);
    }
}
