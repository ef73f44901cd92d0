use kfs_squid_editor::model::AclType;
use kfs_squid_editor::validate::validate_acl_value;

#[test]
fn valid_ip() {
    assert!(validate_acl_value(&AclType::Src, "192.168.1.0/24").is_ok());
    assert!(validate_acl_value(&AclType::Src, "10.0.0.1").is_ok());
    assert!(validate_acl_value(&AclType::Src, "10.0.0.1-10.0.0.255").is_ok());
}

#[test]
fn invalid_ip() {
    assert!(validate_acl_value(&AclType::Src, "999.1.2.3").is_err());
    assert!(validate_acl_value(&AclType::Src, "abc").is_err());
}

#[test]
fn valid_port() {
    assert!(validate_acl_value(&AclType::Port, "443").is_ok());
    assert!(validate_acl_value(&AclType::Port, "1024-65535").is_ok());
}

#[test]
fn invalid_port() {
    assert!(validate_acl_value(&AclType::Port, "99999").is_err());
    assert!(validate_acl_value(&AclType::Port, "abc").is_err());
}

#[test]
fn valid_time() {
    assert!(validate_acl_value(&AclType::Time, "MTWHF 08:00-17:00").is_ok());
}

#[test]
fn invalid_time() {
    assert!(validate_acl_value(&AclType::Time, "XY 08:00-17:00").is_err());
    assert!(validate_acl_value(&AclType::Time, "MTWHF 25:00-17:00").is_err());
}

#[test]
fn valid_mac() {
    assert!(validate_acl_value(&AclType::Arp, "00:11:22:33:44:55").is_ok());
}

#[test]
fn invalid_mac() {
    assert!(validate_acl_value(&AclType::Arp, "00:11:22:33:44").is_err());
    assert!(validate_acl_value(&AclType::Arp, "ZZ:11:22:33:44:55").is_err());
}

#[test]
fn domain_types_skip_validation() {
    assert!(validate_acl_value(&AclType::DstDomain, "anything.goes").is_ok());
    assert!(validate_acl_value(&AclType::UrlRegex, ".*\\.exe$").is_ok());
}

fn err(t: AclType, v: &str) -> String {
    validate_acl_value(&t, v).unwrap_err()
}

#[test]
fn ip_error_messages() {
    assert_eq!(err(AclType::Src, "abc"), "invalid IP address: abc");
    assert_eq!(err(AclType::Dst, "1.2.3.4/x"), "invalid CIDR mask: x");
    assert_eq!(err(AclType::Dst, "1.2.3.4/200"), "CIDR mask too large: 200");
    assert_eq!(err(AclType::MyIp, "1.2.3.4-5.6.7.8-9.9.9.9"), "invalid IP range: 1.2.3.4-5.6.7.8-9.9.9.9");
    assert_eq!(err(AclType::Src, "1.2.3.4-x"), "invalid IP address: x");
    assert_eq!(err(AclType::Src, "fe80::1::2"), "invalid IPv6 address: fe80::1::2");
    assert_eq!(err(AclType::Src, "01.2.3.4"), "invalid IP address: 01.2.3.4");
}

#[test]
fn ipv6_addresses() {
    for ok in ["::", "::1", "fe80::1", "2001:db8::ff00:42:8329", "::ffff:192.0.2.128", "1:2:3:4:5:6:7:8", "2001:db8::/32"] {
        assert!(validate_acl_value(&AclType::Src, ok).is_ok(), "{ok}");
    }
    for bad in ["1:2:3:4:5:6:7:8:9", "12345::", ":1", "1:", "g::1", "::1.2.3", "1::2::3"] {
        assert!(validate_acl_value(&AclType::Src, bad).is_err(), "{bad}");
    }
}

#[test]
fn cidr_mask_is_a_byte() {
    assert!(validate_acl_value(&AclType::Src, "::/128").is_ok());
    assert_eq!(err(AclType::Src, "::/129"), "CIDR mask too large: 129");
    assert_eq!(err(AclType::Src, "::/256"), "invalid CIDR mask: 256");
    assert!(validate_acl_value(&AclType::Src, "10.0.0.0/+8").is_ok());
}

#[test]
fn port_error_messages() {
    assert_eq!(err(AclType::Port, "99999"), "invalid port: 99999");
    assert_eq!(err(AclType::MyPort, "10-x"), "invalid port: x");
    assert_eq!(err(AclType::Port, "90-80"), "port range reversed: 90-80");
    assert!(validate_acl_value(&AclType::Port, "0-65535").is_ok());
}

#[test]
fn time_error_messages() {
    assert_eq!(err(AclType::Time, "MTWHF"), "time format: DAYS HH:MM-HH:MM");
    assert_eq!(err(AclType::Time, "MX 08:00-09:00"), "invalid day char: X (use MTWHFAS)");
    assert_eq!(err(AclType::Time, "M 08:00"), "time range format: HH:MM-HH:MM");
    assert_eq!(err(AclType::Time, "M 0800-09:00"), "invalid time: 0800");
    assert_eq!(err(AclType::Time, "M aa:00-09:00"), "invalid hour: aa");
    assert_eq!(err(AclType::Time, "M 08:bb-09:00"), "invalid minute: bb");
    assert_eq!(err(AclType::Time, "M 24:00-09:00"), "hour out of range: 24");
    assert_eq!(err(AclType::Time, "M 08:60-09:00"), "minute out of range: 60");
    assert!(validate_acl_value(&AclType::Time, "SA 00:00-23:59").is_ok());
}

#[test]
fn mac_error_messages() {
    assert_eq!(err(AclType::Arp, "00:11"), "MAC address must have 6 octets (XX:XX:XX:XX:XX:XX)");
    assert_eq!(err(AclType::Arp, "00:11:22:33:44:5"), "invalid MAC octet: 5");
    assert!(validate_acl_value(&AclType::Arp, "aa:BB:cc:DD:ee:FF").is_ok());
}

#[test]
fn proto_method_and_number() {
    assert!(validate_acl_value(&AclType::Proto, "HTTPS").is_ok());
    assert_eq!(err(AclType::Proto, "gopher"), "unknown protocol: gopher (use http/https/ftp)");
    assert!(validate_acl_value(&AclType::Method, "get").is_ok());
    assert_eq!(err(AclType::Method, "FETCH"), "unknown HTTP method: FETCH");
    assert!(validate_acl_value(&AclType::MaxConn, "4294967295").is_ok());
    assert_eq!(err(AclType::MaxConn, "4294967296"), "must be a number: 4294967296");
    assert_eq!(err(AclType::MaxConn, "-1"), "must be a number: -1");
}
