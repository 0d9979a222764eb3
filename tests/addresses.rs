use roxy::ifconfig::{validate_ipaddress, validate_ipnetworks};

#[test]
fn validate_ipaddress_accepts_valid_ipv4() {
    assert!(validate_ipaddress("192.0.2.1").is_ok());
    assert!(validate_ipaddress("0.0.0.0").is_ok());
    assert!(validate_ipaddress("255.255.255.255").is_ok());
    assert!(validate_ipaddress("127.0.0.1").is_ok());
}

#[test]
fn validate_ipaddress_accepts_valid_ipv6() {
    assert!(validate_ipaddress("::1").is_ok());
    assert!(validate_ipaddress("::").is_ok());
    assert!(validate_ipaddress("2001:db8::1").is_ok());
    assert!(validate_ipaddress("fe80::1").is_ok());
    assert!(validate_ipaddress("ffff:ffff:ffff:ffff:ffff:ffff:ffff:ffff").is_ok());
}

#[test]
fn validate_ipaddress_rejects_empty_string() {
    assert!(validate_ipaddress("").is_err());
}

#[test]
fn validate_ipaddress_rejects_non_numeric_chars() {
    assert!(validate_ipaddress("abc.def.ghi.jkl").is_err());
    assert!(validate_ipaddress("192.168.1.x").is_err());
    assert!(validate_ipaddress("hello").is_err());
}

#[test]
fn validate_ipaddress_rejects_out_of_range_octets() {
    assert!(validate_ipaddress("256.0.0.1").is_err());
    assert!(validate_ipaddress("192.168.1.999").is_err());
}

#[test]
fn validate_ipaddress_rejects_cidr_notation() {
    assert!(validate_ipaddress("192.0.2.0/24").is_err());
    assert!(validate_ipaddress("::1/128").is_err());
}

#[test]
fn validate_ipnetworks_accepts_valid_ipv4_cidr() {
    assert!(validate_ipnetworks("192.0.2.0/24").is_ok());
    assert!(validate_ipnetworks("10.0.0.0/8").is_ok());
    assert!(validate_ipnetworks("0.0.0.0/0").is_ok());
    assert!(validate_ipnetworks("192.168.1.1/32").is_ok());
}

#[test]
fn validate_ipnetworks_accepts_valid_ipv6_cidr() {
    assert!(validate_ipnetworks("::/0").is_ok());
    assert!(validate_ipnetworks("::1/128").is_ok());
    assert!(validate_ipnetworks("2001:db8::/32").is_ok());
    assert!(validate_ipnetworks("fe80::1/64").is_ok());
}

#[test]
fn validate_ipnetworks_rejects_missing_prefix() {
    assert!(validate_ipnetworks("192.0.2.0").is_err());
    assert!(validate_ipnetworks("::1").is_err());
}

#[test]
fn validate_ipnetworks_rejects_non_numeric_prefix() {
    assert!(validate_ipnetworks("192.0.2.0/abc").is_err());
    assert!(validate_ipnetworks("192.0.2.0/").is_err());
}

#[test]
fn validate_ipnetworks_rejects_out_of_range_ipv4_prefix() {
    assert!(validate_ipnetworks("192.0.2.0/33").is_err());
    assert!(validate_ipnetworks("192.0.2.0/-1").is_err());
}

#[test]
fn validate_ipnetworks_rejects_out_of_range_ipv6_prefix() {
    assert!(validate_ipnetworks("::1/129").is_err());
}

#[test]
fn validate_ipnetworks_rejects_malformed_input() {
    assert!(validate_ipnetworks("").is_err());
    assert!(validate_ipnetworks("not-an-ip/24").is_err());
    assert!(validate_ipnetworks("192.168.1/24").is_err());
}

#[test]
fn validation_messages_name_the_input() {
    assert_eq!(validate_ipnetworks("x/1"), Err("invalid IP network: x/1".to_string()));
    assert_eq!(validate_ipaddress("y"), Err("invalid IP address: y".to_string()));
}
