use rustlink::net::{any_private_ip, is_private_ip, IpAddress};

fn v4(a: u8, b: u8, c: u8, d: u8) -> IpAddress {
    IpAddress::V4([a, b, c, d])
}

fn v6(s: [u16; 8]) -> IpAddress {
    IpAddress::V6(s)
}

#[test]
fn private_use_ipv4_ranges_are_internal() {
    assert!(is_private_ip(&v4(10, 0, 0, 1)));
    assert!(is_private_ip(&v4(10, 255, 255, 255)));
    assert!(is_private_ip(&v4(172, 16, 0, 1)));
    assert!(is_private_ip(&v4(172, 31, 255, 254)));
    assert!(is_private_ip(&v4(192, 168, 1, 1)));
}

#[test]
fn loopback_and_link_local_ipv4_are_internal() {
    assert!(is_private_ip(&v4(127, 0, 0, 1)));
    assert!(is_private_ip(&v4(127, 10, 20, 30)));
    assert!(is_private_ip(&v4(169, 254, 169, 254)));
}

#[test]
fn public_ipv4_is_not_internal() {
    assert!(!is_private_ip(&v4(8, 8, 8, 8)));
    assert!(!is_private_ip(&v4(93, 184, 216, 34)));
    assert!(!is_private_ip(&v4(172, 15, 0, 1)));
    assert!(!is_private_ip(&v4(172, 32, 0, 1)));
    assert!(!is_private_ip(&v4(192, 169, 0, 1)));
    assert!(!is_private_ip(&v4(169, 253, 0, 1)));
}

#[test]
fn internal_ipv6_ranges() {
    assert!(is_private_ip(&v6([0, 0, 0, 0, 0, 0, 0, 1])));
    assert!(is_private_ip(&v6([0xfc00, 0, 0, 0, 0, 0, 0, 1])));
    assert!(is_private_ip(&v6([0xfd12, 0x3456, 0, 0, 0, 0, 0, 1])));
    assert!(is_private_ip(&v6([0xfe80, 0, 0, 0, 0, 0, 0, 1])));
    assert!(is_private_ip(&v6([0xfebf, 0xffff, 0, 0, 0, 0, 0, 1])));
}

#[test]
fn public_ipv6_is_not_internal() {
    assert!(!is_private_ip(&v6([0x2001, 0x4860, 0x4860, 0, 0, 0, 0, 0x8888])));
    assert!(!is_private_ip(&v6([0, 0, 0, 0, 0, 0, 0, 2])));
    assert!(!is_private_ip(&v6([0, 0, 0, 0, 0, 0, 0, 0])));
    assert!(!is_private_ip(&v6([0xfec0, 0, 0, 0, 0, 0, 0, 1])));
    assert!(!is_private_ip(&v6([0xfbff, 0, 0, 0, 0, 0, 0, 1])));
    assert!(!is_private_ip(&v6([1, 0, 0, 0, 0, 0, 0, 1])));
}

#[test]
fn one_internal_address_among_many_is_enough() {
    let addrs = vec![v4(93, 184, 216, 34), v6([0x2001, 0xdb8, 0, 0, 0, 0, 0, 1]), v4(10, 1, 2, 3)];
    assert!(any_private_ip(&addrs));
    let public = vec![v4(93, 184, 216, 34), v4(8, 8, 4, 4)];
    assert!(!any_private_ip(&public));
    assert!(!any_private_ip(&Vec::new()));
}

#[test]
fn ipv4_mapped_addresses_follow_the_ipv4_rule() {
    assert!(is_private_ip(&v6([0, 0, 0, 0, 0, 0xffff, 0x0a00, 0x0001])));
    assert!(is_private_ip(&v6([0, 0, 0, 0, 0, 0xffff, 0x7f00, 0x0001])));
    assert!(is_private_ip(&v6([0, 0, 0, 0, 0, 0xffff, 0xa9fe, 0xa9fe])));
    assert!(is_private_ip(&v6([0, 0, 0, 0, 0, 0xffff, 0xac1f, 0x0001])));
    assert!(!is_private_ip(&v6([0, 0, 0, 0, 0, 0xffff, 0x0808, 0x0808])));
    assert!(!is_private_ip(&v6([0, 0, 0, 0, 0, 0xfffe, 0x0a00, 0x0001])));
}
