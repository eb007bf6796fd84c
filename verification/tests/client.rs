use divvun_worker_tts::client::{client_address, parse_ip_address, IpAddress};

#[test]
fn ip_addresses_are_read() {
    assert_eq!(parse_ip_address("1.2.3.4"), Some(IpAddress::V4([1, 2, 3, 4])));
    assert_eq!(parse_ip_address("::1"), Some(IpAddress::V6([0, 0, 0, 0, 0, 0, 0, 1])));
    assert_eq!(parse_ip_address("256.1.1.1"), None);
    assert_eq!(parse_ip_address("1.2.3.4, 5.6.7.8"), None);
}

#[test]
fn real_ip_header_comes_first() {
    assert_eq!(
        client_address(Some("1.2.3.4"), Some("5.6.7.8"), Some(IpAddress::V4([9, 9, 9, 9]))),
        Some(IpAddress::V4([1, 2, 3, 4]))
    );
}

#[test]
fn forwarded_header_is_next() {
    assert_eq!(
        client_address(Some("junk"), Some("fe80::2"), None),
        Some(IpAddress::V6([0xfe80, 0, 0, 0, 0, 0, 0, 2]))
    );
    assert_eq!(
        client_address(None, Some("5.6.7.8"), Some(IpAddress::V4([9, 9, 9, 9]))),
        Some(IpAddress::V4([5, 6, 7, 8]))
    );
}

#[test]
fn peer_address_is_the_fallback() {
    let peer = Some(IpAddress::V4([9, 9, 9, 9]));
    assert_eq!(client_address(None, Some("a, b"), peer), peer);
    assert_eq!(client_address(None, None, None), None);
}
