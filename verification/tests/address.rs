use divvun_worker_tts::address::{AddressError, ListenerAddress};

fn tcp(a: &str) -> (String, u16) {
    match ListenerAddress::parse(a) {
        Ok(ListenerAddress::Tcp { host, port }) => (host, port),
        _ => panic!("expected a TCP address for {a}"),
    }
}

#[test]
fn tcp_address_is_read() {
    assert_eq!(tcp("tcp://127.0.0.1:4000"), ("127.0.0.1".to_string(), 4000));
    assert_eq!(tcp("tcp://:0"), ("".to_string(), 0));
    assert_eq!(tcp("tcp://localhost:+80"), ("localhost".to_string(), 80));
    assert_eq!(tcp("tcp://localhost:0065535"), ("localhost".to_string(), 65535));
}

#[test]
fn unix_address_is_read() {
    match ListenerAddress::parse("unix:///tmp/tts.sock") {
        Ok(ListenerAddress::Unix { path }) => assert_eq!(path, "/tmp/tts.sock"),
        _ => panic!("expected a socket path"),
    }
    match ListenerAddress::parse("unix://") {
        Ok(ListenerAddress::Unix { path }) => assert_eq!(path, ""),
        _ => panic!("expected a socket path"),
    }
}

#[test]
fn tcp_address_without_port_is_refused() {
    assert!(matches!(ListenerAddress::parse("tcp://localhost"), Err(AddressError::MissingPort)));
}

#[test]
fn bad_ports_are_refused_with_their_text() {
    for (address, text) in [
        ("tcp://h:65536", "65536"),
        ("tcp://h:", ""),
        ("tcp://h:+", "+"),
        ("tcp://h:-1", "-1"),
        ("tcp://h: 80", " 80"),
        ("tcp://[::1]:4000", ":1]:4000"),
    ] {
        match ListenerAddress::parse(address) {
            Err(AddressError::InvalidPort { text: t }) => assert_eq!(t, text),
            _ => panic!("expected an invalid port for {address}"),
        }
    }
}

#[test]
fn other_schemes_are_refused() {
    for address in ["http://localhost:80", "", "TCP://h:1", "unix:/x"] {
        assert!(matches!(ListenerAddress::parse(address), Err(AddressError::UnknownScheme)));
    }
}

#[test]
fn addresses_are_described() {
    let a = ListenerAddress::Tcp { host: "0.0.0.0".to_string(), port: 4000 };
    assert_eq!(a.describe(), "http://0.0.0.0:4000");
    let u = ListenerAddress::Unix { path: "/run/tts".to_string() };
    assert_eq!(u.describe(), "path: /run/tts");
}

#[test]
fn address_errors_have_messages() {
    assert_eq!(
        AddressError::MissingPort.message(),
        "Invalid TCP address format. Expected tcp://host:port"
    );
    assert_eq!(
        AddressError::InvalidPort { text: "x".to_string() }.message(),
        "Invalid port number: x"
    );
    assert_eq!(
        AddressError::UnknownScheme.message(),
        "Invalid address format. Use tcp://host:port or unix:///path/to/socket"
    );
}

#[test]
fn written_tcp_address_reads_back() {
    for (host, port) in [("example.org", 1u16), ("", 65535), ("10.0.0.1", 4000)] {
        let text = format!("tcp://{host}:{port}");
        assert_eq!(tcp(&text), (host.to_string(), port));
    }
}
