//! The address the server listens on: `tcp://host:port` or `unix://path`.

use vstd::prelude::*;

use crate::text::{
    chars_of, decimal_text, has_prefix, lemma_parse_decimal_u16, parse_u16_chars,
    parse_u16_text, push_chars, push_decimal, push_str, starts_with_chars, string_of, sub_chars,
};

verus! {

/// Where the server accepts connections.
pub enum ListenerAddress {
    Tcp { host: String, port: u16 },
    Unix { path: String },
}

/// Why an address text was refused.
pub enum AddressError {
    /// `tcp://` without a `:` before the port.
    MissingPort,
    /// The text after the first `:` is not a 16-bit port number.
    InvalidPort { text: String },
    /// Neither `tcp://` nor `unix://`.
    UnknownScheme,
}

/// The mathematical form of a listener address.
pub enum AddressView {
    Tcp { host: Seq<char>, port: u16 },
    Unix { path: Seq<char> },
}

/// The mathematical form of an address error.
pub enum AddressErrorView {
    MissingPort,
    InvalidPort { text: Seq<char> },
    UnknownScheme,
}

impl View for ListenerAddress {
    type V = AddressView;

    open spec fn view(&self) -> AddressView {
        match self {
            ListenerAddress::Tcp { host, port } => AddressView::Tcp { host: host@, port: *port },
            ListenerAddress::Unix { path } => AddressView::Unix { path: path@ },
        }
    }
}

impl View for AddressError {
    type V = AddressErrorView;

    open spec fn view(&self) -> AddressErrorView {
        match self {
            AddressError::MissingPort => AddressErrorView::MissingPort,
            AddressError::InvalidPort { text } => AddressErrorView::InvalidPort { text: text@ },
            AddressError::UnknownScheme => AddressErrorView::UnknownScheme,
        }
    }
}

/// `tcp://`
pub open spec fn tcp_scheme() -> Seq<char> {
    seq!['t', 'c', 'p', ':', '/', '/']
}

/// `unix://`
pub open spec fn unix_scheme() -> Seq<char> {
    seq!['u', 'n', 'i', 'x', ':', '/', '/']
}

/// The position of the first `c` in `s`, if there is one.
pub open spec fn find_first(s: Seq<char>, c: char) -> Option<nat>
    decreases s.len(),
{
    if s.len() == 0 {
        None
    } else if s[0] == c {
        Some(0)
    } else {
        match find_first(s.drop_first(), c) {
            Some(i) => Some(i + 1),
            None => None,
        }
    }
}

/// What reading an address text gives: after `tcp://`, the host runs up to
/// the first `:` and the rest must be a port number; after `unix://`, the
/// rest is the socket path.
pub open spec fn parse_address(a: Seq<char>) -> Result<AddressView, AddressErrorView> {
    if has_prefix(a, tcp_scheme()) {
        let rest = a.skip(tcp_scheme().len() as int);
        match find_first(rest, ':') {
            None => Err(AddressErrorView::MissingPort),
            Some(i) => {
                let port_text = rest.skip(i + 1 as int);
                match parse_u16_text(port_text) {
                    Some(port) => Ok(AddressView::Tcp { host: rest.take(i as int), port }),
                    None => Err(AddressErrorView::InvalidPort { text: port_text }),
                }
            },
        }
    } else if has_prefix(a, unix_scheme()) {
        Ok(AddressView::Unix { path: a.skip(unix_scheme().len() as int) })
    } else {
        Err(AddressErrorView::UnknownScheme)
    }
}

/// The view of a parse result.
pub open spec fn parse_result_view(r: Result<ListenerAddress, AddressError>) -> Result<
    AddressView,
    AddressErrorView,
> {
    match r {
        Ok(a) => Ok(a@),
        Err(e) => Err(e@),
    }
}

/// How an address is shown in the log: `http://host:port` or `path: PATH`.
pub open spec fn address_text(a: AddressView) -> Seq<char> {
    match a {
        AddressView::Tcp { host, port } => seq!['h', 't', 't', 'p', ':', '/', '/'] + host + seq![
            ':',
        ] + decimal_text(port as nat),
        AddressView::Unix { path } => seq!['p', 'a', 't', 'h', ':', ' '] + path,
    }
}

/// The message of an address error.
pub open spec fn address_error_text(e: AddressErrorView) -> Seq<char> {
    match e {
        AddressErrorView::MissingPort => "Invalid TCP address format. Expected tcp://host:port"@,
        AddressErrorView::InvalidPort { text } => "Invalid port number: "@ + text,
        AddressErrorView::UnknownScheme =>
            "Invalid address format. Use tcp://host:port or unix:///path/to/socket"@,
    }
}

/// The position of the first `c` in `s`.
pub fn find_char(s: &[char], c: char) -> (r: Option<usize>)
    ensures
        match r {
            Some(i) => i < s.len() && find_first(s@, c) == Some(i as nat),
            None => find_first(s@, c) is None,
        },
{
    let mut i: usize = 0;
    assert(s@.skip(0) == s@);
    while i < s.len()
        invariant
            i <= s.len(),
            match find_first(s@.skip(i as int), c) {
                Some(k) => find_first(s@, c) == Some((k + i) as nat),
                None => find_first(s@, c) is None,
            },
        decreases s.len() - i,
    {
        if s[i] == c {
            return Some(i);
        }
        assert(s@.skip(i as int).drop_first() == s@.skip(i + 1));
        i += 1;
    }
    None
}

impl ListenerAddress {
    /// Reads `tcp://host:port` or `unix://path`.
    pub fn parse(address: &str) -> (r: Result<ListenerAddress, AddressError>)
        ensures
            parse_result_view(r) == parse_address(address@),
    {
        let a = chars_of(address);
        let tcp: Vec<char> = vec!['t', 'c', 'p', ':', '/', '/'];
        let unix: Vec<char> = vec!['u', 'n', 'i', 'x', ':', '/', '/'];
        assert(tcp@ == tcp_scheme());
        assert(unix@ == unix_scheme());
        if starts_with_chars(a.as_slice(), tcp.as_slice()) {
            let rest = sub_chars(a.as_slice(), 6, a.len());
            assert(rest@ == a@.skip(6));
            match find_char(rest.as_slice(), ':') {
                None => Err(AddressError::MissingPort),
                Some(i) => {
                    let host = sub_chars(rest.as_slice(), 0, i);
                    let port_text = sub_chars(rest.as_slice(), i + 1, rest.len());
                    assert(host@ == rest@.take(i as int));
                    assert(port_text@ == rest@.skip(i + 1));
                    match parse_u16_chars(port_text.as_slice()) {
                        Some(port) => Ok(
                            ListenerAddress::Tcp { host: string_of(host.as_slice()), port },
                        ),
                        None => Err(
                            AddressError::InvalidPort { text: string_of(port_text.as_slice()) },
                        ),
                    }
                },
            }
        } else if starts_with_chars(a.as_slice(), unix.as_slice()) {
            let path = sub_chars(a.as_slice(), 7, a.len());
            assert(path@ == a@.skip(7));
            Ok(ListenerAddress::Unix { path: string_of(path.as_slice()) })
        } else {
            Err(AddressError::UnknownScheme)
        }
    }

    /// The text under which the address is logged.
    pub fn describe(&self) -> (r: String)
        ensures
            r@ == address_text(self@),
    {
        let mut r = String::new();
        match self {
            ListenerAddress::Tcp { host, port } => {
                let scheme: Vec<char> = vec!['h', 't', 't', 'p', ':', '/', '/'];
                push_chars(&mut r, scheme.as_slice());
                push_str(&mut r, host.as_str());
                let colon: Vec<char> = vec![':'];
                push_chars(&mut r, colon.as_slice());
                push_decimal(&mut r, *port as u64);
                assert(r@ == seq!['h', 't', 't', 'p', ':', '/', '/'] + host@ + seq![':']
                    + decimal_text(*port as nat));
            },
            ListenerAddress::Unix { path } => {
                let label: Vec<char> = vec!['p', 'a', 't', 'h', ':', ' '];
                push_chars(&mut r, label.as_slice());
                push_str(&mut r, path.as_str());
                assert(r@ == seq!['p', 'a', 't', 'h', ':', ' '] + path@);
            },
        }
        r
    }
}

impl AddressError {
    /// The message reported for the error.
    pub fn message(&self) -> (r: String)
        ensures
            r@ == address_error_text(self@),
    {
        let mut r = String::new();
        match self {
            AddressError::MissingPort => {
                push_str(&mut r, "Invalid TCP address format. Expected tcp://host:port");
            },
            AddressError::InvalidPort { text } => {
                push_str(&mut r, "Invalid port number: ");
                push_str(&mut r, text.as_str());
            },
            AddressError::UnknownScheme => {
                push_str(
                    &mut r,
                    "Invalid address format. Use tcp://host:port or unix:///path/to/socket",
                );
            },
        }
        r
    }
}

/// In a text without `c` followed by `c` and more, the first `c` stands right
/// after that text.
pub proof fn lemma_find_first_after(prefix: Seq<char>, c: char, tail: Seq<char>)
    requires
        forall|i: int| 0 <= i < prefix.len() ==> prefix[i] != c,
    ensures
        find_first(prefix + seq![c] + tail, c) == Some(prefix.len()),
    decreases prefix.len(),
{
    let s = prefix + seq![c] + tail;
    if prefix.len() > 0 {
        lemma_find_first_after(prefix.drop_first(), c, tail);
        assert(s.drop_first() == prefix.drop_first() + seq![c] + tail);
        assert(s[0] == prefix[0]);
    } else {
        assert(s[0] == c);
    }
}

/// An address written as `tcp://HOST:PORT`, with a host free of colons and
/// the port in decimal, reads back as that host and port.
pub proof fn law_tcp_address_round_trip(host: Seq<char>, port: u16)
    requires
        forall|i: int| 0 <= i < host.len() ==> host[i] != ':',
    ensures
        parse_address(tcp_scheme() + host + seq![':'] + decimal_text(port as nat))
            == Ok::<AddressView, AddressErrorView>(AddressView::Tcp { host, port }),
{
    let a = tcp_scheme() + host + seq![':'] + decimal_text(port as nat);
    assert(a.take(6) == tcp_scheme());
    let rest = a.skip(6);
    assert(rest == host + seq![':'] + decimal_text(port as nat));
    lemma_find_first_after(host, ':', decimal_text(port as nat));
    assert(rest.skip(host.len() + 1 as int) == decimal_text(port as nat));
    assert(rest.take(host.len() as int) == host);
    lemma_parse_decimal_u16(port);
}

/// Any text after `unix://` is taken whole as the socket path.
pub proof fn law_unix_address_round_trip(path: Seq<char>)
    ensures
        parse_address(unix_scheme() + path) == Ok::<AddressView, AddressErrorView>(
            AddressView::Unix { path },
        ),
{
    let a = unix_scheme() + path;
    assert(a.take(7) == unix_scheme());
    assert(a.skip(7) == path);
    assert(a[0] == 'u');
    assert(a.take(6)[0] == 'u');
}

} // verus!
