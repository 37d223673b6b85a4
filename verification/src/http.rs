//! Minimal loopback HTTP/1.1: addresses, request heads and responses.
//!
//! A request always carries `Connection: close` and its response is read to the
//! end of the stream, so the body is whatever follows the header block: there is
//! no chunked transfer and no keep-alive to handle.
use crate::{bytes, text};
use vstd::prelude::*;
use vstd::utf8;

verus! {

/// A parsed HTTP response: the numeric status code and the raw body bytes.
#[derive(Debug)]
pub struct Response {
    /// The HTTP status code from the response line (e.g. `200`, `404`).
    pub status: u16,
    /// The response body (everything after the blank line), verbatim.
    pub body: Vec<u8>,
}

/// Where to connect, and what to send as the `Host` header.
#[derive(Debug)]
pub struct Target {
    /// `host:port` to connect to (always with an explicit port).
    pub authority: String,
    /// The value of the `Host` request header (host plus non-default port).
    pub host_header: String,
}

/// Why a `--server` argument is no connect target.
#[derive(Debug)]
pub enum TargetError {
    /// The operator API is plain HTTP on loopback.
    HttpsUnsupported,
    /// There is nothing where the host should be.
    EmptyAddress,
    /// The address opens a bracket that it never closes.
    MalformedIpv6(String),
    /// What stands where the port should be is no port.
    InvalidPort(String),
}

/// The port of a URL that names none.
pub const DEFAULT_HTTP_PORT: u16 = 80;

/// [`Target`] as a value.
#[verifier::ext_equal]
pub struct TargetView {
    pub authority: Seq<char>,
    pub host_header: Seq<char>,
}

/// [`TargetError`] as a value.
#[verifier::ext_equal]
pub enum TargetErrorView {
    HttpsUnsupported,
    EmptyAddress,
    MalformedIpv6(Seq<char>),
    InvalidPort(Seq<char>),
}

impl View for Target {
    type V = TargetView;

    open spec fn view(&self) -> TargetView {
        TargetView { authority: self.authority@, host_header: self.host_header@ }
    }
}

impl View for TargetError {
    type V = TargetErrorView;

    open spec fn view(&self) -> TargetErrorView {
        match self {
            TargetError::HttpsUnsupported => TargetErrorView::HttpsUnsupported,
            TargetError::EmptyAddress => TargetErrorView::EmptyAddress,
            TargetError::MalformedIpv6(s) => TargetErrorView::MalformedIpv6(s@),
            TargetError::InvalidPort(s) => TargetErrorView::InvalidPort(s@),
        }
    }
}

impl TargetError {
    /// The message shown to the operator.
    pub fn message(&self) -> (out: String)
        ensures
            match self@ {
                TargetErrorView::HttpsUnsupported => out@
                    == "https is not supported: the operator API is plain HTTP on loopback (use http://...)"@,
                TargetErrorView::EmptyAddress => out@ == "empty server address"@,
                TargetErrorView::MalformedIpv6(a) => out@ == "malformed IPv6 address: "@ + a,
                TargetErrorView::InvalidPort(p) => out@ == "invalid port: "@ + p,
            },
    {
        match self {
            TargetError::HttpsUnsupported =>
                "https is not supported: the operator API is plain HTTP on loopback (use http://...)".to_owned(),
            TargetError::EmptyAddress => "empty server address".to_owned(),
            TargetError::MalformedIpv6(a) => {
                let mut out: String = "malformed IPv6 address: ".to_owned();
                text::push_str(&mut out, a.as_str());
                out
            },
            TargetError::InvalidPort(p) => {
                let mut out: String = "invalid port: ".to_owned();
                text::push_str(&mut out, p.as_str());
                out
            },
        }
    }
}

/// The part of a URL between the scheme and the path, query or fragment.
pub open spec fn authority_part(url: Seq<char>, scheme: Seq<char>) -> Seq<char> {
    let rest = if scheme.is_prefix_of(url) {
        url.skip(scheme.len() as int)
    } else {
        url
    };
    rest.take(text::run_until(rest, seq!['/', '?', '#']) as int)
}

pub open spec fn port_or_error(p: Seq<char>) -> Result<u16, TargetErrorView> {
    match text::u16_value(p) {
        Some(port) => Ok(port),
        None => Err(TargetErrorView::InvalidPort(p)),
    }
}

/// Host and port of an authority that opens with a bracket.
pub open spec fn bracketed_host_port(authority: Seq<char>) -> Result<
    (Seq<char>, u16),
    TargetErrorView,
> {
    let inner = authority.skip(1);
    let close = text::run_until(inner, seq![']']);
    if close == inner.len() {
        Err(TargetErrorView::MalformedIpv6(authority))
    } else {
        let after = inner.skip(close as int + 1);
        let host = seq!['['] + inner.take(close as int) + seq![']'];
        if after.len() > 0 && after[0] == ':' {
            match port_or_error(after.skip(1)) {
                Ok(port) => Ok((host, port)),
                Err(e) => Err(e),
            }
        } else {
            Ok((host, DEFAULT_HTTP_PORT))
        }
    }
}

/// Host and port of any other authority: the port is what follows the last
/// colon, if anything does.
pub open spec fn plain_host_port(authority: Seq<char>) -> Result<
    (Seq<char>, u16),
    TargetErrorView,
> {
    match text::last_index(authority, ':') {
        Some(i) => if i + 1 < authority.len() {
            match port_or_error(authority.skip(i as int + 1)) {
                Ok(port) => Ok((authority.take(i as int), port)),
                Err(e) => Err(e),
            }
        } else {
            Ok((authority, DEFAULT_HTTP_PORT))
        },
        None => Ok((authority, DEFAULT_HTTP_PORT)),
    }
}

pub open spec fn host_port(authority: Seq<char>) -> Result<(Seq<char>, u16), TargetErrorView> {
    if authority[0] == '[' {
        bracketed_host_port(authority)
    } else {
        plain_host_port(authority)
    }
}

/// `host:port`.
pub open spec fn joined(host: Seq<char>, port: u16) -> Seq<char> {
    host + seq![':'] + text::decimal(port as nat)
}

/// The connect target that a `--server` argument names.
pub open spec fn target_of(server: Seq<char>) -> Result<TargetView, TargetErrorView> {
    let url = text::trimmed(server);
    if "https://"@.is_prefix_of(url) {
        Err(TargetErrorView::HttpsUnsupported)
    } else {
        let authority = authority_part(url, "http://"@);
        if authority.len() == 0 {
            Err(TargetErrorView::EmptyAddress)
        } else {
            match host_port(authority) {
                Ok((host, port)) => Ok(
                    TargetView {
                        authority: joined(host, port),
                        host_header: if port == DEFAULT_HTTP_PORT {
                            host
                        } else {
                            joined(host, port)
                        },
                    },
                ),
                Err(e) => Err(e),
            }
        }
    }
}

/// The `Host` header is the address that is connected to, but for the default
/// port, which it leaves out.
pub proof fn law_host_header_names_the_authority(server: Seq<char>)
    ensures
        target_of(server) matches Ok(t) ==> t.authority == t.host_header || t.authority
            == t.host_header + ":80"@,
{
    reveal_strlit(":80");
    reveal_with_fuel(text::decimal, 2);
    if let Ok(t) = target_of(server) {
        let authority = authority_part(text::trimmed(server), "http://"@);
        if let Ok((host, port)) = host_port(authority) {
            if port == DEFAULT_HTTP_PORT {
                assert(text::decimal(80) =~= seq!['8', '0']);
                assert(joined(host, port) =~= host + ":80"@);
            }
        }
    }
}

/// An `https://` address is refused, whatever follows the scheme.
pub proof fn law_https_is_refused(server: Seq<char>)
    requires
        "https://"@.is_prefix_of(text::trimmed(server)),
    ensures
        target_of(server) is Err,
{
}

fn parse_port(p: &[char]) -> (out: Result<u16, TargetError>)
    ensures
        match out {
            Ok(port) => port_or_error(p@) == Ok::<u16, TargetErrorView>(port),
            Err(e) => port_or_error(p@) == Err::<u16, TargetErrorView>(e@),
        },
{
    match text::parse_u16(p) {
        Some(port) => Ok(port),
        None => Err(TargetError::InvalidPort(text::string_of(p))),
    }
}

/// Splits a non-empty authority into host and port.
fn split_authority(authority: &[char]) -> (out: Result<(String, u16), TargetError>)
    requires
        authority@.len() > 0,
    ensures
        match out {
            Ok(hp) => host_port(authority@) == Ok::<(Seq<char>, u16), TargetErrorView>(
                (hp.0@, hp.1),
            ),
            Err(e) => host_port(authority@) == Err::<(Seq<char>, u16), TargetErrorView>(e@),
        },
{
    let total: usize = authority.len();
    if authority[0] == '[' {
        let inner: &[char] = &authority[1..total];
        assert(inner@ =~= authority@.skip(1));
        let close: usize = text::find_any(inner, &[']']);
        assert([']']@ =~= seq![']']);
        if close == inner.len() {
            return Err(TargetError::MalformedIpv6(text::string_of(authority)));
        }
        let after: &[char] = &inner[close + 1..inner.len()];
        assert(after@ =~= inner@.skip(close + 1));
        let mut host: String = "[".to_owned();
        text::push_str(&mut host, text::string_of(&inner[0..close]).as_str());
        host.push(']');
        proof {
            reveal_strlit("[");
            assert(inner@.subrange(0, close as int) =~= inner@.take(close as int));
            assert(host@ =~= seq!['['] + inner@.take(close as int) + seq![']']);
        }
        if after.len() > 0 && after[0] == ':' {
            let p: &[char] = &after[1..after.len()];
            assert(p@ =~= after@.skip(1));
            match parse_port(p) {
                Ok(port) => Ok((host, port)),
                Err(e) => Err(e),
            }
        } else {
            Ok((host, DEFAULT_HTTP_PORT))
        }
    } else {
        match text::rfind(authority, ':') {
            Some(i) => {
                if i + 1 < total {
                    let p: &[char] = &authority[i + 1..total];
                    assert(p@ =~= authority@.skip(i + 1));
                    match parse_port(p) {
                        Ok(port) => {
                            let host: String = text::string_of(&authority[0..i]);
                            assert(host@ =~= authority@.take(i as int));
                            Ok((host, port))
                        },
                        Err(e) => Err(e),
                    }
                } else {
                    Ok((text::string_of(authority), DEFAULT_HTTP_PORT))
                }
            },
            None => Ok((text::string_of(authority), DEFAULT_HTTP_PORT)),
        }
    }
}

/// Parse a `--server` argument into a connect target.
///
/// Accepts `http://host`, `http://host:port`, `http://host:port/ignored-path`,
/// or a bare `host:port` / `host`. Rejects `https://` since the operator API is
/// plain HTTP on loopback.
pub fn parse_target(server: &str) -> (out: Result<Target, TargetError>)
    ensures
        match out {
            Ok(t) => target_of(server@) == Ok::<TargetView, TargetErrorView>(t@),
            Err(e) => target_of(server@) == Err::<TargetView, TargetErrorView>(e@),
        },
{
    let all: Vec<char> = text::chars_of(server);
    let url: &[char] = text::trim(all.as_slice());
    if text::starts_with_str(url, "https://") {
        return Err(TargetError::HttpsUnsupported);
    }
    proof {
        reveal_strlit("http://");
    }
    let rest: &[char] = if text::starts_with_str(url, "http://") {
        &url[7..url.len()]
    } else {
        url
    };
    assert("http://"@.is_prefix_of(url@) ==> rest@ =~= url@.skip("http://"@.len() as int));
    let end: usize = text::find_any(rest, &['/', '?', '#']);
    assert(['/', '?', '#']@ =~= seq!['/', '?', '#']);
    let authority: &[char] = &rest[0..end];
    assert(authority@ =~= authority_part(url@, "http://"@));
    if authority.len() == 0 {
        return Err(TargetError::EmptyAddress);
    }
    match split_authority(authority) {
        Ok((host, port)) => {
            let mut full: String = host.clone();
            full.push(':');
            text::push_decimal(&mut full, port as u64);
            assert(full@ =~= joined(host@, port));
            let host_header: String = if port == DEFAULT_HTTP_PORT {
                host
            } else {
                full.clone()
            };
            Ok(Target { authority: full, host_header })
        },
        Err(e) => Err(e),
    }
}

/// The head of a request: request line, fixed headers, and the two headers that
/// describe a body where there is one.
pub open spec fn head_of(
    method: Seq<char>,
    path: Seq<char>,
    host: Seq<char>,
    body_len: Option<nat>,
) -> Seq<char> {
    method + " "@ + path + " HTTP/1.1\r\nHost: "@ + host
        + "\r\nUser-Agent: aegisctl\r\nAccept: application/json\r\nConnection: close\r\n"@ + (
    match body_len {
        Some(n) => "Content-Type: application/json\r\nContent-Length: "@ + text::decimal(n) + "\r\n"@,
        None => Seq::empty(),
    }) + "\r\n"@
}

/// Builds the head of one request. `body_len` is the length of the JSON payload
/// that follows it, if one does.
pub fn request_head(method: &str, path: &str, host: &str, body_len: Option<usize>) -> (out: String)
    ensures
        out@ == head_of(
            method@,
            path@,
            host@,
            match body_len {
                Some(n) => Some(n as nat),
                None => None,
            },
        ),
{
    let mut out: String = method.to_owned();
    text::push_str(&mut out, " ");
    text::push_str(&mut out, path);
    text::push_str(&mut out, " HTTP/1.1\r\nHost: ");
    text::push_str(&mut out, host);
    text::push_str(
        &mut out,
        "\r\nUser-Agent: aegisctl\r\nAccept: application/json\r\nConnection: close\r\n",
    );
    let ghost fixed = out@;
    match body_len {
        Some(n) => {
            text::push_str(&mut out, "Content-Type: application/json\r\nContent-Length: ");
            text::push_decimal(&mut out, n as u64);
            text::push_str(&mut out, "\r\n");
            assert(out@ =~= fixed + ("Content-Type: application/json\r\nContent-Length: "@
                + text::decimal(n as nat) + "\r\n"@));
        },
        None => {
            assert(out@ =~= fixed + Seq::<char>::empty());
        },
    }
    text::push_str(&mut out, "\r\n");
    out
}

/// One request, ready to be sent: where to, and which bytes.
#[derive(Debug)]
pub struct PreparedRequest {
    pub authority: String,
    pub head: String,
}

/// Turns a `--server` argument, a verb, a request target and an optional JSON
/// payload into the address to connect to and the head to send before the
/// payload.
pub fn prepare_request(server: &str, method: &str, path: &str, body: Option<&[u8]>) -> (out: Result<
    PreparedRequest,
    TargetError,
>)
    ensures
        match out {
            Ok(r) => match target_of(server@) {
                Ok(t) => r.authority@ == t.authority && r.head@ == head_of(
                    method@,
                    path@,
                    t.host_header,
                    match body {
                        Some(b) => Some(b@.len()),
                        None => None,
                    },
                ),
                Err(_) => false,
            },
            Err(e) => target_of(server@) == Err::<TargetView, TargetErrorView>(e@),
        },
{
    match parse_target(server) {
        Ok(target) => {
            let body_len: Option<usize> = match body {
                Some(b) => Some(b.len()),
                None => None,
            };
            let head: String = request_head(method, path, target.host_header.as_str(), body_len);
            Ok(PreparedRequest { authority: target.authority, head })
        },
        Err(e) => Err(e),
    }
}

/// Why bytes are no HTTP response.
#[derive(Debug)]
pub enum ResponseError {
    /// The peer closed the connection without sending anything.
    Empty,
    /// No blank line ends the header block.
    NoHeaderTerminator,
    /// The status line is not UTF-8.
    NonUtf8StatusLine,
    /// The status line holds no token at all.
    EmptyStatusLine,
    /// The status line holds one token only.
    MissingStatusCode(String),
    /// The second token of the status line is no status code.
    InvalidStatusCode(String),
}

/// [`ResponseError`] as a value.
#[verifier::ext_equal]
pub enum ResponseErrorView {
    Empty,
    NoHeaderTerminator,
    NonUtf8StatusLine,
    EmptyStatusLine,
    MissingStatusCode(Seq<char>),
    InvalidStatusCode(Seq<char>),
}

impl View for ResponseError {
    type V = ResponseErrorView;

    open spec fn view(&self) -> ResponseErrorView {
        match self {
            ResponseError::Empty => ResponseErrorView::Empty,
            ResponseError::NoHeaderTerminator => ResponseErrorView::NoHeaderTerminator,
            ResponseError::NonUtf8StatusLine => ResponseErrorView::NonUtf8StatusLine,
            ResponseError::EmptyStatusLine => ResponseErrorView::EmptyStatusLine,
            ResponseError::MissingStatusCode(s) => ResponseErrorView::MissingStatusCode(s@),
            ResponseError::InvalidStatusCode(s) => ResponseErrorView::InvalidStatusCode(s@),
        }
    }
}

/// How many characters come before the first whitespace.
pub open spec fn word_len(s: Seq<char>) -> nat
    decreases s.len(),
{
    if s.len() == 0 || text::is_whitespace_char(s[0]) {
        0
    } else {
        1 + word_len(s.skip(1))
    }
}

/// The first whitespace-separated word and what follows it.
pub open spec fn split_word(s: Seq<char>) -> Option<(Seq<char>, Seq<char>)> {
    let t = text::trimmed_start(s);
    if t.len() == 0 {
        None
    } else {
        Some((t.take(word_len(t) as int), t.skip(word_len(t) as int)))
    }
}

fn next_word(s: &[char]) -> (out: Option<(&[char], &[char])>)
    ensures
        match out {
            Some(p) => split_word(s@) == Some((p.0@, p.1@)),
            None => split_word(s@) is None,
        },
{
    let t: &[char] = text::trim_start(s);
    if t.len() == 0 {
        return None;
    }
    let mut i: usize = 0;
    assert(t@.skip(0) =~= t@);
    while i < t.len() && !text::is_whitespace(t[i])
        invariant
            i <= t@.len(),
            word_len(t@) == i + word_len(t@.skip(i as int)),
        decreases t@.len() - i,
    {
        assert(t@.skip(i as int).skip(1) =~= t@.skip(i + 1));
        i = i + 1;
    }
    assert(t@.subrange(0, i as int) =~= t@.take(i as int));
    assert(t@.subrange(i as int, t@.len() as int) =~= t@.skip(i as int));
    Some((&t[0..i], &t[i..t.len()]))
}

/// The status code of a status line: its second word.
pub open spec fn status_of(line: Seq<char>) -> Result<u16, ResponseErrorView> {
    match split_word(line) {
        None => Err(ResponseErrorView::EmptyStatusLine),
        Some((_version, rest)) => match split_word(rest) {
            None => Err(ResponseErrorView::MissingStatusCode(line)),
            Some((code, _reason)) => match text::u16_value(code) {
                Some(status) => Ok(status),
                None => Err(ResponseErrorView::InvalidStatusCode(code)),
            },
        },
    }
}

/// Where the header block ends and where the body starts: around the first
/// `\r\n\r\n`, or else around the first `\n\n`.
pub open spec fn header_end(raw: Seq<u8>) -> Option<(nat, nat)> {
    match bytes::first_match(raw, seq![13u8, 10u8, 13u8, 10u8]) {
        Some(i) => Some((i, i + 4)),
        None => match bytes::first_match(raw, seq![10u8, 10u8]) {
            Some(i) => Some((i, i + 2)),
            None => None,
        },
    }
}

/// The header block up to its first `\r\n`.
pub open spec fn status_line_bytes(head: Seq<u8>) -> Seq<u8> {
    match bytes::first_match(head, seq![13u8, 10u8]) {
        Some(i) => head.take(i as int),
        None => head,
    }
}

/// The status code and body of a raw response.
pub open spec fn response_of(raw: Seq<u8>) -> Result<(u16, Seq<u8>), ResponseErrorView> {
    if raw.len() == 0 {
        Err(ResponseErrorView::Empty)
    } else {
        match header_end(raw) {
            None => Err(ResponseErrorView::NoHeaderTerminator),
            Some((end, start)) => {
                let line = status_line_bytes(raw.take(end as int));
                if !utf8::valid_utf8(line) {
                    Err(ResponseErrorView::NonUtf8StatusLine)
                } else {
                    match status_of(utf8::decode_utf8(line)) {
                        Ok(status) => Ok((status, raw.skip(start as int))),
                        Err(e) => Err(e),
                    }
                }
            },
        }
    }
}

/// Reads the status code out of a status line.
pub fn parse_status_line(line: &str) -> (out: Result<u16, ResponseError>)
    ensures
        match out {
            Ok(status) => status_of(line@) == Ok::<u16, ResponseErrorView>(status),
            Err(e) => status_of(line@) == Err::<u16, ResponseErrorView>(e@),
        },
{
    let chars: Vec<char> = text::chars_of(line);
    match next_word(chars.as_slice()) {
        None => Err(ResponseError::EmptyStatusLine),
        Some((_version, rest)) => match next_word(rest) {
            None => Err(ResponseError::MissingStatusCode(line.to_owned())),
            Some((code, _reason)) => match text::parse_u16(code) {
                Some(status) => Ok(status),
                None => Err(ResponseError::InvalidStatusCode(text::string_of(code))),
            },
        },
    }
}

fn find_header_end(raw: &[u8]) -> (out: Option<(usize, usize)>)
    ensures
        match out {
            Some(p) => header_end(raw@) == Some((p.0 as nat, p.1 as nat)) && p.0 <= p.1
                <= raw@.len(),
            None => header_end(raw@) is None,
        },
{
    let crlf2: [u8; 4] = [13, 10, 13, 10];
    assert(crlf2@ =~= seq![13u8, 10u8, 13u8, 10u8]);
    let lf2: [u8; 2] = [10, 10];
    assert(lf2@ =~= seq![10u8, 10u8]);
    let total: usize = raw.len();
    assert(raw@.len() == total);
    match bytes::find_subslice(raw, &crlf2) {
        Some(i) => Some((i, i + 4)),
        None => match bytes::find_subslice(raw, &lf2) {
            Some(i) => Some((i, i + 2)),
            None => None,
        },
    }
}

/// Split a raw HTTP response into its status code and body.
///
/// Finds the CRLF that ends the status line for the code, then the `\r\n\r\n`
/// that ends the headers; everything after is the body. Tolerates a bare `\n\n`
/// header terminator.
pub fn parse_response(raw: &[u8]) -> (out: Result<Response, ResponseError>)
    ensures
        match out {
            Ok(r) => response_of(raw@) == Ok::<(u16, Seq<u8>), ResponseErrorView>(
                (r.status, r.body@),
            ),
            Err(e) => response_of(raw@) == Err::<(u16, Seq<u8>), ResponseErrorView>(e@),
        },
{
    if raw.len() == 0 {
        return Err(ResponseError::Empty);
    }
    match find_header_end(raw) {
        None => Err(ResponseError::NoHeaderTerminator),
        Some((end, start)) => {
            let head: &[u8] = &raw[0..end];
            assert(head@ =~= raw@.take(end as int));
            let crlf: [u8; 2] = [13, 10];
            assert(crlf@ =~= seq![13u8, 10u8]);
            let line_end: usize = match bytes::find_subslice(head, &crlf) {
                Some(i) => i,
                None => head.len(),
            };
            let line: &[u8] = &head[0..line_end];
            assert(line@ =~= status_line_bytes(head@));
            match bytes::utf8_str(line) {
                None => Err(ResponseError::NonUtf8StatusLine),
                Some(text) => match parse_status_line(text) {
                    Ok(status) => {
                        let body: Vec<u8> = bytes::copy_of(&raw[start..raw.len()]);
                        assert(body@ =~= raw@.skip(start as int));
                        Ok(Response { status, body })
                    },
                    Err(e) => Err(e),
                },
            }
        },
    }
}

} // verus!
