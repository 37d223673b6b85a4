//! Laws of the clients: which address a text names, what is sent to it, what comes back,
//! and what an endpoint enrolls with.
use crate::agent::{self, EnrollVerdict, SecretError, SecretSource, ServerUrlError};
use crate::config::HostConfig;
use crate::http::{self, PreparedRequest, Response, ResponseError, Target, TargetError};
use crate::proto::Message;
use crate::{bytes, encoding, json, text, text_laws};
use vstd::prelude::*;
use vstd::utf8;

verus! {

proof fn lemma_without_slashes(s: Seq<char>, n: nat)
    requires
        s.len() > 0,
        s.last() != '/',
    ensures
        agent::without_slashes(s + Seq::new(n, |i: int| '/')) == s,
    decreases n,
{
    let all = s + Seq::new(n, |i: int| '/');
    if n > 0 {
        lemma_without_slashes(s, (n - 1) as nat);
        assert(all.drop_last() =~= s + Seq::new((n - 1) as nat, |i: int| '/'));
    } else {
        assert(all =~= s);
    }
}

proof fn lemma_after_scheme(scheme: Seq<char>, rest: Seq<char>)
    ensures
        scheme.is_prefix_of(scheme + rest),
        (scheme + rest).skip(scheme.len() as int) == rest,
{
    assert((scheme + rest).subrange(0, scheme.len() as int) =~= scheme);
    assert((scheme + rest).skip(scheme.len() as int) =~= rest);
}

proof fn lemma_schemes()
    ensures
        "https://"@.len() == 8,
        "http://"@.len() == 7,
        "https://"@[0] == 'h',
        "http://"@[0] == 'h',
        forall|rest: Seq<char>| !#[trigger] "https://"@.is_prefix_of("http://"@ + rest),
{
    reveal_strlit("https://");
    reveal_strlit("http://");
    assert("https://"@.len() == 8 && "https://"@[4] == 's');
    assert("http://"@.len() == 7 && "http://"@[4] == ':');
    assert forall|rest: Seq<char>| !#[trigger] "https://"@.is_prefix_of("http://"@ + rest) by {
        let url = "http://"@ + rest;
        if "https://"@.is_prefix_of(url) {
            assert(url.subrange(0, 8)[4] == url[4]);
            assert(url[4] == "http://"@[4]);
        }
    }
}

/// The address of a server is what stands between its scheme, if it has one, and the
/// slashes at its end. The port is what follows its last colon, if something comes
/// before that, and 8443 where there is none; what is no port there is refused.
pub proof fn law_server_address(
    server: &str,
    res: Result<(String, u16), ServerUrlError>,
    scheme: Seq<char>,
    body: Seq<char>,
    slashes: nat,
    host: Seq<char>,
    tail: Seq<char>,
)
    requires
        call_ensures(agent::parse_server_url, (server,), res),
        scheme == "https://"@ || scheme == "http://"@ || scheme.len() == 0,
        scheme.len() == 0 ==> !"https://"@.is_prefix_of(server@) && !"http://"@.is_prefix_of(
            server@,
        ),
        server@ == scheme + (body + Seq::new(slashes, |i: int| '/')),
        body.len() > 0,
        body.last() != '/',
        !text::is_whitespace_char(body[0]),
        !text::is_whitespace_char(body.last()),
    ensures
        !body.contains(':') ==> (res matches Ok(out) && out.0@ == body && out.1 == 8443),
        body == host + seq![':'] + tail && host.len() > 0 && !tail.contains(':') ==> match res {
            Ok(out) => out.0@ == host && text::u16_value(tail) == Some(out.1),
            Err(e) => e == ServerUrlError::InvalidPort && text::u16_value(tail) is None,
        },
{
    lemma_schemes();
    let rest = body + Seq::new(slashes, |i: int| '/');
    let url = server@;
    assert(url[0] == 'h' || url[0] == body[0]);
    assert(url.last() == '/' || url.last() == body.last());
    text_laws::law_trimmed_text_stays(url);
    if scheme.len() > 0 {
        lemma_after_scheme(scheme, rest);
    } else {
        assert(url =~= rest);
    }
    lemma_without_slashes(body, slashes);
    assert(agent::bare_address(server@) == body);
    text_laws::lemma_last_index(body, ':');
    if body == host + seq![':'] + tail && host.len() > 0 && !tail.contains(':') {
        assert(body[host.len() as int] == ':');
        assert(body.contains(':'));
        let i = text::last_index(body, ':').unwrap();
        if i > host.len() {
            assert(tail[i - host.len() - 1] == body[i as int]);
        }
        assert(i == host.len());
        assert(body.skip(i as int + 1) =~= tail);
        assert(body.take(i as int) =~= host);
    }
}

/// A text of nothing but whitespace is no address.
pub proof fn law_blank_is_no_address(
    server: &str,
    res: Result<(String, u16), ServerUrlError>,
)
    requires
        call_ensures(agent::parse_server_url, (server,), res),
        text::trimmed(server@).len() == 0,
    ensures
        res == Err::<(String, u16), ServerUrlError>(ServerUrlError::Empty),
{
    lemma_schemes();
}

/// A blob is preferred to a token file, and that to a token; a dash for the blob is the
/// standard input.
pub proof fn law_secret_sources_in_order(
    blob: Option<&str>,
    token_file: Option<&str>,
    token: Option<&str>,
    source: SecretSource,
)
    requires
        call_ensures(agent::choose_secret, (blob, token_file, token), source),
    ensures
        blob matches Some(b) ==> (b@ == "-"@ ==> source is BlobStdin) && (b@ != "-"@ ==> (
        source matches SecretSource::BlobFile(f) && f@ == b@)),
        blob is None && token_file is Some ==> (source matches SecretSource::TokenFile(f) && f@
            == token_file.unwrap()@),
        blob is None && token_file is None && token is Some ==> (
        source matches SecretSource::Token(t) && t@ == token.unwrap()@),
        blob is None && token_file is None && token is None ==> source is Missing,
{
}

/// A secret is a token and a pin. The token of a file is trimmed and goes before one that
/// was given, which is taken as it is; the pin is thirty-two bytes of hexadecimal text.
pub proof fn law_secret_is_token_and_pin(
    file: Option<&str>,
    token: Option<&str>,
    pin_hex: Option<&str>,
    res: Result<(String, [u8; 32]), SecretError>,
)
    requires
        call_ensures(agent::resolve_enroll_secret, (file, token, pin_hex), res),
    ensures
        res matches Ok(out) ==> {
            &&& file matches Some(t) ==> out.0@ == text::trimmed(t@)
            &&& file is None ==> token is Some && out.0@ == token.unwrap()@
            &&& pin_hex is Some
            &&& encoding::unhex(text::trimmed(pin_hex.unwrap()@)) == Some(out.1@)
        },
        file is None && token is None <==> res == Err::<(String, [u8; 32]), SecretError>(
            SecretError::Missing,
        ),
        (file is Some || token is Some) && pin_hex is None <==> res == Err::<
            (String, [u8; 32]),
            SecretError,
        >(SecretError::PinRequired),
        res == Err::<(String, [u8; 32]), SecretError>(SecretError::BadPin) ==> pin_hex is Some && !(
        encoding::unhex(text::trimmed(pin_hex.unwrap()@)) matches Some(raw) && raw.len() == 32),
{
}

/// What is said of a secret that is none.
pub proof fn law_secret_messages(error: &SecretError, said: String)
    requires
        call_ensures(SecretError::message, (error,), said),
    ensures
        *error == SecretError::Missing ==> said@
            == "provide --enroll-blob, --token-file, or --token"@,
        *error == SecretError::PinRequired ==> said@
            == "--pin <hex64> is required when enrolling with --token/--token-file"@,
        *error == SecretError::BadPin ==> said@
            == "--pin must be 64-char lowercase hex (SHA-256 of the server leaf cert)"@,
{
}

/// An acceptance enrolls under the identifier that it names; a refusal gives its reason,
/// or says that there is none; anything else is no answer.
pub proof fn law_enroll_answer_means_what_it_says(resp: &Message, verdict: EnrollVerdict)
    requires
        call_ensures(agent::judge_enroll_response, (resp,), verdict),
    ensures
        *resp matches Message::EnrollResponse { accepted, agent_id, reason } ==> {
            &&& accepted ==> (verdict matches EnrollVerdict::Enrolled(id) && id@ == agent_id@)
            &&& !accepted && reason is Some ==> (verdict matches EnrollVerdict::Rejected(r) && r@
                == reason.unwrap()@)
            &&& !accepted && reason is None ==> (verdict matches EnrollVerdict::Rejected(r) && r@
                == "no reason given"@)
        },
        !(resp is EnrollResponse) ==> verdict is Unexpected,
{
}

/// A request to enroll presents each thing that it was given under its own name.
pub proof fn law_enroll_request_presents_what_it_is_given(
    token: &str,
    hostname: &str,
    os: &str,
    key: Vec<u8>,
    msg: Message,
)
    requires
        call_ensures(agent::enroll_request, (token, hostname, os, key), msg),
    ensures
        msg matches Message::EnrollRequest { token: t, hostname: h, os: o, agent_pubkey: k } && t@
            == token@ && h@ == hostname@ && o@ == os@ && k@ == key@,
{
}

/// The hostname is what the file says, trimmed, and `unknown` without one. The system is
/// the platform, and a space and the release where that is known.
pub proof fn law_endpoint_describes_itself(
    file: Option<&str>,
    name: String,
    base: &str,
    release: Option<&str>,
    os: String,
)
    requires
        call_ensures(agent::read_hostname, (file,), name),
        call_ensures(agent::os_descriptor, (base, release), os),
    ensures
        file matches Some(s) ==> name@ == text::trimmed(s@),
        file is None ==> name@ == "unknown"@,
        release is None ==> os@ == base@,
        release matches Some(r) ==> (text::trimmed(r@).len() == 0 ==> os@ == base@) && (
        text::trimmed(r@).len() > 0 ==> os@ == base@ + " "@ + text::trimmed(r@)),
{
}

/// The identity is kept where the transport keeps its data.
pub proof fn law_identity_is_the_transports(data_dir: &str, dir: String)
    requires
        call_ensures(agent::identity_dir, (data_dir,), dir),
        data_dir@.len() > 0,
        data_dir@.last() != '/',
    ensures
        dir@ == data_dir@ + seq!['/'] + "plugin-transport"@,
{
    reveal_strlit("plugin-transport");
    assert("plugin-transport"@[0] == 'p');
}

/// Putting the server into a configuration changes the transport's subtree alone; one
/// that names a server stays as it is, and one that is an object and names none gets it.
pub proof fn law_server_is_put_where_none_is(
    config: &mut HostConfig,
    server: &str,
    before: &HostConfig,
    after: &HostConfig,
    name: &str,
    was: String,
    is: String,
)
    requires
        *before == *old(config),
        call_ensures(agent::inject_server, (config, server), ()),
        *after == *final(config),
        call_ensures(HostConfig::plugin_config, (before, name), was),
        call_ensures(HostConfig::plugin_config, (after, name), is),
    ensures
        name@ != "plugin-transport"@ ==> is@ == was@,
        name@ == "plugin-transport"@ && (exists|i: int|
            0 <= i < before.plugins@.len() && (#[trigger] before.plugins@[i]).0@ == name@) ==> {
            let with = json::object_with(was@, "server"@, server@);
            &&& json::object_has(was@, "server"@) != Some(false) ==> is@ == was@
            &&& json::object_has(was@, "server"@) == Some(false) && with is Some ==> is@
                == with.unwrap()
        },
        name@ == "plugin-transport"@ && !(exists|i: int|
            0 <= i < before.plugins@.len() && (#[trigger] before.plugins@[i]).0@ == name@) ==> {
            let with = json::object_with("{}"@, "server"@, server@);
            &&& json::object_has("{}"@, "server"@) != Some(false) ==> is@ == "{}"@
            &&& json::object_has("{}"@, "server"@) == Some(false) && with is Some ==> is@
                == with.unwrap()
        },
        after.agent_id@ == before.agent_id@,
        after.data_dir@ == before.data_dir@,
        after.queue_depth == before.queue_depth,
        after.enabled_plugins == before.enabled_plugins,
        after.disabled_plugins == before.disabled_plugins,
        after.dynamic_plugins == before.dynamic_plugins,
{
}

/// An address with an `https://` scheme is refused.
pub proof fn law_https_target_is_refused(server: &str, res: Result<Target, TargetError>)
    requires
        call_ensures(http::parse_target, (server,), res),
        "https://"@.is_prefix_of(text::trimmed(server@)),
    ensures
        res matches Err(e) && e is HttpsUnsupported,
{
}

/// The connect target is what stands between the scheme, if there is one, and the first
/// slash, question mark or hash. The port is what follows the last colon, and 80 where
/// there is none; the `Host` header names it unless it is 80.
pub proof fn law_target_of_a_name(
    server: &str,
    res: Result<Target, TargetError>,
    scheme: Seq<char>,
    authority: Seq<char>,
    path: Seq<char>,
    host: Seq<char>,
    tail: Seq<char>,
)
    requires
        call_ensures(http::parse_target, (server,), res),
        named_target(server@, scheme, authority, path),
        authority[0] != '[',
    ensures
        !authority.contains(':') ==> (res matches Ok(t) && t.authority@ == authority + ":80"@
            && t.host_header@ == authority),
        authority == host + seq![':'] + tail && tail.len() > 0 && !tail.contains(':')
            ==> match text::u16_value(tail) {
            Some(port) => res matches Ok(t) && t.authority@ == host + seq![':'] + text::decimal(
                port as nat,
            ) && t.host_header@ == (if port == 80 {
                host
            } else {
                host + seq![':'] + text::decimal(port as nat)
            }),
            None => res matches Err(TargetError::InvalidPort(p)) && p@ == tail,
        },
{
    lemma_authority(server@, scheme, authority, path);
    lemma_port_80(authority);
    text_laws::lemma_last_index(authority, ':');
    if authority == host + seq![':'] + tail && tail.len() > 0 && !tail.contains(':') {
        assert(authority[host.len() as int] == ':');
        assert(authority.contains(':'));
        let i = text::last_index(authority, ':').unwrap();
        if i > host.len() {
            assert(tail[i - host.len() - 1] == authority[i as int]);
        }
        assert(i == host.len());
        assert(authority.skip(i as int + 1) =~= tail);
        assert(authority.take(i as int) =~= host);
    }
}

/// An address in brackets is the host, brackets and all; its port follows a colon after
/// them. A bracket that is never closed is refused.
pub proof fn law_target_in_brackets(
    server: &str,
    res: Result<Target, TargetError>,
    scheme: Seq<char>,
    authority: Seq<char>,
    path: Seq<char>,
    address: Seq<char>,
    tail: Seq<char>,
)
    requires
        call_ensures(http::parse_target, (server,), res),
        named_target(server@, scheme, authority, path),
        authority[0] == '[',
        !address.contains(']'),
    ensures
        !authority.contains(']') ==> (res matches Err(TargetError::MalformedIpv6(a)) && a@
            == authority),
        authority == seq!['['] + address + seq![']'] ==> (res matches Ok(t) && t.authority@
            == authority + ":80"@ && t.host_header@ == authority),
        authority == seq!['['] + address + seq![']', ':'] + tail ==> match text::u16_value(tail) {
            Some(port) => res matches Ok(t) && t.authority@ == seq!['['] + address + seq![']', ':']
                + text::decimal(port as nat),
            None => res matches Err(TargetError::InvalidPort(p)) && p@ == tail,
        },
{
    lemma_authority(server@, scheme, authority, path);
    lemma_port_80(authority);
    let inner = authority.skip(1);
    let stop = seq![']'];
    text_laws::lemma_run_until(inner, stop);
    let close = text::run_until(inner, stop) as int;
    assert(stop[0] == ']');
    if !authority.contains(']') {
        if close < inner.len() {
            assert(inner[close] == authority[close + 1]);
        }
    }
    if authority == seq!['['] + address + seq![']'] || authority == seq!['['] + address + seq![
        ']',
        ':',
    ] + tail {
        let n = address.len() as int;
        assert(authority[n + 1] == ']');
        assert(inner[n] == ']');
        if close < n {
            assert(inner[close] == address[close]);
        } else if close > n {
            assert(stop.contains(inner[n]));
        }
        assert(inner.take(n) =~= address);
        let host = seq!['['] + address + seq![']'];
        if authority == host {
            assert(inner.skip(n + 1) =~= Seq::empty());
        } else {
            assert(inner.skip(n + 1) =~= seq![':'] + tail);
            assert(inner.skip(n + 1).skip(1) =~= tail);
            if let Some(port) = text::u16_value(tail) {
                assert(host + seq![':'] + text::decimal(port as nat) =~= seq!['['] + address + seq![
                    ']',
                    ':',
                ] + text::decimal(port as nat));
            }
        }
    }
}

/// An address is put together of a scheme or none, an authority and a path or nothing.
pub open spec fn named_target(
    server: Seq<char>,
    scheme: Seq<char>,
    authority: Seq<char>,
    path: Seq<char>,
) -> bool {
    &&& scheme == "http://"@ || scheme.len() == 0 && !"https://"@.is_prefix_of(server)
        && !"http://"@.is_prefix_of(server)
    &&& server == scheme + (authority + path)
    &&& authority.len() > 0
    &&& !authority.contains('/') && !authority.contains('?') && !authority.contains('#')
    &&& path.len() > 0 ==> path[0] == '/' || path[0] == '?' || path[0] == '#'
    &&& !text::is_whitespace_char(authority[0])
    &&& !text::is_whitespace_char(server.last())
}

proof fn lemma_port_80(host: Seq<char>)
    ensures
        http::joined(host, 80) == host + ":80"@,
{
    reveal_strlit(":80");
    reveal_with_fuel(text::decimal, 2);
    assert(text::decimal(80) =~= seq!['8', '0']);
    assert(http::joined(host, 80) =~= host + ":80"@);
}

proof fn lemma_authority(
    server: Seq<char>,
    scheme: Seq<char>,
    authority: Seq<char>,
    path: Seq<char>,
)
    requires
        named_target(server, scheme, authority, path),
    ensures
        text::trimmed(server) == server,
        !"https://"@.is_prefix_of(server),
        http::authority_part(server, "http://"@) == authority,
{
    lemma_schemes();
    let rest = authority + path;
    assert(server[0] == 'h' || server[0] == authority[0]);
    text_laws::law_trimmed_text_stays(server);
    if scheme.len() > 0 {
        lemma_after_scheme(scheme, rest);
    } else {
        assert(server =~= rest);
    }
    let stops = seq!['/', '?', '#'];
    text_laws::lemma_run_until(rest, stops);
    let n = text::run_until(rest, stops) as int;
    assert(stops[0] == '/' && stops[1] == '?' && stops[2] == '#');
    if n < authority.len() {
        assert(rest[n] == authority[n]);
        assert(authority.contains(rest[n]));
    }
    if n > authority.len() {
        assert(rest[authority.len() as int] == path[0]);
        assert(stops.contains(path[0]));
    }
    assert(rest.take(authority.len() as int) =~= authority);
}

/// What is said of an address that is no target.
pub proof fn law_target_messages(error: &TargetError, said: String)
    requires
        call_ensures(TargetError::message, (error,), said),
    ensures
        *error is HttpsUnsupported ==> said@
            == "https is not supported: the operator API is plain HTTP on loopback (use http://...)"@,
        *error is EmptyAddress ==> said@ == "empty server address"@,
        *error matches TargetError::MalformedIpv6(a) ==> said@ == "malformed IPv6 address: "@ + a@,
        *error matches TargetError::InvalidPort(p) ==> said@ == "invalid port: "@ + p@,
{
}

/// The head of a request: its line, the host it is for, and the length of the payload if
/// there is one.
pub proof fn law_request_head(
    method: &str,
    path: &str,
    host: &str,
    length: usize,
    bare: String,
    loaded: String,
)
    requires
        call_ensures(http::request_head, (method, path, host, None::<usize>), bare),
        call_ensures(http::request_head, (method, path, host, Some(length)), loaded),
    ensures
        ({
            let start = method@ + " "@ + path@ + " HTTP/1.1\r\nHost: "@ + host@
                + "\r\nUser-Agent: aegisctl\r\nAccept: application/json\r\nConnection: close\r\n"@;
            &&& bare@ == start + "\r\n"@
            &&& loaded@ == start + ("Content-Type: application/json\r\nContent-Length: "@
                + text::decimal(length as nat) + "\r\n"@) + "\r\n"@
        }),
{
    let start = method@ + " "@ + path@ + " HTTP/1.1\r\nHost: "@ + host@
        + "\r\nUser-Agent: aegisctl\r\nAccept: application/json\r\nConnection: close\r\n"@;
    assert(start + Seq::<char>::empty() =~= start);
}

/// A request goes to the target of its server, with the head that names that target and
/// the length of its payload.
pub proof fn law_request_goes_to_its_server(
    server: &str,
    target: Target,
    method: &str,
    path: &str,
    body: Option<&[u8]>,
    length: Option<usize>,
    host: &str,
    head: String,
    out: Result<PreparedRequest, TargetError>,
)
    requires
        call_ensures(http::parse_target, (server,), Ok::<Target, TargetError>(target)),
        host@ == target.host_header@,
        body matches Some(b) ==> (length matches Some(n) && n == b@.len()),
        body is None ==> length is None,
        call_ensures(http::request_head, (method, path, host, length), head),
        call_ensures(http::prepare_request, (server, method, path, body), out),
    ensures
        out matches Ok(request) && request.authority@ == target.authority@ && request.head@
            == head@,
{
}

proof fn lemma_word(word: Seq<char>, rest: Seq<char>)
    requires
        word.len() > 0,
        forall|i: int| 0 <= i < word.len() ==> !text::is_whitespace_char(#[trigger] word[i]),
        rest.len() > 0 ==> text::is_whitespace_char(rest[0]),
    ensures
        http::split_word(word + rest) == Some((word, rest)),
{
    let all = word + rest;
    assert(all[0] == word[0]);
    lemma_word_len(word, rest);
    assert(all.take(word.len() as int) =~= word);
    assert(all.skip(word.len() as int) =~= rest);
}

proof fn lemma_word_len(word: Seq<char>, rest: Seq<char>)
    requires
        forall|i: int| 0 <= i < word.len() ==> !text::is_whitespace_char(#[trigger] word[i]),
        rest.len() > 0 ==> text::is_whitespace_char(rest[0]),
    ensures
        http::word_len(word + rest) == word.len(),
    decreases word.len(),
{
    let all = word + rest;
    if word.len() > 0 {
        assert(all[0] == word[0]);
        let tail = word.skip(1);
        assert forall|i: int| 0 <= i < tail.len() implies !text::is_whitespace_char(
            #[trigger] tail[i],
        ) by {
            assert(tail[i] == word[i + 1]);
        }
        assert(all.skip(1) =~= tail + rest);
        lemma_word_len(tail, rest);
    } else {
        assert(all =~= rest);
    }
}

/// The status of a response is the second word of its first line, if that is a number of
/// sixteen bits.
pub proof fn law_status_is_the_second_word(
    line: &str,
    out: Result<u16, ResponseError>,
    version: Seq<char>,
    code: Seq<char>,
    reason: Seq<char>,
)
    requires
        call_ensures(http::parse_status_line, (line,), out),
        line@ == version + (" "@ + (code + reason)),
        version.len() > 0,
        code.len() > 0,
        forall|i: int| 0 <= i < version.len() ==> !text::is_whitespace_char(#[trigger] version[i]),
        forall|i: int| 0 <= i < code.len() ==> !text::is_whitespace_char(#[trigger] code[i]),
        reason.len() > 0 ==> text::is_whitespace_char(reason[0]),
    ensures
        match text::u16_value(code) {
            Some(status) => out == Ok::<u16, ResponseError>(status),
            None => out matches Err(ResponseError::InvalidStatusCode(c)) && c@ == code,
        },
{
    reveal_strlit(" ");
    assert(" "@ =~= seq![' ']);
    let rest = " "@ + (code + reason);
    assert(rest[0] == ' ');
    lemma_word(version, rest);
    assert(rest.skip(1) =~= code + reason);
    lemma_word(code, reason);
    assert((code + reason)[0] == code[0]);
    assert(text::trimmed_start(rest) == text::trimmed_start(rest.skip(1)));
    assert(http::split_word(rest) == http::split_word(code + reason));
}

/// A status is read back from the line that it is written in.
pub proof fn law_status_round_trip(
    line: &str,
    out: Result<u16, ResponseError>,
    version: Seq<char>,
    status: u16,
    reason: Seq<char>,
)
    requires
        call_ensures(http::parse_status_line, (line,), out),
        line@ == version + (" "@ + (text::decimal(status as nat) + reason)),
        version.len() > 0,
        forall|i: int| 0 <= i < version.len() ==> !text::is_whitespace_char(#[trigger] version[i]),
        reason.len() > 0 ==> text::is_whitespace_char(reason[0]),
    ensures
        out == Ok::<u16, ResponseError>(status),
{
    let code = text::decimal(status as nat);
    text_laws::lemma_decimal(status as nat);
    assert forall|i: int| 0 <= i < code.len() implies !text::is_whitespace_char(
        #[trigger] code[i],
    ) by {
        assert(text::is_digit_char(code[i]));
    }
    text_laws::law_port_round_trip(status);
    law_status_is_the_second_word(line, out, version, code, reason);
}

/// A blank line of a response has no word, and one word is no status.
pub proof fn law_short_status_lines(line: &str, out: Result<u16, ResponseError>)
    requires
        call_ensures(http::parse_status_line, (line,), out),
    ensures
        text::trimmed_start(line@).len() == 0 ==> (out matches Err(e) && e is EmptyStatusLine),
        line@.len() > 0 && (forall|i: int|
            0 <= i < line@.len() ==> !text::is_whitespace_char(#[trigger] line@[i])) ==> (
        out matches Err(ResponseError::MissingStatusCode(l)) && l@ == line@),
{
    if line@.len() > 0 && (forall|i: int|
        0 <= i < line@.len() ==> !text::is_whitespace_char(#[trigger] line@[i])) {
        lemma_word(line@, Seq::empty());
        assert(line@ + Seq::<char>::empty() =~= line@);
    }
}

/// The bytes have this run at this place.
pub open spec fn has_at(raw: Seq<u8>, at: int, run: Seq<u8>) -> bool {
    raw.subrange(at, at + run.len()) == run
}

/// The empty line after lines that end with carriage return and line feed.
pub open spec fn crlf_blank() -> Seq<u8> {
    seq![13u8, 10u8, 13u8, 10u8]
}

/// Carriage return and line feed.
pub open spec fn crlf() -> Seq<u8> {
    seq![13u8, 10u8]
}

/// The empty line after lines that end with a line feed.
pub open spec fn lf_blank() -> Seq<u8> {
    seq![10u8, 10u8]
}

proof fn lemma_found_at(raw: Seq<u8>, run: Seq<u8>, at: int)
    requires
        run.len() > 0,
        0 <= at,
        at + run.len() <= raw.len(),
        has_at(raw, at, run),
        forall|j: int| 0 <= j < at ==> !#[trigger] has_at(raw, j, run),
    ensures
        bytes::first_match(raw, run) == Some(at as nat),
{
    text_laws::lemma_first_match(raw, run);
    if let Some(i) = bytes::first_match(raw, run) {
        assert(has_at(raw, i as int, run));
        if at < i {
            assert(raw.subrange(at, at + run.len()) != run);
        }
    } else {
        assert(raw.subrange(at, at + run.len()) != run);
    }
}

proof fn lemma_not_found(raw: Seq<u8>, run: Seq<u8>)
    requires
        run.len() > 0,
        forall|j: int| 0 <= j && j + run.len() <= raw.len() ==> !#[trigger] has_at(raw, j, run),
    ensures
        bytes::first_match(raw, run) is None,
{
    text_laws::lemma_first_match(raw, run);
    if let Some(i) = bytes::first_match(raw, run) {
        assert(has_at(raw, i as int, run));
    }
}

/// The body of a response is what follows the first empty line, byte for byte.
pub proof fn law_body_follows_the_empty_line(
    raw: &[u8],
    out: Response,
    head: Seq<u8>,
    body: Seq<u8>,
)
    requires
        call_ensures(http::parse_response, (raw,), Ok::<Response, ResponseError>(out)),
        raw@ == head + crlf_blank() + body,
        forall|j: int| 0 <= j < head.len() ==> !#[trigger] has_at(raw@, j, crlf_blank()),
    ensures
        out.body@ == body,
{
    let n = head.len() as int;
    assert(raw@.subrange(n, n + 4) =~= crlf_blank());
    lemma_found_at(raw@, crlf_blank(), n);
    assert(raw@.skip(n + 4) =~= body);
}

/// Where no lines end with carriage return and line feed, the empty line is one of line
/// feeds alone.
pub proof fn law_body_follows_the_bare_empty_line(
    raw: &[u8],
    out: Response,
    head: Seq<u8>,
    body: Seq<u8>,
)
    requires
        call_ensures(http::parse_response, (raw,), Ok::<Response, ResponseError>(out)),
        raw@ == head + lf_blank() + body,
        forall|j: int| 0 <= j && j + 4 <= raw@.len() ==> !#[trigger] has_at(raw@, j, crlf_blank()),
        forall|j: int| 0 <= j < head.len() ==> !#[trigger] has_at(raw@, j, lf_blank()),
    ensures
        out.body@ == body,
{
    let n = head.len() as int;
    assert(raw@.subrange(n, n + 2) =~= lf_blank());
    lemma_not_found(raw@, crlf_blank());
    lemma_found_at(raw@, lf_blank(), n);
    assert(raw@.skip(n + 2) =~= body);
}

/// A response of no bytes is empty, and one without an empty line has no end of its
/// header block.
pub proof fn law_response_needs_an_empty_line(raw: &[u8], out: Result<Response, ResponseError>)
    requires
        call_ensures(http::parse_response, (raw,), out),
        forall|j: int| 0 <= j && j + 4 <= raw@.len() ==> !#[trigger] has_at(raw@, j, crlf_blank()),
        forall|j: int| 0 <= j && j + 2 <= raw@.len() ==> !#[trigger] has_at(raw@, j, lf_blank()),
    ensures
        raw@.len() == 0 ==> (out matches Err(e) && e is Empty),
        raw@.len() > 0 ==> (out matches Err(e) && e is NoHeaderTerminator),
{
    lemma_not_found(raw@, crlf_blank());
    lemma_not_found(raw@, lf_blank());
}

proof fn lemma_split_at_blank(raw: Seq<u8>, head: Seq<u8>, body: Seq<u8>)
    requires
        raw == head + crlf_blank() + body,
        forall|j: int| 0 <= j < head.len() ==> !#[trigger] has_at(raw, j, crlf_blank()),
    ensures
        http::header_end(raw) == Some((head.len(), head.len() + 4)),
        raw.take(head.len() as int) == head,
        raw.skip(head.len() as int + 4) == body,
        raw.len() > 0,
{
    let n = head.len() as int;
    assert(raw.subrange(n, n + 4) =~= crlf_blank());
    lemma_found_at(raw, crlf_blank(), n);
    assert(raw.skip(n + 4) =~= body);
    assert(raw.take(n) =~= head);
}

proof fn lemma_first_line(raw: Seq<u8>, first: Seq<u8>, fields: Seq<u8>, rest: Seq<u8>)
    requires
        raw == first + crlf() + fields + rest,
        forall|j: int| 0 <= j < first.len() ==> !#[trigger] has_at(raw, j, crlf()),
    ensures
        http::status_line_bytes(first + crlf() + fields) == first,
{
    let head = first + crlf() + fields;
    let m = first.len() as int;
    assert(head.subrange(m, m + 2) =~= crlf());
    assert forall|j: int| 0 <= j < m implies !#[trigger] has_at(head, j, crlf()) by {
        assert(head.subrange(j, j + 2) =~= raw.subrange(j, j + 2));
        assert(!has_at(raw, j, crlf()));
    }
    lemma_found_at(head, crlf(), m);
    assert(head.take(m) =~= first);
}

/// The status of a response is that of its first line.
pub proof fn law_response_has_the_status_of_its_line(
    raw: &[u8],
    out: Result<Response, ResponseError>,
    line: &str,
    status: u16,
    fields: Seq<u8>,
    body: Seq<u8>,
)
    requires
        call_ensures(http::parse_response, (raw,), out),
        call_ensures(http::parse_status_line, (line,), Ok::<u16, ResponseError>(status)),
        raw@ == utf8::encode_utf8(line@) + crlf() + fields + crlf_blank() + body,
        forall|j: int|
            0 <= j < utf8::encode_utf8(line@).len() ==> !#[trigger] has_at(raw@, j, crlf()),
        forall|j: int|
            0 <= j < utf8::encode_utf8(line@).len() + 2 + fields.len() ==> !#[trigger] has_at(
                raw@,
                j,
                crlf_blank(),
            ),
    ensures
        out matches Ok(r) && r.status == status && r.body@ == body,
{
    let first = utf8::encode_utf8(line@);
    let head = first + crlf() + fields;
    lemma_split_at_blank(raw@, head, body);
    assert(raw@ =~= first + crlf() + fields + (crlf_blank() + body));
    lemma_first_line(raw@, first, fields, crlf_blank() + body);
    utf8::encode_utf8_valid_utf8(line@);
    utf8::encode_utf8_decode_utf8(line@);
}

} // verus!
