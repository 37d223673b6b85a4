//! The endpoint agent: server address, enrollment secrets and their outcome.
use crate::config::HostConfig;
use crate::proto::Message;
use crate::{config, host, json, pin, rows, text};
use vstd::prelude::*;

verus! {

/// The port of a server URL that names none.
pub const DEFAULT_SERVER_PORT: u16 = 8443;

/// The plugin that forwards events to the server and holds the identity.
pub const TRANSPORT_PLUGIN: &'static str = "plugin-transport";

/// Why a server URL is no address.
#[derive(Debug, Clone, Copy, PartialEq, Eq, Structural)]
pub enum ServerUrlError {
    /// There is nothing where the host should be.
    Empty,
    /// What follows the last colon is no port.
    InvalidPort,
}

/// Without its trailing slashes.
pub open spec fn without_slashes(s: Seq<char>) -> Seq<char>
    decreases s.len(),
{
    if s.len() > 0 && s.last() == '/' {
        without_slashes(s.drop_last())
    } else {
        s
    }
}

/// A server URL without whitespace around it, its scheme and trailing slashes.
pub open spec fn bare_address(server: Seq<char>) -> Seq<char> {
    let url = text::trimmed(server);
    without_slashes(
        if "https://"@.is_prefix_of(url) {
            url.skip("https://"@.len() as int)
        } else if "http://"@.is_prefix_of(url) {
            url.skip("http://"@.len() as int)
        } else {
            url
        },
    )
}

/// The host and port of a server URL: the port is what follows the last colon
/// where anything comes before it.
pub open spec fn server_address(server: Seq<char>) -> Result<(Seq<char>, u16), ServerUrlError> {
    let s = bare_address(server);
    if s.len() == 0 {
        Err(ServerUrlError::Empty)
    } else {
        match text::last_index(s, ':') {
            Some(i) => if i > 0 {
                match text::u16_value(s.skip(i as int + 1)) {
                    Some(port) => Ok((s.take(i as int), port)),
                    None => Err(ServerUrlError::InvalidPort),
                }
            } else {
                Ok((s, DEFAULT_SERVER_PORT))
            },
            None => Ok((s, DEFAULT_SERVER_PORT)),
        }
    }
}

fn trim_slashes(s: &[char]) -> (out: &[char])
    ensures
        out@ == without_slashes(s@),
{
    let mut n: usize = s.len();
    assert(s@.take(n as int) =~= s@);
    while n > 0 && s[n - 1] == '/'
        invariant
            n <= s@.len(),
            without_slashes(s@) == without_slashes(s@.take(n as int)),
        decreases n,
    {
        assert(s@.take(n as int).drop_last() =~= s@.take(n - 1));
        n = n - 1;
    }
    assert(s@.subrange(0, n as int) =~= s@.take(n as int));
    &s[0..n]
}

/// Parse `https://host:port` (scheme optional, port defaults to 8443).
pub fn parse_server_url(server: &str) -> (res: Result<(String, u16), ServerUrlError>)
    ensures
        match res {
            Ok(out) => server_address(server@) == Ok::<(Seq<char>, u16), ServerUrlError>(
                (out.0@, out.1),
            ),
            Err(e) => server_address(server@) == Err::<(Seq<char>, u16), ServerUrlError>(e),
        },
{
    let chars: Vec<char> = text::chars_of(server);
    let url: &[char] = text::trim(chars.as_slice());
    proof {
        reveal_strlit("https://");
        reveal_strlit("http://");
    }
    let rest: &[char] = if text::starts_with_str(url, "https://") {
        &url[8..url.len()]
    } else if text::starts_with_str(url, "http://") {
        &url[7..url.len()]
    } else {
        url
    };
    assert("https://"@.is_prefix_of(url@) ==> rest@ =~= url@.skip("https://"@.len() as int));
    assert(!"https://"@.is_prefix_of(url@) && "http://"@.is_prefix_of(url@) ==> rest@ =~= url@.skip(
        "http://"@.len() as int,
    ));
    let s: &[char] = trim_slashes(rest);
    assert(s@ == bare_address(server@));
    if s.len() == 0 {
        return Err(ServerUrlError::Empty);
    }
    match text::rfind(s, ':') {
        Some(i) => {
            if i > 0 {
                let p: &[char] = &s[i + 1..s.len()];
                assert(p@ =~= s@.skip(i + 1));
                match text::parse_u16(p) {
                    Some(port) => {
                        let host: String = text::string_of(&s[0..i]);
                        assert(host@ =~= s@.take(i as int));
                        Ok((host, port))
                    },
                    None => Err(ServerUrlError::InvalidPort),
                }
            } else {
                Ok((text::string_of(s), DEFAULT_SERVER_PORT))
            }
        },
        None => Ok((text::string_of(s), DEFAULT_SERVER_PORT)),
    }
}

/// Where the enrollment secret comes from.
#[derive(Debug, Clone, PartialEq, Eq)]
pub enum SecretSource {
    /// A blob, on standard input, that carries token and pin.
    BlobStdin,
    /// A file with such a blob.
    BlobFile(String),
    /// A file with the token.
    TokenFile(String),
    /// The token itself, visible to other local users.
    Token(String),
    /// Nothing was given.
    Missing,
}

/// Chooses the source of the secret: a blob, else a token file, else a token.
pub fn choose_secret(blob: Option<&str>, token_file: Option<&str>, token: Option<&str>) -> (source:
    SecretSource)
    ensures
        match blob {
            Some(b) => if b@ == "-"@ {
                source is BlobStdin
            } else {
                source matches SecretSource::BlobFile(f) && f@ == b@
            },
            None => match token_file {
                Some(p) => source matches SecretSource::TokenFile(f) && f@ == p@,
                None => match token {
                    Some(t) => source matches SecretSource::Token(v) && v@ == t@,
                    None => source is Missing,
                },
            },
        },
{
    match blob {
        Some(b) => {
            if text::same(b, "-") {
                SecretSource::BlobStdin
            } else {
                SecretSource::BlobFile(b.to_owned())
            }
        },
        None => match token_file {
            Some(p) => SecretSource::TokenFile(p.to_owned()),
            None => match token {
                Some(t) => SecretSource::Token(t.to_owned()),
                None => SecretSource::Missing,
            },
        },
    }
}

/// Why a token and a pin are no enrollment secret.
#[derive(Debug, Clone, Copy, PartialEq, Eq, Structural)]
pub enum SecretError {
    /// No source was given.
    Missing,
    /// A token needs a pin beside it.
    PinRequired,
    /// The pin is not 64 hexadecimal digits.
    BadPin,
}

impl SecretError {
    pub open spec fn says(self) -> Seq<char> {
        match self {
            SecretError::Missing => "provide --enroll-blob, --token-file, or --token"@,
            SecretError::PinRequired =>
                "--pin <hex64> is required when enrolling with --token/--token-file"@,
            SecretError::BadPin =>
                "--pin must be 64-char lowercase hex (SHA-256 of the server leaf cert)"@,
        }
    }

    /// The message shown to the operator.
    pub fn message(&self) -> (out: String)
        ensures
            out@ == self.says(),
    {
        match self {
            SecretError::Missing => "provide --enroll-blob, --token-file, or --token".to_owned(),
            SecretError::PinRequired =>
                "--pin <hex64> is required when enrolling with --token/--token-file".to_owned(),
            SecretError::BadPin =>
                "--pin must be 64-char lowercase hex (SHA-256 of the server leaf cert)".to_owned(),
        }
    }
}

/// Puts a token together with its pin. The contents of a token file are trimmed;
/// a token that was given itself is taken as it is.
pub fn resolve_enroll_secret(
    token_file_text: Option<&str>,
    token: Option<&str>,
    pin_hex: Option<&str>,
) -> (res: Result<(String, [u8; 32]), SecretError>)
    ensures
        match res {
            Ok(out) => {
                &&& match token_file_text {
                    Some(t) => out.0@ == text::trimmed(t@),
                    None => token is Some && out.0@ == token.unwrap()@,
                }
                &&& pin_hex is Some
                &&& pin::pin_of_hex(pin_hex.unwrap()@) == Some(out.1@)
            },
            Err(e) => if token_file_text is None && token is None {
                e == SecretError::Missing
            } else if pin_hex is None {
                e == SecretError::PinRequired
            } else {
                e == SecretError::BadPin && pin::pin_of_hex(pin_hex.unwrap()@) is None
            },
        },
{
    let secret: String = match token_file_text {
        Some(t) => {
            let chars: Vec<char> = text::chars_of(t);
            text::string_of(text::trim(chars.as_slice()))
        },
        None => match token {
            Some(t) => t.to_owned(),
            None => return Err(SecretError::Missing),
        },
    };
    let hex: &str = match pin_hex {
        Some(hex) => hex,
        None => return Err(SecretError::PinRequired),
    };
    match pin::parse_pin_hex(hex) {
        Some(pin) => Ok((secret, pin)),
        None => Err(SecretError::BadPin),
    }
}

/// What the server's answer to an enrollment means.
#[derive(Debug, Clone, PartialEq, Eq)]
pub enum EnrollVerdict {
    /// Enrolled under this identifier.
    Enrolled(String),
    /// Refused, with this reason.
    Rejected(String),
    /// No answer to an enrollment at all.
    Unexpected,
}

/// The reason shown where the server gave none.
pub open spec fn reason_chars(reason: Option<Seq<char>>) -> Seq<char> {
    match reason {
        Some(r) => r,
        None => "no reason given"@,
    }
}

/// Judges the server's answer to an enrollment.
pub fn judge_enroll_response(resp: &Message) -> (verdict: EnrollVerdict)
    ensures
        match *resp {
            Message::EnrollResponse { accepted, agent_id, reason } => if accepted {
                verdict matches EnrollVerdict::Enrolled(id) && id@ == agent_id@
            } else {
                verdict matches EnrollVerdict::Rejected(r) && r@ == reason_chars(
                    rows::opt_chars(reason),
                )
            },
            _ => verdict is Unexpected,
        },
{
    match resp {
        Message::EnrollResponse { accepted, agent_id, reason } => {
            if *accepted {
                EnrollVerdict::Enrolled(agent_id.clone())
            } else {
                EnrollVerdict::Rejected(
                    match reason {
                        Some(r) => r.clone(),
                        None => "no reason given".to_owned(),
                    },
                )
            }
        },
        _ => EnrollVerdict::Unexpected,
    }
}

/// The directory that the forwarder reads its identity from.
pub fn identity_dir(data_dir: &str) -> (dir: String)
    ensures
        dir@ == host::path_below(data_dir@, TRANSPORT_PLUGIN@),
{
    host::join_path(data_dir, TRANSPORT_PLUGIN)
}

/// The request that enrolls this endpoint.
pub fn enroll_request(token: &str, hostname: &str, os: &str, agent_pubkey: Vec<u8>) -> (msg:
    Message)
    ensures
        msg matches Message::EnrollRequest { token: t, hostname: h, os: o, agent_pubkey: k } && t@
            == token@ && h@ == hostname@ && o@ == os@ && k == agent_pubkey,
{
    Message::EnrollRequest {
        token: token.to_owned(),
        hostname: hostname.to_owned(),
        os: os.to_owned(),
        agent_pubkey,
    }
}

fn trimmed_copy(s: &str) -> (out: String)
    ensures
        out@ == text::trimmed(s@),
{
    let chars: Vec<char> = text::chars_of(s);
    text::string_of(text::trim(chars.as_slice()))
}

/// Best-effort hostname, from what the kernel's file holds.
pub fn read_hostname(file: Option<&str>) -> (name: String)
    ensures
        name@ == (match file {
            Some(s) => text::trimmed(s@),
            None => "unknown"@,
        }),
{
    match file {
        Some(s) => trimmed_copy(s),
        None => "unknown".to_owned(),
    }
}

/// OS descriptor: platform plus kernel release if available.
pub fn os_descriptor(base: &str, release: Option<&str>) -> (out: String)
    ensures
        out@ == ({
            let r = match release {
                Some(s) => text::trimmed(s@),
                None => Seq::empty(),
            };
            if r.len() == 0 {
                base@
            } else {
                base@ + " "@ + r
            }
        }),
{
    let r: String = match release {
        Some(s) => trimmed_copy(s),
        None => String::new(),
    };
    let mut out: String = base.to_owned();
    if r.as_str().unicode_len() > 0 {
        text::push_str(&mut out, " ");
        text::push_str(&mut out, r.as_str());
    }
    out
}

/// The transport's configuration subtree with the server put in, unless it names
/// one or is no object. `named` says whether it names one, and `with` is what it
/// would be with one.
pub open spec fn server_injected(
    subtree: Seq<char>,
    named: Option<bool>,
    with: Option<Seq<char>>,
) -> Seq<char> {
    if named == Some(false) && with is Some {
        with.unwrap()
    } else {
        subtree
    }
}

/// Whether a configuration has a subtree for a plugin.
pub open spec fn configures(plugins: Seq<(String, String)>, name: Seq<char>) -> bool {
    exists|i: int| 0 <= i < plugins.len() && (#[trigger] plugins[i]).0@ == name
}

/// The transport's subtree to start from: an empty object where there is none.
pub open spec fn transport_subtree(plugins: Seq<(String, String)>) -> Seq<char> {
    if configures(plugins, TRANSPORT_PLUGIN@) {
        config::subtree(plugins, TRANSPORT_PLUGIN@)
    } else {
        "{}"@
    }
}

proof fn lemma_subtree_at(plugins: Seq<(String, String)>, name: Seq<char>, i: int)
    requires
        0 <= i < plugins.len(),
        plugins[i].0@ == name,
        forall|j: int| 0 <= j < i ==> (#[trigger] plugins[j]).0@ != name,
    ensures
        config::subtree(plugins, name) == plugins[i].1@,
    decreases i,
{
    if i > 0 {
        assert(plugins.skip(1)[i - 1] == plugins[i]);
        assert forall|j: int| 0 <= j < i - 1 implies (#[trigger] plugins.skip(1)[j]).0@ != name by {
            assert(plugins.skip(1)[j] == plugins[j + 1]);
        }
        lemma_subtree_at(plugins.skip(1), name, i - 1);
    }
}

proof fn lemma_subtree_beside(
    before: Seq<(String, String)>,
    after: Seq<(String, String)>,
    i: int,
    name: Seq<char>,
)
    requires
        0 <= i <= before.len(),
        i < after.len(),
        after[i].0@ != name,
        i < before.len() ==> before[i].0@ != name && after == before.update(i, after[i]),
        i == before.len() ==> after == before.push(after[i]),
    ensures
        config::subtree(after, name) == config::subtree(before, name),
    decreases before.len(),
{
    if i > 0 {
        assert(after[0] == before[0]);
        if before[0].0@ != name {
            let b = before.skip(1);
            let a = after.skip(1);
            assert(a[i - 1] == after[i]);
            if i < before.len() {
                assert(b[i - 1] == before[i]);
                assert(a =~= b.update(i - 1, a[i - 1]));
            } else {
                assert(a =~= b.push(a[i - 1]));
            }
            lemma_subtree_beside(b, a, i - 1, name);
        }
    } else if before.len() > 0 {
        assert(after.skip(1) =~= before.skip(1));
    } else {
        assert(after.skip(1) =~= before);
    }
}

/// Puts the agent's server into the transport's configuration unless the operator
/// already pinned one there.
pub fn inject_server(config: &mut HostConfig, server: &str)
    ensures
        config::subtree(final(config).plugins@, TRANSPORT_PLUGIN@) == ({
            let start = transport_subtree(old(config).plugins@);
            server_injected(
                start,
                json::object_has(start, "server"@),
                json::object_with(start, "server"@, server@),
            )
        }),
        forall|name: Seq<char>|
            name != TRANSPORT_PLUGIN@ ==> #[trigger] config::subtree(final(config).plugins@, name)
                == config::subtree(old(config).plugins@, name),
        *final(config) == (HostConfig { plugins: final(config).plugins, ..*old(config) }),
{
    let ghost before = config.plugins@;
    let mut i: usize = 0;
    while i < config.plugins.len()
        invariant
            *config == *old(config),
            before == config.plugins@,
            i <= config.plugins@.len(),
            forall|j: int| 0 <= j < i ==> (#[trigger] before[j]).0@ != TRANSPORT_PLUGIN@,
        decreases config.plugins@.len() - i,
    {
        if text::same(config.plugins[i].0.as_str(), TRANSPORT_PLUGIN) {
            proof {
                lemma_subtree_at(before, TRANSPORT_PLUGIN@, i as int);
            }
            let start: String = config.plugins[i].1.clone();
            let json: String = with_server(start.as_str(), server);
            config.plugins.set(i, (TRANSPORT_PLUGIN.to_owned(), json));
            proof {
                lemma_subtree_at(config.plugins@, TRANSPORT_PLUGIN@, i as int);
                assert forall|name: Seq<char>|
                    name != TRANSPORT_PLUGIN@ implies #[trigger] config::subtree(
                    config.plugins@,
                    name,
                ) == config::subtree(before, name) by {
                    lemma_subtree_beside(before, config.plugins@, i as int, name);
                }
            }
            return ;
        }
        i = i + 1;
    }
    let json: String = with_server("{}", server);
    config.plugins.push((TRANSPORT_PLUGIN.to_owned(), json));
    proof {
        lemma_subtree_at(config.plugins@, TRANSPORT_PLUGIN@, before.len() as int);
        assert forall|name: Seq<char>|
            name != TRANSPORT_PLUGIN@ implies #[trigger] config::subtree(config.plugins@, name)
            == config::subtree(before, name) by {
            lemma_subtree_beside(before, config.plugins@, before.len() as int, name);
        }
    }
}

fn with_server(subtree: &str, server: &str) -> (out: String)
    ensures
        out@ == server_injected(
            subtree@,
            json::object_has(subtree@, "server"@),
            json::object_with(subtree@, "server"@, server@),
        ),
{
    match json::has_member(subtree, "server") {
        Some(named) => {
            if !named {
                if let Some(json) = json::put_member(subtree, "server", server) {
                    return json;
                }
            }
            subtree.to_owned()
        },
        None => subtree.to_owned(),
    }
}

/// A server that the operator configured is never overridden.
pub proof fn law_pinned_server_stays(subtree: Seq<char>, with: Option<Seq<char>>)
    ensures
        server_injected(subtree, Some(true), with) == subtree,
{
}

} // verus!
