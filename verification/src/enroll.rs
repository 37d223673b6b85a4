//! Enrollment: one-time tokens, atomic burn-and-enroll, session challenges.
use crate::event::now_ns;
use crate::pin::PIN_LEN;
use crate::rows::{AgentRow, TokenRow, TokenView};
use crate::store::{EnrollReject, Store, StoreError, StoreView};
use crate::{crypto, encoding, ids, pin, store, text, tls};
use vstd::prelude::*;
use vstd::utf8;

verus! {

/// Soft validity window for an enrollment token: 24 hours, in nanoseconds.
pub const TOKEN_VALIDITY_NS: u64 = 86_400_000_000_000;

/// Maximum accepted length (bytes) of the agent-supplied `hostname` and `os`
/// strings at enrollment. They are stored permanently.
pub const MAX_ENROLL_FIELD_LEN: usize = 255;

/// Maximum accepted length (bytes) of the operator-facing token `label`.
pub const MAX_TOKEN_LABEL_LEN: usize = 256;

/// Maximum accepted length (bytes) of a presented signature text: a signature
/// takes 88 characters of base64.
pub const MAX_SIGNATURE_TEXT_LEN: usize = 128;

/// Why a token could not be created.
#[derive(Debug)]
pub enum TokenError {
    /// The label is longer than [`MAX_TOKEN_LABEL_LEN`]; its length in bytes.
    LabelTooLong(usize),
    /// The store failed.
    Store(StoreError),
}

/// The length of a string in bytes of UTF-8.
pub open spec fn byte_len(s: Seq<char>) -> nat {
    utf8::encode_utf8(s).len()
}

/// What creating a token from given random bytes at a given time comes to.
pub open spec fn token_created(
    before: StoreView,
    label: Seq<char>,
    raw: Seq<u8>,
    now: u64,
    res: Result<(String, TokenRow), TokenError>,
    after: StoreView,
) -> bool {
    let token = encoding::lower_hex(raw);
    let row = TokenView { created_at_ns: now, label, used: false };
    if byte_len(label) > MAX_TOKEN_LABEL_LEN {
        &&& res matches Err(TokenError::LabelTooLong(n)) && n == byte_len(label)
        &&& after == before
    } else {
        &&& store::stepped(before, before.put_token(token, row), res is Ok, after)
        &&& match res {
            Ok(out) => out.0@ == token && out.1@ == row,
            Err(e) => e matches TokenError::Store(cause) && cause is Storage,
        }
    }
}

/// What creating a token comes to, for some random bytes at some time.
pub open spec fn token_minted(
    before: StoreView,
    label: Seq<char>,
    res: Result<(String, TokenRow), TokenError>,
    after: StoreView,
) -> bool {
    exists|raw: Seq<u8>, now: u64|
        raw.len() == 32 && #[trigger] token_created(before, label, raw, now, res, after)
}

/// Mint a new one-time enrollment token with an operator-facing `label`.
///
/// Returns the token string (64-char lowercase hex of random bytes) and the
/// stored row.
pub fn create_token(store: &mut Store, label: &str) -> (res: Result<(String, TokenRow), TokenError>)
    requires
        old(store).wf(),
    ensures
        final(store).wf(),
        token_minted(old(store)@, label@, res, final(store)@),
{
    let raw: [u8; 32] = crypto::random_bytes();
    let now: u64 = now_ns();
    let ghost before = store@;
    let res: Result<(String, TokenRow), TokenError> = create_token_from(store, label, &raw, now);
    assert(raw@.len() == 32 && token_created(before, label@, raw@, now, res, store@));
    res
}

/// The token that given random bytes make at a given time, with its row; an over-long
/// label is refused.
pub fn new_token(label: &str, raw: &[u8; 32], now: u64) -> (res: Result<
    (String, TokenRow),
    TokenError,
>)
    ensures
        match res {
            Ok(out) => {
                &&& byte_len(label@) <= MAX_TOKEN_LABEL_LEN
                &&& out.0@ == encoding::lower_hex(raw@)
                &&& out.1@ == (TokenView { created_at_ns: now, label: label@, used: false })
            },
            Err(e) => {
                &&& byte_len(label@) > MAX_TOKEN_LABEL_LEN
                &&& e matches TokenError::LabelTooLong(n) && n == byte_len(label@)
            },
        },
{
    let len: usize = label.as_bytes().len();
    if len > MAX_TOKEN_LABEL_LEN {
        return Err(TokenError::LabelTooLong(len));
    }
    let token: String = encoding::hex_encode(raw.as_slice());
    Ok((token, TokenRow { created_at_ns: now, label: label.to_owned(), used: false }))
}

/// [`create_token`] with given random bytes and time.
pub fn create_token_from(store: &mut Store, label: &str, raw: &[u8; 32], now: u64) -> (res: Result<
    (String, TokenRow),
    TokenError,
>)
    requires
        old(store).wf(),
    ensures
        final(store).wf(),
        token_created(old(store)@, label@, raw@, now, res, final(store)@),
{
    let (token, row): (String, TokenRow) = match new_token(label, raw, now) {
        Ok(out) => out,
        Err(e) => return Err(e),
    };
    match store.insert_token(token.as_str(), &row) {
        Ok(_) => Ok((token, row)),
        Err(e) => Err(TokenError::Store(e)),
    }
}

/// List all enrollment tokens with their rows, consumed ones too.
pub fn list_tokens(store: &Store) -> (res: Result<Vec<(String, TokenRow)>, StoreError>)
    requires
        store.wf(),
    ensures
        match res {
            Ok(out) => store::lists(
                store@.tokens,
                store::token_names(out@),
                store::token_views(out@),
            ),
            Err(StoreError::Corrupt) => exists|k: Seq<char>| store::corrupt(store@.tokens, k),
            Err(StoreError::Storage(_)) => true,
        },
{
    store.list_tokens()
}

/// Revoke an unused token. `true` if a still-unused token was removed; `false` if
/// it was unknown or already consumed.
pub fn revoke_token(store: &mut Store, token: &str) -> (res: Result<bool, StoreError>)
    requires
        old(store).wf(),
    ensures
        final(store).wf(),
        match res {
            Ok(true) => store::unused(old(store)@.tokens, token@) && final(store)@
                == old(store)@.remove_token(token@),
            Ok(false) => !store::corrupt(old(store)@.tokens, token@) && !store::unused(
                old(store)@.tokens,
                token@,
            ) && final(store)@ == old(store)@,
            Err(StoreError::Corrupt) => store::corrupt(old(store)@.tokens, token@) && final(store)@
                == old(store)@,
            Err(StoreError::Storage(_)) => final(store)@ == old(store)@ || store::unused(
                old(store)@.tokens,
                token@,
            ) && final(store)@ == old(store)@.remove_token(token@),
        },
{
    store.revoke_token_if_unused(token)
}

/// Outcome of an [`enroll`] attempt.
#[derive(Debug, Clone, PartialEq, Eq)]
pub enum EnrollOutcome {
    /// The token was valid; it has been burned and the agent enrolled.
    Accepted { agent_id: String },
    /// The request was refused; nothing was changed.
    Rejected { reason: String },
}

/// The reason that an over-long field is refused with.
pub open spec fn too_long_reason() -> Seq<char> {
    "hostname/os too long (max 255 bytes each)"@
}

/// What an enrollment request comes to, at a given time and for a given
/// identifier to assign.
pub open spec fn enrollment(
    before: StoreView,
    token: Seq<char>,
    hostname: Seq<char>,
    os: Seq<char>,
    pubkey: Seq<u8>,
    now: u64,
    id: Seq<u8>,
    res: Result<EnrollOutcome, StoreError>,
    after: StoreView,
) -> bool {
    let agent = store::new_agent(ids::uuid_text(id), hostname, os, pubkey, now);
    if byte_len(hostname) > MAX_ENROLL_FIELD_LEN || byte_len(os) > MAX_ENROLL_FIELD_LEN {
        &&& after == before
        &&& res matches Ok(EnrollOutcome::Rejected { reason }) && reason@ == too_long_reason()
    } else if store::corrupt(before.tokens, token) {
        res is Err && after == before
    } else {
        match store::refusal(before.token_row(token), now, TOKEN_VALIDITY_NS) {
            Some(reject) => {
                &&& after == before
                &&& match res {
                    Ok(outcome) => outcome matches EnrollOutcome::Rejected { reason } && reason@
                        == reject.reason(),
                    Err(e) => e is Storage,
                }
            },
            None => {
                &&& store::stepped(
                    before,
                    before.burn_and_enroll(token, before.token_row(token).unwrap(), agent),
                    res is Ok,
                    after,
                )
                &&& match res {
                    Ok(outcome) => outcome matches EnrollOutcome::Accepted { agent_id } && agent_id@
                        == agent.agent_id,
                    Err(e) => e is Storage,
                }
            },
        }
    }
}

/// Atomically validate and burn a one-time token and enrol a new agent.
///
/// Over-long descriptors are refused before the token is looked at, so it is not
/// burned on a malformed request.
pub fn enroll(store: &mut Store, token: &str, hostname: &str, os: &str, pubkey: [u8; 32]) -> (res:
    Result<EnrollOutcome, StoreError>)
    requires
        old(store).wf(),
    ensures
        final(store).wf(),
        exists|now: u64, id: Seq<u8>|
            ids::is_v4(id) && #[trigger] enrollment(
                old(store)@,
                token@,
                hostname@,
                os@,
                pubkey@,
                now,
                id,
                res,
                final(store)@,
            ),
{
    let now: u64 = now_ns();
    let id: [u8; 16] = ids::new_v4();
    let res: Result<EnrollOutcome, StoreError> = enroll_at(
        store,
        token,
        hostname,
        os,
        pubkey,
        now,
        &id,
    );
    assert(ids::is_v4(id@));
    res
}

/// [`enroll`] at a given time and with a given identifier to assign.
pub fn enroll_at(
    store: &mut Store,
    token: &str,
    hostname: &str,
    os: &str,
    pubkey: [u8; 32],
    now: u64,
    id: &[u8; 16],
) -> (res: Result<EnrollOutcome, StoreError>)
    requires
        old(store).wf(),
    ensures
        final(store).wf(),
        enrollment(
            old(store)@,
            token@,
            hostname@,
            os@,
            pubkey@,
            now,
            id@,
            res,
            final(store)@,
        ),
{
    if hostname.as_bytes().len() > MAX_ENROLL_FIELD_LEN || os.as_bytes().len()
        > MAX_ENROLL_FIELD_LEN {
        return Ok(
            EnrollOutcome::Rejected {
                reason: "hostname/os too long (max 255 bytes each)".to_owned(),
            },
        );
    }
    enroll_outcome(store.enroll_as(id, token, now, TOKEN_VALIDITY_NS, hostname, os, pubkey))
}

/// The outcome of an enrollment, given what the store came to.
pub fn enroll_outcome(
    res: Result<Result<(String, AgentRow), EnrollReject>, StoreError>,
) -> (out: Result<EnrollOutcome, StoreError>)
    ensures
        match res {
            Ok(Ok(enrolled)) => out matches Ok(EnrollOutcome::Accepted { agent_id }) && agent_id
                == enrolled.0,
            Ok(Err(reject)) => out matches Ok(EnrollOutcome::Rejected { reason }) && reason@
                == reject.reason(),
            Err(e) => out == Err::<EnrollOutcome, StoreError>(e),
        },
{
    match res {
        Ok(Ok((agent_id, _row))) => Ok(EnrollOutcome::Accepted { agent_id }),
        Ok(Err(reject)) => Ok(EnrollOutcome::Rejected { reason: reject_reason(reject) }),
        Err(e) => Err(e),
    }
}

/// The reason returned to the agent.
pub fn reject_reason(reject: EnrollReject) -> (reason: String)
    ensures
        reason@ == reject.reason(),
{
    reject.to_string()
}

/// A refused enrollment changes nothing: neither the token nor the agents.
pub proof fn law_refusal_changes_nothing(
    before: StoreView,
    token: Seq<char>,
    hostname: Seq<char>,
    os: Seq<char>,
    pubkey: Seq<u8>,
    now: u64,
    id: Seq<u8>,
    res: Result<EnrollOutcome, StoreError>,
    after: StoreView,
)
    requires
        enrollment(before, token, hostname, os, pubkey, now, id, res, after),
        res matches Ok(EnrollOutcome::Rejected { .. }),
    ensures
        after == before,
{
}

/// An identifier that enrollment assigns holds no colon, so the cells of enrolled
/// agents never collide.
pub proof fn law_assigned_id_has_no_colon(
    before: StoreView,
    token: Seq<char>,
    hostname: Seq<char>,
    os: Seq<char>,
    pubkey: Seq<u8>,
    now: u64,
    id: Seq<u8>,
    agent_id: String,
    after: StoreView,
)
    requires
        id.len() == 16,
        enrollment(
            before,
            token,
            hostname,
            os,
            pubkey,
            now,
            id,
            Ok(EnrollOutcome::Accepted { agent_id }),
            after,
        ),
    ensures
        !agent_id@.contains(':'),
{
    ids::law_uuid_text_has_no_colon(id);
}

/// Derive the 32-byte session nonce from the server's challenge identifier.
pub fn nonce_from_challenge(challenge_id: &[u8; 16]) -> (nonce: [u8; 32])
    ensures
        nonce@ == crypto::sha256_of(challenge_id@),
{
    crypto::sha256(challenge_id.as_slice())
}

/// Mint a fresh challenge: a random identifier.
pub fn make_challenge() -> (id: [u8; 16])
    ensures
        ids::is_v4(id@),
{
    ids::new_v4()
}

/// The signature that a text denotes: base64 of exactly sixty-four bytes,
/// whitespace around it aside, in at most [`MAX_SIGNATURE_TEXT_LEN`] bytes.
pub open spec fn signature_of(text: Seq<char>) -> Option<Seq<u8>> {
    let inner = text::trimmed(text);
    if byte_len(inner) > MAX_SIGNATURE_TEXT_LEN {
        None
    } else {
        match encoding::unbase64(inner) {
            Some(raw) => if raw.len() == 64 {
                Some(raw)
            } else {
                None
            },
            None => None,
        }
    }
}

/// Whether a text is an agent's answer to a challenge.
pub open spec fn answers(
    pubkey: Seq<u8>,
    pin: Seq<u8>,
    agent_id: Seq<char>,
    challenge_id: Seq<u8>,
    tls_exporter: Seq<u8>,
    text: Seq<char>,
) -> bool {
    match signature_of(text) {
        Some(signature) => crypto::signed_by(
            pubkey,
            crypto::sha256_of(
                tls::auth_message(pin, agent_id, crypto::sha256_of(challenge_id), tls_exporter),
            ),
            signature,
        ),
        None => false,
    }
}

/// A signature of exactly sixty-four bytes.
pub fn signature_bytes(raw: &[u8]) -> (out: Option<[u8; 64]>)
    ensures
        match out {
            Some(array) => array@ == raw@,
            None => raw@.len() != 64,
        },
{
    if raw.len() != 64 {
        return None;
    }
    let mut out: [u8; 64] = [0; 64];
    let mut i: usize = 0;
    while i < 64
        invariant
            i <= 64,
            raw@.len() == 64,
            forall|j: int| 0 <= j < i ==> out@[j] == raw@[j],
        decreases 64 - i,
    {
        out[i] = raw[i];
        i = i + 1;
    }
    assert(out@ =~= raw@);
    Some(out)
}

/// Verify an agent's challenge signature against its enrolled public key.
///
/// Rebuilds the digest that the agent signed from the server's pin, the agent's
/// identifier, the challenge and the session's keying material. `false` on any
/// malformed input as well as on a signature that does not match.
pub fn verify_challenge(
    stored_pubkey: &[u8; 32],
    pin: &[u8; PIN_LEN],
    agent_id: &str,
    challenge_id: &[u8; 16],
    tls_exporter: &[u8],
    sig_b64: &str,
) -> (ok: bool)
    ensures
        ok == answers(
            stored_pubkey@,
            pin@,
            agent_id@,
            challenge_id@,
            tls_exporter@,
            sig_b64@,
        ),
{
    let chars: Vec<char> = text::chars_of(sig_b64);
    let trimmed: String = text::string_of(text::trim(chars.as_slice()));
    if trimmed.as_str().as_bytes().len() > MAX_SIGNATURE_TEXT_LEN {
        return false;
    }
    let raw: Vec<u8> = match encoding::base64_decode(trimmed.as_str()) {
        Some(raw) => raw,
        None => return false,
    };
    let signature: [u8; 64] = match signature_bytes(raw.as_slice()) {
        Some(signature) => signature,
        None => return false,
    };
    let nonce: [u8; 32] = nonce_from_challenge(challenge_id);
    let digest: [u8; 32] = tls::auth_challenge_digest(pin, agent_id, &nonce, tls_exporter);
    crypto::verify_strict(stored_pubkey, digest.as_slice(), &signature)
}

/// Hex-encode the SHA-256 fingerprint of the server's leaf certificate: the value
/// that operators distribute to agents as the pin.
pub fn cert_fingerprint(server_cert_der: &[u8]) -> (out: String)
    ensures
        out@ == encoding::lower_hex(crypto::sha256_of(server_cert_der@)),
{
    let pin: [u8; PIN_LEN] = pin::fingerprint(server_cert_der);
    encoding::hex_encode(pin.as_slice())
}

} // verus!
