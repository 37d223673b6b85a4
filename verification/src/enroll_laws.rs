//! Laws of enrollment: what an accepted request leaves behind, why one is refused, and
//! what a signature must be over.
use crate::enroll::{self, EnrollOutcome, TokenError};
use crate::pin::PIN_LEN;
use crate::rows::{AgentRow, TokenRow};
use crate::store::{EnrollReject, Store, StoreError};
use crate::{crypto, encoding, ids, text};
use vstd::prelude::*;
use vstd::utf8;

verus! {

/// An accepted request records the endpoint as it presented itself, under the text of
/// the assigned identifier, enrolled and last seen now; it takes an unused token that is
/// no older than a day, and consumes it. Every other agent and token stays as it is.
pub proof fn law_accepted_request_is_recorded_as_presented(
    store: &mut Store,
    token: &str,
    hostname: &str,
    os: &str,
    pubkey: [u8; 32],
    now: u64,
    id: &[u8; 16],
    agent_id: String,
)
    requires
        old(store).wf(),
        call_ensures(
            enroll::enroll_at,
            (store, token, hostname, os, pubkey, now, id),
            Ok::<EnrollOutcome, StoreError>(EnrollOutcome::Accepted { agent_id }),
        ),
    ensures
        agent_id@ == ids::uuid_text(id@),
        final(store)@.agents.contains_key(agent_id@),
        final(store)@.agents[agent_id@] matches Some(row) && {
            &&& row.agent_id == agent_id@
            &&& row.hostname == hostname@
            &&& row.os == os@
            &&& row.pubkey == pubkey@
            &&& row.enrolled_at_ns == now
            &&& row.last_seen_ns == now
        },
        forall|k: Seq<char>|
            k != agent_id@ ==> #[trigger] final(store)@.agents[k] == old(store)@.agents[k],
        forall|k: Seq<char>|
            k != agent_id@ ==> (#[trigger] final(store)@.agents.contains_key(k) <==> old(store)@.agents.contains_key(k)),
        old(store)@.tokens.contains_key(token@),
        old(store)@.tokens[token@] matches Some(was) && {
            &&& !was.used
            &&& now - was.created_at_ns <= 24 * 60 * 60 * 1_000_000_000
            &&& final(store)@.tokens[token@] matches Some(is) && is.used && is.created_at_ns
                == was.created_at_ns && is.label == was.label
        },
        forall|k: Seq<char>|
            k != token@ ==> #[trigger] final(store)@.tokens[k] == old(store)@.tokens[k],
        utf8::encode_utf8(hostname@).len() <= 255,
        utf8::encode_utf8(os@).len() <= 255,
        final(store)@.events == old(store)@.events,
        final(store)@.index == old(store)@.index,
        final(store)@.detections == old(store)@.detections,
        final(store)@.scores == old(store)@.scores,
        final(store)@.alerts == old(store)@.alerts,
{
}

/// A refused request changes nothing, and the reason is the one that holds: too long a
/// name, or a token that is unknown, used, or older than a day.
pub proof fn law_refused_request_says_why(
    store: &mut Store,
    token: &str,
    hostname: &str,
    os: &str,
    pubkey: [u8; 32],
    now: u64,
    id: &[u8; 16],
    reason: String,
)
    requires
        old(store).wf(),
        call_ensures(
            enroll::enroll_at,
            (store, token, hostname, os, pubkey, now, id),
            Ok::<EnrollOutcome, StoreError>(EnrollOutcome::Rejected { reason }),
        ),
    ensures
        final(store)@ == old(store)@,
        ({
            let too_long = utf8::encode_utf8(hostname@).len() > 255 || utf8::encode_utf8(
                os@,
            ).len() > 255;
            &&& too_long ==> reason@ == "hostname/os too long (max 255 bytes each)"@
            &&& !too_long && !old(store)@.tokens.contains_key(token@) ==> reason@
                == "unknown or invalid enrollment token"@
            &&& !too_long && old(store)@.tokens.contains_key(token@) ==> {
                let was = old(store)@.tokens[token@];
                &&& was is Some
                &&& was.unwrap().used ==> reason@ == "enrollment token already used"@
                &&& !was.unwrap().used ==> now - was.unwrap().created_at_ns > 24 * 60 * 60
                    * 1_000_000_000 && reason@ == "enrollment token expired"@
            }
        }),
{
}

/// A new token is the hexadecimal text of its random bytes, on file unused under its
/// label since now; every other token stays as it is, and so does everything else.
pub proof fn law_created_token_is_on_file(
    store: &mut Store,
    label: &str,
    raw: &[u8; 32],
    now: u64,
    out: (String, TokenRow),
)
    requires
        old(store).wf(),
        call_ensures(
            enroll::create_token_from,
            (store, label, raw, now),
            Ok::<(String, TokenRow), TokenError>(out),
        ),
    ensures
        out.0@ == encoding::lower_hex(raw@),
        out.0@.len() == 64,
        out.1.created_at_ns == now,
        out.1.label@ == label@,
        !out.1.used,
        utf8::encode_utf8(label@).len() <= 256,
        final(store)@.tokens.contains_key(out.0@),
        final(store)@.tokens[out.0@] matches Some(row) && row.created_at_ns == now && row.label
            == label@ && !row.used,
        forall|k: Seq<char>|
            k != out.0@ ==> #[trigger] final(store)@.tokens[k] == old(store)@.tokens[k],
        forall|k: Seq<char>|
            k != out.0@ ==> (#[trigger] final(store)@.tokens.contains_key(k) <==> old(store)@.tokens.contains_key(k)),
        final(store)@.agents == old(store)@.agents,
        final(store)@.events == old(store)@.events,
        final(store)@.index == old(store)@.index,
        final(store)@.detections == old(store)@.detections,
        final(store)@.scores == old(store)@.scores,
        final(store)@.alerts == old(store)@.alerts,
{
    assert(out.1@.label == out.1.label@);
}

/// A label of more than 256 bytes makes no token, and is refused with its length.
pub proof fn law_long_label_makes_no_token(
    store: &mut Store,
    label: &str,
    raw: &[u8; 32],
    now: u64,
    res: Result<(String, TokenRow), TokenError>,
)
    requires
        old(store).wf(),
        call_ensures(enroll::create_token_from, (store, label, raw, now), res),
    ensures
        utf8::encode_utf8(label@).len() > 256 <==> res matches Err(TokenError::LabelTooLong(_)),
        res matches Err(TokenError::LabelTooLong(n)) ==> n == utf8::encode_utf8(label@).len()
            && final(store)@ == old(store)@,
{
}

/// Every token on file is listed, and what is listed is on file as it is shown.
pub proof fn law_token_listing_is_the_table(
    store: &Store,
    out: Vec<(String, TokenRow)>,
    token: Seq<char>,
)
    requires
        store.wf(),
        call_ensures(
            enroll::list_tokens,
            (store,),
            Ok::<Vec<(String, TokenRow)>, StoreError>(out),
        ),
    ensures
        forall|i: int|
            0 <= i < out@.len() ==> {
                let entry = #[trigger] out@[i];
                &&& store@.tokens.contains_key(entry.0@)
                &&& store@.tokens[entry.0@] matches Some(row) && row.created_at_ns
                    == entry.1.created_at_ns && row.label == entry.1.label@ && row.used
                    == entry.1.used
            },
        store@.tokens.contains_key(token) ==> exists|i: int|
            0 <= i < out@.len() && (#[trigger] out@[i]).0@ == token,
{
    let names = crate::store::token_names(out@);
    let views = crate::store::token_views(out@);
    assert forall|i: int| 0 <= i < out@.len() implies ({
        let entry = #[trigger] out@[i];
        &&& store@.tokens.contains_key(entry.0@)
        &&& store@.tokens[entry.0@] matches Some(row) && row.created_at_ns
            == entry.1.created_at_ns && row.label == entry.1.label@ && row.used == entry.1.used
    }) by {
        assert(names[i] == out@[i].0@ && views[i] == out@[i].1@);
        assert(crate::store::found(store@.tokens, names[i], views[i]));
    }
    if store@.tokens.contains_key(token) {
        assert(names.contains(token));
        let i = choose|i: int| 0 <= i < names.len() && names[i] == token;
        assert(out@[i].0@ == token);
    }
}

/// A signature is accepted exactly if its text, whitespace around it aside, is base64 of
/// sixty-four bytes, in no more than 128 bytes, that the key signed the digest with: of
/// the label, this server's pin, the agent, the hash of the challenge and the keying
/// material, in this order.
pub proof fn law_signature_is_over_this_session(
    pubkey: &[u8; 32],
    pin: &[u8; PIN_LEN],
    agent_id: &str,
    challenge_id: &[u8; 16],
    tls_exporter: &[u8],
    signature: &str,
    ok: bool,
)
    requires
        call_ensures(
            enroll::verify_challenge,
            (pubkey, pin, agent_id, challenge_id, tls_exporter, signature),
            ok,
        ),
    ensures
        ({
            let inner = text::trimmed(signature@);
            let message = utf8::encode_utf8("aegis-session-auth-v1"@) + pin@ + utf8::encode_utf8(
                agent_id@,
            ) + crypto::sha256_of(challenge_id@) + tls_exporter@;
            ok <==> {
                &&& utf8::encode_utf8(inner).len() <= 128
                &&& encoding::unbase64(inner) matches Some(raw) && raw.len() == 64
                    && crypto::signed_by(pubkey@, crypto::sha256_of(message), raw)
            }
        }),
{
}

/// The nonce of a session is the hash of its challenge.
pub proof fn law_nonce_is_the_hash_of_the_challenge(challenge_id: &[u8; 16], nonce: [u8; 32])
    requires
        call_ensures(enroll::nonce_from_challenge, (challenge_id,), nonce),
    ensures
        nonce@ == crypto::sha256_of(challenge_id@),
{
}

/// The fingerprint that operators hand out is the hash of the certificate, in
/// hexadecimal.
pub proof fn law_fingerprint_is_the_hash_in_hex(cert: &[u8], out: String)
    requires
        call_ensures(enroll::cert_fingerprint, (cert,), out),
    ensures
        encoding::unhex(out@) == Some(crypto::sha256_of(cert@)),
        out@ == encoding::lower_hex(crypto::sha256_of(cert@)),
{
    encoding::law_hex_round_trip(crypto::sha256_of(cert@));
}

/// The limits of enrollment.
pub proof fn law_enrollment_limits()
    ensures
        enroll::TOKEN_VALIDITY_NS == 24 * 60 * 60 * 1_000_000_000,
        enroll::MAX_ENROLL_FIELD_LEN == 255,
        enroll::MAX_TOKEN_LABEL_LEN == 256,
        enroll::MAX_SIGNATURE_TEXT_LEN == 128,
{
}

/// Enrolling at the time of the request under a random identifier records the endpoint
/// as it presented itself.
pub proof fn law_enrolled_endpoint_is_as_presented(
    store: &mut Store,
    token: &str,
    hostname: &str,
    os: &str,
    pubkey: [u8; 32],
    agent_id: String,
)
    requires
        old(store).wf(),
        call_ensures(
            enroll::enroll,
            (store, token, hostname, os, pubkey),
            Ok::<EnrollOutcome, StoreError>(EnrollOutcome::Accepted { agent_id }),
        ),
    ensures
        exists|id: Seq<u8>| ids::is_v4(id) && agent_id@ == #[trigger] ids::uuid_text(id),
        final(store)@.agents[agent_id@] matches Some(row) && {
            &&& row.agent_id == agent_id@
            &&& row.hostname == hostname@
            &&& row.os == os@
            &&& row.pubkey == pubkey@
            &&& row.enrolled_at_ns == row.last_seen_ns
        },
        forall|k: Seq<char>|
            k != agent_id@ ==> #[trigger] final(store)@.agents[k] == old(store)@.agents[k],
        old(store)@.tokens[token@] matches Some(was) && !was.used,
        final(store)@.tokens[token@] matches Some(is) && is.used,
        forall|k: Seq<char>|
            k != token@ ==> #[trigger] final(store)@.tokens[k] == old(store)@.tokens[k],
{
    let (now, id) = choose|now: u64, id: Seq<u8>|
        ids::is_v4(id) && #[trigger] enroll::enrollment(
            old(store)@,
            token@,
            hostname@,
            os@,
            pubkey@,
            now,
            id,
            Ok::<EnrollOutcome, StoreError>(EnrollOutcome::Accepted { agent_id }),
            final(store)@,
        );
    assert(agent_id@ == ids::uuid_text(id));
}

/// A token that was created is on file unused under its label, and is sixty-four
/// hexadecimal digits.
pub proof fn law_created_token_is_unused(
    store: &mut Store,
    label: &str,
    out: (String, TokenRow),
)
    requires
        old(store).wf(),
        call_ensures(
            enroll::create_token,
            (store, label),
            Ok::<(String, TokenRow), TokenError>(out),
        ),
    ensures
        out.0@.len() == 64,
        encoding::unhex(out.0@) is Some,
        out.1.label@ == label@,
        !out.1.used,
        final(store)@.tokens[out.0@] matches Some(row) && row.label == label@ && !row.used
            && row.created_at_ns == out.1.created_at_ns,
        forall|k: Seq<char>|
            k != out.0@ ==> #[trigger] final(store)@.tokens[k] == old(store)@.tokens[k],
        final(store)@.agents == old(store)@.agents,
{
    let (raw, now) = choose|raw: Seq<u8>, now: u64|
        raw.len() == 32 && #[trigger] enroll::token_created(
            old(store)@,
            label@,
            raw,
            now,
            Ok::<(String, TokenRow), TokenError>(out),
            final(store)@,
        );
    encoding::law_hex_round_trip(raw);
    assert(out.1@.label == out.1.label@);
}

/// A token is made of its bytes, its time and its label, or refused for the label's
/// length; an enrollment's outcome is what the store came to.
pub proof fn law_tokens_and_outcomes_are_what_they_are_made_of(
    label: &str,
    raw: &[u8; 32],
    now: u64,
    token: Result<(String, TokenRow), TokenError>,
    enrolled: (String, AgentRow),
    accepted: Result<EnrollOutcome, StoreError>,
    reject: EnrollReject,
    rejected: Result<EnrollOutcome, StoreError>,
    said: String,
    error: StoreError,
    failed: Result<EnrollOutcome, StoreError>,
    bytes: &[u8],
    signature: Option<[u8; 64]>,
)
    requires
        call_ensures(enroll::new_token, (label, raw, now), token),
        call_ensures(
            enroll::enroll_outcome,
            (Ok::<Result<(String, AgentRow), EnrollReject>, StoreError>(
                Ok::<(String, AgentRow), EnrollReject>(enrolled),
            ),),
            accepted,
        ),
        call_ensures(
            enroll::enroll_outcome,
            (Ok::<Result<(String, AgentRow), EnrollReject>, StoreError>(
                Err::<(String, AgentRow), EnrollReject>(reject),
            ),),
            rejected,
        ),
        call_ensures(enroll::reject_reason, (reject,), said),
        call_ensures(
            enroll::enroll_outcome,
            (Err::<Result<(String, AgentRow), EnrollReject>, StoreError>(error),),
            failed,
        ),
        call_ensures(enroll::signature_bytes, (bytes,), signature),
    ensures
        token is Ok <==> utf8::encode_utf8(label@).len() <= 256,
        token matches Ok(out) ==> out.0@ == encoding::lower_hex(raw@) && out.1.created_at_ns == now
            && out.1.label@ == label@ && !out.1.used,
        accepted matches Ok(EnrollOutcome::Accepted { agent_id }) && agent_id@ == enrolled.0@,
        rejected matches Ok(EnrollOutcome::Rejected { reason }) && reason@ == said@,
        failed == Err::<EnrollOutcome, StoreError>(error),
        signature is Some <==> bytes@.len() == 64,
        signature matches Some(s) ==> s@ == bytes@,
{
    if let Ok(out) = token {
        assert(out.1@.label == out.1.label@);
    }
}

/// A revocation removes an unused token, and leaves everything else; one that is used or
/// unknown stays as it is.
pub proof fn law_revoked_token_is_gone(store: &mut Store, token: &str, removed: bool)
    requires
        old(store).wf(),
        call_ensures(enroll::revoke_token, (store, token), Ok::<bool, StoreError>(removed)),
    ensures
        removed <==> old(store)@.tokens.contains_key(token@) && old(store)@.tokens[token@] is Some && !old(store)@.tokens[token@].unwrap().used,
        removed ==> !final(store)@.tokens.contains_key(token@),
        !removed ==> final(store)@ == old(store)@,
        forall|k: Seq<char>|
            k != token@ && old(store)@.tokens.contains_key(k) ==> #[trigger] final(store)@.tokens.contains_key(k) && final(store)@.tokens[k] == old(store)@.tokens[k],
        final(store)@.agents == old(store)@.agents,
{
}

} // verus!
