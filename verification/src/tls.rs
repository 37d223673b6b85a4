//! What a session's signature binds.
use crate::pin::PIN_LEN;
use crate::{bytes, crypto};
use vstd::prelude::*;
use vstd::utf8;

verus! {

/// Sets session signatures apart from any other use of the key.
pub const AUTH_LABEL: &'static str = "aegis-session-auth-v1";

/// The byte string that is hashed and signed: label, server pin, agent, nonce and
/// keying material of the session, one after another.
pub open spec fn auth_message(
    pin: Seq<u8>,
    agent_id: Seq<char>,
    nonce: Seq<u8>,
    tls_exporter: Seq<u8>,
) -> Seq<u8> {
    utf8::encode_utf8(AUTH_LABEL@) + pin + utf8::encode_utf8(agent_id) + nonce + tls_exporter
}

fn append(out: &mut Vec<u8>, tail: &[u8])
    ensures
        final(out)@ == old(out)@ + tail@,
{
    let mut i: usize = 0;
    while i < tail.len()
        invariant
            i <= tail@.len(),
            out@ == old(out)@ + tail@.take(i as int),
        decreases tail@.len() - i,
    {
        out.push(tail[i]);
        assert(tail@.take(i + 1) =~= tail@.take(i as int).push(tail@[i as int]));
        assert(out@ =~= old(out)@ + tail@.take(i + 1));
        i = i + 1;
    }
    assert(tail@.take(tail@.len() as int) =~= tail@);
}

/// The digest that an agent signs to authenticate a session.
pub fn auth_challenge_digest(
    pin: &[u8; PIN_LEN],
    agent_id: &str,
    nonce32: &[u8; 32],
    tls_exporter: &[u8],
) -> (digest: [u8; 32])
    ensures
        digest@ == crypto::sha256_of(auth_message(pin@, agent_id@, nonce32@, tls_exporter@)),
{
    let mut message: Vec<u8> = bytes::copy_of(AUTH_LABEL.as_bytes());
    append(&mut message, pin.as_slice());
    append(&mut message, agent_id.as_bytes());
    append(&mut message, nonce32.as_slice());
    append(&mut message, tls_exporter);
    crypto::sha256(message.as_slice())
}

/// The signed byte string fixes everything that it is made of: two sessions with
/// keying material of one length that hash the same string have the same pin,
/// agent, nonce and keying material.
pub proof fn law_signed_string_binds_its_parts(
    pin_a: Seq<u8>,
    agent_a: Seq<char>,
    nonce_a: Seq<u8>,
    exporter_a: Seq<u8>,
    pin_b: Seq<u8>,
    agent_b: Seq<char>,
    nonce_b: Seq<u8>,
    exporter_b: Seq<u8>,
)
    requires
        pin_a.len() == PIN_LEN,
        pin_b.len() == PIN_LEN,
        nonce_a.len() == 32,
        nonce_b.len() == 32,
        exporter_a.len() == exporter_b.len(),
        auth_message(pin_a, agent_a, nonce_a, exporter_a) == auth_message(
            pin_b,
            agent_b,
            nonce_b,
            exporter_b,
        ),
    ensures
        pin_a == pin_b,
        agent_a == agent_b,
        nonce_a == nonce_b,
        exporter_a == exporter_b,
{
    let m = auth_message(pin_a, agent_a, nonce_a, exporter_a);
    let label = utf8::encode_utf8(AUTH_LABEL@);
    let l = label.len() as int;
    let ua = utf8::encode_utf8(agent_a);
    let ub = utf8::encode_utf8(agent_b);
    let p = PIN_LEN as int;
    let u = ua.len() as int;
    let e = exporter_a.len() as int;
    assert(m.len() == l + p + ua.len() + 32 + e);
    assert(auth_message(pin_b, agent_b, nonce_b, exporter_b).len() == l + p + ub.len() + 32 + e);
    assert(m.subrange(l, l + p) =~= pin_a);
    assert(m.subrange(l, l + p) =~= pin_b);
    assert(m.subrange(l + p, l + p + u) =~= ua);
    assert(m.subrange(l + p, l + p + u) =~= ub);
    assert(m.subrange(l + p + u, l + p + u + 32) =~= nonce_a);
    assert(m.subrange(l + p + u, l + p + u + 32) =~= nonce_b);
    assert(m.subrange(l + p + u + 32, l + p + u + 32 + e) =~= exporter_a);
    assert(m.subrange(l + p + u + 32, l + p + u + 32 + e) =~= exporter_b);
    utf8::encode_utf8_decode_utf8(agent_a);
    utf8::encode_utf8_decode_utf8(agent_b);
}

} // verus!
