use aegis::enroll::{cert_fingerprint, make_challenge, nonce_from_challenge, verify_challenge};
use aegis::pin::{ct_eq, fingerprint, parse_pin_hex, PinError, PinnedVerifier, PIN_LEN};
use aegis::tls::{auth_challenge_digest, AUTH_LABEL};
use base64::Engine;
use ed25519_dalek::{Signer, SigningKey};
use sha2::{Digest, Sha256};

/// Mint a fresh self-signed cert and return its DER bytes.
fn mint_cert(san: &str) -> Vec<u8> {
    let ck = rcgen::generate_simple_self_signed(vec![san.to_string()]).unwrap();
    ck.cert.der().to_vec()
}

fn verify(verifier: &PinnedVerifier, cert_der: &[u8]) -> Result<(), PinError> {
    verifier.verify_server_cert(cert_der)
}

#[test]
fn fingerprint_is_stable_and_32_bytes() {
    let der = mint_cert("a.example");
    let fp1 = fingerprint(&der);
    let fp2 = fingerprint(&der);
    assert_eq!(fp1, fp2, "fingerprint must be deterministic");
    assert_eq!(fp1.len(), 32);
}

#[test]
fn fingerprint_differs_across_certs() {
    let a = fingerprint(&mint_cert("a.example"));
    let b = fingerprint(&mint_cert("b.example"));
    assert_ne!(a, b, "distinct certs must have distinct fingerprints");
}

#[test]
fn fingerprint_is_sha256() {
    let expected = [
        0xba, 0x78, 0x16, 0xbf, 0x8f, 0x01, 0xcf, 0xea, 0x41, 0x41, 0x40, 0xde, 0x5d, 0xae, 0x22,
        0x23, 0xb0, 0x03, 0x61, 0xa3, 0x96, 0x17, 0x7a, 0x9c, 0xb4, 0x10, 0xff, 0x61, 0xf2, 0x00,
        0x15, 0xad,
    ];
    assert_eq!(fingerprint(b"abc"), expected);
}

#[test]
fn ct_eq_matches_and_mismatches() {
    let a = [7u8; 32];
    let b = [7u8; 32];
    let mut c = [7u8; 32];
    c[31] ^= 1;
    assert!(ct_eq(&a, &b));
    assert!(!ct_eq(&a, &c));
}

#[test]
fn parse_pin_hex_roundtrip() {
    let der = mint_cert("a.example");
    let fp = fingerprint(&der);
    let s = hex::encode(fp);
    assert_eq!(parse_pin_hex(&s), Some(fp));
    // trims surrounding whitespace (identity.json may hold a newline)
    assert_eq!(parse_pin_hex(&format!("  {s}\n")), Some(fp));
}

#[test]
fn parse_pin_hex_rejects_bad_input() {
    assert_eq!(parse_pin_hex("zz"), None); // not hex
    assert_eq!(parse_pin_hex("abcd"), None); // wrong length
    assert_eq!(parse_pin_hex(&"00".repeat(33)), None); // too long
}

#[test]
fn parse_pin_hex_takes_either_case() {
    let mut pin = [0u8; PIN_LEN];
    pin[0] = 0xab;
    pin[31] = 0xef;
    assert_eq!(parse_pin_hex(&hex::encode_upper(pin)), Some(pin));
    assert_eq!(parse_pin_hex(&"é".repeat(32)), None);
}

#[test]
fn pin_match_accepts() {
    let der = mint_cert("a.example");
    let v = PinnedVerifier::new(vec![fingerprint(&der)]);
    assert!(verify(&v, &der).is_ok(), "exact pin must accept");
}

#[test]
fn flipped_pin_byte_rejects() {
    let der = mint_cert("a.example");
    let mut pin = fingerprint(&der);
    pin[0] ^= 0x01;
    let v = PinnedVerifier::new(vec![pin]);
    assert!(verify(&v, &der).is_err(), "single-bit pin diff must reject");
}

#[test]
fn pin_of_a_rejects_cert_b() {
    let a = mint_cert("a.example");
    let b = mint_cert("b.example");
    let v = PinnedVerifier::new(vec![fingerprint(&a)]);
    assert!(verify(&v, &b).is_err(), "wrong cert must reject");
}

#[test]
fn empty_or_short_cert_bytes_reject() {
    let der = mint_cert("a.example");
    let v = PinnedVerifier::new(vec![fingerprint(&der)]);
    assert!(verify(&v, &[]).is_err(), "empty cert must reject");
    assert!(verify(&v, &[0u8; 8]).is_err(), "garbage cert must reject");
}

#[test]
fn empty_pin_set_rejects_everything() {
    let der = mint_cert("a.example");
    let v = PinnedVerifier::new(vec![]);
    assert!(verify(&v, &der).is_err(), "no pins => reject");
    assert_eq!(
        verify(&v, &der).unwrap_err().to_string(),
        "server certificate pin mismatch"
    );
}

#[test]
fn rotation_pin_set_accepts_either_cert() {
    // Two valid pins (e.g. mid-rotation): both certs must verify.
    let a = mint_cert("a.example");
    let b = mint_cert("b.example");
    let v = PinnedVerifier::new(vec![fingerprint(&a), fingerprint(&b)]);
    assert!(verify(&v, &a).is_ok());
    assert!(verify(&v, &b).is_ok());
    assert_eq!(v.pins().len(), 2);
}

#[test]
fn auth_digest_is_deterministic_and_input_sensitive() {
    let pin = [9u8; PIN_LEN];
    let nonce = [3u8; 32];
    let exporter = [1u8; 32];
    let base = auth_challenge_digest(&pin, "agent-1", &nonce, &exporter);
    assert_eq!(
        base,
        auth_challenge_digest(&pin, "agent-1", &nonce, &exporter),
        "same inputs => same digest"
    );
    // Each input must change the digest.
    let mut pin2 = pin;
    pin2[0] ^= 1;
    assert_ne!(
        base,
        auth_challenge_digest(&pin2, "agent-1", &nonce, &exporter)
    );
    assert_ne!(
        base,
        auth_challenge_digest(&pin, "agent-2", &nonce, &exporter)
    );
    let mut nonce2 = nonce;
    nonce2[0] ^= 1;
    assert_ne!(
        base,
        auth_challenge_digest(&pin, "agent-1", &nonce2, &exporter)
    );
    assert_ne!(
        base,
        auth_challenge_digest(&pin, "agent-1", &nonce, &[2u8; 32])
    );
}

#[test]
fn auth_digest_hashes_the_parts_in_order() {
    let pin = [9u8; PIN_LEN];
    let nonce = [3u8; 32];
    let mut h = Sha256::new();
    h.update(AUTH_LABEL);
    h.update(pin);
    h.update("agent-1");
    h.update(nonce);
    h.update([1u8; 32]);
    let expected: [u8; 32] = h.finalize().into();
    assert_eq!(
        auth_challenge_digest(&pin, "agent-1", &nonce, &[1u8; 32]),
        expected
    );
    assert_eq!(AUTH_LABEL, "aegis-session-auth-v1");
}

#[test]
fn cert_fingerprint_matches_pin_of_der() {
    // The hex fingerprint must equal hex(fingerprint(der)) so an agent pinning
    // the printed value computes the same digest pin.
    let der = mint_cert("aegisd");
    let fp = cert_fingerprint(&der);
    assert_eq!(fp.len(), 64);
    assert_eq!(fp, hex::encode(fingerprint(&der)));
    // Deterministic.
    assert_eq!(fp, cert_fingerprint(&der));
}

/// End-to-end: a signature produced exactly the way the agent produces it must
/// verify, and tampering with any bound input must fail.
#[test]
fn verify_challenge_accepts_agent_signature() {
    let key = SigningKey::generate(&mut rand::rngs::OsRng);
    let vk = key.verifying_key().to_bytes();
    let pin = [3u8; PIN_LEN];
    let agent_id = "agent-1";
    let challenge_id = make_challenge();
    let exporter = [9u8; 32];

    let nonce = nonce_from_challenge(&challenge_id);
    let digest = auth_challenge_digest(&pin, agent_id, &nonce, &exporter);
    let sig_b64 = base64::engine::general_purpose::STANDARD.encode(key.sign(&digest).to_bytes());

    assert!(verify_challenge(&vk, &pin, agent_id, &challenge_id, &exporter, &sig_b64));
    // Whitespace around the text is no matter.
    assert!(verify_challenge(
        &vk,
        &pin,
        agent_id,
        &challenge_id,
        &exporter,
        &format!(" {sig_b64}\n")
    ));

    // Wrong agent_id -> reject.
    assert!(!verify_challenge(&vk, &pin, "agent-2", &challenge_id, &exporter, &sig_b64));
    // Wrong pin -> reject.
    let mut pin2 = pin;
    pin2[0] ^= 1;
    assert!(!verify_challenge(&vk, &pin2, agent_id, &challenge_id, &exporter, &sig_b64));
    // Wrong challenge id (different nonce) -> reject.
    assert!(!verify_challenge(&vk, &pin, agent_id, &make_challenge(), &exporter, &sig_b64));
    // Wrong exporter -> reject.
    assert!(!verify_challenge(&vk, &pin, agent_id, &challenge_id, &[0u8; 32], &sig_b64));
}

#[test]
fn verify_challenge_rejects_malformed_signature() {
    let key = SigningKey::generate(&mut rand::rngs::OsRng);
    let vk = key.verifying_key().to_bytes();
    let pin = [1u8; PIN_LEN];
    let id = make_challenge();
    // Not base64.
    assert!(!verify_challenge(&vk, &pin, "a", &id, &[0u8; 32], "!!!not-base64!!!"));
    // Valid base64 but wrong length for an Ed25519 signature.
    let short = base64::engine::general_purpose::STANDARD.encode([0u8; 8]);
    assert!(!verify_challenge(&vk, &pin, "a", &id, &[0u8; 32], &short));
    // Grossly oversized.
    let long = base64::engine::general_purpose::STANDARD.encode([0u8; 200]);
    assert!(!verify_challenge(&vk, &pin, "a", &id, &[0u8; 32], &long));
    // A key that is no curve point has signed nothing.
    let mut bad = [0u8; 32];
    bad[0] = 2;
    let sig = base64::engine::general_purpose::STANDARD.encode([0u8; 64]);
    assert!(!verify_challenge(&bad, &pin, "a", &id, &[0u8; 32], &sig));
}

#[test]
fn nonce_is_the_digest_of_the_challenge() {
    let id = [7u8; 16];
    let expected: [u8; 32] = Sha256::digest(id).into();
    assert_eq!(nonce_from_challenge(&id), expected);
    let fresh = make_challenge();
    assert_eq!(fresh[6] >> 4, 4);
    assert_eq!(fresh[8] >> 6, 2);
    assert_ne!(make_challenge(), fresh);
}
