//! Certificate pinning.
//!
//! A server is trusted because the fingerprint of its leaf certificate is one of
//! a set of pins, and for no other reason: there is no chain to build and no name
//! to validate. The set, rather than one pin, allows for rotation.
use crate::{crypto, encoding, text};
use vstd::prelude::*;

verus! {

/// Length, in bytes, of a SHA-256 certificate pin.
pub const PIN_LEN: usize = 32;

/// The SHA-256 fingerprint of a DER-encoded certificate.
pub fn fingerprint(cert_der: &[u8]) -> (pin: [u8; PIN_LEN])
    ensures
        pin@ == crypto::sha256_of(cert_der@),
{
    crypto::sha256(cert_der)
}

/// Constant-time equality for two 32-byte pins.
///
/// Every byte is folded into an accumulator that is only inspected at the end,
/// so the time taken does not depend on where the first difference is.
pub fn ct_eq(a: &[u8; PIN_LEN], b: &[u8; PIN_LEN]) -> (eq: bool)
    ensures
        eq == (a@ == b@),
{
    let mut acc: u8 = 0;
    let mut i: usize = 0;
    while i < PIN_LEN
        invariant
            i <= PIN_LEN,
            acc == 0 <==> forall|j: int| 0 <= j < i ==> a@[j] == b@[j],
        decreases PIN_LEN - i,
    {
        let x: u8 = a[i];
        let y: u8 = b[i];
        assert((acc | (x ^ y)) == 0 <==> acc == 0 && x == y) by (bit_vector);
        acc = acc | (x ^ y);
        i = i + 1;
    }
    if acc == 0 {
        assert(a@ =~= b@);
    }
    acc == 0
}

/// The pin that a hexadecimal string denotes, whitespace around it aside.
pub open spec fn pin_of_hex(s: Seq<char>) -> Option<Seq<u8>> {
    match encoding::unhex(text::trimmed(s)) {
        Some(bytes) => if bytes.len() == PIN_LEN {
            Some(bytes)
        } else {
            None
        },
        None => None,
    }
}

/// Copies a byte string of exactly thirty-two bytes.
pub fn array32(bytes: &[u8]) -> (out: Option<[u8; 32]>)
    ensures
        match out {
            Some(array) => array@ == bytes@,
            None => bytes@.len() != 32,
        },
{
    if bytes.len() != 32 {
        return None;
    }
    let mut out: [u8; 32] = [0; 32];
    let mut i: usize = 0;
    while i < 32
        invariant
            i <= 32,
            bytes@.len() == 32,
            forall|j: int| 0 <= j < i ==> out@[j] == bytes@[j],
        decreases 32 - i,
    {
        out[i] = bytes[i];
        i = i + 1;
    }
    assert(out@ =~= bytes@);
    Some(out)
}

/// Decode a 64-character hex string into a 32-byte pin.
///
/// `None` if the trimmed string is not valid hex or does not decode to exactly
/// [`PIN_LEN`] bytes.
pub fn parse_pin_hex(s: &str) -> (pin: Option<[u8; PIN_LEN]>)
    ensures
        match pin {
            Some(pin) => pin_of_hex(s@) == Some(pin@),
            None => pin_of_hex(s@) is None,
        },
{
    let chars: Vec<char> = text::chars_of(s);
    let trimmed: String = text::string_of(text::trim(chars.as_slice()));
    match encoding::hex_decode(trimmed.as_str()) {
        Some(bytes) => array32(bytes.as_slice()),
        None => None,
    }
}

/// The pins of a list, as byte strings.
pub open spec fn pin_list(pins: Seq<[u8; PIN_LEN]>) -> Seq<Seq<u8>> {
    pins.map_values(|p: [u8; PIN_LEN]| p@)
}

/// Why a server certificate is not trusted.
#[derive(Debug, Clone, Copy, PartialEq, Eq, Structural)]
pub enum PinError {
    /// Its fingerprint is none of the pins.
    Mismatch,
}

impl PinError {
    /// The message of the handshake failure.
    pub fn to_string(&self) -> (out: String)
        ensures
            out@ == "server certificate pin mismatch"@,
    {
        "server certificate pin mismatch".to_owned()
    }
}

/// Accepts a server whose leaf certificate has one of a set of fingerprints.
#[derive(Debug, Clone)]
pub struct PinnedVerifier {
    pins: Vec<[u8; PIN_LEN]>,
}

impl View for PinnedVerifier {
    type V = Seq<Seq<u8>>;

    closed spec fn view(&self) -> Seq<Seq<u8>> {
        pin_list(self.pins@)
    }
}

impl PinnedVerifier {
    /// A verifier that accepts any of `pins`.
    pub fn new(pins: Vec<[u8; PIN_LEN]>) -> (v: PinnedVerifier)
        ensures
            v@ == pin_list(pins@),
    {
        PinnedVerifier { pins }
    }

    /// The pins this verifier accepts.
    pub fn pins(&self) -> (pins: &Vec<[u8; PIN_LEN]>)
        ensures
            pin_list(pins@) == self@,
    {
        &self.pins
    }

    /// Accepts a leaf certificate exactly if its fingerprint is a pin. The whole
    /// set is always scanned.
    pub fn verify_server_cert(&self, end_entity: &[u8]) -> (res: Result<(), PinError>)
        ensures
            res is Ok <==> self@.contains(crypto::sha256_of(end_entity@)),
    {
        let presented: [u8; PIN_LEN] = fingerprint(end_entity);
        let mut matched: bool = false;
        let mut i: usize = 0;
        while i < self.pins.len()
            invariant
                i <= self.pins@.len(),
                presented@ == crypto::sha256_of(end_entity@),
                matched <==> exists|j: int| 0 <= j < i && #[trigger] self@[j] == presented@,
            decreases self.pins@.len() - i,
        {
            let hit: bool = ct_eq(&presented, &self.pins[i]);
            assert(self@[i as int] == self.pins@[i as int]@);
            matched = hit || matched;
            i = i + 1;
        }
        if matched {
            Ok(())
        } else {
            Err(PinError::Mismatch)
        }
    }
}

/// With no pins, no certificate is accepted.
pub proof fn law_no_pins_no_trust(v: PinnedVerifier, cert_der: Seq<u8>)
    requires
        v@.len() == 0,
    ensures
        !v@.contains(crypto::sha256_of(cert_der)),
{
}

/// During rotation either certificate is accepted: a set that holds both
/// fingerprints trusts both.
pub proof fn law_rotation_trusts_both(v: PinnedVerifier, outgoing: Seq<u8>, incoming: Seq<u8>)
    requires
        v@ == seq![crypto::sha256_of(outgoing), crypto::sha256_of(incoming)],
    ensures
        v@.contains(crypto::sha256_of(outgoing)),
        v@.contains(crypto::sha256_of(incoming)),
{
    assert(v@[0] == crypto::sha256_of(outgoing));
    assert(v@[1] == crypto::sha256_of(incoming));
}

/// A pin is read back from its hexadecimal text.
pub proof fn law_pin_hex_round_trip(pin: Seq<u8>)
    requires
        pin.len() == PIN_LEN,
    ensures
        pin_of_hex(encoding::lower_hex(pin)) == Some(pin),
{
    let s = encoding::lower_hex(pin);
    encoding::law_hex_round_trip(pin);
    assert(encoding::is_hex_char(s[0]));
    assert(encoding::is_hex_char(s.last()));
    assert(text::trimmed(s) == s);
}

} // verus!
