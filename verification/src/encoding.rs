//! Text encodings of bytes: every call into `hex` and `base64`.
use base64::Engine;
use vstd::prelude::*;

verus! {

/// The lower-case hexadecimal digit of a value below sixteen.
pub open spec fn hex_digit(n: u8) -> char {
    if n < 10 {
        (48 + n) as char
    } else {
        (87 + n) as char
    }
}

/// Two lower-case hexadecimal digits per byte, high half first.
pub open spec fn lower_hex(bytes: Seq<u8>) -> Seq<char> {
    Seq::new(
        2 * bytes.len(),
        |i: int|
            if i % 2 == 0 {
                hex_digit(bytes[i / 2] / 16)
            } else {
                hex_digit(bytes[i / 2] % 16)
            },
    )
}

pub open spec fn is_hex_char(c: char) -> bool {
    '0' <= c <= '9' || 'a' <= c <= 'f' || 'A' <= c <= 'F'
}

/// The value of a hexadecimal digit of either case.
pub open spec fn hex_value(c: char) -> int {
    if '0' <= c <= '9' {
        c as u32 - 48
    } else if 'a' <= c <= 'f' {
        c as u32 - 87
    } else {
        c as u32 - 55
    }
}

/// The bytes that a string of hexadecimal digits denotes, two digits a byte.
pub open spec fn unhex(s: Seq<char>) -> Option<Seq<u8>> {
    if s.len() % 2 == 0 && (forall|i: int| 0 <= i < s.len() ==> is_hex_char(#[trigger] s[i])) {
        Some(
            Seq::new(
                s.len() / 2,
                |i: int| (16 * hex_value(s[2 * i]) + hex_value(s[2 * i + 1])) as u8,
            ),
        )
    } else {
        None
    }
}

/// Decoding takes back what encoding wrote.
pub proof fn law_hex_round_trip(bytes: Seq<u8>)
    ensures
        unhex(lower_hex(bytes)) == Some(bytes),
{
    let s = lower_hex(bytes);
    assert forall|i: int| 0 <= i < s.len() implies is_hex_char(#[trigger] s[i]) by {
        lemma_hex_digit(bytes[i / 2] / 16);
        lemma_hex_digit(bytes[i / 2] % 16);
    }
    let back = unhex(s).unwrap();
    assert forall|i: int| 0 <= i < bytes.len() implies back[i] == bytes[i] by {
        lemma_hex_digit(bytes[i] / 16);
        lemma_hex_digit(bytes[i] % 16);
        assert((2 * i) / 2 == i && (2 * i) % 2 == 0);
        assert((2 * i + 1) / 2 == i && (2 * i + 1) % 2 == 1);
    }
    assert(back =~= bytes);
}

proof fn lemma_hex_digit(n: u8)
    requires
        n < 16,
    ensures
        is_hex_char(hex_digit(n)),
        hex_value(hex_digit(n)) == n,
{
}

/// Hexadecimal text of a byte string.
///
/// Calls `hex::encode`: two lower-case digits a byte.
#[verifier::external_body]
pub(crate) fn hex_encode(bytes: &[u8]) -> (out: String)
    ensures
        out@ == lower_hex(bytes@),
{
    hex::encode(bytes)
}

/// The bytes of a hexadecimal text.
///
/// Calls `hex::decode`, which takes digits of either case and refuses an odd
/// number of them or any other character.
#[verifier::external_body]
pub(crate) fn hex_decode(text: &str) -> (out: Option<Vec<u8>>)
    ensures
        match out {
            Some(bytes) => unhex(text@) == Some(bytes@),
            None => unhex(text@) is None,
        },
{
    hex::decode(text).ok()
}

/// What standard padded base64 text decodes to, if it is such text.
pub uninterp spec fn unbase64(text: Seq<char>) -> Option<Seq<u8>>;

/// The bytes of a base64 text.
///
/// Calls `decode` of base64's `STANDARD` engine: the standard alphabet with
/// padding.
#[verifier::external_body]
pub(crate) fn base64_decode(text: &str) -> (out: Option<Vec<u8>>)
    ensures
        match out {
            Some(bytes) => unbase64(text@) == Some(bytes@),
            None => unbase64(text@) is None,
        },
{
    base64::engine::general_purpose::STANDARD.decode(text).ok()
}

} // verus!
