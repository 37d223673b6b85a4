//! Identifiers: every call into `uuid`.
use crate::encoding;
use vstd::prelude::*;

verus! {

/// The hyphenated text of an identifier: hexadecimal groups of eight, four,
/// four, four and twelve digits.
pub open spec fn uuid_text(id: Seq<u8>) -> Seq<char> {
    encoding::lower_hex(id.subrange(0, 4)) + seq!['-'] + encoding::lower_hex(id.subrange(4, 6))
        + seq!['-'] + encoding::lower_hex(id.subrange(6, 8)) + seq!['-'] + encoding::lower_hex(
        id.subrange(8, 10),
    ) + seq!['-'] + encoding::lower_hex(id.subrange(10, 16))
}

/// The identifier that a text denotes, in any of the forms that `uuid` reads.
pub uninterp spec fn uuid_of(text: Seq<char>) -> Option<Seq<u8>>;

/// The text of an identifier holds no colon.
pub proof fn law_uuid_text_has_no_colon(id: Seq<u8>)
    requires
        id.len() == 16,
    ensures
        !uuid_text(id).contains(':'),
{
    let text = uuid_text(id);
    assert forall|i: int| 0 <= i < text.len() implies text[i] != ':' by {
    }
}

/// Whether an identifier is a random one by its form: sixteen bytes with the bits of
/// version four and of the RFC 4122 variant.
pub open spec fn is_v4(id: Seq<u8>) -> bool {
    id.len() == 16 && id[6] / 16 == 4 && id[8] / 64 == 2
}

/// A random identifier.
///
/// Calls `Uuid::new_v4`. Only the version and variant bits are fixed.
#[verifier::external_body]
pub(crate) fn new_v4() -> (id: [u8; 16])
    ensures
        is_v4(id@),
{
    uuid::Uuid::new_v4().into_bytes()
}

/// The hyphenated lower-case text of an identifier.
///
/// Calls `Uuid::to_string`. `Uuid::parse_str` reads the text back as the same
/// identifier.
#[verifier::external_body]
pub(crate) fn uuid_string(id: &[u8; 16]) -> (out: String)
    ensures
        out@ == uuid_text(id@),
        uuid_of(out@) == Some(id@),
{
    uuid::Uuid::from_bytes(*id).to_string()
}

/// Reads an identifier.
///
/// Calls `Uuid::parse_str`.
#[verifier::external_body]
pub(crate) fn parse_uuid(text: &str) -> (out: Option<[u8; 16]>)
    ensures
        match out {
            Some(id) => uuid_of(text@) == Some(id@),
            None => uuid_of(text@) is None,
        },
{
    uuid::Uuid::parse_str(text).ok().map(|id| id.into_bytes())
}

} // verus!
