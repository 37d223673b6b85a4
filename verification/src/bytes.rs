//! Byte strings: copying, searching, UTF-8.
use vstd::prelude::*;
use vstd::utf8;

verus! {

/// An owned copy of a byte string.
pub fn copy_of(bytes: &[u8]) -> (out: Vec<u8>)
    ensures
        out@ == bytes@,
{
    let mut out: Vec<u8> = Vec::new();
    let mut i: usize = 0;
    while i < bytes.len()
        invariant
            i <= bytes@.len(),
            out@ == bytes@.take(i as int),
        decreases bytes@.len() - i,
    {
        out.push(bytes[i]);
        assert(bytes@.take(i + 1) =~= bytes@.take(i as int).push(bytes@[i as int]));
        i = i + 1;
    }
    assert(bytes@.take(bytes@.len() as int) =~= bytes@);
    out
}

/// Whether two byte strings are equal.
pub fn same(a: &[u8], b: &[u8]) -> (eq: bool)
    ensures
        eq == (a@ == b@),
{
    if a.len() != b.len() {
        return false;
    }
    let mut i: usize = 0;
    while i < a.len()
        invariant
            i <= a@.len(),
            a@.len() == b@.len(),
            forall|j: int| 0 <= j < i ==> a@[j] == b@[j],
        decreases a@.len() - i,
    {
        if a[i] != b[i] {
            return false;
        }
        i = i + 1;
    }
    assert(a@ =~= b@);
    true
}

/// Reads a byte string as UTF-8.
///
/// Calls `std::str::from_utf8`, which succeeds on valid UTF-8 and then gives the
/// characters that the bytes encode.
#[verifier::external_body]
pub(crate) fn utf8_str(bytes: &[u8]) -> (out: Option<&str>)
    ensures
        match out {
            Some(s) => utf8::valid_utf8(bytes@) && s@ == utf8::decode_utf8(bytes@)
                && utf8::encode_utf8(s@) == bytes@,
            None => !utf8::valid_utf8(bytes@),
        },
{
    std::str::from_utf8(bytes).ok()
}

/// The first place at which `needle` occurs; an empty needle occurs nowhere.
pub open spec fn first_match(haystack: Seq<u8>, needle: Seq<u8>) -> Option<nat>
    decreases haystack.len(),
{
    if needle.len() == 0 || haystack.len() < needle.len() {
        None
    } else if haystack.take(needle.len() as int) == needle {
        Some(0)
    } else {
        match first_match(haystack.skip(1), needle) {
            Some(i) => Some(i + 1),
            None => None,
        }
    }
}

/// Find the first index of `needle` within `haystack`, or `None`.
pub fn find_subslice(haystack: &[u8], needle: &[u8]) -> (at: Option<usize>)
    ensures
        match at {
            Some(i) => first_match(haystack@, needle@) == Some(i as nat) && i + needle@.len()
                <= haystack@.len(),
            None => first_match(haystack@, needle@) is None,
        },
{
    if needle.len() == 0 || haystack.len() < needle.len() {
        return None;
    }
    let total: usize = haystack.len();
    let last: usize = total - needle.len();
    let mut i: usize = 0;
    assert(haystack@.skip(0) =~= haystack@);
    while i <= last
        invariant
            i <= last + 1,
            total == haystack@.len(),
            last == total - needle@.len(),
            0 < needle@.len() <= haystack@.len(),
            first_match(haystack@, needle@) == (match first_match(
                haystack@.skip(i as int),
                needle@,
            ) {
                Some(k) => Some((k + i) as nat),
                None => None::<nat>,
            }),
        decreases last + 1 - i,
    {
        assert(haystack@.skip(i as int).take(needle@.len() as int) =~= haystack@.subrange(
            i as int,
            i + needle@.len(),
        ));
        if same(&haystack[i..i + needle.len()], needle) {
            return Some(i);
        }
        assert(haystack@.skip(i as int).skip(1) =~= haystack@.skip(i + 1));
        i = i + 1;
    }
    None
}

} // verus!
