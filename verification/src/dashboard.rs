//! The embedded dashboard: which asset a request path is served.
use crate::{plugin, text};
use vstd::prelude::*;

verus! {

/// The entry point, served for `/` and for every client-side route.
pub const INDEX_HTML: &'static str = "index.html";

/// What a request is served.
#[derive(Debug, Clone, PartialEq, Eq)]
pub enum Served {
    /// The asset at this place, with this content type.
    Asset(usize, String),
    /// The entry point at this place, as HTML.
    Index(usize),
    /// Nothing: there is no entry point.
    Missing,
}

/// Without its leading slashes.
pub open spec fn without_leading_slashes(s: Seq<char>) -> Seq<char>
    decreases s.len(),
{
    if s.len() > 0 && s[0] == '/' {
        without_leading_slashes(s.skip(1))
    } else {
        s
    }
}

/// The asset that a request path asks for.
pub open spec fn asset_name(path: Seq<char>) -> Seq<char> {
    let rest = without_leading_slashes(path);
    if rest.len() == 0 {
        INDEX_HTML@
    } else {
        rest
    }
}

/// The content type that a file name suggests.
pub uninterp spec fn mime_of(path: Seq<char>) -> Seq<char>;

/// Guesses a content type from a file name.
///
/// Calls `mime_guess::from_path` and `MimeGuess::first_or_octet_stream`.
#[verifier::external_body]
fn content_type(path: &str) -> (out: String)
    ensures
        out@ == mime_of(path@),
{
    mime_guess::from_path(path).first_or_octet_stream().as_ref().to_string()
}

fn strip_slashes(s: &[char]) -> (out: &[char])
    ensures
        out@ == without_leading_slashes(s@),
{
    let mut i: usize = 0;
    assert(s@.skip(0) =~= s@);
    while i < s.len() && s[i] == '/'
        invariant
            i <= s@.len(),
            without_leading_slashes(s@) == without_leading_slashes(s@.skip(i as int)),
        decreases s@.len() - i,
    {
        assert(s@.skip(i as int).skip(1) =~= s@.skip(i + 1));
        i = i + 1;
    }
    assert(s@.subrange(i as int, s@.len() as int) =~= s@.skip(i as int));
    &s[i..s.len()]
}

fn find_asset(assets: &Vec<String>, name: &str) -> (at: Option<usize>)
    ensures
        match at {
            Some(i) => i < assets@.len() && assets@[i as int]@ == name@,
            None => !plugin::names(assets@).contains(name@),
        },
{
    let mut i: usize = 0;
    while i < assets.len()
        invariant
            i <= assets@.len(),
            forall|j: int| 0 <= j < i ==> plugin::names(assets@)[j] != name@,
        decreases assets@.len() - i,
    {
        if text::same(assets[i].as_str(), name) {
            return Some(i);
        }
        assert(plugin::names(assets@)[i as int] == assets@[i as int]@);
        i = i + 1;
    }
    None
}

/// Whether what is served is right for a path: the named asset with its content
/// type, else the entry point, else nothing. `mime` is the type that the asset's
/// name suggests.
pub open spec fn serves(
    path: Seq<char>,
    assets: Seq<Seq<char>>,
    mime: Seq<char>,
    served: Served,
) -> bool {
    if assets.contains(asset_name(path)) {
        served matches Served::Asset(i, t) && i < assets.len() && assets[i as int] == asset_name(path)
            && t@ == mime
    } else if assets.contains(INDEX_HTML@) {
        served matches Served::Index(i) && i < assets.len() && assets[i as int] == INDEX_HTML@
    } else {
        served is Missing
    }
}

/// Chooses what a request path is served out of the embedded assets.
pub fn static_handler(path: &str, assets: &Vec<String>) -> (served: Served)
    ensures
        serves(path@, plugin::names(assets@), mime_of(asset_name(path@)), served),
{
    let chars: Vec<char> = text::chars_of(path);
    let rest: &[char] = strip_slashes(chars.as_slice());
    let name: String = if rest.len() == 0 {
        INDEX_HTML.to_owned()
    } else {
        text::string_of(rest)
    };
    let ghost all = plugin::names(assets@);
    match find_asset(assets, name.as_str()) {
        Some(i) => {
            assert(all[i as int] == name@);
            Served::Asset(i, content_type(name.as_str()))
        },
        None => match find_asset(assets, INDEX_HTML) {
            Some(i) => {
                assert(all[i as int] == INDEX_HTML@);
                Served::Index(i)
            },
            None => Served::Missing,
        },
    }
}

/// Where the entry point is embedded, no path is left unanswered.
pub proof fn law_every_path_is_served(
    path: Seq<char>,
    assets: Seq<Seq<char>>,
    mime: Seq<char>,
    served: Served,
)
    requires
        assets.contains(INDEX_HTML@),
        serves(path, assets, mime, served),
    ensures
        !(served is Missing),
{
}

} // verus!
