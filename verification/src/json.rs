//! JSON texts: every call into `serde_json`.
use vstd::prelude::*;

verus! {

/// Whether bytes are a JSON text.
pub uninterp spec fn is_json(body: Seq<u8>) -> bool;

/// Whether bytes are a JSON text.
///
/// Calls `serde_json::from_slice` for any value.
#[verifier::external_body]
pub(crate) fn check_json(body: &[u8]) -> (ok: bool)
    ensures
        ok == is_json(body@),
{
    serde_json::from_slice::<serde_json::Value>(body).is_ok()
}

/// The string under a name in a JSON object, if the bytes are such an object and
/// have a string there.
pub uninterp spec fn string_member(body: Seq<u8>, name: Seq<char>) -> Option<Seq<char>>;

/// Reads a string member of a JSON object.
///
/// Calls `serde_json::from_slice`, `Value::get` and `Value::as_str`.
#[verifier::external_body]
pub(crate) fn read_string(body: &[u8], name: &str) -> (out: Option<String>)
    ensures
        match out {
            Some(text) => string_member(body@, name@) == Some(text@),
            None => string_member(body@, name@) is None,
        },
{
    let value: serde_json::Value = serde_json::from_slice(body).ok()?;
    value.get(name)?.as_str().map(|text| text.to_string())
}

/// The unsigned number under a name in a JSON object, if there is one.
pub uninterp spec fn number_member(body: Seq<u8>, name: Seq<char>) -> Option<u64>;

/// Reads a number member of a JSON object.
///
/// Calls `serde_json::from_slice`, `Value::get` and `Value::as_u64`.
#[verifier::external_body]
pub(crate) fn read_number(body: &[u8], name: &str) -> (out: Option<u64>)
    ensures
        out == number_member(body@, name@),
{
    let value: serde_json::Value = serde_json::from_slice(body).ok()?;
    value.get(name)?.as_u64()
}

/// The number of items of a JSON array, if the bytes are one.
pub uninterp spec fn array_len(body: Seq<u8>) -> Option<nat>;

/// Counts the items of a JSON array.
///
/// Calls `serde_json::from_slice` and `Value::as_array`.
#[verifier::external_body]
pub(crate) fn count_items(body: &[u8]) -> (out: Option<usize>)
    ensures
        match out {
            Some(n) => array_len(body@) == Some(n as nat),
            None => array_len(body@) is None,
        },
{
    let value: serde_json::Value = serde_json::from_slice(body).ok()?;
    value.as_array().map(|items| items.len())
}

/// A list of optional strings, as values.
pub open spec fn opt_texts(list: Seq<Option<String>>) -> Seq<Option<Seq<char>>> {
    list.map_values(
        |s: Option<String>|
            match s {
                Some(s) => Some(s@),
                None => None,
            },
    )
}

/// What every item of a JSON array has under a name, where that is a string; nothing
/// where the bytes are no array.
pub uninterp spec fn string_members(body: Seq<u8>, name: Seq<char>) -> Option<
    Seq<Option<Seq<char>>>,
>;

/// Reads a string member of every item of a JSON array.
///
/// Calls `serde_json::from_slice`, `Value::as_array`, `Value::get` and `Value::as_str`.
/// There is one entry for each item.
#[verifier::external_body]
pub(crate) fn read_strings(body: &[u8], name: &str) -> (out: Option<Vec<Option<String>>>)
    ensures
        match out {
            Some(list) => string_members(body@, name@) == Some(opt_texts(list@)) && array_len(body@)
                == Some(list@.len()),
            None => string_members(body@, name@) is None && array_len(body@) is None,
        },
{
    let value: serde_json::Value = serde_json::from_slice(body).ok()?;
    let list = value.as_array()?.iter().map(|item| item.get(name)?.as_str().map(|s| s.to_string()));
    Some(list.collect())
}

/// What every item of a JSON array has under a name, where that is an unsigned number;
/// nothing where the bytes are no array.
pub uninterp spec fn number_members(body: Seq<u8>, name: Seq<char>) -> Option<Seq<Option<u64>>>;

/// Reads a number member of every item of a JSON array.
///
/// Calls `serde_json::from_slice`, `Value::as_array`, `Value::get` and `Value::as_u64`.
/// There is one entry for each item.
#[verifier::external_body]
pub(crate) fn read_numbers(body: &[u8], name: &str) -> (out: Option<Vec<Option<u64>>>)
    ensures
        match out {
            Some(list) => number_members(body@, name@) == Some(list@) && array_len(body@) == Some(
                list@.len(),
            ),
            None => number_members(body@, name@) is None && array_len(body@) is None,
        },
{
    let value: serde_json::Value = serde_json::from_slice(body).ok()?;
    Some(value.as_array()?.iter().map(|item| item.get(name)?.as_u64()).collect())
}

/// What every item of a JSON array has under a name, where that is a truth value;
/// nothing where the bytes are no array.
pub uninterp spec fn bool_members(body: Seq<u8>, name: Seq<char>) -> Option<Seq<Option<bool>>>;

/// Reads a truth value of every item of a JSON array.
///
/// Calls `serde_json::from_slice`, `Value::as_array`, `Value::get` and `Value::as_bool`.
/// There is one entry for each item.
#[verifier::external_body]
pub(crate) fn read_bools(body: &[u8], name: &str) -> (out: Option<Vec<Option<bool>>>)
    ensures
        match out {
            Some(list) => bool_members(body@, name@) == Some(list@) && array_len(body@) == Some(
                list@.len(),
            ),
            None => bool_members(body@, name@) is None && array_len(body@) is None,
        },
{
    let value: serde_json::Value = serde_json::from_slice(body).ok()?;
    Some(value.as_array()?.iter().map(|item| item.get(name)?.as_bool()).collect())
}

/// The text of the number that every item of a JSON array has under a name, where there
/// is one; nothing where the bytes are no array.
pub uninterp spec fn number_texts(body: Seq<u8>, name: Seq<char>) -> Option<Seq<Option<Seq<char>>>>;

/// Reads a number member of every item of a JSON array, real or whole, as text.
///
/// Calls `serde_json::from_slice`, `Value::as_array`, `Value::get`, `Value::as_number`
/// and `Number::to_string`. There is one entry for each item.
#[verifier::external_body]
pub(crate) fn read_number_texts(body: &[u8], name: &str) -> (out: Option<Vec<Option<String>>>)
    ensures
        match out {
            Some(list) => number_texts(body@, name@) == Some(opt_texts(list@)) && array_len(body@)
                == Some(list@.len()),
            None => number_texts(body@, name@) is None && array_len(body@) is None,
        },
{
    let value: serde_json::Value = serde_json::from_slice(body).ok()?;
    let list = value.as_array()?.iter();
    Some(list.map(|item| item.get(name)?.as_number().map(|n| n.to_string())).collect())
}

/// A JSON text over several lines, one member or item a line, if the bytes are one.
pub uninterp spec fn pretty_text(body: Seq<u8>) -> Option<Seq<char>>;

/// Lays a JSON text out over several lines.
///
/// Calls `serde_json::from_slice` and `serde_json::to_string_pretty`. It fails only on
/// bytes that are no JSON text: what was parsed can always be written.
#[verifier::external_body]
pub(crate) fn prettify(body: &[u8]) -> (out: Option<String>)
    ensures
        match out {
            Some(text) => pretty_text(body@) == Some(text@),
            None => pretty_text(body@) is None,
        },
        out is Some <==> is_json(body@),
{
    let value: serde_json::Value = serde_json::from_slice(body).ok()?;
    serde_json::to_string_pretty(&value).ok()
}

/// A JSON object with a number member put in, over several lines; nothing where the
/// bytes are no object.
pub uninterp spec fn pretty_with_number(body: Seq<u8>, name: Seq<char>, value: u64) -> Option<
    Seq<char>,
>;

/// Puts a number member into a JSON object and lays it out over several lines.
///
/// Calls `serde_json::from_slice`, `Value::as_object_mut`, `Map::insert` and
/// `serde_json::to_string_pretty`. It takes JSON texts only.
#[verifier::external_body]
pub(crate) fn prettify_with_number(body: &[u8], name: &str, value: u64) -> (out: Option<String>)
    ensures
        match out {
            Some(text) => pretty_with_number(body@, name@, value) == Some(text@) && is_json(body@),
            None => pretty_with_number(body@, name@, value) is None,
        },
{
    let mut json: serde_json::Value = serde_json::from_slice(body).ok()?;
    json.as_object_mut()?.insert(name.to_string(), serde_json::Value::from(value));
    serde_json::to_string_pretty(&json).ok()
}

/// Whether a JSON object has a member under a name; nothing where the text is no
/// object.
pub uninterp spec fn object_has(text: Seq<char>, name: Seq<char>) -> Option<bool>;

/// Looks for a member of a JSON object.
///
/// Calls `serde_json::from_str`, `Value::as_object` and `Map::contains_key`.
#[verifier::external_body]
pub(crate) fn has_member(text: &str, name: &str) -> (out: Option<bool>)
    ensures
        out == object_has(text@, name@),
{
    let value: serde_json::Value = serde_json::from_str(text).ok()?;
    value.as_object().map(|object| object.contains_key(name))
}

/// A JSON object with a string member put in; nothing where the text is no
/// object.
pub uninterp spec fn object_with(text: Seq<char>, name: Seq<char>, value: Seq<char>) -> Option<
    Seq<char>,
>;

/// Puts a string member into a JSON object.
///
/// Calls `serde_json::from_str`, `Value::as_object_mut`, `Map::insert` and
/// `Value::to_string`. It fails only on a text that is no object. What parsing the
/// result gives is not stated: `serde_json` reads an object whose first name is the one
/// it reserves for raw values in another way.
#[verifier::external_body]
pub(crate) fn put_member(text: &str, name: &str, value: &str) -> (out: Option<String>)
    ensures
        match out {
            Some(json) => object_with(text@, name@, value@) == Some(json@),
            None => object_with(text@, name@, value@) is None && object_has(text@, name@) is None,
        },
{
    let mut json: serde_json::Value = serde_json::from_str(text).ok()?;
    json.as_object_mut()?.insert(name.to_string(), serde_json::Value::String(value.to_string()));
    Some(json.to_string())
}

} // verus!
