//! JSON documents, read through `serde_json`.

use vstd::prelude::*;

verus! {

/// A parsed JSON document of `serde_json`.
#[verifier::external_type_specification]
#[verifier::external_body]
pub struct ExJsonValue(serde_json::Value);

/// The rows of a document: one map for each element of its top-level
/// array, holding every member of that element that is a JSON string,
/// under the member's name. An element that is no object gives an empty
/// map; a document that is no array has no rows.
pub uninterp spec fn json_row_texts(doc: serde_json::Value) -> Seq<Map<Seq<char>, Seq<char>>>;

/// As `json_row_texts`, for the members that are JSON booleans.
pub uninterp spec fn json_row_flags(doc: serde_json::Value) -> Seq<Map<Seq<char>, bool>>;

/// The lists of a document: for each member of its top-level object that
/// is an array, under the member's name, the elements of that array, each
/// one its text if it is a JSON string.
pub uninterp spec fn json_lists(doc: serde_json::Value) -> Map<Seq<char>, Seq<Option<Seq<char>>>>;

/// The value of a digit in base 16, of either case.
pub open spec fn hex_digit_value(c: char) -> Option<nat> {
    let v = c as u32;
    if 0x30 <= v <= 0x39 {
        Some((v - 0x30) as nat)
    } else if 0x41 <= v <= 0x46 {
        Some((v - 0x41 + 10) as nat)
    } else if 0x61 <= v <= 0x66 {
        Some((v - 0x61 + 10) as nat)
    } else {
        None
    }
}

/// The number that a run of digits spells in base 16, if all of them are
/// digits.
pub open spec fn hex_digits_value(digits: Seq<char>) -> Option<nat>
    decreases digits.len(),
{
    if digits.len() == 0 {
        Some(0)
    } else {
        match (hex_digits_value(digits.drop_last()), hex_digit_value(digits.last())) {
            (Some(value), Some(digit)) => Some(16 * value + digit),
            _ => None,
        }
    }
}

/// The number that a text spells in base 16: an optional plus sign, then
/// at least one digit and nothing else, with a value that fits 128 bits.
pub open spec fn hex_u128(text: Seq<char>) -> Option<u128> {
    let digits = if text.len() > 0 && text[0] == '+' {
        text.skip(1)
    } else {
        text
    };
    if digits.len() == 0 {
        None
    } else {
        match hex_digits_value(digits) {
            Some(value) => if value <= u128::MAX {
                Some(value as u128)
            } else {
                None
            },
            None => None,
        }
    }
}

/// The document that `serde_json::from_str` reads from a text, or
/// nothing for a text that it refuses.
pub uninterp spec fn json_parse(text: Seq<char>) -> Option<serde_json::Value>;

/// `serde_json::from_str` for a `Value`: the document, or nothing for a
/// text that is no JSON. Which of the two comes, and which document, is a
/// function of the text alone.
#[verifier::external_body]
pub(crate) fn parse_document(text: &str) -> (doc: Option<serde_json::Value>)
    ensures
        doc == json_parse(text@),
{
    match serde_json::from_str::<serde_json::Value>(text) {
        Ok(doc) => Some(doc),
        Err(_) => None,
    }
}

/// `Value::Null`, the document that stands for no data. `Value::as_array`
/// and `Value::get` are `None` for it, so it has no rows and no lists.
#[verifier::external_body]
pub(crate) fn null_document() -> (doc: serde_json::Value)
    ensures
        json_row_texts(doc).len() == 0,
        json_row_flags(doc).len() == 0,
        forall|key: Seq<char>| !(#[trigger] json_lists(doc).contains_key(key)),
{
    serde_json::Value::Null
}

/// `Value::as_array`, then `len`: the number of elements of the top-level
/// array, and 0 for a document that is no array.
#[verifier::external_body]
pub(crate) fn row_count(doc: &serde_json::Value) -> (count: usize)
    ensures
        count == json_row_texts(*doc).len(),
        count == json_row_flags(*doc).len(),
{
    match doc.as_array() {
        Some(rows) => rows.len(),
        None => 0,
    }
}

/// `Value::get` by index, `as_object`, `Map::get` and `as_str`: the member
/// `key` of the element at `index`, if the element is an object and the
/// member a JSON string.
#[verifier::external_body]
pub(crate) fn row_text(doc: &serde_json::Value, index: usize, key: &str) -> (text: Option<String>)
    requires
        index < json_row_texts(*doc).len(),
    ensures
        match text {
            Some(t) => json_row_texts(*doc)[index as int].contains_key(key@) && json_row_texts(
                *doc,
            )[index as int][key@] == t@,
            None => !json_row_texts(*doc)[index as int].contains_key(key@),
        },
{
    let text = doc.get(index)?.as_object()?.get(key)?.as_str()?;
    Some(text.to_string())
}

/// `Value::get` by index, `as_object`, `Map::get` and `as_bool`: the
/// member `key` of the element at `index`, if the element is an object and
/// the member a JSON boolean.
#[verifier::external_body]
pub(crate) fn row_flag(doc: &serde_json::Value, index: usize, key: &str) -> (flag: Option<bool>)
    requires
        index < json_row_flags(*doc).len(),
    ensures
        match flag {
            Some(f) => json_row_flags(*doc)[index as int].contains_key(key@) && json_row_flags(
                *doc,
            )[index as int][key@] == f,
            None => !json_row_flags(*doc)[index as int].contains_key(key@),
        },
{
    doc.get(index)?.as_object()?.get(key)?.as_bool()
}

/// `Value::get` by name, `as_array`, then `len`: the number of elements of
/// the array member `key`, and 0 where there is no such array.
#[verifier::external_body]
pub(crate) fn list_len(doc: &serde_json::Value, key: &str) -> (count: usize)
    ensures
        json_lists(*doc).contains_key(key@) ==> count == json_lists(*doc)[key@].len(),
        !json_lists(*doc).contains_key(key@) ==> count == 0,
{
    match doc.get(key) {
        Some(list) => match list.as_array() {
            Some(items) => items.len(),
            None => 0,
        },
        None => 0,
    }
}

/// `Value::get` by name, `Value::get` by index, then `as_str`: the element
/// at `index` of the array member `key`, if it is a JSON string.
#[verifier::external_body]
pub(crate) fn list_text(doc: &serde_json::Value, key: &str, index: usize) -> (text: Option<
    String,
>)
    requires
        json_lists(*doc).contains_key(key@),
        index < json_lists(*doc)[key@].len(),
    ensures
        match text {
            Some(t) => json_lists(*doc)[key@][index as int] == Some(t@),
            None => json_lists(*doc)[key@][index as int] == None::<Seq<char>>,
        },
{
    let text = doc.get(key)?.get(index)?.as_str()?;
    Some(text.to_string())
}

/// `u128::from_str_radix` with radix 16. As std documents it, the text is
/// an optional plus sign followed by digits only, `0-9`, `a-f` or `A-F`;
/// an empty run of digits, any other character, or a value beyond 128
/// bits is refused.
#[verifier::external_body]
pub(crate) fn parse_hex_u128(text: &str) -> (value: Option<u128>)
    ensures
        value == hex_u128(text@),
{
    match u128::from_str_radix(text, 16) {
        Ok(value) => Some(value),
        Err(_) => None,
    }
}

} // verus!
