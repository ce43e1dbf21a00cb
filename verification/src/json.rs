//! What the settings window sends back, as the values the settings logic reads from it.

use crate::words::{parse_whole, parsed_whole, same_text, trim_text, trimmed};
use vstd::prelude::*;

verus! {

/// A JSON value, as far as the settings logic can tell values apart.
pub enum Json {
    Null,
    Flag(bool),
    /// A number that is a whole number from zero up to `u64::MAX`.
    Whole(u64),
    /// Any other number: negative, fractional or too large.
    OtherNumber,
    Text(String),
    List(Vec<Json>),
    Record(Vec<(String, Json)>),
}

/// The value of the first field named `key` among `fields`.
pub open spec fn field_in(fields: Seq<(String, Json)>, key: Seq<char>) -> Option<Json>
    decreases fields.len(),
{
    if fields.len() == 0 {
        None
    } else if fields[0].0@ == key {
        Some(fields[0].1)
    } else {
        field_in(fields.drop_first(), key)
    }
}

/// `value.get(key)`: a record's field, nothing for anything else.
pub open spec fn json_get(value: Json, key: Seq<char>) -> Option<Json> {
    match value {
        Json::Record(fields) => field_in(fields@, key),
        _ => None,
    }
}

/// `value.get(key).and_then(as_str)`, trimmed: a text field, without the space around it.
pub open spec fn text_field(value: Json, key: Seq<char>) -> Option<Seq<char>> {
    match json_get(value, key) {
        Some(Json::Text(text)) => Some(trimmed(text@)),
        _ => None,
    }
}

/// A number field, whether the window sent it as a number or as the text typed into a box.
pub open spec fn number_field(value: Json, key: Seq<char>) -> Option<u64> {
    match json_get(value, key) {
        Some(Json::Whole(n)) => Some(n),
        Some(Json::Text(text)) => parsed_whole(trimmed(text@)),
        _ => None,
    }
}

/// `value.get(key).and_then(as_bool)`.
pub open spec fn flag_field(value: Json, key: Seq<char>) -> Option<bool> {
    match json_get(value, key) {
        Some(Json::Flag(b)) => Some(b),
        _ => None,
    }
}

/// `value.get(key).and_then(as_array)`.
pub open spec fn list_field(value: Json, key: Seq<char>) -> Option<Seq<Json>> {
    match json_get(value, key) {
        Some(Json::List(items)) => Some(items@),
        _ => None,
    }
}

fn field_of<'a>(fields: &'a Vec<(String, Json)>, key: &str) -> (r: Option<&'a Json>)
    ensures
        match r {
            Some(found) => field_in(fields@, key@) == Some(*found),
            None => field_in(fields@, key@) is None,
        },
{
    let n = fields.len();
    let mut i: usize = 0;
    assert(fields@.skip(0) =~= fields@);
    while i < n
        invariant
            n == fields@.len(),
            i <= n,
            field_in(fields@, key@) == field_in(fields@.skip(i as int), key@),
        decreases n - i,
    {
        assert(fields@.skip(i as int).drop_first() =~= fields@.skip(i + 1));
        assert(fields@.skip(i as int)[0] == fields@[i as int]);
        if same_text(fields[i].0.as_str(), key) {
            return Some(&fields[i].1);
        }
        i = i + 1;
    }
    None
}

/// `value.get(key)`.
pub fn get<'a>(value: &'a Json, key: &str) -> (r: Option<&'a Json>)
    ensures
        match r {
            Some(found) => json_get(*value, key@) == Some(*found),
            None => json_get(*value, key@) is None,
        },
{
    match value {
        Json::Record(fields) => field_of(fields, key),
        _ => None,
    }
}

/// A text field, trimmed.
pub fn text_of(value: &Json, key: &str) -> (r: Option<String>)
    ensures
        match r {
            Some(text) => text_field(*value, key@) == Some(text@),
            None => text_field(*value, key@) is None,
        },
{
    match get(value, key) {
        Some(Json::Text(text)) => Some(trim_text(text.as_str())),
        _ => None,
    }
}

/// A number field, as a number or as typed text.
pub fn number_of(value: &Json, key: &str) -> (r: Option<u64>)
    ensures
        r == number_field(*value, key@),
{
    match get(value, key) {
        Some(Json::Whole(n)) => Some(*n),
        Some(Json::Text(text)) => {
            let plain = trim_text(text.as_str());
            parse_whole(plain.as_str())
        },
        _ => None,
    }
}

/// A yes-or-no field.
pub fn flag_of(value: &Json, key: &str) -> (r: Option<bool>)
    ensures
        r == flag_field(*value, key@),
{
    match get(value, key) {
        Some(Json::Flag(b)) => Some(*b),
        _ => None,
    }
}

} // verus!
