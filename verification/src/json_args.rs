//! Reading the top-level fields of a tool call's JSON arguments: for each
//! key, whether it is there, its string, and its array's items taken as
//! strings. What the fields mean is decided by the readers of each tool.
use vstd::prelude::*;
use serde_json::Value;
use crate::scope::opt_string;
use crate::tool_policy::items_view;

verus! {

/// What a JSON object holds under a key.
#[derive(Debug, Clone, PartialEq, Eq)]
pub enum JsonField {
    /// Nothing is there: the key is missing, or the value it is read in is
    /// not an object.
    Absent,
    /// A string.
    Text(String),
    /// An array; an item that is not a string is `None`.
    Items(Vec<Option<String>>),
    /// A number that is a non-negative integer within `u64`.
    Unsigned(u64),
    /// A boolean.
    Flag(bool),
    /// An object.
    Object,
    /// Any other value.
    Other,
}

/// A field by its views: present, its string, its items, its unsigned
/// integer, its boolean, whether it is an object.
pub type FieldView = (bool, Option<Seq<char>>, Option<Seq<Option<Seq<char>>>>, Option<u64>, Option<bool>, bool);

pub open spec fn field_view(f: JsonField) -> FieldView {
    match f {
        JsonField::Absent => (false, None, None, None, None, false),
        JsonField::Text(s) => (true, Some(s@), None, None, None, false),
        JsonField::Items(v) => (true, None, Some(items_view(v@)), None, None, false),
        JsonField::Unsigned(n) => (true, None, None, Some(n), None, false),
        JsonField::Flag(b) => (true, None, None, None, Some(b), false),
        JsonField::Object => (true, None, None, None, None, true),
        JsonField::Other => (true, None, None, None, None, false),
    }
}

pub open spec fn fields_view(v: Seq<JsonField>) -> Seq<FieldView> {
    v.map_values(|f: JsonField| field_view(f))
}

pub open spec fn keys_view(keys: Seq<&str>) -> Seq<Seq<char>> {
    keys.map_values(|k: &str| k@)
}

/// For each key, what `serde_json` finds under it in the text read as a JSON
/// value: whether the key is present, the value as a string, as an array
/// with each item taken as a string, as a `u64`, as a boolean, and whether
/// it is an object; or the parser's error message where the text is no JSON.
pub uninterp spec fn json_fields(
    text: Seq<char>,
    keys: Seq<Seq<char>>,
) -> Result<Seq<(bool, Option<Seq<char>>, Option<Seq<Option<Seq<char>>>>, Option<u64>, Option<bool>, bool)>, Seq<char>>;

/// Parses the text with `serde_json::from_str` into a `serde_json::Value`
/// and reads each key with `Value::get`, telling strings, arrays, numbers,
/// booleans and objects apart by the value's variant, taking array items with
/// `Value::as_str` and numbers with `Value::as_u64`; a parse error becomes
/// its message. The contract names the result and states only
/// that there is one field for each key.
#[verifier::external_body]
pub(crate) fn read_fields(text: &str, keys: &Vec<&str>) -> (r: Result<Vec<JsonField>, String>)
    ensures
        match r {
            Ok(v) => json_fields(text@, keys_view(keys@)) == Ok::<Seq<FieldView>, Seq<char>>(fields_view(v@))
                && v@.len() == keys@.len(),
            Err(e) => json_fields(text@, keys_view(keys@)) == Err::<Seq<FieldView>, Seq<char>>(e@),
        },
{
    let value: Value = serde_json::from_str(text).map_err(|e| e.to_string())?;
    Ok(keys.iter().map(|k| match value.get(*k) {
        None => JsonField::Absent,
        Some(Value::String(s)) => JsonField::Text(s.clone()),
        Some(Value::Array(a)) => JsonField::Items(a.iter().map(|i| i.as_str().map(str::to_owned)).collect()),
        Some(Value::Number(n)) => n.as_u64().map_or(JsonField::Other, JsonField::Unsigned),
        Some(Value::Bool(b)) => JsonField::Flag(*b),
        Some(Value::Object(_)) => JsonField::Object,
        Some(_) => JsonField::Other,
    }).collect())
}

/// For each JSON pointer, what `serde_json` finds at it in the text read as
/// a JSON value, by the same views as `json_fields`; or the parser's error
/// message where the text is no JSON.
pub uninterp spec fn json_at_pointers(
    text: Seq<char>,
    pointers: Seq<Seq<char>>,
) -> Result<Seq<(bool, Option<Seq<char>>, Option<Seq<Option<Seq<char>>>>, Option<u64>, Option<bool>, bool)>, Seq<char>>;

pub open spec fn pointers_view(v: Seq<String>) -> Seq<Seq<char>> {
    v.map_values(|p: String| p@)
}

/// Parses the text with `serde_json::from_str` into a `serde_json::Value`
/// and reads each pointer with `Value::pointer`, telling the values apart
/// as `read_fields` does; a parse error becomes its message. The contract
/// names the result and states only that there is one field per pointer.
#[verifier::external_body]
pub(crate) fn read_pointers(text: &str, pointers: &Vec<String>) -> (r: Result<Vec<JsonField>, String>)
    ensures
        match r {
            Ok(v) => json_at_pointers(text@, pointers_view(pointers@)) == Ok::<Seq<FieldView>, Seq<char>>(
                fields_view(v@),
            ) && v@.len() == pointers@.len(),
            Err(e) => json_at_pointers(text@, pointers_view(pointers@)) == Err::<Seq<FieldView>, Seq<char>>(e@),
        },
{
    let value: Value = serde_json::from_str(text).map_err(|e| e.to_string())?;
    Ok(pointers.iter().map(|p| match value.pointer(p) {
        None => JsonField::Absent,
        Some(Value::String(s)) => JsonField::Text(s.clone()),
        Some(Value::Array(a)) => JsonField::Items(a.iter().map(|i| i.as_str().map(str::to_owned)).collect()),
        Some(Value::Number(n)) => n.as_u64().map_or(JsonField::Other, JsonField::Unsigned),
        Some(Value::Bool(b)) => JsonField::Flag(*b),
        Some(Value::Object(_)) => JsonField::Object,
        Some(_) => JsonField::Other,
    }).collect())
}

/// The string of a field, where it is one.
pub open spec fn field_text(f: FieldView) -> Option<Seq<char>> {
    f.1
}

/// The items of a field that is an array, else none.
pub open spec fn field_items_or_empty(f: FieldView) -> Seq<Option<Seq<char>>> {
    match f.2 {
        Some(v) => v,
        None => Seq::empty(),
    }
}

/// A field that may hold a list: absent, not an array, or its items.
pub open spec fn field_list(f: FieldView) -> Option<Option<Seq<Option<Seq<char>>>>> {
    if !f.0 {
        None
    } else {
        Some(f.2)
    }
}

/// Takes the first field of the list.
pub fn next_field(fields: &mut Vec<JsonField>) -> (f: JsonField)
    requires
        old(fields).len() > 0,
    ensures
        f == old(fields)@[0],
        final(fields)@ == old(fields)@.drop_first(),
{
    fields.remove(0)
}

/// The string of a field.
pub fn take_text(f: JsonField) -> (r: Option<String>)
    ensures
        opt_string(r) == field_text(field_view(f)),
{
    match f {
        JsonField::Text(s) => Some(s),
        _ => None,
    }
}

/// A copy of the string of a field, where it is one.
pub fn copy_text_of(f: &JsonField) -> (r: Option<String>)
    ensures
        opt_string(r) == field_text(field_view(*f)),
{
    match f {
        JsonField::Text(s) => Some(s.as_str().to_owned()),
        _ => None,
    }
}

/// The unsigned integer of a field, where it is one.
pub fn take_unsigned(f: &JsonField) -> (r: Option<u64>)
    ensures
        r == field_view(*f).3,
{
    match f {
        JsonField::Unsigned(n) => Some(*n),
        _ => None,
    }
}

/// The boolean of a field, where it is one.
pub fn take_flag(f: &JsonField) -> (r: Option<bool>)
    ensures
        r == field_view(*f).4,
{
    match f {
        JsonField::Flag(b) => Some(*b),
        _ => None,
    }
}

/// The items of a field that is an array.
pub fn take_items(f: JsonField) -> (r: Option<Vec<Option<String>>>)
    ensures
        match r {
            Some(v) => field_view(f).2 == Some(items_view(v@)),
            None => field_view(f).2 is None,
        },
{
    match f {
        JsonField::Items(v) => Some(v),
        _ => None,
    }
}

} // verus!
