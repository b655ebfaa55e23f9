use vstd::prelude::*;

use crate::error::AppError;

verus! {

#[verifier::external_type_specification]
#[verifier::external_body]
pub struct ExValue(serde_json::Value);

/// A modeled JSON tree. Numbers are collapsed into one constructor: no
/// contract of this library reads a numeric value.
#[verifier::ext_equal]
pub enum JsonView {
    Null,
    Bool(bool),
    Number,
    Text(Seq<char>),
    Array(Seq<JsonView>),
    Object(Map<Seq<char>, JsonView>),
}

/// What serde_json's parser yields for a text: a tree, or nothing when the
/// text is not a JSON document. Parsing is deterministic in the text alone.
pub uninterp spec fn json_parse_of(text: Seq<char>) -> Option<JsonView>;

/// The modeled tree behind an opaque parsed value.
pub uninterp spec fn json_view_of(v: serde_json::Value) -> JsonView;

/// The member of an object under a key, when the tree is an object holding
/// that key.
pub open spec fn object_member(j: JsonView, key: Seq<char>) -> Option<JsonView> {
    match j {
        JsonView::Object(m) => if m.contains_key(key) {
            Some(m[key])
        } else {
            None
        },
        _ => None,
    }
}

/// The elements, when the tree is an array.
pub open spec fn array_elems(j: JsonView) -> Option<Seq<JsonView>> {
    match j {
        JsonView::Array(s) => Some(s),
        _ => None,
    }
}

/// The characters, when the tree is a string.
pub open spec fn text_value(j: JsonView) -> Option<Seq<char>> {
    match j {
        JsonView::Text(s) => Some(s),
        _ => None,
    }
}

pub open spec fn is_object(j: JsonView) -> bool {
    j matches JsonView::Object(_)
}

/// Relies on `serde_json::from_str::<Value>`: parses a JSON document, or
/// fails exactly when the text is not one.
#[verifier::external_body]
pub fn json_parse(text: &str) -> (r: Result<serde_json::Value, AppError>)
    ensures
        match r {
            Ok(v) => json_parse_of(text@) == Some(json_view_of(v)),
            Err(e) => {
                &&& json_parse_of(text@) is None
                &&& e == AppError::Json
            },
        },
{
    serde_json::from_str::<serde_json::Value>(text).map_err(|_| AppError::Json)
}

/// Relies on `serde_json::Value::get`: the member of an object under a key,
/// exactly when the value is an object with that member.
#[verifier::external_body]
pub fn json_get<'a>(value: &'a serde_json::Value, key: &str) -> (r: Option<&'a serde_json::Value>)
    ensures
        match r {
            Some(member) => object_member(json_view_of(*value), key@) == Some(
                json_view_of(*member),
            ),
            None => object_member(json_view_of(*value), key@) is None,
        },
{
    value.get(key)
}

/// Relies on `serde_json::Value::as_array`: the elements, exactly when the
/// value is an array.
#[verifier::external_body]
pub fn json_as_array<'a>(value: &'a serde_json::Value) -> (r: Option<&'a Vec<serde_json::Value>>)
    ensures
        match r {
            Some(arr) => array_elems(json_view_of(*value)) == Some(
                arr@.map_values(|x: serde_json::Value| json_view_of(x)),
            ),
            None => array_elems(json_view_of(*value)) is None,
        },
{
    value.as_array()
}

/// Relies on `serde_json::Value::as_str`: the text, exactly when the value
/// is a string.
#[verifier::external_body]
pub fn json_as_str<'a>(value: &'a serde_json::Value) -> (r: Option<&'a str>)
    ensures
        match r {
            Some(s) => text_value(json_view_of(*value)) == Some(s@),
            None => text_value(json_view_of(*value)) is None,
        },
{
    value.as_str()
}

/// Relies on `serde_json::Value::is_null`: whether the value is JSON null.
#[verifier::external_body]
pub fn json_is_null(value: &serde_json::Value) -> (r: bool)
    ensures
        r == (json_view_of(*value) == JsonView::Null),
{
    value.is_null()
}

/// Relies on `serde_json::Value::is_object`: whether the value is an object.
#[verifier::external_body]
pub fn json_is_object(value: &serde_json::Value) -> (r: bool)
    ensures
        r == is_object(json_view_of(*value)),
{
    value.is_object()
}

} // verus!
