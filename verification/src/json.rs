//! The library's own JSON document model and the trusted boundary to
//! serde_json, which does the actual parsing.
//!
//! A parsed document arrives as an opaque `serde_json::Value`; the library
//! mirrors it into [`JsonValue`], a plain enum it can reason about. Object
//! fields keep the document's own order; numbers are carried as their
//! rendered text, since the statistics never do arithmetic on them.

pub mod ndjson;
pub mod paths;

use vstd::prelude::*;

verus! {

/// A JSON document as plain data: the library's mirror of a parsed value.
///
/// `Num` holds the number's rendered text; `Obj` keeps fields in the
/// document's own order.
#[derive(Debug, PartialEq, Eq)]
pub enum JsonValue {
    Null,
    Bool(bool),
    Num(String),
    Str(String),
    Arr(Vec<JsonValue>),
    Obj(Vec<(String, JsonValue)>),
}

/// The mathematical shape of a [`JsonValue`]: the same tree over `Seq`.
#[verifier::ext_equal]
pub ghost enum JsonRep {
    Null,
    Bool(bool),
    Num(Seq<char>),
    Str(Seq<char>),
    Arr(Seq<JsonRep>),
    Obj(Seq<(Seq<char>, JsonRep)>),
}

/// The model of `v`: the same tree, field names and text as `Seq<char>`.
pub open spec fn rep_of(v: JsonValue) -> JsonRep
    decreases v,
    via rep_of_dec
{
    match v {
        JsonValue::Null => JsonRep::Null,
        JsonValue::Bool(b) => JsonRep::Bool(b),
        JsonValue::Num(s) => JsonRep::Num(s@),
        JsonValue::Str(s) => JsonRep::Str(s@),
        JsonValue::Arr(items) => JsonRep::Arr(
            Seq::new(
                items@.len(),
                |i: int|
                    if 0 <= i < items@.len() {
                        rep_of(items@[i])
                    } else {
                        JsonRep::Null
                    },
            ),
        ),
        JsonValue::Obj(fields) => JsonRep::Obj(
            Seq::new(
                fields@.len(),
                |i: int|
                    if 0 <= i < fields@.len() {
                        (fields@[i].0@, rep_of(fields@[i].1))
                    } else {
                        (Seq::empty(), JsonRep::Null)
                    },
            ),
        ),
    }
}

#[via_fn]
proof fn rep_of_dec(v: JsonValue) {
    match v {
        JsonValue::Arr(items) => {
            assert forall|i: int| 0 <= i < items@.len() implies decreases_to!(v => items@[i]) by {
                assert(decreases_to!(v => items));
                assert(decreases_to!(items => items@));
                assert(decreases_to!(items@ => items@[i]));
            }
        }
        JsonValue::Obj(fields) => {
            assert forall|i: int| 0 <= i < fields@.len() implies decreases_to!(
                v => fields@[i].1,
            ) by {
                assert(decreases_to!(v => fields));
                assert(decreases_to!(fields => fields@));
                assert(decreases_to!(fields@ => fields@[i]));
                assert(decreases_to!(fields@[i] => fields@[i].1));
            }
        }
        _ => {}
    }
}

impl View for JsonValue {
    type V = JsonRep;

    open spec fn view(&self) -> JsonRep {
        rep_of(*self)
    }
}

impl DeepView for JsonValue {
    type V = JsonRep;

    open spec fn deep_view(&self) -> JsonRep {
        rep_of(*self)
    }
}

/// The name of a JSON value's runtime type, as it appears in the
/// `path::type` statistics keys.
pub open spec fn json_type_name(v: JsonRep) -> Seq<char> {
    match v {
        JsonRep::Null => "Null"@,
        JsonRep::Bool(_) => "Bool"@,
        JsonRep::Num(_) => "Number"@,
        JsonRep::Str(_) => "String"@,
        JsonRep::Arr(_) => "Array"@,
        JsonRep::Obj(_) => "Object"@,
    }
}

impl JsonValue {
    /// The name of this value's runtime type: one of `Null`, `Bool`,
    /// `Number`, `String`, `Array`, `Object`.
    pub fn value_type(&self) -> (r: String)
        ensures
            r@ == json_type_name(self@),
    {
        match self {
            JsonValue::Null => "Null".to_owned(),
            JsonValue::Bool(_) => "Bool".to_owned(),
            JsonValue::Num(_) => "Number".to_owned(),
            JsonValue::Str(_) => "String".to_owned(),
            JsonValue::Arr(_) => "Array".to_owned(),
            JsonValue::Obj(_) => "Object".to_owned(),
        }
    }
}

#[verifier::external_type_specification]
#[verifier::external_body]
pub struct ExSerdeValue(serde_json::Value);

/// What a parsed `serde_json::Value` holds, as this library's model.
pub uninterp spec fn serde_doc_rep(v: serde_json::Value) -> JsonRep;

/// What parsing one line of text yields: `None` when the text is not a
/// structurally valid JSON document, otherwise the document's model.
pub uninterp spec fn json_line_parse(line: Seq<char>) -> Option<JsonRep>;

/// Relies on serde_json::from_str::<Value>: parsing is a deterministic
/// function of the text alone.
#[verifier::external_body]
pub(crate) fn parse_json_line(line: &str) -> (r: Option<serde_json::Value>)
    ensures
        r is Some <==> json_line_parse(line@) is Some,
        r matches Some(v) ==> json_line_parse(line@) == Some(serde_doc_rep(v)),
{
    serde_json::from_str::<serde_json::Value>(line).ok()
}

/// Relies on the structure of `serde_json::Value`: each variant is mirrored
/// one for one, numbers by their rendered text, object fields in document
/// order (serde_json is built with `preserve_order`).
#[verifier::external_body]
pub(crate) fn from_serde(v: &serde_json::Value) -> (r: JsonValue)
    ensures
        r@ == serde_doc_rep(*v),
{
    match v {
        serde_json::Value::Null => JsonValue::Null,
        serde_json::Value::Bool(b) => JsonValue::Bool(*b),
        serde_json::Value::Number(n) => JsonValue::Num(n.to_string()),
        serde_json::Value::String(s) => JsonValue::Str(s.clone()),
        serde_json::Value::Array(a) => JsonValue::Arr(a.iter().map(from_serde).collect()),
        serde_json::Value::Object(m) => JsonValue::Obj(
            m.iter().map(|(k, x)| (k.clone(), from_serde(x))).collect(),
        ),
    }
}

} // verus!
