//! The string codec between field values and the texts kept in a store.
//!
//! Encoding and decoding are done by serde_json. What a parse returns on a
//! given text is a pure function of that text; each such outcome is given a
//! name here (`json_int`, `json_text`, ...), the trusted wrappers state their
//! results in terms of those names, and [`spec_decode`] / [`spec_encode`]
//! assemble them into the codec's model, which every record contract uses.

use crate::value::{fits, kind_of, FieldKind, Value, ValueModel};
use vstd::prelude::*;

verus! {

/// What `serde_json::from_str::<i32>` returns on a given text: the parsed
/// number, or the text of the parse error.
pub uninterp spec fn json_int(s: Seq<char>) -> Result<i32, Seq<char>>;

/// What `serde_json::from_str::<String>` returns on a given text.
pub uninterp spec fn json_text(s: Seq<char>) -> Result<Seq<char>, Seq<char>>;

/// What `serde_json::from_str::<bool>` returns on a given text.
pub uninterp spec fn json_flag(s: Seq<char>) -> Result<bool, Seq<char>>;

/// What `serde_json::from_str::<Vec<String>>` returns on a given text.
pub uninterp spec fn json_list(s: Seq<char>) -> Result<Seq<Seq<char>>, Seq<char>>;

/// Whether `serde_json::from_str` accepts a given text as one JSON object,
/// and the text of the parse error when it does not.
pub uninterp spec fn json_object(s: Seq<char>) -> Result<(), Seq<char>>;

/// What `serde_json::to_string` returns for a given `i32`.
pub uninterp spec fn int_json(v: i32) -> Seq<char>;

/// What `serde_json::to_string` returns for a given string.
pub uninterp spec fn text_json(s: Seq<char>) -> Seq<char>;

/// What `serde_json::to_string` returns for a given list of strings.
pub uninterp spec fn list_json(l: Seq<Seq<char>>) -> Seq<char>;

/// Relies on `serde_json::from_str::<i32>`: parsing is a pure function of
/// the text, named `json_int` here.
#[verifier::external_body]
pub(crate) fn decode_int(s: &str) -> (r: Result<i32, String>)
    ensures
        r is Ok <==> json_int(s@) is Ok,
        r is Ok ==> r->Ok_0 == json_int(s@)->Ok_0,
        r is Err ==> r->Err_0@ == json_int(s@)->Err_0,
{
    serde_json::from_str::<i32>(s).map_err(|e| e.to_string())
}

/// Relies on `serde_json::from_str::<String>`: parsing is a pure function of
/// the text, named `json_text` here.
#[verifier::external_body]
pub(crate) fn decode_text(s: &str) -> (r: Result<String, String>)
    ensures
        r is Ok <==> json_text(s@) is Ok,
        r is Ok ==> r->Ok_0@ == json_text(s@)->Ok_0,
        r is Err ==> r->Err_0@ == json_text(s@)->Err_0,
{
    serde_json::from_str::<String>(s).map_err(|e| e.to_string())
}

/// Relies on `serde_json::from_str::<bool>`: parsing is a pure function of
/// the text, named `json_flag` here.
#[verifier::external_body]
pub(crate) fn decode_flag(s: &str) -> (r: Result<bool, String>)
    ensures
        r is Ok <==> json_flag(s@) is Ok,
        r is Ok ==> r->Ok_0 == json_flag(s@)->Ok_0,
        r is Err ==> r->Err_0@ == json_flag(s@)->Err_0,
{
    serde_json::from_str::<bool>(s).map_err(|e| e.to_string())
}

/// Relies on `serde_json::from_str::<Vec<String>>`: parsing is a pure
/// function of the text, named `json_list` here.
#[verifier::external_body]
pub(crate) fn decode_list(s: &str) -> (r: Result<Vec<String>, String>)
    ensures
        r is Ok <==> json_list(s@) is Ok,
        r is Ok ==> r->Ok_0.deep_view() == json_list(s@)->Ok_0,
        r is Err ==> r->Err_0@ == json_list(s@)->Err_0,
{
    serde_json::from_str::<Vec<String>>(s).map_err(|e| e.to_string())
}

/// Relies on `serde_json::from_str::<serde_json::Map<String,
/// serde_json::Value>>`: it accepts a text exactly when the text denotes one
/// JSON object; acceptance is a pure function of the text, named
/// `json_object` here.
#[verifier::external_body]
pub(crate) fn check_object(s: &str) -> (r: Result<(), String>)
    ensures
        r is Ok <==> json_object(s@) is Ok,
        r is Err ==> r->Err_0@ == json_object(s@)->Err_0,
{
    match serde_json::from_str::<serde_json::Map<String, serde_json::Value>>(s) {
        Ok(_) => Ok(()),
        Err(e) => Err(e.to_string()),
    }
}

/// Relies on `serde_json::to_string::<i32>`: rendering an `i32` cannot fail,
/// its result is a pure function of the number, named `int_json` here, and
/// `from_str::<i32>` parses the rendered text back to the same number.
#[verifier::external_body]
pub(crate) fn encode_int(v: i32) -> (r: String)
    ensures
        r@ == int_json(v),
        json_int(r@) is Ok,
        json_int(r@)->Ok_0 == v,
{
    serde_json::to_string(&v).unwrap()
}

/// Relies on `serde_json::to_string::<&str>`: rendering a string cannot
/// fail, its result is a pure function of the text, named `text_json` here,
/// and `from_str::<String>` parses the rendered text back to the same
/// string.
#[verifier::external_body]
pub(crate) fn encode_text(v: &str) -> (r: String)
    ensures
        r@ == text_json(v@),
        json_text(r@) is Ok,
        json_text(r@)->Ok_0 == v@,
{
    serde_json::to_string(&v).unwrap()
}

/// Relies on `serde_json::to_string::<bool>`: it renders exactly `true` or
/// `false`, and `from_str::<bool>` parses the rendered text back.
#[verifier::external_body]
pub(crate) fn encode_flag(v: bool) -> (r: String)
    ensures
        r@ == (if v {
            "true"@
        } else {
            "false"@
        }),
        json_flag(r@) is Ok,
        json_flag(r@)->Ok_0 == v,
{
    serde_json::to_string(&v).unwrap()
}

/// Relies on `serde_json::to_string::<Vec<String>>`: rendering a list of
/// strings cannot fail, its result is a pure function of the list, named
/// `list_json` here, and `from_str::<Vec<String>>` parses the rendered text
/// back to the same list.
#[verifier::external_body]
pub(crate) fn encode_list(v: &Vec<String>) -> (r: String)
    ensures
        r@ == list_json(v.deep_view()),
        json_list(r@) is Ok,
        json_list(r@)->Ok_0 == v.deep_view(),
{
    serde_json::to_string(v).unwrap()
}

/// What decoding a text as a value of `kind` yields: the model value, or the
/// codec's error text. A decoded object keeps its incoming text.
pub open spec fn spec_decode(kind: FieldKind, s: Seq<char>) -> Result<ValueModel, Seq<char>> {
    match kind {
        FieldKind::Int => match json_int(s) {
            Ok(v) => Ok(ValueModel::Int(v)),
            Err(e) => Err(e),
        },
        FieldKind::Text => match json_text(s) {
            Ok(t) => Ok(ValueModel::Text(t)),
            Err(e) => Err(e),
        },
        FieldKind::Flag => match json_flag(s) {
            Ok(b) => Ok(ValueModel::Flag(b)),
            Err(e) => Err(e),
        },
        FieldKind::List => match json_list(s) {
            Ok(l) => Ok(ValueModel::List(l)),
            Err(e) => Err(e),
        },
        FieldKind::Object => match json_object(s) {
            Ok(_) => Ok(ValueModel::Object(s)),
            Err(e) => Err(e),
        },
    }
}

/// What encoding a model value yields. An object is exported as the text it
/// already carries.
pub open spec fn spec_encode(v: ValueModel) -> Seq<char> {
    match v {
        ValueModel::Int(i) => int_json(i),
        ValueModel::Text(t) => text_json(t),
        ValueModel::Flag(b) => if b {
            "true"@
        } else {
            "false"@
        },
        ValueModel::List(l) => list_json(l),
        ValueModel::Object(s) => s,
    }
}

/// Whatever a decode yields fits the kind it was asked for, and a record may
/// hold it.
pub proof fn lemma_spec_decode_fits(kind: FieldKind, s: Seq<char>)
    ensures
        spec_decode(kind, s) is Ok ==> fits(kind, spec_decode(kind, s)->Ok_0),
{
}

/// Decode a text as a value of `kind`. A failure returns the codec's error
/// text so the caller can record it and go on with other fields.
pub fn decode_value(kind: FieldKind, s: &str) -> (r: Result<Value, String>)
    ensures
        r is Ok <==> spec_decode(kind, s@) is Ok,
        r is Ok ==> r->Ok_0@ == spec_decode(kind, s@)->Ok_0,
        r is Err ==> r->Err_0@ == spec_decode(kind, s@)->Err_0,
        r is Ok ==> fits(kind, r->Ok_0@),
{
    match kind {
        FieldKind::Int => match decode_int(s) {
            Ok(v) => Ok(Value::Int(v)),
            Err(e) => Err(e),
        },
        FieldKind::Text => match decode_text(s) {
            Ok(t) => Ok(Value::Text(t)),
            Err(e) => Err(e),
        },
        FieldKind::Flag => match decode_flag(s) {
            Ok(b) => Ok(Value::Flag(b)),
            Err(e) => Err(e),
        },
        FieldKind::List => match decode_list(s) {
            Ok(l) => Ok(Value::List(l)),
            Err(e) => Err(e),
        },
        FieldKind::Object => match check_object(s) {
            Ok(_) => Ok(Value::Object(s.to_owned())),
            Err(e) => Err(e),
        },
    }
}

/// Encode a value. Export is total: encoding cannot fail for any value a
/// record holds, and decoding the produced text restores the value.
pub fn encode_value(v: &Value) -> (r: String)
    ensures
        r@ == spec_encode(v@),
        crate::value::value_ok(v@) ==> spec_decode(kind_of(v@), r@) is Ok,
        crate::value::value_ok(v@) ==> spec_decode(kind_of(v@), r@)->Ok_0 == v@,
{
    match v {
        Value::Int(i) => encode_int(*i),
        Value::Text(s) => encode_text(s.as_str()),
        Value::Flag(b) => encode_flag(*b),
        Value::List(l) => encode_list(l),
        Value::Object(s) => s.clone(),
    }
}

} // verus!
