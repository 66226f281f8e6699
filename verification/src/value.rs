//! Field values and their kinds.
//!
//! A record field holds a [`Value`]; its schema entry fixes a [`FieldKind`]
//! that the value must match. Structured values are carried as the text of a
//! JSON object; the codec decides which texts are acceptable, and a record
//! only ever holds accepted ones.

use crate::codec;
use vstd::prelude::*;

verus! {

/// The kinds of values a record field can hold.
#[derive(Clone, Copy, PartialEq, Eq, Structural, Debug)]
pub enum FieldKind {
    /// A 32-bit signed integer, exchanged as a JSON number.
    Int,
    /// A text value, exchanged as a JSON string.
    Text,
    /// A boolean, exchanged as JSON `true` or `false`.
    Flag,
    /// A list of text values, exchanged as a JSON array of strings.
    List,
    /// A structured value, carried as the text of a JSON object.
    Object,
}

/// A field value at runtime.
#[derive(Debug, PartialEq, Eq)]
pub enum Value {
    Int(i32),
    Text(String),
    Flag(bool),
    List(Vec<String>),
    Object(String),
}

/// The mathematical model of a [`Value`].
#[verifier::ext_equal]
pub enum ValueModel {
    Int(i32),
    Text(Seq<char>),
    Flag(bool),
    List(Seq<Seq<char>>),
    Object(Seq<char>),
}

impl View for Value {
    type V = ValueModel;

    open spec fn view(&self) -> ValueModel {
        match self {
            Value::Int(v) => ValueModel::Int(*v),
            Value::Text(s) => ValueModel::Text(s@),
            Value::Flag(b) => ValueModel::Flag(*b),
            Value::List(l) => ValueModel::List(l.deep_view()),
            Value::Object(s) => ValueModel::Object(s@),
        }
    }
}

impl DeepView for Value {
    type V = ValueModel;

    open spec fn deep_view(&self) -> ValueModel {
        self.view()
    }
}

/// The kind a model value belongs to.
pub open spec fn kind_of(v: ValueModel) -> FieldKind {
    match v {
        ValueModel::Int(_) => FieldKind::Int,
        ValueModel::Text(_) => FieldKind::Text,
        ValueModel::Flag(_) => FieldKind::Flag,
        ValueModel::List(_) => FieldKind::List,
        ValueModel::Object(_) => FieldKind::Object,
    }
}

/// A model value a record may hold: an object's text must be one the codec
/// accepts; values of every other kind are unconstrained.
pub open spec fn value_ok(v: ValueModel) -> bool {
    match v {
        ValueModel::Object(s) => codec::json_object(s) is Ok,
        _ => true,
    }
}

/// The value belongs to the kind and a record may hold it.
pub open spec fn fits(kind: FieldKind, v: ValueModel) -> bool {
    kind_of(v) == kind && value_ok(v)
}

/// The zero value of a kind: what a field defaults to when its schema entry
/// names no default.
pub open spec fn zero_of(kind: FieldKind) -> ValueModel {
    match kind {
        FieldKind::Int => ValueModel::Int(0),
        FieldKind::Text => ValueModel::Text(Seq::empty()),
        FieldKind::Flag => ValueModel::Flag(false),
        FieldKind::List => ValueModel::List(Seq::empty()),
        FieldKind::Object => ValueModel::Object("{}"@),
    }
}

impl Value {
    /// The kind this value belongs to.
    pub fn kind(&self) -> (k: FieldKind)
        ensures
            k == kind_of(self@),
    {
        match self {
            Value::Int(_) => FieldKind::Int,
            Value::Text(_) => FieldKind::Text,
            Value::Flag(_) => FieldKind::Flag,
            Value::List(_) => FieldKind::List,
            Value::Object(_) => FieldKind::Object,
        }
    }
}

/// Construct the zero value of a kind.
pub fn zero_value(kind: FieldKind) -> (v: Value)
    ensures
        v@ == zero_of(kind),
{
    match kind {
        FieldKind::Int => Value::Int(0),
        FieldKind::Text => Value::Text(String::new()),
        FieldKind::Flag => Value::Flag(false),
        FieldKind::List => {
            let l: Vec<String> = Vec::new();
            proof {
                assert(l.deep_view() =~= Seq::<Seq<char>>::empty());
            }
            Value::List(l)
        },
        FieldKind::Object => Value::Object("{}".to_owned()),
    }
}

/// Copy a value; the copy has the same model.
pub fn clone_value(v: &Value) -> (r: Value)
    ensures
        r@ == v@,
{
    match v {
        Value::Int(i) => Value::Int(*i),
        Value::Text(s) => Value::Text(s.clone()),
        Value::Flag(b) => Value::Flag(*b),
        Value::List(l) => {
            let c = l.clone();
            proof {
                assert forall|i: int| 0 <= i < l@.len() implies c@[i] == l@[i] by {
                    assert(cloned::<String>(l@[i], c@[i]));
                }
                assert(c.deep_view() =~= l.deep_view());
            }
            Value::List(c)
        },
        Value::Object(s) => Value::Object(s.clone()),
    }
}

/// Decide whether a record may hold this value; for an object that means
/// asking the codec about its text.
pub fn value_ok_exec(v: &Value) -> (b: bool)
    ensures
        b == value_ok(v@),
{
    match v {
        Value::Object(s) => codec::check_object(s.as_str()).is_ok(),
        _ => true,
    }
}

} // verus!
