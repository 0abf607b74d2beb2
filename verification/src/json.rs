//! JSON reports: values built from plain data and printed by `serde_json`.

use vstd::prelude::*;

use serde_json::{to_string_pretty, Value};

use crate::json::JsonItem::{Numbers, One, Records};
use crate::json::JsonScalar::{Bool, Count, Null, Text};

verus! {

/// A JSON value that holds no other value.
pub enum JsonScalar {
    /// `true` or `false`.
    Bool(bool),
    /// A whole number.
    Count(u64),
    /// A string.
    Text(String),
    /// `null`.
    Null,
}

/// A value of a JSON report's field.
pub enum JsonItem {
    /// A single value.
    One(JsonScalar),
    /// An array of whole numbers.
    Numbers(Vec<u64>),
    /// An array of objects, each given by its fields.
    Records(Vec<Vec<(String, JsonScalar)>>),
}

/// What a JSON value means.
pub ghost enum JsonValue {
    /// `true` or `false`.
    Bool(bool),
    /// A whole number.
    Count(nat),
    /// A string.
    Text(Seq<char>),
    /// `null`.
    Null,
    /// An array of whole numbers.
    Numbers(Seq<nat>),
    /// An array of objects, each given by its fields.
    Records(Seq<Seq<(Seq<char>, JsonValue)>>),
}

/// The meaning of a scalar.
pub open spec fn scalar_view(s: JsonScalar) -> JsonValue {
    match s {
        JsonScalar::Bool(b) => JsonValue::Bool(b),
        JsonScalar::Count(n) => JsonValue::Count(n as nat),
        JsonScalar::Text(t) => JsonValue::Text(t@),
        JsonScalar::Null => JsonValue::Null,
    }
}

/// The meaning of the fields of an object.
pub open spec fn record_view(r: Seq<(String, JsonScalar)>) -> Seq<(Seq<char>, JsonValue)> {
    r.map_values(|f: (String, JsonScalar)| (f.0@, scalar_view(f.1)))
}

/// The meaning of a field's value.
pub open spec fn item_view(i: JsonItem) -> JsonValue {
    match i {
        JsonItem::One(s) => scalar_view(s),
        JsonItem::Numbers(ns) => JsonValue::Numbers(ns@.map_values(|n: u64| n as nat)),
        JsonItem::Records(rs) => JsonValue::Records(
            rs@.map_values(|r: Vec<(String, JsonScalar)>| record_view(r@)),
        ),
    }
}

/// The meaning of a report's fields.
pub open spec fn field_views(fields: Seq<(String, JsonItem)>) -> Seq<(Seq<char>, JsonValue)> {
    fields.map_values(|f: (String, JsonItem)| (f.0@, item_view(f.1)))
}

/// The text that `serde_json::to_string_pretty` gives for the object with
/// these fields.
pub uninterp spec fn pretty_json_text(fields: Seq<(Seq<char>, JsonValue)>) -> Seq<char>;

/// `serde_json::to_string_pretty` of the object with these fields, built as a
/// `serde_json::Value`. Printing a `Value` cannot fail (its keys are strings),
/// so the empty default of the error case is never returned. The text depends
/// on the fields alone.
#[verifier::external_body]
pub fn pretty_json(fields: &Vec<(String, JsonItem)>) -> (r: String)
    ensures
        r@ == pretty_json_text(field_views(fields@)),
{
    let one = |v: &JsonScalar| match v {
        Bool(b) => Value::from(*b),
        Count(n) => Value::from(*n),
        Text(t) => Value::from(t.as_str()),
        Null => Value::Null,
    };
    let all = fields.iter().map(|(k, v)| (k.clone(), match v {
        One(s) => one(s),
        Numbers(ns) => Value::from(ns.clone()),
        Records(rs) => Value::from_iter(
            rs.iter().map(|r| Value::from_iter(r.iter().map(|(k, v)| (k.clone(), one(v))))),
        ),
    }));
    to_string_pretty(&Value::from_iter(all)).unwrap_or_default()
}

} // verus!
