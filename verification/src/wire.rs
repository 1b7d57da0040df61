//! JSON text, read by `serde_json`.

use crate::json;
use crate::json::{array, object, Json, JsonView, Number};
use vstd::prelude::*;

verus! {

/// A document as `serde_json` holds it.
#[verifier::external_type_specification]
#[verifier::external_body]
pub struct ExValue(serde_json::Value);

/// What a document of `serde_json` says.
pub uninterp spec fn value_view(v: serde_json::Value) -> JsonView;

/// The document that `serde_json::from_str` reads in a text, if any.
pub uninterp spec fn document(text: Seq<char>) -> Option<JsonView>;

/// One level of a document of `serde_json`.
enum Opened<'a> {
    Null,
    Bool(bool),
    Number(Number),
    Text(String),
    Array(Vec<&'a serde_json::Value>),
    Object(Vec<(&'a String, &'a serde_json::Value)>),
}

/// What a document says whose top level is known.
spec fn opened_view(o: Opened) -> JsonView {
    match o {
        Opened::Null => JsonView::Null,
        Opened::Bool(b) => JsonView::Bool(b),
        Opened::Number(n) => JsonView::Number(n@),
        Opened::Text(s) => JsonView::Text(s@),
        Opened::Array(v) => JsonView::Array(
            Seq::new(v@.len(), |i: int| value_view(*v@[i])),
        ),
        Opened::Object(v) => JsonView::Object(
            Seq::new(v@.len(), |i: int| (v@[i].0@, value_view(*v@[i].1))),
        ),
    }
}

/// `serde_json::from_str` into `serde_json::Value`: it succeeds on the texts
/// that hold a document, and the value says what [`document`] names.
#[verifier::external_body]
fn read_value(text: &str) -> (r: Option<serde_json::Value>)
    ensures
        match r {
            Some(v) => document(text@) == Some(value_view(v)),
            None => document(text@) is None,
        },
{
    serde_json::from_str(text).ok()
}

/// The variant of a `serde_json::Value`, with its fields: the items of an
/// array in their order, the entries of an object in the order of its map, and
/// a number by `as_u64`, else by `as_i64`, else as the text that it displays.
#[verifier::external_body]
fn open_value<'a>(v: &'a serde_json::Value) -> (r: Opened<'a>)
    ensures
        value_view(*v) == opened_view(r),
{
    match v {
        serde_json::Value::Null => Opened::Null,
        serde_json::Value::Bool(b) => Opened::Bool(*b),
        serde_json::Value::Number(n) => Opened::Number(match (n.as_u64(), n.as_i64()) {
            (Some(u), _) => Number::Unsigned(u),
            (None, Some(i)) => Number::Negative(i),
            (None, None) => Number::Decimal(n.to_string()),
        }),
        serde_json::Value::String(s) => Opened::Text(s.clone()),
        serde_json::Value::Array(a) => Opened::Array(a.iter().collect()),
        serde_json::Value::Object(m) => Opened::Object(m.iter().collect()),
    }
}

/// A document of `serde_json` as one of this library.
fn from_value(v: &serde_json::Value) -> (r: Json)
    ensures
        r@ == value_view(*v),
    decreases value_view(*v),
{
    match open_value(v) {
        Opened::Null => Json::Null,
        Opened::Bool(b) => Json::Bool(b),
        Opened::Number(n) => Json::Number(n),
        Opened::Text(s) => Json::Text(s),
        Opened::Array(items) => {
            let mut out: Vec<Json> = Vec::new();
            let ghost all = value_view(*v)->Array_0;
            let mut i: usize = 0;
            while i < items.len()
                invariant
                    i <= items.len(),
                    out.len() == i,
                    value_view(*v) == JsonView::Array(all),
                    all == Seq::new(items@.len(), |k: int| value_view(*items@[k])),
                    forall|k: int| 0 <= k < i ==> (#[trigger] out@[k])@ == all[k],
                decreases items.len() - i,
            {
                assert(all[i as int] == value_view(*items@[i as int]));
                assert(decreases_to!(value_view(*v) => value_view(*v)->Array_0[i as int]));
                out.push(from_value(items[i]));
                i += 1;
            }
            assert(json::views(out@) =~= all);
            array(out)
        },
        Opened::Object(entries) => {
            let mut out: Vec<(String, Json)> = Vec::new();
            let ghost all = value_view(*v)->Object_0;
            let mut i: usize = 0;
            while i < entries.len()
                invariant
                    i <= entries.len(),
                    out.len() == i,
                    value_view(*v) == JsonView::Object(all),
                    all == Seq::new(
                        entries@.len(),
                        |k: int| (entries@[k].0@, value_view(*entries@[k].1)),
                    ),
                    forall|k: int|
                        0 <= k < i ==> ((#[trigger] out@[k]).0@, out@[k].1@) == all[k],
                decreases entries.len() - i,
            {
                let entry = entries[i];
                assert(all[i as int] == (entry.0@, value_view(*entry.1)));
                assert(decreases_to!(value_view(*v) => value_view(*v)->Object_0[i as int]));
                assert(decreases_to!(all[i as int] => all[i as int].1));
                out.push((entry.0.clone(), from_value(entry.1)));
                i += 1;
            }
            assert(json::field_views(out@) =~= all);
            object(out)
        },
    }
}

/// The document that a text holds, if it holds one.
pub fn parse_json(text: &str) -> (r: Option<Json>)
    ensures
        match r {
            Some(j) => document(text@) == Some(j@),
            None => document(text@) is None,
        },
{
    match read_value(text) {
        Some(v) => Some(from_value(&v)),
        None => None,
    }
}

} // verus!
