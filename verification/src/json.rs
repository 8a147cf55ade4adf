//! JSON documents. Reading, writing, comparing and taking apart a document
//! is `serde_json`'s work; this module gives each of those operations a
//! name that contracts can speak of, and the one call that computes it.
//!
//! Nothing in this module is proved: every function in it is believed on the
//! strength of `serde_json`'s source.

use vstd::prelude::*;
use serde_json::{Error, Value};
use core::cmp::Ordering;

verus! {

/// `serde_json::Value`: a JSON document. Nothing inside it is visible here.
#[verifier::external_type_specification]
#[verifier::external_body]
pub struct ExValue(serde_json::Value);

/// `serde_json::Error`: why a text was not read, or a document not written.
#[verifier::external_type_specification]
#[verifier::external_body]
pub struct ExError(serde_json::Error);

/// How a number stands to another.
#[derive(Debug, Clone, Copy, PartialEq, Eq, Structural)]
pub enum Comparison {
    Less,
    Equal,
    Greater,
}

/// The document that `text` denotes, where `text` is well-formed JSON and
/// nothing else; `None` for any other text.
pub uninterp spec fn json_document(text: Seq<char>) -> Option<Value>;

/// The elements of `document`, in order, where it is an array; `None` where
/// it is anything else.
pub uninterp spec fn json_elements(document: Value) -> Option<Seq<Value>>;

/// The compact JSON text of the array whose elements are `items`; `None`
/// where the serializer reports an error.
pub uninterp spec fn json_array_text(items: Seq<Value>) -> Option<Seq<char>>;

/// The value of the member called `name`, where `document` is an object
/// that has one; `None` otherwise.
pub uninterp spec fn json_member(document: Value, name: Seq<char>) -> Option<Value>;

/// Whether two documents are equal as JSON values.
pub uninterp spec fn json_equal(a: Value, b: Value) -> bool;

/// The characters of `document`, where it is a string; `None` where it is
/// anything else.
pub uninterp spec fn json_string(document: Value) -> Option<Seq<char>>;

/// How `document`, as a 64-bit float, stands to the 64-bit float that
/// `literal` denotes; `None` where `document` is no number, `literal`
/// denotes no float, or the two are unordered.
pub uninterp spec fn json_number_order(document: Value, literal: Seq<char>) -> Option<Comparison>;

/// `serde_json::from_str` at `Value`: parses `text` as one JSON document.
/// The result depends on `text` alone, so the contract names it.
#[verifier::external_body]
pub(crate) fn parse_document(text: &str) -> (r: Result<Value, Error>)
    ensures
        match r {
            Ok(document) => json_document(text@) == Some(document),
            Err(_) => json_document(text@) is None,
        },
{
    serde_json::from_str::<Value>(text)
}

/// Tells `Value::Array` from the other variants: an array hands out its
/// elements, any other document comes back as it was.
#[verifier::external_body]
pub(crate) fn into_elements(document: Value) -> (r: Result<Vec<Value>, Value>)
    ensures
        match r {
            Ok(items) => json_elements(document) == Some(items@),
            Err(other) => json_elements(document) is None && other == document,
        },
{
    match document {
        Value::Array(items) => Ok(items),
        other => Err(other),
    }
}

/// `serde_json::to_string` at a vector of documents: the compact text of
/// the array with these elements. The result depends on the elements alone,
/// so the contract names it.
#[verifier::external_body]
pub(crate) fn render_array(items: &Vec<Value>) -> (r: Result<String, Error>)
    ensures
        match r {
            Ok(text) => json_array_text(items@) == Some(text@),
            Err(_) => json_array_text(items@) is None,
        },
{
    serde_json::to_string(items)
}

/// `Value::get` with a string index: the member of an object by its name.
#[verifier::external_body]
pub(crate) fn member<'a>(document: &'a Value, name: &str) -> (r: Option<&'a Value>)
    ensures
        match r {
            Some(value) => json_member(*document, name@) == Some(*value),
            None => json_member(*document, name@) is None,
        },
{
    document.get(name)
}

/// `Value`'s `==`.
#[verifier::external_body]
pub(crate) fn same_document(a: &Value, b: &Value) -> (r: bool)
    ensures
        r == json_equal(*a, *b),
{
    a == b
}

/// `Value::as_str`: the characters of a document that is a string.
#[verifier::external_body]
pub(crate) fn string_content<'a>(document: &'a Value) -> (r: Option<&'a str>)
    ensures
        match r {
            Some(s) => json_string(*document) == Some(s@),
            None => json_string(*document) is None,
        },
{
    document.as_str()
}

/// `Value::as_f64` on the document, `str::parse` on the literal, and the
/// standard library's partial order on the two floats.
#[verifier::external_body]
pub(crate) fn number_order(document: &Value, literal: &str) -> (r: Option<Comparison>)
    ensures
        r == json_number_order(*document, literal@),
{
    match (document.as_f64(), literal.parse()) {
        (Some(number), Ok(bound)) => match number.partial_cmp(&bound) {
            Some(Ordering::Less) => Some(Comparison::Less),
            Some(Ordering::Equal) => Some(Comparison::Equal),
            Some(Ordering::Greater) => Some(Comparison::Greater),
            None => None,
        },
        _ => None,
    }
}

} // verus!
