//! Messages about values that are not of the kind that is read.

use crate::json::{Json, JsonTree};
use crate::text::{number_text, write_number};
use vstd::prelude::*;

verus! {

/// What stands where something else is expected: of a list or an object only that it
/// is one, and of a number that is no integer the bit pattern of its binary64 value.
#[derive(Clone, Copy, Debug)]
pub enum Found<'a> {
    Null,
    Bool(bool),
    Unsigned(u64),
    Signed(i64),
    Float(u64),
    Text(&'a str),
    List,
    Members,
}

pub enum FoundModel {
    Null,
    Bool(bool),
    Unsigned(u64),
    Signed(i64),
    Float(u64),
    Text(Seq<char>),
    List,
    Members,
}

impl<'a> View for Found<'a> {
    type V = FoundModel;

    open spec fn view(&self) -> FoundModel {
        match self {
            Found::Null => FoundModel::Null,
            Found::Bool(value) => FoundModel::Bool(*value),
            Found::Unsigned(value) => FoundModel::Unsigned(*value),
            Found::Signed(value) => FoundModel::Signed(*value),
            Found::Float(bits) => FoundModel::Float(*bits),
            Found::Text(value) => FoundModel::Text(value@),
            Found::List => FoundModel::List,
            Found::Members => FoundModel::Members,
        }
    }
}

/// What a document is found to be.
pub open spec fn found_as(tree: JsonTree) -> FoundModel {
    match tree {
        JsonTree::Null => FoundModel::Null,
        JsonTree::Bool(value) => FoundModel::Bool(value),
        JsonTree::Number(number) => match (number.unsigned, number.signed, number.bits) {
            (Some(value), _, _) => FoundModel::Unsigned(value),
            (None, Some(value), _) => FoundModel::Signed(value),
            (None, None, Some(bits)) => FoundModel::Float(bits),
            (None, None, None) => FoundModel::Float(0),
        },
        JsonTree::Text(value) => FoundModel::Text(value),
        JsonTree::Array(_) => FoundModel::List,
        JsonTree::Object(_) => FoundModel::Members,
    }
}

fn found(value: &Json) -> (found: Found)
    ensures
        found@ == found_as(value@),
{
    match value {
        Json::Null => Found::Null,
        Json::Bool(value) => Found::Bool(*value),
        Json::Number(number) => match (number.unsigned, number.signed, number.bits) {
            (Some(value), _, _) => Found::Unsigned(value),
            (None, Some(value), _) => Found::Signed(value),
            (None, None, Some(bits)) => Found::Float(bits),
            (None, None, None) => Found::Float(0),
        },
        Json::Text(value) => Found::Text(value.as_str()),
        Json::Array(_) => Found::List,
        Json::Object(_) => Found::Members,
    }
}

/// The message of the error that `serde::de::Error::invalid_type` makes for
/// `serde_json`, of what was found and what was expected.
pub uninterp spec fn type_message(found: FoundModel, expected: Seq<char>) -> Seq<char>;

/// The message of the error that `serde::de::Error::invalid_value` makes for
/// `serde_json`, of what was found and what was expected.
pub uninterp spec fn value_message(found: FoundModel, expected: Seq<char>) -> Seq<char>;

/// The value by which `serde` speaks of what it did not expect.
#[verifier::external_type_specification]
#[verifier::external_body]
pub struct ExUnexpected<'a>(serde::de::Unexpected<'a>);

/// Turns what was found into the value by which `serde` speaks of it, variant by
/// variant. Nothing is claimed of it on its own.
#[verifier::external_body]
fn unexpected<'a>(found: Found<'a>) -> serde::de::Unexpected<'a> {
    match found {
        Found::Null => serde::de::Unexpected::Unit,
        Found::Bool(value) => serde::de::Unexpected::Bool(value),
        Found::Unsigned(value) => serde::de::Unexpected::Unsigned(value),
        Found::Signed(value) => serde::de::Unexpected::Signed(value),
        Found::Float(bits) => serde::de::Unexpected::Float(bytemuck::cast(bits)),
        Found::Text(value) => serde::de::Unexpected::Str(value),
        Found::List => serde::de::Unexpected::Seq,
        Found::Members => serde::de::Unexpected::Map,
    }
}

/// Makes an error of `serde_json` with `serde::de::Error::invalid_type` and gives its
/// message, which depends on the two arguments alone.
#[verifier::external_body]
fn invalid_type(found: Found, expected: &str) -> (message: String)
    ensures
        message@ == type_message(found@, expected@),
{
    let error: serde_json::Error = serde::de::Error::invalid_type(unexpected(found), &expected);
    error.to_string()
}

/// Makes an error of `serde_json` with `serde::de::Error::invalid_value` and gives its
/// message, which depends on the two arguments alone.
#[verifier::external_body]
fn invalid_value(found: Found, expected: &str) -> (message: String)
    ensures
        message@ == value_message(found@, expected@),
{
    let error: serde_json::Error = serde::de::Error::invalid_value(unexpected(found), &expected);
    error.to_string()
}

/// The message about a document of the wrong type.
pub open spec fn wrong_type(tree: JsonTree, expected: Seq<char>) -> Seq<char> {
    type_message(found_as(tree), expected)
}

/// Describes a document of the wrong type.
pub fn describe_type(value: &Json, expected: &str) -> (message: String)
    ensures
        message@ == wrong_type(value@, expected@),
{
    invalid_type(found(value), expected)
}

/// The message about a document of the right type whose value is out of range.
pub open spec fn wrong_value(tree: JsonTree, expected: Seq<char>) -> Seq<char> {
    value_message(found_as(tree), expected)
}

/// Describes a document whose value is out of range.
pub fn describe_value(value: &Json, expected: &str) -> (message: String)
    ensures
        message@ == wrong_value(value@, expected@),
{
    invalid_value(found(value), expected)
}

/// The message about a list of the wrong length.
pub open spec fn wrong_length(length: nat, expected: Seq<char>) -> Seq<char> {
    "invalid length "@ + number_text(length) + ", expected "@ + expected
}

/// Describes a list of the wrong length.
pub fn describe_length(length: usize, expected: &str) -> (message: String)
    ensures
        message@ == wrong_length(length as nat, expected@),
{
    let mut message: String = "invalid length ".to_owned();
    message.push_str(write_number(length as u64).as_str());
    message.push_str(", expected ");
    message.push_str(expected);
    message
}

/// A document is described as what it is: a number as the first of an unsigned, a signed
/// and a binary one that it is.
pub proof fn lemma_documents_are_described_as_they_are(tree: JsonTree)
    ensures
        tree is Null <==> found_as(tree) is Null,
        tree matches JsonTree::Bool(value) ==> found_as(tree) == FoundModel::Bool(value),
        tree matches JsonTree::Text(value) ==> found_as(tree) == FoundModel::Text(value),
        tree is Array <==> found_as(tree) is List,
        tree is Object <==> found_as(tree) is Members,
        tree matches JsonTree::Number(number) ==> {
            &&& number.unsigned matches Some(value) ==> found_as(tree) == FoundModel::Unsigned(
                value,
            )
            &&& number.unsigned is None ==> (number.signed matches Some(value) ==> found_as(tree)
                == FoundModel::Signed(value))
            &&& number.unsigned is None && number.signed is None ==> (number.bits matches Some(
                bits,
            ) ==> found_as(tree) == FoundModel::Float(bits))
        },
        forall|length: nat, expected: Seq<char>| #[trigger]
            wrong_length(length, expected) == "invalid length "@ + number_text(length)
                + ", expected "@ + expected,
{
}

} // verus!
