//! Reading JSON text, by way of `serde_json`.

use crate::error::outcome;
use crate::json::{Json, JsonModel, Member, MemberModel};
use vstd::prelude::*;

verus! {

#[verifier::external_type_specification]
#[verifier::external_body]
pub struct ExValue(serde_json::Value);

/// Why a text is not a JSON document.
#[derive(Clone, Copy, Debug, PartialEq, Eq, Structural)]
pub enum TextFault {
    /// The text stops before the document is complete.
    Truncated,
    /// The text is not JSON for any other reason.
    Malformed,
}

impl View for TextFault {
    type V = TextFault;

    open spec fn view(&self) -> TextFault {
        *self
    }
}

/// The document that a `serde_json::Value` holds.
pub uninterp spec fn value_model(value: serde_json::Value) -> JsonModel;

/// What `serde_json::from_str` makes of a text. The members of an object
/// stand in the order of the text; where a key is written more than once in
/// one object, `serde_json` keeps one member for it, at the place of the
/// first and with the value of the last.
pub uninterp spec fn parsed_text(text: Seq<char>) -> Result<JsonModel, TextFault>;

/// One level of a `serde_json::Value`, with what lies below still unread.
pub enum Node<'a> {
    Null,
    Bool(bool),
    /// A number: as an integer from zero to `u64::MAX` where it is one, and
    /// as its decimal text.
    Number(Option<u64>, String),
    Str(&'a String),
    Array(&'a Vec<serde_json::Value>),
    Object(Vec<(&'a String, &'a serde_json::Value)>),
}

impl<'a> Node<'a> {
    /// The document of which this is the top level.
    pub open spec fn model(self) -> JsonModel {
        match self {
            Node::Null => JsonModel::Null,
            Node::Bool(b) => JsonModel::Bool(b),
            Node::Number(Some(n), _) => JsonModel::Number(n),
            Node::Number(None, text) => JsonModel::Decimal(text@),
            Node::Str(text) => JsonModel::Str(text@),
            Node::Array(items) => JsonModel::Array(
                Seq::new(items@.len(), |i: int| value_model(items@[i])),
            ),
            Node::Object(members) => JsonModel::Object(
                Seq::new(
                    members@.len(),
                    |i: int| MemberModel { key: members@[i].0@, value: value_model(*members@[i].1) },
                ),
            ),
        }
    }
}

/// `serde_json::from_str` at `serde_json::Value`. An `Ok` carries the value
/// parsed; an error is reported as `Truncated` where `Error::is_eof` holds of
/// it and as `Malformed` otherwise.
#[verifier::external_body]
fn read_text(text: &str) -> (r: Result<serde_json::Value, TextFault>)
    ensures
        match r {
            Ok(value) => parsed_text(text@) == Ok::<JsonModel, TextFault>(value_model(value)),
            Err(fault) => parsed_text(text@) == Err::<JsonModel, TextFault>(fault),
        },
{
    match serde_json::from_str::<serde_json::Value>(text) {
        Ok(value) => Ok(value),
        Err(error) => if error.is_eof() {
            Err(TextFault::Truncated)
        } else {
            Err(TextFault::Malformed)
        },
    }
}

/// Tells the variants of `serde_json::Value` apart and hands out what each
/// holds: a number as `Number::as_u64` and `Number`'s `Display` give it, the
/// members of an object in the order of `Map::iter`.
#[verifier::external_body]
fn open_value<'a>(value: &'a serde_json::Value) -> (node: Node<'a>)
    ensures
        node.model() == value_model(*value),
{
    match value {
        serde_json::Value::Null => Node::Null,
        serde_json::Value::Bool(b) => Node::Bool(*b),
        serde_json::Value::Number(number) => Node::Number(number.as_u64(), number.to_string()),
        serde_json::Value::String(text) => Node::Str(text),
        serde_json::Value::Array(items) => Node::Array(items),
        serde_json::Value::Object(members) => Node::Object(members.iter().collect()),
    }
}

impl Json {
    /// Copies a `serde_json::Value` into a document of this library.
    pub fn from_value(value: &serde_json::Value) -> (json: Json)
        ensures
            json@ == value_model(*value),
        decreases value_model(*value),
    {
        match open_value(value) {
            Node::Null => Json::Null,
            Node::Bool(b) => Json::Bool(b),
            Node::Number(Some(n), _) => Json::Number(n),
            Node::Number(None, text) => Json::Decimal(text),
            Node::Str(text) => Json::Str(text.clone()),
            Node::Array(items) => {
                let mut copies: Vec<Json> = Vec::new();
                let mut i: usize = 0;
                while i < items.len()
                    invariant
                        i <= items.len(),
                        copies.len() == i,
                        value_model(*value) == Node::Array(items).model(),
                        forall|k: int| 0 <= k < i ==> copies@[k]@ == value_model(items@[k]),
                    decreases items.len() - i,
                {
                    assert(value_model(*value)->Array_0[i as int] == value_model(items@[i as int]));
                    let item = Json::from_value(&items[i]);
                    copies.push(item);
                    i += 1;
                }
                let json = Json::Array(copies);
                assert(json@->Array_0 =~= value_model(*value)->Array_0);
                json
            },
            Node::Object(members) => {
                let mut copies: Vec<Member> = Vec::new();
                let mut i: usize = 0;
                while i < members.len()
                    invariant
                        i <= members.len(),
                        copies.len() == i,
                        value_model(*value) == Node::Object(members).model(),
                        forall|k: int|
                            0 <= k < i ==> copies@[k]@ == (MemberModel {
                                key: members@[k].0@,
                                value: value_model(*members@[k].1),
                            }),
                    decreases members.len() - i,
                {
                    assert(value_model(*value)->Object_0[i as int].value == value_model(
                        *members@[i as int].1,
                    ));
                    let key = members[i].0.clone();
                    let value = Json::from_value(members[i].1);
                    copies.push(Member { key, value });
                    i += 1;
                }
                let json = Json::Object(copies);
                assert(json@->Object_0 =~= value_model(*value)->Object_0);
                json
            },
        }
    }

    /// Reads a JSON text.
    pub fn parse(text: &str) -> (r: Result<Json, TextFault>)
        ensures
            outcome(r) == parsed_text(text@),
    {
        match read_text(text) {
            Ok(value) => Ok(Json::from_value(&value)),
            Err(fault) => Err(fault),
        }
    }
}

} // verus!
