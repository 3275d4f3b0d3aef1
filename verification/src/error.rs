//! Why a document could not be decoded.

use crate::json::{Json, JsonModel};
use crate::text::TextFault;
use vstd::prelude::*;
use vstd::string::*;

verus! {

/// `str`'s `==`: two texts are equal when they hold the same characters.
pub assume_specification[ <str as PartialEq>::eq ](a: &str, b: &str) -> (same: bool)
    ensures
        same == (a@ == b@),
;

/// Whether two texts hold the same characters.
pub fn same_text(a: &str, b: &str) -> (same: bool)
    ensures
        same == (a@ == b@),
{
    a.eq(b)
}

/// The ways in which decoding fails. Decoding is all or nothing: any of these
/// ends the decoding of the whole document.
#[derive(Clone, Debug, PartialEq, Eq)]
pub enum DecodeError {
    /// A numeric field held something other than a number or the empty
    /// string; the value found is attached.
    InvalidNumericField(Json),
    /// An object held a key that its shape does not know.
    UnknownKey(String),
    /// An object held keys of both variants, or of neither.
    AmbiguousOrEmptyObject,
    /// A field of the chosen shape never appeared.
    MissingRequiredField(String),
    /// The text ended before the document was complete.
    UnexpectedEndOfInput,
    /// `Topics` arrays were nested deeper than the limit allows.
    DepthExceeded,
    /// A key appeared a second time in one object.
    DuplicateKey(String),
    /// A value was of a JSON type, or a text, that its field does not admit;
    /// the value found is attached.
    InvalidValue(Json),
    /// The text is not JSON.
    Syntax,
}

/// The mathematical value of a [`DecodeError`].
pub ghost enum DecodeErrorModel {
    InvalidNumericField(JsonModel),
    UnknownKey(Seq<char>),
    AmbiguousOrEmptyObject,
    MissingRequiredField(Seq<char>),
    UnexpectedEndOfInput,
    DepthExceeded,
    DuplicateKey(Seq<char>),
    InvalidValue(JsonModel),
    Syntax,
}

impl View for DecodeError {
    type V = DecodeErrorModel;

    open spec fn view(&self) -> DecodeErrorModel {
        match self {
            DecodeError::InvalidNumericField(found) => DecodeErrorModel::InvalidNumericField(found@),
            DecodeError::UnknownKey(key) => DecodeErrorModel::UnknownKey(key@),
            DecodeError::AmbiguousOrEmptyObject => DecodeErrorModel::AmbiguousOrEmptyObject,
            DecodeError::MissingRequiredField(name) => DecodeErrorModel::MissingRequiredField(name@),
            DecodeError::UnexpectedEndOfInput => DecodeErrorModel::UnexpectedEndOfInput,
            DecodeError::DepthExceeded => DecodeErrorModel::DepthExceeded,
            DecodeError::DuplicateKey(key) => DecodeErrorModel::DuplicateKey(key@),
            DecodeError::InvalidValue(found) => DecodeErrorModel::InvalidValue(found@),
            DecodeError::Syntax => DecodeErrorModel::Syntax,
        }
    }
}

/// A result as a value: what it holds, seen through its view.
pub open spec fn outcome<T: View, E: View>(r: Result<T, E>) -> Result<T::V, E::V> {
    match r {
        Ok(value) => Ok(value@),
        Err(error) => Err(error@),
    }
}

/// The error that stands for a fault of the text itself.
pub open spec fn fault_error(fault: TextFault) -> DecodeErrorModel {
    match fault {
        TextFault::Truncated => DecodeErrorModel::UnexpectedEndOfInput,
        TextFault::Malformed => DecodeErrorModel::Syntax,
    }
}

/// A name between backquotes, after some words.
pub open spec fn quoted(words: Seq<char>, name: Seq<char>) -> Seq<char> {
    words + name + "`"@
}

/// What an error says of itself.
pub open spec fn description_of(error: DecodeErrorModel) -> Seq<char> {
    match error {
        DecodeErrorModel::InvalidNumericField(_) => "invalid numeric field"@,
        DecodeErrorModel::UnknownKey(key) => quoted("unknown key `"@, key),
        DecodeErrorModel::AmbiguousOrEmptyObject => "ambiguous or empty object"@,
        DecodeErrorModel::MissingRequiredField(name) => quoted("missing field `"@, name),
        DecodeErrorModel::UnexpectedEndOfInput => "unexpected end of input"@,
        DecodeErrorModel::DepthExceeded => "depth exceeded"@,
        DecodeErrorModel::DuplicateKey(key) => quoted("duplicate key `"@, key),
        DecodeErrorModel::InvalidValue(_) => "invalid value"@,
        DecodeErrorModel::Syntax => "syntax error"@,
    }
}

/// Puts a name between backquotes, after some words.
fn quote(words: &str, name: &str) -> (text: String)
    ensures
        text@ == quoted(words@, name@),
{
    let mut text = words.to_owned();
    text.append(name);
    text.append("`");
    text
}

impl DecodeError {
    /// A short description of the error.
    pub fn description(&self) -> (text: String)
        ensures
            text@ == description_of(self@),
    {
        match self {
            DecodeError::InvalidNumericField(_) => "invalid numeric field".to_owned(),
            DecodeError::UnknownKey(key) => quote("unknown key `", key.as_str()),
            DecodeError::AmbiguousOrEmptyObject => "ambiguous or empty object".to_owned(),
            DecodeError::MissingRequiredField(name) => quote("missing field `", name.as_str()),
            DecodeError::UnexpectedEndOfInput => "unexpected end of input".to_owned(),
            DecodeError::DepthExceeded => "depth exceeded".to_owned(),
            DecodeError::DuplicateKey(key) => quote("duplicate key `", key.as_str()),
            DecodeError::InvalidValue(_) => "invalid value".to_owned(),
            DecodeError::Syntax => "syntax error".to_owned(),
        }
    }

    /// The error that stands for a fault of the text itself.
    pub fn from_fault(fault: TextFault) -> (error: DecodeError)
        ensures
            error@ == fault_error(fault),
    {
        match fault {
            TextFault::Truncated => DecodeError::UnexpectedEndOfInput,
            TextFault::Malformed => DecodeError::Syntax,
        }
    }
}

} // verus!
