//! Icons, and the numbers that arrive as empty strings.

use crate::error::{outcome, DecodeError, DecodeErrorModel};
use crate::json::{member_models, Json, JsonModel, Member, MemberModel};
use crate::record::{field, field_of};
use vstd::prelude::*;

verus! {

pub const HEIGHT: &'static str = "Height";

pub const URL: &'static str = "URL";

pub const WIDTH: &'static str = "Width";

/// An icon associated with a URL. The icon itself can be bigger than the
/// dimensions given here.
#[derive(Clone, Debug, PartialEq, Eq)]
pub struct Icon {
    /// The suggested height of the icon; 0 where the source gave none.
    pub height: u64,
    /// The URL of the icon.
    pub url: String,
    /// The suggested width of the icon; 0 where the source gave none.
    pub width: u64,
}

/// The mathematical value of an [`Icon`].
pub ghost struct IconModel {
    pub height: u64,
    pub url: Seq<char>,
    pub width: u64,
}

impl View for Icon {
    type V = IconModel;

    open spec fn view(&self) -> IconModel {
        IconModel { height: self.height, url: self.url@, width: self.width }
    }
}

/// The number that a scalar stands for: a number is itself, and the empty
/// string is zero. Anything else is no number, and is reported as found.
pub open spec fn count_of(value: JsonModel) -> Result<u64, DecodeErrorModel> {
    match value {
        JsonModel::Number(n) => Ok(n),
        JsonModel::Str(text) => if text.len() == 0 {
            Ok(0)
        } else {
            Err(DecodeErrorModel::InvalidNumericField(value))
        },
        _ => Err(DecodeErrorModel::InvalidNumericField(value)),
    }
}

/// The text that a value holds, if it is a string.
pub open spec fn text_of(value: JsonModel) -> Result<Seq<char>, DecodeErrorModel> {
    match value {
        JsonModel::Str(text) => Ok(text),
        _ => Err(DecodeErrorModel::InvalidValue(value)),
    }
}

/// The icon that a value describes: an object with the fields `Height`,
/// `URL` and `Width`, whatever else it holds. The first field at fault, in
/// that order, gives the error.
pub open spec fn icon_of(value: JsonModel) -> Result<IconModel, DecodeErrorModel> {
    match value {
        JsonModel::Object(members) => {
            let height = count_field_of(members, HEIGHT@);
            let url = text_field_of(members, URL@);
            let width = count_field_of(members, WIDTH@);
            if height is Err {
                Err(height->Err_0)
            } else if url is Err {
                Err(url->Err_0)
            } else if width is Err {
                Err(width->Err_0)
            } else {
                Ok(IconModel { height: height->Ok_0, url: url->Ok_0, width: width->Ok_0 })
            }
        },
        _ => Err(DecodeErrorModel::InvalidValue(value)),
    }
}

/// The number in the field `key` of a record.
pub open spec fn count_field_of(members: Seq<MemberModel>, key: Seq<char>) -> Result<
    u64,
    DecodeErrorModel,
> {
    match field_of(members, key) {
        Ok(value) => count_of(value),
        Err(error) => Err(error),
    }
}

/// The text in the field `key` of a record.
pub open spec fn text_field_of(members: Seq<MemberModel>, key: Seq<char>) -> Result<
    Seq<char>,
    DecodeErrorModel,
> {
    match field_of(members, key) {
        Ok(value) => text_of(value),
        Err(error) => Err(error),
    }
}

/// Decodes one scalar into an unsigned integer, taking the empty string for
/// zero.
pub fn u64_or_empty_string(value: &Json) -> (r: Result<u64, DecodeError>)
    ensures
        outcome(r) == count_of(value@),
{
    match value {
        Json::Number(n) => Ok(*n),
        Json::Str(text) => if text.as_str().is_empty() {
            Ok(0)
        } else {
            Err(DecodeError::InvalidNumericField(value.clone()))
        },
        _ => Err(DecodeError::InvalidNumericField(value.clone())),
    }
}

/// Decodes a string.
pub fn text(value: &Json) -> (r: Result<String, DecodeError>)
    ensures
        outcome(r) == text_of(value@),
{
    match value {
        Json::Str(text) => Ok(text.clone()),
        _ => Err(DecodeError::InvalidValue(value.clone())),
    }
}

/// Decodes the number in the field `key` of a record.
pub fn count_field(members: &Vec<Member>, key: &str) -> (r: Result<u64, DecodeError>)
    ensures
        outcome(r) == count_field_of(member_models(members@), key@),
{
    let value = field(members, key)?;
    u64_or_empty_string(value)
}

/// Decodes the text in the field `key` of a record.
pub fn text_field(members: &Vec<Member>, key: &str) -> (r: Result<
    String,
    DecodeError,
>)
    ensures
        outcome(r) == text_field_of(member_models(members@), key@),
{
    let value = field(members, key)?;
    text(value)
}

impl Icon {
    /// Decodes an icon.
    pub fn from_json(value: &Json) -> (r: Result<Icon, DecodeError>)
        ensures
            outcome(r) == icon_of(value@),
    {
        match value {
            Json::Object(members) => {
                let height = count_field(members, HEIGHT)?;
                let url = text_field(members, URL)?;
                let width = count_field(members, WIDTH)?;
                Ok(Icon { height, url, width })
            },
            _ => Err(DecodeError::InvalidValue(value.clone())),
        }
    }
}

} // verus!
