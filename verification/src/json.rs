//! JSON documents as plain values.

use vstd::prelude::*;

verus! {

/// One `key: value` entry of a JSON object.
#[derive(Debug, PartialEq, Eq)]
pub struct Member {
    pub key: String,
    pub value: Json,
}

/// A JSON document. Object members keep the order in which they were written,
/// and a key may occur more than once.
#[derive(Debug, PartialEq, Eq)]
pub enum Json {
    Null,
    Bool(bool),
    /// An integer between zero and `u64::MAX`.
    Number(u64),
    /// Any other number, negative or fractional, as its decimal text.
    Decimal(String),
    Str(String),
    Array(Vec<Json>),
    Object(Vec<Member>),
}

/// The mathematical value of a [`Member`].
pub ghost struct MemberModel {
    pub key: Seq<char>,
    pub value: JsonModel,
}

/// The mathematical value of a [`Json`] document.
pub ghost enum JsonModel {
    Null,
    Bool(bool),
    Number(u64),
    Decimal(Seq<char>),
    Str(Seq<char>),
    Array(Seq<JsonModel>),
    Object(Seq<MemberModel>),
}

impl View for Member {
    type V = MemberModel;

    open spec fn view(&self) -> MemberModel {
        MemberModel { key: self.key@, value: self.value@ }
    }
}

impl View for Json {
    type V = JsonModel;

    open spec fn view(&self) -> JsonModel
        decreases self, 0int,
    {
        match self {
            Json::Null => JsonModel::Null,
            Json::Bool(b) => JsonModel::Bool(*b),
            Json::Number(n) => JsonModel::Number(*n),
            Json::Decimal(text) => JsonModel::Decimal(text@),
            Json::Str(text) => JsonModel::Str(text@),
            Json::Array(items) => JsonModel::Array(json_models(items@)),
            Json::Object(members) => JsonModel::Object(member_models(members@)),
        }
    }
}

/// The models of a run of documents, one for one.
pub open spec fn json_models(items: Seq<Json>) -> Seq<JsonModel>
    decreases items, 1int,
{
    Seq::new(items.len(), |i: int| json_model_at(items, i))
}

/// The model of the document at `i`, where there is one.
pub open spec fn json_model_at(items: Seq<Json>, i: int) -> JsonModel
    decreases items, 0int,
{
    if 0 <= i < items.len() {
        items[i]@
    } else {
        JsonModel::Null
    }
}

/// The models of a run of members, one for one.
pub open spec fn member_models(members: Seq<Member>) -> Seq<MemberModel>
    decreases members, 1int,
{
    Seq::new(members.len(), |i: int| member_model_at(members, i))
}

/// The model of the member at `i`, where there is one.
pub open spec fn member_model_at(members: Seq<Member>, i: int) -> MemberModel
    decreases members, 0int,
{
    if 0 <= i < members.len() {
        MemberModel { key: members[i].key@, value: members[i].value@ }
    } else {
        MemberModel { key: Seq::empty(), value: JsonModel::Null }
    }
}

impl Clone for Json {
    /// A deep copy: the same document, sharing nothing with `self`.
    fn clone(&self) -> (copy: Json)
        ensures
            copy@ == self@,
        decreases self,
    {
        match self {
            Json::Null => Json::Null,
            Json::Bool(b) => Json::Bool(*b),
            Json::Number(n) => Json::Number(*n),
            Json::Decimal(text) => Json::Decimal(text.clone()),
            Json::Str(text) => Json::Str(text.clone()),
            Json::Array(items) => {
                let mut copies: Vec<Json> = Vec::new();
                let mut i: usize = 0;
                while i < items.len()
                    invariant
                        i <= items.len(),
                        copies.len() == i,
                        self is Array,
                        self->Array_0 == *items,
                        decreases_to!(self => items),
                        forall|k: int| 0 <= k < i ==> copies@[k]@ == items@[k]@,
                    decreases items.len() - i,
                {
                    let item = items[i].clone();
                    copies.push(item);
                    i += 1;
                }
                let copy = Json::Array(copies);
                assert(copy@->Array_0 =~= self@->Array_0);
                copy
            },
            Json::Object(members) => {
                let mut copies: Vec<Member> = Vec::new();
                let mut i: usize = 0;
                while i < members.len()
                    invariant
                        i <= members.len(),
                        copies.len() == i,
                        self is Object,
                        self->Object_0 == *members,
                        decreases_to!(self => members),
                        forall|k: int| 0 <= k < i ==> copies@[k]@ == members@[k]@,
                    decreases members.len() - i,
                {
                    let key = members[i].key.clone();
                    let value = members[i].value.clone();
                    copies.push(Member { key, value });
                    i += 1;
                }
                let copy = Json::Object(copies);
                assert(copy@->Object_0 =~= self@->Object_0);
                copy
            },
        }
    }
}

impl Clone for Member {
    fn clone(&self) -> (copy: Member)
        ensures
            copy@ == self@,
    {
        Member { key: self.key.clone(), value: self.value.clone() }
    }
}

} // verus!
