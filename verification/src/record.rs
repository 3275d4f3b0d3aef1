//! Fields of flat records: an object read by the names of its members.

use crate::error::{outcome, same_text, DecodeError, DecodeErrorModel};
use crate::json::{member_models, Json, JsonModel, Member, MemberModel};
use vstd::prelude::*;

verus! {

/// Some member has this key.
pub open spec fn holds_key(members: Seq<MemberModel>, key: Seq<char>) -> bool {
    exists|i: int| 0 <= i < members.len() && #[trigger] members[i].key == key
}

/// Two members have this key.
pub open spec fn repeats_key(members: Seq<MemberModel>, key: Seq<char>) -> bool {
    exists|i: int, j: int|
        0 <= i < j < members.len() && #[trigger] members[i].key == key
            && #[trigger] members[j].key == key
}

/// The place of a member with this key.
pub open spec fn place_of(members: Seq<MemberModel>, key: Seq<char>) -> int {
    choose|i: int| 0 <= i < members.len() && #[trigger] members[i].key == key
}

/// The value of the field `key` of a record: that of the one member with
/// this key. A record without such a member misses a required field, and one
/// with two repeats a key.
pub open spec fn field_of(members: Seq<MemberModel>, key: Seq<char>) -> Result<
    JsonModel,
    DecodeErrorModel,
> {
    if !holds_key(members, key) {
        Err(DecodeErrorModel::MissingRequiredField(key))
    } else if repeats_key(members, key) {
        Err(DecodeErrorModel::DuplicateKey(key))
    } else {
        Ok(members[place_of(members, key)].value)
    }
}

/// Finds the field `key` of a record.
pub fn field<'a>(members: &'a Vec<Member>, key: &str) -> (r: Result<&'a Json, DecodeError>)
    ensures
        outcome(r) == field_of(member_models(members@), key@),
{
    let ghost models = member_models(members@);
    let mut found: Option<usize> = None;
    let mut i: usize = 0;
    while i < members.len()
        invariant
            i <= members.len(),
            models == member_models(members@),
            match found {
                Some(at) => at < i && models[at as int].key == key@ && forall|k: int|
                    0 <= k < i && k != at ==> #[trigger] models[k].key != key@,
                None => forall|k: int| 0 <= k < i ==> #[trigger] models[k].key != key@,
            },
        decreases members.len() - i,
    {
        if same_text(members[i].key.as_str(), key) {
            assert(models[i as int].key == key@);
            match found {
                Some(at) => {
                    assert(repeats_key(models, key@));
                    return Err(DecodeError::DuplicateKey(key.to_owned()));
                },
                None => {
                    found = Some(i);
                },
            }
        } else {
            assert(models[i as int].key != key@);
        }
        i += 1;
    }
    match found {
        Some(at) => {
            assert(holds_key(models, key@));
            assert(place_of(models, key@) == at);
            Ok(&members[at].value)
        },
        None => Err(DecodeError::MissingRequiredField(key.to_owned())),
    }
}

} // verus!
