//! Reading the members of one object, a key and then its value at a time.

use crate::json::{member_models, Json, Member, MemberModel};
use vstd::prelude::*;

verus! {

/// A reader over the members of one JSON object, in the order in which they
/// stand. It hands out the next key, then the value for the key just read,
/// and says when the object has ended; it assumes nothing about which keys
/// come, or in what order.
pub struct KeyScanner<'a> {
    members: &'a Vec<Member>,
    position: usize,
    value_due: bool,
}

impl<'a> KeyScanner<'a> {
    /// The members under the scanner.
    pub closed spec fn members(&self) -> Seq<MemberModel> {
        member_models(self.members@)
    }

    /// How many members have been read in full.
    pub closed spec fn position(&self) -> nat {
        self.position as nat
    }

    /// Whether a key has been read whose value has not.
    pub closed spec fn value_due(&self) -> bool {
        self.value_due
    }

    /// The scanner stands inside its object, and on a member while a value
    /// is due.
    pub closed spec fn wf(&self) -> bool {
        &&& self.position <= self.members@.len()
        &&& self.value_due ==> self.position < self.members@.len()
    }

    /// A scanner at the start of an object.
    pub fn new(members: &'a Vec<Member>) -> (scanner: KeyScanner<'a>)
        ensures
            scanner.wf(),
            scanner.members() == member_models(members@),
            scanner.position() == 0,
            !scanner.value_due(),
    {
        KeyScanner { members, position: 0, value_due: false }
    }

    /// The key of the next member, or `None` where the object has ended.
    pub fn next_key(&mut self) -> (key: Option<&'a String>)
        requires
            old(self).wf(),
            !old(self).value_due(),
        ensures
            final(self).wf(),
            final(self).members() == old(self).members(),
            final(self).position() == old(self).position(),
            match key {
                Some(text) => {
                    &&& old(self).position() < old(self).members().len()
                    &&& text@ == old(self).members()[old(self).position() as int].key
                    &&& final(self).value_due()
                },
                None => {
                    &&& old(self).position() == old(self).members().len()
                    &&& !final(self).value_due()
                },
            },
    {
        if self.position < self.members.len() {
            self.value_due = true;
            Some(&self.members[self.position].key)
        } else {
            None
        }
    }

    /// The value for the key just read; the scanner moves on to the next
    /// member.
    pub fn next_value(&mut self) -> (value: &'a Json)
        requires
            old(self).wf(),
            old(self).value_due(),
        ensures
            final(self).wf(),
            final(self).members() == old(self).members(),
            final(self).position() == old(self).position() + 1,
            final(self).position() <= final(self).members().len(),
            !final(self).value_due(),
            value@ == old(self).members()[old(self).position() as int].value,
    {
        let length = self.members.len();
        let value = &self.members[self.position].value;
        assert(self.position < length);
        self.position = self.position + 1;
        self.value_due = false;
        value
    }
}

} // verus!
