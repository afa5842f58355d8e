//! A note that a user posted.

use vstd::prelude::*;

verus! {

/// A note with a title and a body.
#[derive(Debug)]
pub struct PostedNote {
    /// The number of the note, once it has one.
    pub id: Option<u64>,
    /// The title of the note.
    pub title: String,
    /// The text of the note.
    pub body: String,
}

impl PostedNote {
    /// A note with the given title, body and number.
    pub fn new(title: String, body: String, id: Option<u64>) -> (note: Self)
        ensures
            note.id == id,
            note.title == title,
            note.body == body,
    {
        PostedNote { title, body, id }
    }

    /// Whether two notes read the same: the same number, title and body.
    pub open spec fn same(&self, other: &PostedNote) -> bool {
        &&& self.id == other.id
        &&& self.title@ == other.title@
        &&& self.body@ == other.body@
    }
}

impl Clone for PostedNote {
    fn clone(&self) -> (copy: Self)
        ensures
            copy.same(self),
    {
        PostedNote { id: self.id, title: self.title.clone(), body: self.body.clone() }
    }
}

impl PartialEq for PostedNote {
    fn eq(&self, other: &PostedNote) -> (same: bool) {
        let same_id = match (self.id, other.id) {
            (Some(mine), Some(theirs)) => mine == theirs,
            (None, None) => true,
            _ => false,
        };
        same_id && self.title == other.title && self.body == other.body
    }
}

impl Eq for PostedNote {}

impl vstd::std_specs::cmp::PartialEqSpecImpl for PostedNote {
    open spec fn obeys_eq_spec() -> bool {
        true
    }

    open spec fn eq_spec(&self, other: &PostedNote) -> bool {
        self.same(other)
    }
}

} // verus!
