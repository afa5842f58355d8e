//! The notes of one user: numbering them, finding one, and reading them by
//! the page.

use crate::note::PostedNote;
use vstd::prelude::*;

verus! {

/// Why a request about notes was refused.
#[derive(Clone, Copy, Debug, PartialEq, Eq, Structural)]
pub enum NoteError {
    /// The deposit does not cover the storage that the note takes up.
    NotEnoughDeposit,
    /// The number asked for is beyond every number handed out so far.
    NoteDoesNotExist,
    /// The user has no notes, or none with the number asked for.
    NoEntry,
}

impl NoteError {
    /// The text that goes with each reason.
    pub open spec fn text(self) -> Seq<char> {
        match self {
            NoteError::NotEnoughDeposit => "not enough attached deposit"@,
            NoteError::NoteDoesNotExist => "Note does not exist"@,
            NoteError::NoEntry => "no entry"@,
        }
    }

    /// A message for the reason, fit to be shown to the caller.
    pub fn message(&self) -> (msg: &'static str)
        ensures
            msg@ == self.text(),
    {
        match self {
            NoteError::NotEnoughDeposit => "not enough attached deposit",
            NoteError::NoteDoesNotExist => "Note does not exist",
            NoteError::NoEntry => "no entry",
        }
    }
}

/// The number that the next note gets, where `next_entry_id` is what the
/// contract keeps: zero as long as it keeps nothing.
pub open spec fn next_number(next_entry_id: Option<u64>) -> u64 {
    match next_entry_id {
        Some(number) => number,
        None => 0,
    }
}

/// The number that the next note gets.
pub fn next_note_number(next_entry_id: Option<u64>) -> (number: u64)
    ensures
        number == next_number(next_entry_id),
{
    match next_entry_id {
        Some(number) => number,
        None => 0,
    }
}

/// The note that a user posts with `title` and `body`: it gets the next
/// number.
pub fn draft_note(title: String, body: String, next_entry_id: Option<u64>) -> (note: PostedNote)
    ensures
        note.id == Some(next_number(next_entry_id)),
        note.title == title,
        note.body == body,
{
    PostedNote::new(title, body, Some(next_note_number(next_entry_id)))
}

/// What the contract keeps once the note numbered `number` is posted: the
/// number after it.
pub fn entry_after(number: u64) -> (next_entry_id: Option<u64>)
    requires
        number < u64::MAX,
    ensures
        next_entry_id == Some((number + 1) as u64),
{
    Some(number + 1)
}

/// Whether the note at `at` is the first among `notes` with the number `id`.
pub open spec fn first_numbered(notes: Seq<PostedNote>, id: u64, at: int) -> bool {
    &&& 0 <= at < notes.len()
    &&& notes[at].id == Some(id)
    &&& forall|k: int| 0 <= k < at ==> notes[k].id != Some(id)
}

/// The note numbered `id` among the notes of a user, where `notes` is `None`
/// for a user who has none.
///
/// A number beyond the next one to be handed out is refused with
/// [`NoteError::NoteDoesNotExist`], before the notes are looked at.  A user
/// without notes, or without a note of that number, gets
/// [`NoteError::NoEntry`].
pub fn get_note<'a>(notes: Option<&'a Vec<PostedNote>>, id: u64, next_entry_id: Option<u64>) -> (outcome:
    Result<&'a PostedNote, NoteError>)
    ensures
        match outcome {
            Ok(note) => {
                &&& id <= next_number(next_entry_id)
                &&& notes.is_some()
                &&& exists|at: int| first_numbered(notes.unwrap()@, id, at) && *note
                    == notes.unwrap()@[at]
            },
            Err(NoteError::NoteDoesNotExist) => id > next_number(next_entry_id),
            Err(NoteError::NoEntry) => {
                &&& id <= next_number(next_entry_id)
                &&& notes.is_some() ==> forall|k: int|
                    0 <= k < notes.unwrap()@.len() ==> notes.unwrap()@[k].id != Some(id)
            },
            Err(NoteError::NotEnoughDeposit) => false,
        },
{
    if id > next_note_number(next_entry_id) {
        return Err(NoteError::NoteDoesNotExist);
    }
    let list = match notes {
        Some(list) => list,
        None => {
            return Err(NoteError::NoEntry);
        },
    };
    let mut i: usize = 0;
    while i < list.len()
        invariant
            i <= list.len(),
            notes == Some(list),
            id <= next_number(next_entry_id),
            forall|k: int| 0 <= k < i ==> list[k].id != Some(id),
        decreases list.len() - i,
    {
        let numbered = match list[i].id {
            Some(number) => number == id,
            None => false,
        };
        if numbered {
            assert(first_numbered(list@, id, i as int));
            return Ok(&list[i]);
        }
        i += 1;
    }
    Err(NoteError::NoEntry)
}

/// Where a page begins: at `from_index`, or at the first note where none is
/// given, and not beyond the `count` notes that there are.
pub open spec fn page_start(count: nat, from_index: Option<u32>) -> nat {
    let from: nat = match from_index {
        Some(from) => from as nat,
        None => 0,
    };
    if from < count {
        from
    } else {
        count
    }
}

/// Where a page ends: `limit` notes after its start, or at the last note
/// where no limit is given, and not beyond the `count` notes that there are.
pub open spec fn page_end(count: nat, from_index: Option<u32>, limit: Option<u32>) -> nat {
    let start = page_start(count, from_index);
    let most: nat = match limit {
        Some(most) => most as nat,
        None => u32::MAX as nat,
    };
    if start + most < count {
        start + most
    } else {
        count
    }
}

/// One page of the notes of a user, in their order, where `notes` is `None`
/// for a user who has none: at most `limit` notes, the first `from_index`
/// notes left out.  A user without notes gets [`NoteError::NoEntry`].
pub fn get_notes<'a>(
    notes: Option<&'a Vec<PostedNote>>,
    from_index: Option<u32>,
    limit: Option<u32>,
) -> (outcome: Result<Vec<&'a PostedNote>, NoteError>)
    ensures
        match outcome {
            Ok(page) => {
                &&& notes.is_some()
                &&& page.len() == page_end(notes.unwrap()@.len(), from_index, limit) - page_start(
                    notes.unwrap()@.len(),
                    from_index,
                )
                &&& forall|k: int|
                    0 <= k < page.len() ==> *page[k] == notes.unwrap()@[page_start(
                        notes.unwrap()@.len(),
                        from_index,
                    ) + k]
            },
            Err(reason) => reason == NoteError::NoEntry && notes.is_none(),
        },
{
    let list = match notes {
        Some(list) => list,
        None => {
            return Err(NoteError::NoEntry);
        },
    };
    let count = list.len();
    let from: usize = match from_index {
        Some(from) => from as usize,
        None => 0,
    };
    let most: usize = match limit {
        Some(most) => most as usize,
        None => u32::MAX as usize,
    };
    let start = if from < count {
        from
    } else {
        count
    };
    let end = if most < count - start {
        start + most
    } else {
        count
    };
    let mut page: Vec<&PostedNote> = Vec::new();
    let mut i: usize = start;
    while i < end
        invariant
            start <= i <= end <= list.len(),
            page.len() == i - start,
            forall|k: int| 0 <= k < page.len() ==> *page[k] == list[start + k],
        decreases end - i,
    {
        page.push(&list[i]);
        i += 1;
    }
    Ok(page)
}

} // verus!
