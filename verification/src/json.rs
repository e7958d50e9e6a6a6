//! The document that the JSON backend keeps on disk, and what the backend
//! does to it. Reading and writing the file is the backend's own work; the
//! changes to the document are made here.

use crate::note::{note_views, Note, UnsavedNote};
use vstd::prelude::*;
use vstd::string::*;

verus! {

/// The version of the document's layout that this library reads and
/// writes.
pub const BACKEND_VERSION: usize = 1;

/// The stored document: the version of its layout, and the notes in stored
/// order.
#[derive(Debug, PartialEq, Eq)]
pub struct NoteBlob {
    pub version: usize,
    pub notes: Vec<Note>,
}

/// Why a change to the document was refused.
#[derive(Clone, Copy, Debug, PartialEq, Eq, Structural)]
pub enum BlobError {
    /// The greatest id in use is the greatest that a note can have.
    IdsExhausted,
    /// No stored note has this id.
    NotFound(usize),
}

/// The greatest id among `notes`; 0 where there are none.
pub open spec fn max_id(notes: Seq<Note>) -> nat
    decreases notes.len(),
{
    if notes.len() == 0 {
        0
    } else if notes.last().id > max_id(notes.drop_last()) {
        notes.last().id as nat
    } else {
        max_id(notes.drop_last())
    }
}

/// `notes` without those that have the id `id`.
pub open spec fn without_id(notes: Seq<Note>, id: usize) -> Seq<Note>
    decreases notes.len(),
{
    if notes.len() == 0 {
        Seq::empty()
    } else if notes.last().id == id {
        without_id(notes.drop_last(), id)
    } else {
        without_id(notes.drop_last(), id).push(notes.last())
    }
}

/// The index of the first of `notes` that has the id `id`; the number of
/// notes where none has it.
pub open spec fn first_with_id(notes: Seq<Note>, id: usize) -> int
    decreases notes.len(),
{
    if notes.len() == 0 {
        0
    } else if notes[0].id == id {
        0
    } else {
        1 + first_with_id(notes.drop_first(), id)
    }
}

/// No note has an id above the greatest.
pub proof fn lemma_max_id(notes: Seq<Note>)
    ensures
        forall|i: int| 0 <= i < notes.len() ==> (#[trigger] notes[i]).id <= max_id(notes),
    decreases notes.len(),
{
    if notes.len() > 0 {
        lemma_max_id(notes.drop_last());
        assert forall|i: int| 0 <= i < notes.len() implies (#[trigger] notes[i]).id <= max_id(
            notes,
        ) by {
            if i < notes.len() - 1 {
                assert(notes.drop_last()[i] == notes[i]);
            }
        }
    }
}

/// Where no note has the id `id`, taking out the notes with that id
/// changes nothing.
pub proof fn lemma_without_absent_id(notes: Seq<Note>, id: usize)
    requires
        forall|i: int| 0 <= i < notes.len() ==> (#[trigger] notes[i]).id != id,
    ensures
        without_id(notes, id) == notes,
    decreases notes.len(),
{
    if notes.len() > 0 {
        assert forall|i: int| 0 <= i < notes.drop_last().len() implies (
        #[trigger] notes.drop_last()[i]).id != id by {
            assert(notes.drop_last()[i] == notes[i]);
        }
        lemma_without_absent_id(notes.drop_last(), id);
        assert(notes.drop_last().push(notes.last()) =~= notes);
    }
}

/// A note that was added under a fresh id and is then deleted by that id
/// leaves the notes as they were before.
pub proof fn lemma_add_then_delete(notes: Seq<Note>, added: Note)
    requires
        added.id == max_id(notes) + 1,
    ensures
        without_id(notes.push(added), added.id) == notes,
{
    lemma_max_id(notes);
    lemma_without_absent_id(notes, added.id);
    assert(notes.push(added).drop_last() =~= notes);
}

/// The first note with the id lies where `first_with_id` says, and no note
/// in front of it has the id.
pub proof fn lemma_first_with_id(notes: Seq<Note>, id: usize)
    ensures
        0 <= first_with_id(notes, id) <= notes.len(),
        first_with_id(notes, id) < notes.len() ==> notes[first_with_id(notes, id)].id == id,
        forall|i: int| 0 <= i < first_with_id(notes, id) ==> (#[trigger] notes[i]).id != id,
    decreases notes.len(),
{
    if notes.len() > 0 && notes[0].id != id {
        let rest = notes.drop_first();
        lemma_first_with_id(rest, id);
        assert forall|i: int| 0 <= i < first_with_id(notes, id) implies (#[trigger] notes[i]).id
            != id by {
            if i > 0 {
                assert(rest[i - 1] == notes[i]);
            }
        }
    }
}

/// The id for the next note: one more than the greatest id in use, 1 where
/// there are no notes. `None` where the greatest id is the greatest that a
/// note can have.
pub fn get_new_id(notes: &Vec<Note>) -> (id: Option<usize>)
    ensures
        match id {
            Some(id) => id == max_id(notes@) + 1,
            None => max_id(notes@) == usize::MAX,
        },
{
    let mut greatest: usize = 0;
    let mut i: usize = 0;
    assert(notes@.take(0) =~= Seq::<Note>::empty());
    while i < notes.len()
        invariant
            i <= notes@.len(),
            greatest == max_id(notes@.take(i as int)),
        decreases notes@.len() - i,
    {
        proof {
            assert(notes@.take(i + 1).drop_last() =~= notes@.take(i as int));
            assert(notes@.take(i + 1).last() == notes@[i as int]);
        }
        if notes[i].id > greatest {
            greatest = notes[i].id;
        }
        i += 1;
    }
    assert(notes@.take(i as int) =~= notes@);
    if greatest == usize::MAX {
        None
    } else {
        Some(greatest + 1)
    }
}

impl NoteBlob {
    /// Whether the document has the layout that this library reads.
    pub fn version_matches(&self) -> (r: bool)
        ensures
            r == (self.version == BACKEND_VERSION),
    {
        self.version == BACKEND_VERSION
    }

    /// The notes of the document, in stored order. A document of another
    /// layout is not read.
    pub fn retrieve_notes(&self) -> (notes: Vec<Note>)
        requires
            self.version == BACKEND_VERSION,
        ensures
            note_views(notes@) == note_views(self.notes@),
    {
        let mut notes: Vec<Note> = Vec::new();
        let mut i: usize = 0;
        while i < self.notes.len()
            invariant
                i <= self.notes@.len(),
                notes@.len() == i,
                forall|j: int| 0 <= j < i ==> (#[trigger] notes@[j])@ == self.notes@[j]@,
            decreases self.notes@.len() - i,
        {
            notes.push(self.notes[i].clone());
            i += 1;
        }
        assert(note_views(notes@) =~= note_views(self.notes@));
        notes
    }

    /// Stores `note` behind the others, under an id that no stored note
    /// has: one more than the greatest in use, 1 in an empty document. Where
    /// no such id is left nothing is stored.
    pub fn add_note(&mut self, note: UnsavedNote) -> (done: Result<usize, BlobError>)
        ensures
            final(self).version == old(self).version,
            match done {
                Ok(id) => {
                    &&& id == max_id(old(self).notes@) + 1
                    &&& forall|i: int|
                        0 <= i < old(self).notes@.len() ==> (#[trigger] old(self).notes@[i]).id
                            != id
                    &&& final(self).notes@.len() == old(self).notes@.len() + 1
                    &&& final(self).notes@.drop_last() == old(self).notes@
                    &&& final(self).notes@.last()@ == note@.with_id(id)
                },
                Err(e) => {
                    &&& e == BlobError::IdsExhausted
                    &&& max_id(old(self).notes@) == usize::MAX
                    &&& final(self).notes == old(self).notes
                },
            },
    {
        match get_new_id(&self.notes) {
            Some(id) => {
                proof {
                    lemma_max_id(self.notes@);
                }
                self.notes.push(note.into_note(id));
                assert(self.notes@.drop_last() =~= old(self).notes@);
                Ok(id)
            },
            None => Err(BlobError::IdsExhausted),
        }
    }

    /// Deletes every note that has the id `target_id`. Where none has it
    /// nothing changes.
    pub fn delete_note(&mut self, target_id: usize)
        ensures
            final(self).version == old(self).version,
            final(self).notes@ == without_id(old(self).notes@, target_id),
    {
        let ghost all = self.notes@;
        let ghost mut seen: int = 0;
        let mut i: usize = 0;
        assert(all.take(0) =~= Seq::<Note>::empty());
        assert(all.skip(0) =~= all);
        while i < self.notes.len()
            invariant
                0 <= seen <= all.len(),
                self.version == old(self).version,
                all == old(self).notes@,
                i == without_id(all.take(seen), target_id).len(),
                self.notes@ == without_id(all.take(seen), target_id) + all.skip(seen),
            decreases all.len() - seen,
        {
            proof {
                assert(all.take(seen + 1).drop_last() =~= all.take(seen));
                assert(all.take(seen + 1).last() == all[seen]);
                assert(self.notes@[i as int] == all.skip(seen)[0]);
            }
            if self.notes[i].id == target_id {
                self.notes.remove(i);
                assert(self.notes@ =~= without_id(all.take(seen + 1), target_id) + all.skip(
                    seen + 1,
                ));
            } else {
                i += 1;
                assert(self.notes@ =~= without_id(all.take(seen + 1), target_id) + all.skip(
                    seen + 1,
                ));
            }
            proof {
                seen = seen + 1;
            }
        }
        proof {
            assert(seen == all.len()) by {
                if seen < all.len() {
                    assert(self.notes@.len() == i + all.skip(seen).len());
                }
            }
            assert(all.take(seen) =~= all);
            assert(self.notes@ =~= without_id(all, target_id));
        }
    }

    /// Puts a copy of `note` in place of the first stored note that has its
    /// id. Where none has it nothing changes, and the id is handed back as
    /// not found.
    pub fn update_note(&mut self, note: &Note) -> (done: Result<(), BlobError>)
        ensures
            final(self).version == old(self).version,
            match done {
                Ok(_) => {
                    &&& first_with_id(old(self).notes@, note.id) < old(self).notes@.len()
                    &&& note_views(final(self).notes@) == note_views(old(self).notes@).update(
                        first_with_id(old(self).notes@, note.id),
                        note@,
                    )
                },
                Err(e) => {
                    &&& e == BlobError::NotFound(note.id)
                    &&& first_with_id(old(self).notes@, note.id) == old(self).notes@.len()
                    &&& final(self).notes == old(self).notes
                },
            },
    {
        proof {
            lemma_first_with_id(self.notes@, note.id);
        }
        let mut i: usize = 0;
        while i < self.notes.len()
            invariant
                i <= self.notes@.len(),
                self.notes == old(self).notes,
                self.version == old(self).version,
                i <= first_with_id(self.notes@, note.id),
                forall|j: int| 0 <= j < i ==> (#[trigger] self.notes@[j]).id != note.id,
            decreases self.notes@.len() - i,
        {
            proof {
                lemma_first_with_id(self.notes@, note.id);
            }
            if self.notes[i].id == note.id {
                self.notes[i] = note.clone();
                assert(note_views(self.notes@) =~= note_views(old(self).notes@).update(
                    i as int,
                    note@,
                ));
                return Ok(());
            }
            i += 1;
        }
        Err(BlobError::NotFound(note.id))
    }
}

} // verus!
