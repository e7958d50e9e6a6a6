use super::{unsaved_note, Fields, FinalizeForm, InputForm};
use crate::note::{Timestamp, UnsavedNote};
use crate::parsing::tag_list;
use crate::text::{insert_at, remove_before};
use vstd::prelude::*;
use vstd::string::*;

verus! {

/// The form for a new note: its label and, separated by commas, its tags.
pub struct NewNoteForm {
    pub label: String,
    pub tags: String,
}

impl Default for NewNoteForm {
    fn default() -> (form: Self)
        ensures
            form.label@ == Seq::<char>::empty(),
            form.tags@ == Seq::<char>::empty(),
    {
        Self { label: String::new(), tags: String::new() }
    }
}

impl NewNoteForm {
    /// The note that the form describes, as created at `created_at`.
    pub fn finalize_at(&self, created_at: Timestamp) -> (note: UnsavedNote)
        ensures
            note@.label == self.label@,
            note@.text == Seq::<char>::empty(),
            note@.tags == tag_list(self.tags@),
            note@.related_notes == Seq::<usize>::empty(),
            note@.created_at == created_at,
    {
        unsaved_note(self.label.as_str(), self.tags.as_str(), created_at)
    }
}

impl FinalizeForm for NewNoteForm {
    type FormOutput = UnsavedNote;

    /// A new note needs a label.
    open spec fn is_valid(&self) -> bool {
        self.label@.len() > 0
    }

    /// The note that the form describes, as created now. The time of
    /// creation is the system clock's.
    fn finalize(&self) -> (note: UnsavedNote)
        ensures
            note@.label == self.label@,
            note@.text == Seq::<char>::empty(),
            note@.tags == tag_list(self.tags@),
            note@.related_notes == Seq::<usize>::empty(),
    {
        self.finalize_at(Timestamp::now())
    }

    fn valid(&self) -> (r: bool) {
        !self.label.as_str().is_empty()
    }
}

impl Fields for NewNoteForm {
    open spec fn field_total(&self) -> nat {
        2
    }

    fn field_count(&self) -> (count: usize) {
        2
    }
}

impl InputForm for NewNoteForm {
    open spec fn fields(&self) -> Seq<Seq<char>> {
        seq![self.label@, self.tags@]
    }

    fn field_content(&self, field_index: usize) -> (content: &str) {
        if field_index == 0 {
            self.label.as_str()
        } else {
            self.tags.as_str()
        }
    }

    fn insert_in_field(&mut self, field_index: usize, byte_index: usize, c: char) {
        if field_index == 0 {
            insert_at(&mut self.label, byte_index, c);
        } else {
            insert_at(&mut self.tags, byte_index, c);
        }
        assert(self.fields() =~= old(self).fields().update(
            field_index as int,
            self.fields()[field_index as int],
        ));
    }

    fn remove_in_field(&mut self, field_index: usize, byte_index: usize) {
        if field_index == 0 {
            remove_before(&mut self.label, byte_index);
        } else {
            remove_before(&mut self.tags, byte_index);
        }
        assert(self.fields() =~= old(self).fields().update(
            field_index as int,
            self.fields()[field_index as int],
        ));
    }

    fn replace_field_content(&mut self, field_index: usize, content: &str) {
        if field_index == 0 {
            self.label = content.to_owned();
        } else {
            self.tags = content.to_owned();
        }
        assert(self.fields() =~= old(self).fields().update(field_index as int, content@));
    }
}

} // verus!
