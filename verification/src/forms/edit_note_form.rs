use super::{edited_note, Fields, FinalizeForm, InputForm};
use crate::note::{Note, NoteView};
use crate::parsing::{join, joined, tag_list};
use crate::text::{insert_at, remove_before};
use vstd::prelude::*;
use vstd::string::*;

verus! {

/// The form for a stored note's label and tags.
pub struct EditNoteForm {
    pub label: String,
    pub tags: String,
    pub note: Note,
}

impl EditNoteForm {
    /// The form as it opens on `note`: its label, and its tags separated by
    /// a comma and a space.
    pub fn from_note(note: &Note) -> (form: Self)
        ensures
            form.label@ == note@.label,
            form.tags@ == joined(note@.tags, seq![',', ' ']),
            form.note@ == note@,
    {
        proof {
            reveal_strlit(", ");
            assert(", "@ =~= seq![',', ' ']);
        }
        Self { label: note.label.clone(), tags: join(&note.tags, ", "), note: note.clone() }
    }

    /// The note as it was when the form opened.
    pub fn note(&self) -> (note: &Note)
        ensures
            note == &self.note,
    {
        &self.note
    }
}

impl FinalizeForm for EditNoteForm {
    type FormOutput = Note;

    /// A note needs a label.
    open spec fn is_valid(&self) -> bool {
        self.label@.len() > 0
    }

    fn valid(&self) -> (r: bool) {
        !self.label.as_str().is_empty()
    }

    /// The note with the form's label and the tags that its tags field
    /// names; the rest is as it was when the form opened.
    fn finalize(&self) -> (note: Note)
        ensures
            note@ == (NoteView { label: self.label@, tags: tag_list(self.tags@), ..self.note@ }),
    {
        edited_note(&self.note, self.label.as_str(), self.tags.as_str())
    }
}

impl Fields for EditNoteForm {
    open spec fn field_total(&self) -> nat {
        2
    }

    fn field_count(&self) -> (count: usize) {
        2
    }
}

impl InputForm for EditNoteForm {
    open spec fn fields(&self) -> Seq<Seq<char>> {
        seq![self.label@, self.tags@]
    }

    fn field_content(&self, field_index: usize) -> (content: &str) {
        if field_index == 0 {
            self.label.as_str()
        } else {
            self.tags.as_str()
        }
    }

    fn insert_in_field(&mut self, field_index: usize, byte_index: usize, c: char)
        ensures
            final(self).note == old(self).note,
    {
        if field_index == 0 {
            insert_at(&mut self.label, byte_index, c);
        } else {
            insert_at(&mut self.tags, byte_index, c);
        }
        assert(self.fields() =~= old(self).fields().update(
            field_index as int,
            self.fields()[field_index as int],
        ));
    }

    fn remove_in_field(&mut self, field_index: usize, byte_index: usize)
        ensures
            final(self).note == old(self).note,
    {
        if field_index == 0 {
            remove_before(&mut self.label, byte_index);
        } else {
            remove_before(&mut self.tags, byte_index);
        }
        assert(self.fields() =~= old(self).fields().update(
            field_index as int,
            self.fields()[field_index as int],
        ));
    }

    fn replace_field_content(&mut self, field_index: usize, content: &str)
        ensures
            final(self).note == old(self).note,
    {
        if field_index == 0 {
            self.label = content.to_owned();
        } else {
            self.tags = content.to_owned();
        }
        assert(self.fields() =~= old(self).fields().update(field_index as int, content@));
    }
}

} // verus!
