//! Forms: text fields that are edited in place and turned into a value on
//! submission.

pub mod edit_note_form;
pub mod form;
pub mod new_note_form;
pub mod note_search_form;

pub use edit_note_form::EditNoteForm;
pub use form::Form;
pub use new_note_form::NewNoteForm;
pub use note_search_form::NoteSearchForm;

use crate::note::{Note, NoteView, Timestamp, UnsavedNote};
use crate::parsing::{parse_tags, tag_list};
use crate::text::{inserted, removed_before};
use vstd::prelude::*;
use vstd::string::*;
use vstd::utf8::*;

verus! {

/// A form that can be turned into a value once its required fields are
/// filled in.
pub trait FinalizeForm {
    type FormOutput;

    /// Whether the required fields are filled in.
    spec fn is_valid(&self) -> bool;

    /// The value that the form describes.
    fn finalize(&self) -> Self::FormOutput;

    /// Whether the required fields are filled in.
    fn valid(&self) -> (r: bool)
        ensures
            r == self.is_valid(),
    ;
}

/// A form whose fields are edited by index.
pub trait InputForm {
    /// The text of each field, in field order.
    spec fn fields(&self) -> Seq<Seq<char>>;

    /// The text of the field at `field_index`.
    fn field_content(&self, field_index: usize) -> (content: &str)
        requires
            field_index < self.fields().len(),
        ensures
            content@ == self.fields()[field_index as int],
    ;

    /// Puts `c` into the field at `field_index`, in front of the scalar
    /// that starts at byte `byte_index`.
    fn insert_in_field(&mut self, field_index: usize, byte_index: usize, c: char)
        requires
            field_index < old(self).fields().len(),
            is_char_boundary(
                encode_utf8(old(self).fields()[field_index as int]),
                byte_index as int,
            ),
        ensures
            final(self).fields() == old(self).fields().update(
                field_index as int,
                inserted(old(self).fields()[field_index as int], byte_index as int, c),
            ),
    ;

    /// Takes out of the field at `field_index` the scalar that holds the
    /// byte in front of `byte_index`; nothing at byte 0.
    fn remove_in_field(&mut self, field_index: usize, byte_index: usize)
        requires
            field_index < old(self).fields().len(),
            byte_index <= encode_utf8(old(self).fields()[field_index as int]).len(),
        ensures
            final(self).fields() == old(self).fields().update(
                field_index as int,
                removed_before(old(self).fields()[field_index as int], byte_index as int),
            ),
    ;

    /// Puts `content` in place of the text of the field at `field_index`.
    fn replace_field_content(&mut self, field_index: usize, content: &str)
        requires
            field_index < old(self).fields().len(),
        ensures
            final(self).fields() == old(self).fields().update(field_index as int, content@),
    ;
}

/// A form that knows how many fields it has.
pub trait Fields {
    /// Number of fields.
    spec fn field_total(&self) -> nat;

    /// Number of fields.
    fn field_count(&self) -> (count: usize)
        ensures
            count == self.field_total(),
    ;
}

/// The form that is open in a popup.
pub enum FormType {
    NoteForm(NewNoteForm),
    SearchForm(NoteSearchForm),
    EditForm(EditNoteForm),
}

/// The note with label `label`, the tags that `tags` names, no text and no
/// related notes, created at `created_at`.
pub fn unsaved_note(label: &str, tags: &str, created_at: Timestamp) -> (note: UnsavedNote)
    ensures
        note@.label == label@,
        note@.text == Seq::<char>::empty(),
        note@.tags == tag_list(tags@),
        note@.related_notes == Seq::<usize>::empty(),
        note@.created_at == created_at,
{
    UnsavedNote::new(label.to_owned(), String::new(), parse_tags(tags), Vec::new(), created_at)
}

/// `stored` with the label `label` and the tags that `tags` names; its
/// id, text, time of creation and related notes stay.
pub fn edited_note(stored: &Note, label: &str, tags: &str) -> (note: Note)
    ensures
        note@ == (NoteView { label: label@, tags: tag_list(tags@), ..stored@ }),
{
    let mut note = stored.clone();
    note.label = label.to_owned();
    note.tags = parse_tags(tags);
    note
}

} // verus!
