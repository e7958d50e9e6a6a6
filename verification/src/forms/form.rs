use super::unsaved_note;
use crate::note::{Timestamp, UnsavedNote};
use crate::parsing::tag_list;
use crate::text::{insert_at, inserted, remove_before, removed_before, texts};
use vstd::prelude::*;
use vstd::string::*;
use vstd::utf8::*;

verus! {

/// An ordered set of text fields, each edited on its own.
pub struct Form {
    fields: Vec<String>,
}

impl View for Form {
    type V = Seq<Seq<char>>;

    /// The text of each field, in field order.
    closed spec fn view(&self) -> Seq<Seq<char>> {
        texts(self.fields@)
    }
}

impl Form {
    /// A form of `field_count` empty fields.
    pub fn new(field_count: usize) -> (form: Self)
        ensures
            form@ == Seq::new(field_count as nat, |i: int| Seq::<char>::empty()),
    {
        let mut fields: Vec<String> = Vec::new();
        let mut i: usize = 0;
        while i < field_count
            invariant
                i <= field_count,
                fields@.len() == i,
                forall|j: int| 0 <= j < i ==> (#[trigger] fields@[j])@ == Seq::<char>::empty(),
            decreases field_count - i,
        {
            fields.push(String::new());
            i += 1;
        }
        let form = Form { fields };
        assert(form@ =~= Seq::new(field_count as nat, |i: int| Seq::<char>::empty()));
        form
    }

    /// A form that holds the given texts, one field each.
    pub fn with_fields(fields: Vec<String>) -> (form: Self)
        ensures
            form@ == texts(fields@),
    {
        Self { fields }
    }

    /// The text of the field at `field_index`.
    pub fn field_content(&self, field_index: usize) -> (content: &str)
        requires
            field_index < self@.len(),
        ensures
            content@ == self@[field_index as int],
    {
        self.fields[field_index].as_str()
    }

    /// Puts `c` into the field at `field_index`, in front of the scalar
    /// that starts at byte `byte_index`.
    pub fn insert_in_field(&mut self, field_index: usize, byte_index: usize, c: char)
        requires
            field_index < old(self)@.len(),
            is_char_boundary(encode_utf8(old(self)@[field_index as int]), byte_index as int),
        ensures
            final(self)@ == old(self)@.update(
                field_index as int,
                inserted(old(self)@[field_index as int], byte_index as int, c),
            ),
    {
        insert_at(&mut self.fields[field_index], byte_index, c);
        assert(self@ =~= old(self)@.update(
            field_index as int,
            inserted(old(self)@[field_index as int], byte_index as int, c),
        ));
    }

    /// Takes out of the field at `field_index` the scalar that holds the
    /// byte in front of `byte_index`. At byte 0 nothing is in front, and
    /// the field stays as it is.
    pub fn remove_in_field(&mut self, field_index: usize, byte_index: usize)
        requires
            field_index < old(self)@.len(),
            byte_index <= encode_utf8(old(self)@[field_index as int]).len(),
        ensures
            final(self)@ == old(self)@.update(
                field_index as int,
                removed_before(old(self)@[field_index as int], byte_index as int),
            ),
    {
        remove_before(&mut self.fields[field_index], byte_index);
        assert(self@ =~= old(self)@.update(
            field_index as int,
            removed_before(old(self)@[field_index as int], byte_index as int),
        ));
    }

    /// Puts `content` in place of the text of the field at `field_index`.
    pub fn replace_field_content(&mut self, field_index: usize, content: &str)
        requires
            field_index < old(self)@.len(),
        ensures
            final(self)@ == old(self)@.update(field_index as int, content@),
    {
        self.fields[field_index] = content.to_owned();
        assert(self@ =~= old(self)@.update(field_index as int, content@));
    }

    /// Number of fields.
    pub fn field_count(&self) -> (count: usize)
        ensures
            count == self@.len(),
    {
        self.fields.len()
    }

    /// The note that a form of a label and a tags field describes, as
    /// created at `created_at`: the first field is its label, the second
    /// names its tags, and its text is empty.
    pub fn to_unsaved_note_at(&self, created_at: Timestamp) -> (note: UnsavedNote)
        requires
            self@.len() >= 2,
        ensures
            note@.label == self@[0],
            note@.text == Seq::<char>::empty(),
            note@.tags == tag_list(self@[1]),
            note@.related_notes == Seq::<usize>::empty(),
            note@.created_at == created_at,
    {
        unsaved_note(self.fields[0].as_str(), self.fields[1].as_str(), created_at)
    }

    /// The note that a form of a label and a tags field describes, as
    /// created now. The time of creation is the system clock's.
    pub fn to_unsaved_note(&self) -> (note: UnsavedNote)
        requires
            self@.len() >= 2,
        ensures
            note@.label == self@[0],
            note@.text == Seq::<char>::empty(),
            note@.tags == tag_list(self@[1]),
            note@.related_notes == Seq::<usize>::empty(),
    {
        self.to_unsaved_note_at(Timestamp::now())
    }

    /// Whether every field is empty.
    pub fn is_empty(&self) -> (empty: bool)
        ensures
            empty <==> forall|i: int| 0 <= i < self@.len() ==> (#[trigger] self@[i]).len() == 0,
    {
        let mut i: usize = 0;
        while i < self.fields.len()
            invariant
                i <= self.fields@.len(),
                forall|j: int| 0 <= j < i ==> (#[trigger] self@[j]).len() == 0,
            decreases self.fields@.len() - i,
        {
            if !self.fields[i].as_str().is_empty() {
                assert(self@[i as int].len() != 0);
                return false;
            }
            i += 1;
        }
        true
    }
}

} // verus!
