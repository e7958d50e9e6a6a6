use super::{Fields, FinalizeForm, InputForm};
use crate::text::{insert_at, remove_before};
use vstd::prelude::*;
use vstd::string::*;

verus! {

/// The search form: a query on the notes' label and text, and a query on
/// their tags.
pub struct NoteSearchForm {
    pub note_search: String,
    pub tag_search: String,
}

impl Default for NoteSearchForm {
    fn default() -> (form: Self)
        ensures
            form.note_search@ == Seq::<char>::empty(),
            form.tag_search@ == Seq::<char>::empty(),
    {
        Self { note_search: String::new(), tag_search: String::new() }
    }
}

impl FinalizeForm for NoteSearchForm {
    type FormOutput = (String, String);

    /// A search needs at least one of its two queries.
    open spec fn is_valid(&self) -> bool {
        self.note_search@.len() > 0 || self.tag_search@.len() > 0
    }

    /// The two queries: on label and text, and on tags.
    fn finalize(&self) -> (queries: (String, String))
        ensures
            queries.0@ == self.note_search@,
            queries.1@ == self.tag_search@,
    {
        (self.note_search.clone(), self.tag_search.clone())
    }

    fn valid(&self) -> (r: bool) {
        !self.note_search.as_str().is_empty() || !self.tag_search.as_str().is_empty()
    }
}

impl Fields for NoteSearchForm {
    open spec fn field_total(&self) -> nat {
        2
    }

    fn field_count(&self) -> (count: usize) {
        2
    }
}

impl InputForm for NoteSearchForm {
    open spec fn fields(&self) -> Seq<Seq<char>> {
        seq![self.note_search@, self.tag_search@]
    }

    fn field_content(&self, field_index: usize) -> (content: &str) {
        if field_index == 0 {
            self.note_search.as_str()
        } else {
            self.tag_search.as_str()
        }
    }

    fn insert_in_field(&mut self, field_index: usize, byte_index: usize, c: char) {
        if field_index == 0 {
            insert_at(&mut self.note_search, byte_index, c);
        } else {
            insert_at(&mut self.tag_search, byte_index, c);
        }
        assert(self.fields() =~= old(self).fields().update(
            field_index as int,
            self.fields()[field_index as int],
        ));
    }

    fn remove_in_field(&mut self, field_index: usize, byte_index: usize) {
        if field_index == 0 {
            remove_before(&mut self.note_search, byte_index);
        } else {
            remove_before(&mut self.tag_search, byte_index);
        }
        assert(self.fields() =~= old(self).fields().update(
            field_index as int,
            self.fields()[field_index as int],
        ));
    }

    fn replace_field_content(&mut self, field_index: usize, content: &str) {
        if field_index == 0 {
            self.note_search = content.to_owned();
        } else {
            self.tag_search = content.to_owned();
        }
        assert(self.fields() =~= old(self).fields().update(field_index as int, content@));
    }
}

} // verus!
