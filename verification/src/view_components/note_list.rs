use super::list_state::list_selected;
use super::InteractiveList;
use crate::note_store::NoteStore;
use ratatui::widgets::ListState;
use vstd::prelude::*;

verus! {

/// The list of the notes that the user sees. It holds the highlight, as a
/// view index; the list widget moves a highlight that is past the last note
/// back onto it when it draws.
pub struct NoteList {
    pub state: ListState,
}

impl InteractiveList for NoteList {
    open spec fn highlighted(&self) -> Option<usize> {
        list_selected(self.state)
    }

    fn reset_selection(&mut self) {
        self.state.select_first();
    }

    fn next_selection(&mut self) {
        self.state.select_next();
    }

    fn prev_selection(&mut self) {
        self.state.select_previous();
    }

    fn selected_selection(&self) -> (selected: Option<usize>) {
        self.state.selected()
    }
}

impl Default for NoteList {
    fn default() -> (list: Self)
        ensures
            list.highlighted() is None,
    {
        Self { state: ListState::default() }
    }
}

/// What the note list is drawn from.
pub struct NoteData<'a> {
    pub note_store: &'a NoteStore,
}

impl<'a> NoteData<'a> {
    pub fn new(note_store: &'a NoteStore) -> (data: Self)
        ensures
            data.note_store == note_store,
    {
        Self { note_store }
    }
}

} // verus!
