//! The parts of the screen that hold state: the note list and the popup.

pub mod captions;
pub mod list_state;
pub mod note_list;
pub mod popups;
pub mod text_area;

pub use note_list::{NoteData, NoteList};
pub use popups::{InputCursor, Popup, PopupData, PopupType, SelectionPopupFields};
pub use text_area::TextArea;

use vstd::prelude::*;

verus! {

/// Everything on the screen that holds state.
pub struct ViewComponents {
    pub note_list: NoteList,
    pub text_area: TextArea,
    pub popup: Option<Popup>,
}

impl Default for ViewComponents {
    fn default() -> (views: Self)
        ensures
            views.note_list.highlighted() is None,
            views.popup is None,
    {
        Self { note_list: NoteList::default(), text_area: TextArea::default(), popup: None }
    }
}

/// What a part of the screen is handed when it is drawn.
pub struct RenderContext<'a, T>(pub &'a T);

/// A list with one highlighted row that the keyboard moves.
pub trait InteractiveList {
    /// The highlighted row, if any.
    spec fn highlighted(&self) -> Option<usize>;

    /// Moves the highlight one row down.
    fn next_selection(&mut self)
        ensures
            final(self).highlighted() == Some(list_state::step_down(old(self).highlighted())),
    ;

    /// Moves the highlight one row up.
    fn prev_selection(&mut self)
        ensures
            final(self).highlighted() == Some(list_state::step_up(old(self).highlighted())),
    ;

    /// The highlighted row, if any.
    fn selected_selection(&self) -> (selected: Option<usize>)
        ensures
            selected == self.highlighted(),
    ;

    /// Puts the highlight on the first row.
    fn reset_selection(&mut self)
        ensures
            final(self).highlighted() == Some(0usize),
    ;
}

} // verus!
