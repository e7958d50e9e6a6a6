//! Popups: a form with a cursor in each field, and the pick-list that can
//! be laid over it.

pub mod form_popup;
pub mod selection;

pub use crate::text::byte_index;
pub use form_popup::{Edit, Pick, Popup, PopupData, PopupState, PopupView};
pub use selection::SelectionPopup;

use vstd::prelude::*;

verus! {

/// What a popup is for.
#[derive(Clone, Copy, Debug, PartialEq, Eq, Structural)]
pub enum PopupType {
    NewNote,
    SearchNote,
    EditNote,
}

/// The pick-list that a popup can lay over its focused field.
pub trait SelectionPopupFields {
    /// Opens a pick-list over a copy of `items`, with nothing selected.
    fn init_selector(&mut self, items: &Vec<String>);

    /// Drops the pick-list and what was selected in it.
    fn close_selector(&mut self);

    /// Moves the highlight of the pick-list one row down.
    fn next_selection(&mut self);

    /// Moves the highlight of the pick-list one row up.
    fn prev_selection(&mut self);

    /// Selects the highlighted item.
    fn make_selection(&mut self);

    /// Takes the highlighted item out of the selection.
    fn unmake_selection(&mut self);

    /// The selected items, in the order of the list.
    fn retrieve_selection(&self) -> Vec<String>;
}

/// The cursor of the focused field.
pub trait InputCursor {
    /// The popup's invariant.
    spec fn cursor_ok(&self) -> bool;

    /// Number of scalars in the focused field.
    spec fn text_len(&self) -> nat;

    /// One scalar to the left, stopping at the start.
    fn move_left(&mut self)
        requires
            old(self).cursor_ok(),
        ensures
            final(self).cursor_ok(),
    ;

    /// One scalar to the right, stopping at the end.
    fn move_right(&mut self)
        requires
            old(self).cursor_ok(),
        ensures
            final(self).cursor_ok(),
    ;

    /// To the start of the field.
    fn move_to_start(&mut self)
        requires
            old(self).cursor_ok(),
        ensures
            final(self).cursor_ok(),
    ;

    /// To the end of the field.
    fn move_to_end(&mut self)
        requires
            old(self).cursor_ok(),
        ensures
            final(self).cursor_ok(),
    ;

    /// The position nearest to `new_pos` that lies within the focused
    /// field.
    fn clamp_cursor(&self, new_pos: usize) -> (pos: usize)
        requires
            self.cursor_ok(),
        ensures
            pos == if new_pos <= self.text_len() {
                new_pos as nat
            } else {
                self.text_len()
            },
    ;
}

} // verus!
