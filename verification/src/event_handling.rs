//! From key presses to messages: one key table for each input mode.

use crate::model::Message;
use crate::view_components::popups::PopupType;
use vstd::prelude::*;

verus! {

/// What the keyboard is driving.
#[derive(Clone, Copy, Debug, PartialEq, Eq, Structural)]
pub enum InputMode {
    NewNotePopup,
    SearchPopup,
    Navigating,
    SelectionPopup,
    EditNoteInfoPopup,
}

/// A key, as far as the key tables tell keys apart.
#[derive(Clone, Copy, Debug, PartialEq, Eq, Structural)]
pub enum Key {
    Char(char),
    Backspace,
    Tab,
    BackTab,
    Enter,
    Esc,
    /// A function key, by its number.
    F(u8),
    /// Any other key.
    Other,
}

/// No modifier key is held.
pub const NO_MODIFIERS: u8 = 0;

/// Shift alone is held.
pub const SHIFT: u8 = 1;

/// Control alone is held.
pub const CONTROL: u8 = 2;

/// A key press: the key, and the modifier keys held with it, one bit for
/// each (shift 1, control 2, the others above).
#[derive(Clone, Copy, Debug, PartialEq, Eq, Structural)]
pub struct KeyPress {
    pub code: Key,
    pub modifiers: u8,
}

/// The key table of the note list.
pub open spec fn navigation_message(key: KeyPress) -> Option<Message> {
    match key.code {
        Key::Char('j') => Some(Message::NextNote),
        Key::Char('k') => Some(Message::PrevNote),
        Key::Char('e') => Some(Message::OpenPopup(PopupType::EditNote)),
        Key::Enter => Some(Message::EditNote),
        Key::Char('n') => Some(Message::OpenPopup(PopupType::NewNote)),
        Key::Char('/') => Some(Message::OpenPopup(PopupType::SearchNote)),
        Key::Char('d') => Some(Message::DeleteNote),
        Key::Char('s') => if key.modifiers == NO_MODIFIERS {
            Some(Message::NextSortMode)
        } else if key.modifiers == SHIFT {
            Some(Message::PrevSortMode)
        } else {
            None
        },
        Key::Esc => Some(Message::CleanState),
        Key::Char('q') => Some(Message::Exit),
        _ => None,
    }
}

/// The key table that the three forms share.
pub open spec fn form_message(key: KeyPress) -> Option<Message> {
    match key.code {
        Key::Char(c) => if c == ' ' && key.modifiers == CONTROL {
            Some(Message::OpenSelection)
        } else if key.modifiers == NO_MODIFIERS || key.modifiers == SHIFT {
            Some(Message::AddChar(c))
        } else {
            None
        },
        Key::Backspace => Some(Message::RemoveChar),
        Key::Tab => Some(Message::NextField),
        Key::BackTab => Some(Message::PrevField),
        Key::F(n) => if n == 1 {
            Some(Message::OpenSelection)
        } else {
            None
        },
        Key::Enter => if key.modifiers == NO_MODIFIERS {
            Some(Message::SubmitForm)
        } else {
            None
        },
        Key::Esc => Some(Message::ClosePopup),
        Key::Other => None,
    }
}

/// The key table of the pick-list.
pub open spec fn selection_message(key: KeyPress) -> Option<Message> {
    match key.code {
        Key::Char('j') => Some(Message::NextSelection),
        Key::Char('k') => Some(Message::PrevSelection),
        Key::Char('l') => Some(Message::MakeSelection),
        Key::Char('h') => Some(Message::UnmakeSelection),
        Key::Enter => Some(Message::CloseSelection),
        Key::Esc => Some(Message::CloseSelection),
        _ => None,
    }
}

/// The message that a key press stands for in the given mode; `None` for a
/// key that the mode has no use for.
pub open spec fn key_message(key: KeyPress, input_mode: InputMode) -> Option<Message> {
    match input_mode {
        InputMode::NewNotePopup => form_message(key),
        InputMode::Navigating => navigation_message(key),
        InputMode::SearchPopup => form_message(key),
        InputMode::SelectionPopup => selection_message(key),
        InputMode::EditNoteInfoPopup => form_message(key),
    }
}

/// The message that a key press stands for in the given mode.
pub fn handle_key(key: KeyPress, input_mode: &InputMode) -> (message: Option<Message>)
    ensures
        message == key_message(key, *input_mode),
{
    match input_mode {
        InputMode::NewNotePopup => handle_note_popup(key),
        InputMode::Navigating => handle_key_navigation(key),
        InputMode::SearchPopup => handle_key_search_popup(key),
        InputMode::SelectionPopup => handle_key_selection_popup(key),
        InputMode::EditNoteInfoPopup => handle_note_popup(key),
    }
}

/// The message that a keyboard event stands for in the given mode. Only the
/// press of a key counts: its release and its repetition stand for nothing.
pub fn handle_key_event(key: KeyPress, is_press: bool, input_mode: &InputMode) -> (message:
    Option<Message>)
    ensures
        message == if is_press {
            key_message(key, *input_mode)
        } else {
            None
        },
{
    if is_press {
        handle_key(key, input_mode)
    } else {
        None
    }
}

/// The message that a key press stands for while the pick-list is open.
pub fn handle_key_selection_popup(key: KeyPress) -> (message: Option<Message>)
    ensures
        message == selection_message(key),
{
    match key.code {
        Key::Char('j') => Some(Message::NextSelection),
        Key::Char('k') => Some(Message::PrevSelection),
        Key::Char('l') => Some(Message::MakeSelection),
        Key::Char('h') => Some(Message::UnmakeSelection),
        Key::Enter => Some(Message::CloseSelection),
        Key::Esc => Some(Message::CloseSelection),
        _ => None,
    }
}

/// The message that a key press stands for in the search form.
pub fn handle_key_search_popup(key: KeyPress) -> (message: Option<Message>)
    ensures
        message == form_message(key),
{
    handle_form_key(key)
}

/// The message that a key press stands for in the forms for a new note
/// and for a note's label and tags.
pub fn handle_note_popup(key: KeyPress) -> (message: Option<Message>)
    ensures
        message == form_message(key),
{
    handle_form_key(key)
}

/// The message that a key press stands for in a form.
fn handle_form_key(key: KeyPress) -> (message: Option<Message>)
    ensures
        message == form_message(key),
{
    match key.code {
        Key::Char(c) => {
            if c == ' ' && key.modifiers == CONTROL {
                Some(Message::OpenSelection)
            } else if key.modifiers == NO_MODIFIERS || key.modifiers == SHIFT {
                Some(Message::AddChar(c))
            } else {
                None
            }
        },
        Key::Backspace => Some(Message::RemoveChar),
        Key::Tab => Some(Message::NextField),
        Key::BackTab => Some(Message::PrevField),
        Key::F(n) => {
            if n == 1 {
                Some(Message::OpenSelection)
            } else {
                None
            }
        },
        Key::Enter => {
            if key.modifiers == NO_MODIFIERS {
                Some(Message::SubmitForm)
            } else {
                None
            }
        },
        Key::Esc => Some(Message::ClosePopup),
        Key::Other => None,
    }
}

/// The message that a key press stands for while the note list has the
/// keyboard.
pub fn handle_key_navigation(key: KeyPress) -> (message: Option<Message>)
    ensures
        message == navigation_message(key),
{
    match key.code {
        Key::Char('j') => Some(Message::NextNote),
        Key::Char('k') => Some(Message::PrevNote),
        Key::Char('e') => Some(Message::OpenPopup(PopupType::EditNote)),
        Key::Enter => Some(Message::EditNote),
        Key::Char('n') => Some(Message::OpenPopup(PopupType::NewNote)),
        Key::Char('/') => Some(Message::OpenPopup(PopupType::SearchNote)),
        Key::Char('d') => Some(Message::DeleteNote),
        Key::Char('s') => {
            if key.modifiers == NO_MODIFIERS {
                Some(Message::NextSortMode)
            } else if key.modifiers == SHIFT {
                Some(Message::PrevSortMode)
            } else {
                None
            }
        },
        Key::Esc => Some(Message::CleanState),
        Key::Char('q') => Some(Message::Exit),
        _ => None,
    }
}

} // verus!
