use norganisers::event_handling::{
    handle_key, handle_key_event, handle_key_navigation, handle_key_search_popup, handle_key_selection_popup,
    handle_note_popup, InputMode, Key, KeyPress, CONTROL, NO_MODIFIERS, SHIFT,
};
use norganisers::model::Message;
use norganisers::view_components::popups::PopupType;

fn press(code: Key) -> KeyPress {
    KeyPress { code, modifiers: NO_MODIFIERS }
}

fn held(code: Key, modifiers: u8) -> KeyPress {
    KeyPress { code, modifiers }
}

#[test]
fn navigation_keys() {
    assert_eq!(handle_key_navigation(press(Key::Char('j'))), Some(Message::NextNote));
    assert_eq!(handle_key_navigation(press(Key::Char('k'))), Some(Message::PrevNote));
    assert_eq!(
        handle_key_navigation(press(Key::Char('e'))),
        Some(Message::OpenPopup(PopupType::EditNote))
    );
    assert_eq!(handle_key_navigation(press(Key::Enter)), Some(Message::EditNote));
    assert_eq!(
        handle_key_navigation(press(Key::Char('n'))),
        Some(Message::OpenPopup(PopupType::NewNote))
    );
    assert_eq!(
        handle_key_navigation(press(Key::Char('/'))),
        Some(Message::OpenPopup(PopupType::SearchNote))
    );
    assert_eq!(handle_key_navigation(press(Key::Char('d'))), Some(Message::DeleteNote));
    assert_eq!(handle_key_navigation(press(Key::Esc)), Some(Message::CleanState));
    assert_eq!(handle_key_navigation(press(Key::Char('q'))), Some(Message::Exit));
    assert_eq!(handle_key_navigation(held(Key::Char('q'), CONTROL)), Some(Message::Exit));
    assert_eq!(handle_key_navigation(press(Key::Char('x'))), None);
    assert_eq!(handle_key_navigation(press(Key::Tab)), None);
    assert_eq!(handle_key_navigation(press(Key::Other)), None);
}

#[test]
fn sort_keys_go_by_the_modifier() {
    assert_eq!(handle_key_navigation(press(Key::Char('s'))), Some(Message::NextSortMode));
    assert_eq!(handle_key_navigation(held(Key::Char('s'), SHIFT)), Some(Message::PrevSortMode));
    assert_eq!(handle_key_navigation(held(Key::Char('s'), CONTROL)), None);
    assert_eq!(handle_key_navigation(held(Key::Char('s'), SHIFT | CONTROL)), None);
}

#[test]
fn form_keys() {
    for table in [handle_note_popup, handle_key_search_popup] {
        assert_eq!(table(press(Key::Char('a'))), Some(Message::AddChar('a')));
        assert_eq!(table(held(Key::Char('A'), SHIFT)), Some(Message::AddChar('A')));
        assert_eq!(table(press(Key::Char(' '))), Some(Message::AddChar(' ')));
        assert_eq!(table(held(Key::Char(' '), CONTROL)), Some(Message::OpenSelection));
        assert_eq!(table(held(Key::Char('a'), CONTROL)), None);
        assert_eq!(table(held(Key::Char('a'), 4)), None);
        assert_eq!(table(press(Key::Backspace)), Some(Message::RemoveChar));
        assert_eq!(table(held(Key::Backspace, CONTROL)), Some(Message::RemoveChar));
        assert_eq!(table(press(Key::Tab)), Some(Message::NextField));
        assert_eq!(table(held(Key::BackTab, SHIFT)), Some(Message::PrevField));
        assert_eq!(table(press(Key::F(1))), Some(Message::OpenSelection));
        assert_eq!(table(press(Key::F(2))), None);
        assert_eq!(table(press(Key::Enter)), Some(Message::SubmitForm));
        assert_eq!(table(held(Key::Enter, SHIFT)), None);
        assert_eq!(table(press(Key::Esc)), Some(Message::ClosePopup));
        assert_eq!(table(press(Key::Other)), None);
    }
}

#[test]
fn selection_keys() {
    assert_eq!(handle_key_selection_popup(press(Key::Char('j'))), Some(Message::NextSelection));
    assert_eq!(handle_key_selection_popup(press(Key::Char('k'))), Some(Message::PrevSelection));
    assert_eq!(handle_key_selection_popup(press(Key::Char('l'))), Some(Message::MakeSelection));
    assert_eq!(handle_key_selection_popup(press(Key::Char('h'))), Some(Message::UnmakeSelection));
    assert_eq!(handle_key_selection_popup(press(Key::Enter)), Some(Message::CloseSelection));
    assert_eq!(handle_key_selection_popup(press(Key::Esc)), Some(Message::CloseSelection));
    assert_eq!(handle_key_selection_popup(held(Key::Char('j'), SHIFT)), Some(Message::NextSelection));
    assert_eq!(handle_key_selection_popup(press(Key::Char('a'))), None);
    assert_eq!(handle_key_selection_popup(press(Key::Backspace)), None);
}

#[test]
fn the_mode_picks_the_table() {
    let j = press(Key::Char('j'));
    assert_eq!(handle_key(j, &InputMode::Navigating), Some(Message::NextNote));
    assert_eq!(handle_key(j, &InputMode::SelectionPopup), Some(Message::NextSelection));
    assert_eq!(handle_key(j, &InputMode::NewNotePopup), Some(Message::AddChar('j')));
    assert_eq!(handle_key(j, &InputMode::SearchPopup), Some(Message::AddChar('j')));
    assert_eq!(handle_key(j, &InputMode::EditNoteInfoPopup), Some(Message::AddChar('j')));
    let enter = press(Key::Enter);
    assert_eq!(handle_key(enter, &InputMode::Navigating), Some(Message::EditNote));
    assert_eq!(handle_key(enter, &InputMode::SelectionPopup), Some(Message::CloseSelection));
    assert_eq!(handle_key(enter, &InputMode::SearchPopup), Some(Message::SubmitForm));
}

#[test]
fn only_presses_count() {
    let q = press(Key::Char('q'));
    assert_eq!(handle_key_event(q, true, &InputMode::Navigating), Some(Message::Exit));
    assert_eq!(handle_key_event(q, false, &InputMode::Navigating), None);
    assert_eq!(handle_key_event(q, false, &InputMode::SearchPopup), None);
    assert_eq!(handle_key_event(q, true, &InputMode::SearchPopup), Some(Message::AddChar('q')));
}
