use norganisers::forms::Form;
use norganisers::view_components::popups::{
    InputCursor, Popup, PopupState, PopupType, SelectionPopup, SelectionPopupFields,
};
use norganisers::view_components::{InteractiveList, NoteList};

fn strings(items: &[&str]) -> Vec<String> {
    items.iter().map(|s| s.to_string()).collect()
}

fn two_field_popup() -> Popup {
    Popup::new(Form::with_fields(strings(&["", ""])), PopupType::NewNote)
}

#[test]
fn popup_state_starts_at_the_first_field() {
    let state = PopupState::new(Form::with_fields(strings(&["abc", "de"])));
    assert_eq!(state.selected_field, 0);
    assert_eq!(state.selected_char_indices, vec![0, 0]);
    assert_eq!(state.form.field_content(0), "abc");
}

#[test]
fn insert_then_backspace_in_an_empty_form() {
    let mut popup = two_field_popup();
    popup.add_char('a');
    assert_eq!(popup.state.form.field_content(0), "a");
    assert_eq!(popup.state.selected_char_indices[0], 1);
    popup.remove_char();
    assert_eq!(popup.state.form.field_content(0), "");
    assert_eq!(popup.state.selected_char_indices[0], 0);
    popup.remove_char();
    assert_eq!(popup.state.form.field_content(0), "");
    assert_eq!(popup.state.selected_char_indices[0], 0);
    assert_eq!(popup.state.form.field_content(1), "");
}

#[test]
fn cursor_counts_scalars_not_bytes() {
    let mut popup = two_field_popup();
    for c in "日本語".chars() {
        popup.add_char(c);
    }
    assert_eq!(popup.state.form.field_content(0), "日本語");
    assert_eq!(popup.state.selected_char_indices[0], 3);
    popup.move_left();
    popup.add_char('x');
    assert_eq!(popup.state.form.field_content(0), "日本x語");
    assert_eq!(popup.state.selected_char_indices[0], 3);
    popup.remove_char();
    popup.remove_char();
    assert_eq!(popup.state.form.field_content(0), "日語");
    assert_eq!(popup.state.selected_char_indices[0], 1);
    popup.move_to_end();
    assert_eq!(popup.state.selected_char_indices[0], 2);
}

#[test]
fn cursor_moves_stop_at_the_bounds() {
    let mut popup = Popup::new(Form::with_fields(strings(&["ab", ""])), PopupType::EditNote);
    popup.move_left();
    assert_eq!(popup.state.selected_char_indices[0], 0);
    popup.move_right();
    popup.move_right();
    assert_eq!(popup.state.selected_char_indices[0], 2);
    popup.move_right();
    assert_eq!(popup.state.selected_char_indices[0], 2);
    popup.move_to_start();
    assert_eq!(popup.state.selected_char_indices[0], 0);
    popup.move_to_end();
    assert_eq!(popup.state.selected_char_indices[0], 2);
    assert_eq!(popup.clamp_cursor(1), 1);
    assert_eq!(popup.clamp_cursor(2), 2);
    assert_eq!(popup.clamp_cursor(9), 2);
}

#[test]
fn cursor_stays_within_its_field_after_many_edits() {
    let mut popup = Popup::new(Form::with_fields(strings(&["é", "xyz"])), PopupType::NewNote);
    let steps = "irlbnrribbbplhenbbrrrilbbbbb";
    for step in steps.chars() {
        match step {
            'i' => popup.add_char('ß'),
            'b' => popup.remove_char(),
            'l' => popup.move_left(),
            'r' => popup.move_right(),
            'h' => popup.move_to_start(),
            'e' => popup.move_to_end(),
            'n' => popup.next_field(),
            'p' => popup.prev_field(),
            _ => unreachable!(),
        }
        assert!(popup.state.selected_field < 2);
        for field in 0..2 {
            let count = popup.state.form.field_content(field).chars().count();
            assert!(popup.state.selected_char_indices[field] <= count);
        }
    }
}

#[test]
fn fields_cycle_and_keep_their_cursors() {
    let mut popup = Popup::new(Form::with_fields(strings(&["a", "b", "c"])), PopupType::NewNote);
    popup.move_to_end();
    popup.next_field();
    assert_eq!(popup.state.selected_field, 1);
    popup.next_field();
    popup.next_field();
    assert_eq!(popup.state.selected_field, 0);
    assert_eq!(popup.state.selected_char_indices, vec![1, 0, 0]);
    popup.prev_field();
    assert_eq!(popup.state.selected_field, 2);
    popup.prev_field();
    assert_eq!(popup.state.selected_field, 1);
    popup.add_char('x');
    assert_eq!(popup.state.form.field_content(1), "xb");
    assert_eq!(popup.state.selected_char_indices, vec![1, 1, 0]);
}

#[test]
fn replace_selected_field_puts_the_cursor_at_the_end() {
    let mut popup = two_field_popup();
    popup.next_field();
    popup.replace_selected_field("npc,日本");
    assert_eq!(popup.state.form.field_content(1), "npc,日本");
    assert_eq!(popup.state.selected_char_indices, vec![0, 6]);
    popup.replace_selected_field("");
    assert_eq!(popup.state.selected_char_indices, vec![0, 0]);
}

#[test]
fn cursors_to_end_moves_every_cursor() {
    let mut popup = Popup::new(Form::with_fields(strings(&["héllo", "ab"])), PopupType::EditNote);
    popup.cursors_to_end();
    assert_eq!(popup.state.selected_char_indices, vec![5, 2]);
    assert_eq!(popup.state.selected_field, 0);
}

#[test]
fn selection_popup_selects_under_the_highlight() {
    let mut list = SelectionPopup::new(strings(&["a", "b", "c"]));
    assert_eq!(list.selected_selection(), None);
    assert!(list.selected_items().is_empty());
    list.add_selected_to_selection();
    assert!(list.selected_indices.is_empty());
    list.next_selection();
    assert_eq!(list.selected_selection(), Some(0));
    list.next_selection();
    list.next_selection();
    assert_eq!(list.selected_selection(), Some(2));
    list.add_selected_to_selection();
    list.prev_selection();
    list.prev_selection();
    assert_eq!(list.selected_selection(), Some(0));
    list.prev_selection();
    assert_eq!(list.selected_selection(), Some(0));
    list.add_selected_to_selection();
    assert_eq!(list.selected_items(), strings(&["a", "c"]));
    list.remove_selected_from_selection();
    assert_eq!(list.selected_items(), strings(&["c"]));
    list.reset_selection();
    assert!(list.selected_items().is_empty());
    assert_eq!(list.selected_selection(), Some(0));
}

#[test]
fn selection_popup_ignores_a_highlight_past_the_end() {
    let mut list = SelectionPopup::new(strings(&["a"]));
    list.next_selection();
    list.next_selection();
    assert_eq!(list.selected_selection(), Some(1));
    list.add_selected_to_selection();
    assert!(list.selected_indices.is_empty());
    let mut empty = SelectionPopup::new(Vec::new());
    empty.prev_selection();
    assert_eq!(empty.selected_selection(), Some(usize::MAX));
    empty.next_selection();
    assert_eq!(empty.selected_selection(), Some(usize::MAX));
    empty.add_selected_to_selection();
    assert!(empty.selected_items().is_empty());
}

#[test]
fn add_indices_keeps_those_of_items() {
    let mut list = SelectionPopup::new(strings(&["a", "b", "c"]));
    list.add_indices_to_selection(&vec![2, 7, 0, 2]);
    assert_eq!(list.selected_indices.len(), 2);
    assert_eq!(list.selected_items(), strings(&["a", "c"]));
}

#[test]
fn popup_selector_opens_selects_and_closes() {
    let mut popup = two_field_popup();
    assert!(popup.retrieve_selection().is_empty());
    popup.make_selection();
    popup.next_selection();
    assert!(popup.selection_popup.is_none());
    popup.init_selector(&strings(&["npc", "town", "quest"]));
    assert!(popup.retrieve_selection().is_empty());
    popup.next_selection();
    popup.make_selection();
    popup.next_selection();
    popup.next_selection();
    popup.make_selection();
    assert_eq!(popup.retrieve_selection(), strings(&["npc", "quest"]));
    popup.prev_selection();
    popup.prev_selection();
    popup.unmake_selection();
    assert_eq!(popup.retrieve_selection(), strings(&["quest"]));
    popup.close_selector();
    assert!(popup.selection_popup.is_none());
    assert!(popup.retrieve_selection().is_empty());
    popup.init_selector(&strings(&["npc"]));
    assert!(popup.retrieve_selection().is_empty());
}

#[test]
fn note_list_highlight_moves_and_resets() {
    let mut list = NoteList::default();
    assert_eq!(list.selected_selection(), None);
    list.next_selection();
    assert_eq!(list.selected_selection(), Some(0));
    list.next_selection();
    assert_eq!(list.selected_selection(), Some(1));
    list.prev_selection();
    list.prev_selection();
    assert_eq!(list.selected_selection(), Some(0));
    list.next_selection();
    list.next_selection();
    list.reset_selection();
    assert_eq!(list.selected_selection(), Some(0));
    let mut fresh = NoteList::default();
    fresh.prev_selection();
    assert_eq!(fresh.selected_selection(), Some(usize::MAX));
}
