use norganisers::event_handling::InputMode;
use norganisers::json::{NoteBlob, BACKEND_VERSION};
use norganisers::model::{
    apply_edited_text, delete_outcome, mode_of, reload, update, Message, Model, RunningState,
};
use norganisers::model_helpers::handle_result;
use norganisers::note::{Note, NoteBackend, TextEditor, Timestamp, UnsavedNote};
use norganisers::note_store::{NoteSortMode, NoteStore};
use norganisers::searching::SearchOutput;
use norganisers::view_components::popups::PopupType;
use norganisers::view_components::InteractiveList;
use std::cell::{Cell, RefCell};
use std::collections::HashSet;

/// A backend that keeps its document in memory and can be told to fail.
struct MemoryBackend {
    blob: RefCell<NoteBlob>,
    failing: Cell<bool>,
    calls: RefCell<Vec<String>>,
}

impl MemoryBackend {
    fn check(&self, call: &str) -> Result<(), String> {
        self.calls.borrow_mut().push(call.to_string());
        if self.failing.get() {
            Err(format!("{} failed", call))
        } else {
            Ok(())
        }
    }
}

impl NoteBackend for MemoryBackend {
    fn retrieve_notes(&self) -> Result<Vec<Note>, String> {
        self.check("retrieve")?;
        Ok(self.blob.borrow().retrieve_notes())
    }

    fn add_note(&self, note: UnsavedNote) -> Result<(), String> {
        self.check("add")?;
        self.blob.borrow_mut().add_note(note).map(|_| ()).map_err(|e| format!("{:?}", e))
    }

    fn delete_note(&self, target_id: usize) -> Result<(), String> {
        self.check("delete")?;
        self.blob.borrow_mut().delete_note(target_id);
        Ok(())
    }

    fn update_note(&self, note: &Note) -> Result<(), String> {
        self.check("update")?;
        self.blob.borrow_mut().update_note(note).map_err(|e| format!("{:?}", e))
    }
}

struct AppendingEditor;

impl TextEditor for AppendingEditor {
    fn open_temp_file(text: &str) -> Result<String, String> {
        Ok(format!("{} (edited)", text))
    }
}

struct BrokenEditor;

impl TextEditor for BrokenEditor {
    fn open_temp_file(_text: &str) -> Result<String, String> {
        Err("Nvim exited with an error".to_string())
    }
}

fn note(id: usize, label: &str, tags: &[&str]) -> Note {
    Note {
        id,
        label: label.to_string(),
        text: format!("text {}", id),
        created_at: Timestamp { secs: 1000 - id as i64, nanos: 0 },
        tags: tags.iter().map(|t| t.to_string()).collect(),
        related_notes: Vec::new(),
    }
}

fn model() -> Model<MemoryBackend> {
    let backend = MemoryBackend {
        blob: RefCell::new(NoteBlob {
            version: BACKEND_VERSION,
            notes: vec![
                note(1, "cherry", &["fruit", "red"]),
                note(2, "apple", &["fruit"]),
                note(3, "beet", &["root", "red"]),
            ],
        }),
        failing: Cell::new(false),
        calls: RefCell::new(Vec::new()),
    };
    Model::new(backend).unwrap()
}

fn send(model: &mut Model<MemoryBackend>, msg: Message) -> Option<Message> {
    update::<MemoryBackend, AppendingEditor>(model, msg)
}

/// Sends a message and then every message that follows, as the event loop
/// does. The messages that are the caller's to perform end the chain.
fn drain(model: &mut Model<MemoryBackend>, msg: Message) -> Vec<String> {
    let mut seen = Vec::new();
    let mut current = Some(msg);
    while let Some(msg) = current {
        seen.push(format!("{:?}", msg));
        assert!(seen.len() < 10);
        current = send(model, msg);
    }
    seen
}

fn type_text(model: &mut Model<MemoryBackend>, text: &str) {
    for c in text.chars() {
        send(model, Message::AddChar(c));
    }
}

fn listed(model: &Model<MemoryBackend>) -> Vec<usize> {
    model.note_store.get_notes().iter().map(|n| n.id).collect()
}

fn field(model: &Model<MemoryBackend>, index: usize) -> String {
    model.views.popup.as_ref().unwrap().state.form.field_content(index).to_string()
}

#[test]
fn new_model_loads_the_notes() {
    let model = model();
    assert_eq!(model.running_state, RunningState::Running);
    assert_eq!(model.input_mode, InputMode::Navigating);
    assert!(model.views.popup.is_none());
    assert_eq!(model.views.note_list.selected_selection(), None);
    assert_eq!(listed(&model), vec![1, 2, 3]);
    assert!(!model.note_store.is_filtered());
    assert_eq!(model.note_store.current_sort_mode(), NoteSortMode::Unsorted);
    assert_eq!(RunningState::default(), RunningState::Running);
}

#[test]
fn new_model_fails_with_the_backend() {
    let backend = MemoryBackend {
        blob: RefCell::new(NoteBlob { version: BACKEND_VERSION, notes: Vec::new() }),
        failing: Cell::new(true),
        calls: RefCell::new(Vec::new()),
    };
    assert_eq!(Model::new(backend).err(), Some("retrieve failed".to_string()));
}

#[test]
fn model_starts_on_what_the_backend_answered() {
    let backend = |failing: bool| MemoryBackend {
        blob: RefCell::new(NoteBlob { version: BACKEND_VERSION, notes: Vec::new() }),
        failing: Cell::new(failing),
        calls: RefCell::new(Vec::new()),
    };
    let loaded = vec![note(8, "eight", &["x"]), note(4, "four", &[])];
    let model = Model::from_loaded(backend(true), Ok(loaded)).ok().unwrap();
    assert_eq!(listed(&model), vec![8, 4]);
    assert_eq!(model.note_store.get_notes_unfiltered()[0], note(8, "eight", &["x"]));
    assert_eq!(model.running_state, RunningState::Running);
    assert_eq!(model.input_mode, InputMode::Navigating);
    assert!(model.views.popup.is_none());
    assert_eq!(model.views.note_list.selected_selection(), None);
    assert!(!model.note_store.is_filtered());
    assert_eq!(model.note_store.current_sort_mode(), NoteSortMode::Unsorted);
    assert!(model.backend.calls.borrow().is_empty());
    assert!(model.is_well_formed());
    let failed = Model::from_loaded(backend(false), Err("no file".to_string()));
    assert_eq!(failed.err(), Some("no file".to_string()));
}

#[test]
fn exit_stops_the_session() {
    let mut model = model();
    assert_eq!(send(&mut model, Message::Exit), None);
    assert_eq!(model.running_state, RunningState::Exit);
}

#[test]
fn messages_for_the_caller_change_nothing() {
    let mut model = model();
    assert_eq!(send(&mut model, Message::ClearScreen), None);
    assert_eq!(send(&mut model, Message::Error("boom".to_string())), None);
    assert_eq!(listed(&model), vec![1, 2, 3]);
    assert_eq!(model.input_mode, InputMode::Navigating);
    assert_eq!(model.running_state, RunningState::Running);
}

#[test]
fn input_mode_message_sets_the_mode() {
    let mut model = model();
    assert_eq!(send(&mut model, Message::InputMode(InputMode::SearchPopup)), None);
    assert_eq!(model.input_mode, InputMode::SearchPopup);
}

#[test]
fn note_highlight_moves() {
    let mut model = model();
    assert_eq!(send(&mut model, Message::NextNote), None);
    assert_eq!(send(&mut model, Message::NextNote), None);
    assert_eq!(model.views.note_list.selected_selection(), Some(1));
    assert_eq!(send(&mut model, Message::PrevNote), None);
    assert_eq!(model.views.note_list.selected_selection(), Some(0));
}

#[test]
fn sort_messages_cycle_the_mode() {
    let mut model = model();
    assert_eq!(send(&mut model, Message::NextSortMode), None);
    assert_eq!(model.note_store.current_sort_mode(), NoteSortMode::AscCreated);
    assert_eq!(listed(&model), vec![3, 2, 1]);
    send(&mut model, Message::PrevSortMode);
    send(&mut model, Message::PrevSortMode);
    assert_eq!(model.note_store.current_sort_mode(), NoteSortMode::LabelDesc);
    assert_eq!(listed(&model), vec![1, 3, 2]);
}

#[test]
fn new_note_is_added_and_the_list_reloaded() {
    let mut model = model();
    assert_eq!(
        drain(&mut model, Message::OpenPopup(PopupType::NewNote)),
        vec!["OpenPopup(NewNote)", "InputMode(NewNotePopup)"]
    );
    assert_eq!(model.input_mode, InputMode::NewNotePopup);
    assert_eq!(model.views.popup.as_ref().unwrap().popup_type, PopupType::NewNote);
    type_text(&mut model, "Testing title 1");
    send(&mut model, Message::NextField);
    type_text(&mut model, "npc, neverwinter");
    assert_eq!(
        drain(&mut model, Message::SubmitForm),
        vec!["SubmitForm", "ClosePopup", "InputMode(Navigating)"]
    );
    assert!(model.views.popup.is_none());
    assert_eq!(model.input_mode, InputMode::Navigating);
    assert_eq!(listed(&model), vec![1, 2, 3, 4]);
    let added = model.note_store.get_note(3).unwrap();
    assert_eq!(added.label, "Testing title 1");
    assert_eq!(added.tags, vec!["npc".to_string(), "neverwinter".to_string()]);
    assert_eq!(added.text, "");
    assert_eq!(*model.backend.calls.borrow(), vec!["retrieve", "add", "retrieve"]);
}

#[test]
fn new_note_without_label_is_not_added() {
    let mut model = model();
    drain(&mut model, Message::OpenPopup(PopupType::NewNote));
    send(&mut model, Message::NextField);
    type_text(&mut model, "tag");
    assert_eq!(send(&mut model, Message::SubmitForm), Some(Message::ClosePopup));
    assert_eq!(listed(&model), vec![1, 2, 3]);
    assert_eq!(*model.backend.calls.borrow(), vec!["retrieve", "retrieve"]);
}

#[test]
fn failed_add_is_reported_and_the_popup_stays() {
    let mut model = model();
    drain(&mut model, Message::OpenPopup(PopupType::NewNote));
    type_text(&mut model, "x");
    model.backend.failing.set(true);
    assert_eq!(
        send(&mut model, Message::SubmitForm),
        Some(Message::Error("add failed".to_string()))
    );
    assert!(model.views.popup.is_some());
    assert_eq!(model.input_mode, InputMode::NewNotePopup);
    assert_eq!(listed(&model), vec![1, 2, 3]);
}

#[test]
fn edit_popup_opens_on_the_highlighted_note() {
    let mut model = model();
    assert_eq!(send(&mut model, Message::OpenPopup(PopupType::EditNote)), None);
    assert!(model.views.popup.is_none());
    send(&mut model, Message::NextNote);
    assert_eq!(
        send(&mut model, Message::OpenPopup(PopupType::EditNote)),
        Some(Message::InputMode(InputMode::EditNoteInfoPopup))
    );
    assert_eq!(field(&model, 0), "cherry");
    assert_eq!(field(&model, 1), "fruit,red");
    let popup = model.views.popup.as_ref().unwrap();
    assert_eq!(popup.state.selected_char_indices, vec![6, 9]);
    assert_eq!(popup.state.selected_field, 0);
    assert_eq!(popup.popup_type, PopupType::EditNote);
}

#[test]
fn edit_popup_does_not_open_past_the_list() {
    let mut model = model();
    for _ in 0..5 {
        send(&mut model, Message::NextNote);
    }
    assert_eq!(send(&mut model, Message::OpenPopup(PopupType::EditNote)), None);
    assert!(model.views.popup.is_none());
}

#[test]
fn submitted_edit_updates_the_note_by_its_id() {
    let mut model = model();
    send(&mut model, Message::NextSortMode);
    send(&mut model, Message::NextNote);
    // by creation time the first listed note is the one with id 3
    drain(&mut model, Message::OpenPopup(PopupType::EditNote));
    assert_eq!(field(&model, 0), "beet");
    type_text(&mut model, "root");
    send(&mut model, Message::NextField);
    type_text(&mut model, ", , purple ");
    assert_eq!(
        drain(&mut model, Message::SubmitForm),
        vec!["SubmitForm", "ClosePopup", "InputMode(Navigating)"]
    );
    let stored = model.backend.blob.borrow().retrieve_notes();
    assert_eq!(stored[2].id, 3);
    assert_eq!(stored[2].label, "beetroot");
    assert_eq!(
        stored[2].tags,
        vec!["root".to_string(), "red".to_string(), "purple".to_string()]
    );
    assert_eq!(stored[2].text, "text 3");
    assert_eq!(stored[0], note(1, "cherry", &["fruit", "red"]));
    assert_eq!(model.note_store.get_note(0).unwrap().label, "beetroot");
    assert!(model.views.popup.is_none());
}

#[test]
fn edit_with_empty_label_closes_without_update() {
    let mut model = model();
    send(&mut model, Message::NextNote);
    drain(&mut model, Message::OpenPopup(PopupType::EditNote));
    for _ in 0..6 {
        send(&mut model, Message::RemoveChar);
    }
    assert_eq!(field(&model, 0), "");
    assert_eq!(send(&mut model, Message::SubmitForm), Some(Message::ClosePopup));
    assert_eq!(*model.backend.calls.borrow(), vec!["retrieve"]);
}

#[test]
fn failed_update_is_reported() {
    let mut model = model();
    send(&mut model, Message::NextNote);
    drain(&mut model, Message::OpenPopup(PopupType::EditNote));
    model.backend.failing.set(true);
    assert_eq!(
        send(&mut model, Message::SubmitForm),
        Some(Message::Error("update failed".to_string()))
    );
    assert!(model.views.popup.is_some());
}

#[test]
fn submit_without_popup_does_nothing() {
    let mut model = model();
    assert_eq!(send(&mut model, Message::SubmitForm), None);
    assert_eq!(send(&mut model, Message::AddChar('x')), None);
    assert_eq!(send(&mut model, Message::RemoveChar), None);
    assert_eq!(send(&mut model, Message::NextField), None);
    assert_eq!(send(&mut model, Message::PrevField), None);
    assert_eq!(send(&mut model, Message::OpenSelection), None);
    assert_eq!(send(&mut model, Message::NextSelection), None);
    assert_eq!(send(&mut model, Message::PrevSelection), None);
    assert_eq!(send(&mut model, Message::MakeSelection), None);
    assert_eq!(send(&mut model, Message::UnmakeSelection), None);
    assert_eq!(send(&mut model, Message::PerformSearch), None);
    assert!(model.views.popup.is_none());
    assert_eq!(*model.backend.calls.borrow(), vec!["retrieve"]);
}

#[test]
fn delete_asks_the_backend_and_reloads() {
    let mut model = model();
    assert_eq!(send(&mut model, Message::DeleteNote), None);
    send(&mut model, Message::NextNote);
    send(&mut model, Message::NextNote);
    assert_eq!(drain(&mut model, Message::DeleteNote), vec!["DeleteNote", "RetrieveNotes"]);
    assert_eq!(listed(&model), vec![1, 3]);
    assert_eq!(*model.backend.calls.borrow(), vec!["retrieve", "delete", "retrieve"]);
}

#[test]
fn failed_delete_is_reported() {
    let mut model = model();
    send(&mut model, Message::NextNote);
    model.backend.failing.set(true);
    assert_eq!(
        send(&mut model, Message::DeleteNote),
        Some(Message::Error("delete failed".to_string()))
    );
    assert_eq!(listed(&model), vec![1, 2, 3]);
}

#[test]
fn failed_reload_is_reported_and_keeps_the_notes() {
    let mut model = model();
    model.note_store.update_filter(HashSet::from([2]));
    model.backend.failing.set(true);
    assert_eq!(
        send(&mut model, Message::RetrieveNotes),
        Some(Message::Error("retrieve failed".to_string()))
    );
    assert_eq!(listed(&model), vec![2]);
    model.backend.failing.set(false);
    assert_eq!(send(&mut model, Message::RetrieveNotes), None);
    assert_eq!(listed(&model), vec![1, 2, 3]);
    assert!(!model.note_store.is_filtered());
}

#[test]
fn editor_text_replaces_the_note_text() {
    let mut model = model();
    assert_eq!(send(&mut model, Message::EditNote), None);
    send(&mut model, Message::NextNote);
    send(&mut model, Message::NextNote);
    assert_eq!(send(&mut model, Message::EditNote), Some(Message::ClearScreen));
    assert_eq!(model.note_store.get_note(1).unwrap().text, "text 2 (edited)");
    assert_eq!(model.note_store.get_note(0).unwrap().text, "text 1");
    assert_eq!(model.note_store.get_note(2).unwrap().text, "text 3");
}

#[test]
fn failed_editor_leaves_the_note() {
    let mut model = model();
    send(&mut model, Message::NextNote);
    assert_eq!(
        update::<MemoryBackend, BrokenEditor>(&mut model, Message::EditNote),
        Some(Message::Error("Nvim exited with an error".to_string()))
    );
    assert_eq!(model.note_store.get_note(0).unwrap().text, "text 1");
}

#[test]
fn editing_goes_by_view_index() {
    let mut model = model();
    send(&mut model, Message::NextSortMode);
    send(&mut model, Message::NextNote);
    assert_eq!(send(&mut model, Message::EditNote), Some(Message::ClearScreen));
    let all = model.note_store.get_notes_unfiltered();
    assert_eq!(all[2].text, "text 3 (edited)");
    assert_eq!(all[0].text, "text 1");
}

#[test]
fn search_form_searches_after_every_key() {
    let mut model = model();
    drain(&mut model, Message::OpenPopup(PopupType::SearchNote));
    assert_eq!(model.input_mode, InputMode::SearchPopup);
    assert_eq!(send(&mut model, Message::AddChar('a')), Some(Message::PerformSearch));
    let asked = send(&mut model, Message::PerformSearch);
    let plan = match asked {
        Some(Message::RunSearch(plan)) => plan,
        other => panic!("no search asked for: {:?}", other),
    };
    assert_eq!(plan.note_term, Some("a".to_string()));
    assert!(plan.tag_terms.is_empty());
    assert_eq!(plan.note_lines.len(), 3);
    assert_eq!(plan.note_lines[1], "2: apple | text 2");
    assert_eq!(plan.tag_lines[2], "3: root red");
    assert_eq!(send(&mut model, Message::RunSearch(plan)), None);
    let output = SearchOutput {
        note_output: Some("2: apple | text 2\n".to_string()),
        tag_outputs: Vec::new(),
    };
    assert_eq!(send(&mut model, Message::SearchFinished(output)), None);
    assert!(model.note_store.is_filtered());
    assert_eq!(listed(&model), vec![2]);
    assert_eq!(send(&mut model, Message::RemoveChar), Some(Message::PerformSearch));
    assert_eq!(send(&mut model, Message::PerformSearch), None);
    assert!(!model.note_store.is_filtered());
    assert_eq!(send(&mut model, Message::SubmitForm), Some(Message::ClosePopup));
}

#[test]
fn search_results_for_absent_ids_are_dropped() {
    let mut model = model();
    let output = SearchOutput {
        note_output: Some("9: gone\n3: beet\n".to_string()),
        tag_outputs: vec!["3: root red\n9: x\n1: fruit red\n".to_string()],
    };
    assert_eq!(send(&mut model, Message::SearchFinished(output)), None);
    assert_eq!(listed(&model), vec![3]);
    assert_eq!(model.note_store.get_current_matches(), &Some(HashSet::from([3])));
}

#[test]
fn other_forms_do_not_search() {
    let mut model = model();
    drain(&mut model, Message::OpenPopup(PopupType::NewNote));
    assert_eq!(send(&mut model, Message::AddChar('a')), None);
    assert_eq!(send(&mut model, Message::RemoveChar), None);
}

#[test]
fn close_popup_drops_it_unless_the_selector_is_open() {
    let mut model = model();
    drain(&mut model, Message::OpenPopup(PopupType::NewNote));
    drain(&mut model, Message::OpenSelection);
    assert_eq!(model.input_mode, InputMode::SelectionPopup);
    assert_eq!(
        send(&mut model, Message::ClosePopup),
        Some(Message::InputMode(InputMode::Navigating))
    );
    assert!(model.views.popup.is_some());
    send(&mut model, Message::InputMode(InputMode::NewNotePopup));
    assert_eq!(
        drain(&mut model, Message::ClosePopup),
        vec!["ClosePopup", "InputMode(Navigating)"]
    );
    assert!(model.views.popup.is_none());
}

#[test]
fn selector_offers_the_tags_and_writes_the_selection() {
    let mut model = model();
    model.note_store.update_filter(HashSet::from([2]));
    drain(&mut model, Message::OpenPopup(PopupType::EditNote));
    drain(&mut model, Message::OpenPopup(PopupType::NewNote));
    send(&mut model, Message::NextField);
    type_text(&mut model, "old");
    assert_eq!(
        drain(&mut model, Message::OpenSelection),
        vec!["OpenSelection", "InputMode(SelectionPopup)"]
    );
    let items = model.views.popup.as_ref().unwrap().selection_popup.as_ref().unwrap().items.clone();
    assert_eq!(items, vec!["fruit".to_string(), "red".to_string(), "root".to_string()]);
    send(&mut model, Message::NextSelection);
    assert_eq!(send(&mut model, Message::MakeSelection), None);
    assert_eq!(field(&model, 1), "fruit");
    send(&mut model, Message::NextSelection);
    send(&mut model, Message::NextSelection);
    send(&mut model, Message::MakeSelection);
    assert_eq!(field(&model, 1), "fruit,root");
    assert_eq!(model.views.popup.as_ref().unwrap().state.selected_char_indices, vec![0, 10]);
    send(&mut model, Message::PrevSelection);
    send(&mut model, Message::PrevSelection);
    assert_eq!(send(&mut model, Message::UnmakeSelection), None);
    assert_eq!(field(&model, 1), "root");
    assert_eq!(
        drain(&mut model, Message::CloseSelection),
        vec!["CloseSelection", "InputMode(NewNotePopup)"]
    );
    assert_eq!(field(&model, 1), "root");
    assert_eq!(field(&model, 0), "");
    assert!(model.views.popup.as_ref().unwrap().selection_popup.is_none());
    assert_eq!(model.input_mode, InputMode::NewNotePopup);
}

#[test]
fn selection_in_the_search_form_searches_again() {
    let mut model = model();
    drain(&mut model, Message::OpenPopup(PopupType::SearchNote));
    send(&mut model, Message::NextField);
    drain(&mut model, Message::OpenSelection);
    send(&mut model, Message::NextSelection);
    assert_eq!(send(&mut model, Message::MakeSelection), Some(Message::PerformSearch));
    assert_eq!(send(&mut model, Message::UnmakeSelection), Some(Message::PerformSearch));
    assert_eq!(
        send(&mut model, Message::CloseSelection),
        Some(Message::InputMode(InputMode::SearchPopup))
    );
}

#[test]
fn close_selection_returns_to_the_form_that_was_open() {
    assert_eq!(mode_of(PopupType::NewNote), InputMode::NewNotePopup);
    assert_eq!(mode_of(PopupType::SearchNote), InputMode::SearchPopup);
    assert_eq!(mode_of(PopupType::EditNote), InputMode::EditNoteInfoPopup);
    let mut model = model();
    send(&mut model, Message::NextNote);
    drain(&mut model, Message::OpenPopup(PopupType::EditNote));
    drain(&mut model, Message::OpenSelection);
    assert_eq!(
        send(&mut model, Message::CloseSelection),
        Some(Message::InputMode(InputMode::EditNoteInfoPopup))
    );
    let mut bare = self::model();
    assert_eq!(
        send(&mut bare, Message::CloseSelection),
        Some(Message::InputMode(InputMode::Navigating))
    );
}

#[test]
fn clean_state_resets_mode_filter_and_highlight() {
    let mut model = model();
    model.note_store.update_filter(HashSet::from([3]));
    send(&mut model, Message::NextNote);
    send(&mut model, Message::NextNote);
    send(&mut model, Message::InputMode(InputMode::SearchPopup));
    assert_eq!(send(&mut model, Message::CleanState), None);
    assert_eq!(model.input_mode, InputMode::Navigating);
    assert!(!model.note_store.is_filtered());
    assert_eq!(model.views.note_list.selected_selection(), Some(0));
}

#[test]
fn outcomes_of_the_outside_calls() {
    assert_eq!(handle_result(Ok(())), None);
    assert_eq!(handle_result(Err("e".to_string())), Some(Message::Error("e".to_string())));
    assert_eq!(delete_outcome(Ok(())), Some(Message::RetrieveNotes));
    assert_eq!(delete_outcome(Err("e".to_string())), Some(Message::Error("e".to_string())));
    let mut store = NoteStore::new(vec![note(1, "a", &[])]);
    store.update_filter(HashSet::from([1]));
    assert_eq!(
        reload(&mut store, Err("down".to_string())),
        Some(Message::Error("down".to_string()))
    );
    assert!(store.is_filtered());
    assert_eq!(reload(&mut store, Ok(vec![note(5, "b", &[])])), None);
    assert!(!store.is_filtered());
    assert_eq!(store.get_note(0).unwrap().id, 5);
    assert_eq!(
        apply_edited_text(&mut store, 0, Ok("new".to_string())),
        Some(Message::ClearScreen)
    );
    assert_eq!(store.get_note(0).unwrap().text, "new");
    assert_eq!(
        apply_edited_text(&mut store, 0, Err("bad".to_string())),
        Some(Message::Error("bad".to_string()))
    );
    assert_eq!(store.get_note(0).unwrap().text, "new");
    assert_eq!(apply_edited_text(&mut store, 1, Ok("lost".to_string())), None);
    assert_eq!(apply_edited_text(&mut store, 1, Err("bad".to_string())), None);
    assert_eq!(store.get_note(0).unwrap().text, "new");
}
