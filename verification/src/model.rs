//! The model of a session and the reducer that applies one message to it.

use crate::event_handling::InputMode;
use crate::forms::{edited_note, Form};
use crate::model_helpers::{handle_result, tag_universe};
use crate::note::{Note, NoteBackend, NoteView, TextEditor};
use crate::note_store::{present_ids, NoteSortMode, NoteStore};
use crate::parsing::{join, joined, tag_list};
use crate::searching::{
    fzf_search, note_line, search_plan, search_result, tag_line, SearchOutput, SearchPlan,
};
use crate::text::texts;
use crate::view_components::list_state::{step_down, step_up};
use crate::view_components::popups::form_popup::{picked, selection_of};
use crate::view_components::popups::{Edit, Pick, PopupView};
use crate::view_components::{
    InteractiveList, Popup, PopupType, SelectionPopupFields, ViewComponents,
};
use vstd::prelude::*;
use vstd::string::*;

verus! {

/// Whether the session goes on.
#[derive(Clone, Copy, Debug, PartialEq, Eq, Structural)]
pub enum RunningState {
    Running,
    Exit,
}

impl Default for RunningState {
    fn default() -> (state: Self)
        ensures
            state == RunningState::Running,
    {
        RunningState::Running
    }
}

/// What can happen to the model. A key press becomes a message; the
/// reducer answers a message with the next one, if any.
///
/// Two messages are for the caller of the reducer, which does the outside
/// work that they ask for: on `ClearScreen` it clears the terminal, and on
/// `RunSearch` it runs the matcher and comes back with `SearchFinished`.
#[derive(Debug, PartialEq, Eq)]
pub enum Message {
    NextSortMode,
    PrevSortMode,
    UnmakeSelection,
    MakeSelection,
    NextSelection,
    PrevSelection,
    CloseSelection,
    OpenSelection,
    CleanState,
    PerformSearch,
    RunSearch(SearchPlan),
    SearchFinished(SearchOutput),
    ClearScreen,
    DeleteNote,
    RetrieveNotes,
    Error(String),
    SubmitForm,
    AddChar(char),
    RemoveChar,
    OpenPopup(PopupType),
    ClosePopup,
    EditNote,
    PrevField,
    NextField,
    PrevNote,
    NextNote,
    InputMode(InputMode),
    Exit,
}

/// The state of a session.
pub struct Model<N: NoteBackend> {
    pub running_state: RunningState,
    pub input_mode: InputMode,
    pub views: ViewComponents,
    pub note_store: NoteStore,
    pub backend: N,
}

impl<B: NoteBackend> Model<B> {
    /// A popup that is open is well formed and has at least the two fields
    /// that every form of this program has.
    pub open spec fn wf(&self) -> bool {
        match self.views.popup {
            Some(popup) => popup.wf() && popup.state@.fields.len() >= 2,
            None => true,
        }
    }

    /// Whether an open popup is well formed and has its two fields.
    pub fn is_well_formed(&self) -> (r: bool)
        ensures
            r == self.wf(),
    {
        match &self.views.popup {
            Some(popup) => popup.is_well_formed() && popup.state.form.field_count() >= 2,
            None => true,
        }
    }

    /// Whether nothing but the popup may differ from `before`.
    pub open spec fn same_but_popup(&self, before: &Self) -> bool {
        &&& self.running_state == before.running_state
        &&& self.input_mode == before.input_mode
        &&& self.note_store == before.note_store
        &&& self.views.note_list == before.views.note_list
        &&& self.views.text_area == before.views.text_area
        &&& self.backend == before.backend
    }

    /// Whether nothing but the highlight of the note list may differ from
    /// `before`.
    pub open spec fn same_but_highlight(&self, before: &Self) -> bool {
        &&& self.running_state == before.running_state
        &&& self.input_mode == before.input_mode
        &&& self.note_store == before.note_store
        &&& self.views.popup == before.views.popup
        &&& self.views.text_area == before.views.text_area
        &&& self.backend == before.backend
    }

    /// Whether the notes and the sort mode are those of `before`.
    pub open spec fn same_notes(&self, before: &Self) -> bool {
        &&& self.note_store.notes() == before.note_store.notes()
        &&& self.note_store.mode() == before.note_store.mode()
    }

    /// Whether nothing but the note store may differ from `before`.
    pub open spec fn same_but_store(&self, before: &Self) -> bool {
        &&& self.running_state == before.running_state
        &&& self.input_mode == before.input_mode
        &&& self.views == before.views
        &&& self.backend == before.backend
    }

    /// Whether the notes were loaded anew since `before`: the filter is
    /// gone, the sort mode stays, and nothing but the store differs.
    pub open spec fn reloaded(&self, before: &Self) -> bool {
        &&& self.same_but_store(before)
        &&& self.note_store.matched() is None
        &&& self.note_store.mode() == before.note_store.mode()
    }

    /// The storage index of the note that the highlight of the note list
    /// is on; `None` without a highlight, or with one past the last listed
    /// note.
    pub open spec fn selected_index(&self) -> Option<int> {
        match self.views.note_list.highlighted() {
            Some(k) => if k < self.note_store.view_order().len() {
                Some(self.note_store.view_order()[k as int] as int)
            } else {
                None
            },
            None => None,
        }
    }

    /// The model of a session that starts on the notes that `note_backend`
    /// holds: the note list has the keyboard, no popup is open, and the
    /// notes are neither filtered nor sorted. Where the backend fails, so
    /// does this.
    pub fn new(note_backend: B) -> (made: Result<Self, String>)
        ensures
            match made {
                Ok(model) => {
                    &&& model.running_state == RunningState::Running
                    &&& model.input_mode == InputMode::Navigating
                    &&& model.views.popup is None
                    &&& model.views.note_list.highlighted() is None
                    &&& model.note_store.matched() is None
                    &&& model.note_store.mode() == NoteSortMode::Unsorted
                    &&& model.backend == note_backend
                    &&& model.wf()
                },
                Err(_) => true,
            },
    {
        let loaded = note_backend.retrieve_notes();
        Self::from_loaded(note_backend, loaded)
    }

    /// The model of a session that starts on what the backend answered to
    /// the first request for all notes. Notes that were loaded make a model
    /// on exactly those notes: the note list has the keyboard, no popup is
    /// open, nothing is highlighted, and the notes are neither filtered nor
    /// sorted. A failure of the backend is handed on as it came.
    pub fn from_loaded(note_backend: B, loaded: Result<Vec<Note>, String>) -> (made: Result<
        Self,
        String,
    >)
        ensures
            match loaded {
                Ok(notes) => {
                    &&& made matches Ok(model)
                    &&& model.note_store.notes() == notes@
                    &&& model.note_store.matched() is None
                    &&& model.note_store.mode() == NoteSortMode::Unsorted
                    &&& model.running_state == RunningState::Running
                    &&& model.input_mode == InputMode::Navigating
                    &&& model.views.popup is None
                    &&& model.views.note_list.highlighted() is None
                    &&& model.backend == note_backend
                    &&& model.wf()
                },
                Err(e) => made == Err::<Self, String>(e),
            },
    {
        match loaded {
            Ok(notes) => Ok(
                Self {
                    running_state: RunningState::default(),
                    input_mode: InputMode::Navigating,
                    backend: note_backend,
                    views: ViewComponents::default(),
                    note_store: NoteStore::new(notes),
                },
            ),
            Err(e) => Err(e),
        }
    }
}

/// The input mode in which a popup of the given kind is edited.
pub open spec fn form_mode(kind: PopupType) -> InputMode {
    match kind {
        PopupType::NewNote => InputMode::NewNotePopup,
        PopupType::SearchNote => InputMode::SearchPopup,
        PopupType::EditNote => InputMode::EditNoteInfoPopup,
    }
}

/// The input mode in which a popup of the given kind is edited.
pub fn mode_of(kind: PopupType) -> (mode: InputMode)
    ensures
        mode == form_mode(kind),
{
    match kind {
        PopupType::NewNote => InputMode::NewNotePopup,
        PopupType::SearchNote => InputMode::SearchPopup,
        PopupType::EditNote => InputMode::EditNoteInfoPopup,
    }
}

/// Whether `popup` is as it opens on `fields`: of the given kind, without
/// a pick-list, the focus on the first field and every cursor at the end of
/// its field.
pub open spec fn opened(popup: Popup, kind: PopupType, fields: Seq<Seq<char>>) -> bool {
    &&& popup.popup_type == kind
    &&& popup.selection_popup is None
    &&& popup.state@ == (PopupView {
        fields,
        focus: 0,
        cursors: Seq::new(fields.len(), |i: int| fields[i].len() as int),
    })
    &&& popup.wf()
}

/// The message that follows an edit of the form: a search form searches
/// again after every change, the other forms wait for submission.
pub open spec fn after_change(kind: PopupType) -> Option<Message> {
    match kind {
        PopupType::SearchNote => Some(Message::PerformSearch),
        _ => None,
    }
}

/// Whether `after` is `before` with the editing step `edit` made in its
/// popup. Without a popup nothing changes.
pub open spec fn popup_edited<B: NoteBackend>(
    before: &Model<B>,
    after: &Model<B>,
    edit: Edit,
) -> bool {
    &&& after.same_but_popup(before)
    &&& match before.views.popup {
        Some(was) => after.views.popup matches Some(now) && now.edited(&was, edit),
        None => after.views.popup is None,
    }
}

/// Whether `after` is `before` with the step `pick` made in the pick-list
/// of its popup, the form untouched. Without a popup nothing changes.
pub open spec fn selector_moved<B: NoteBackend>(
    before: &Model<B>,
    after: &Model<B>,
    pick: Pick,
) -> bool {
    &&& after.same_but_popup(before)
    &&& match before.views.popup {
        Some(was) => after.views.popup matches Some(now) && now.state == was.state
            && now.popup_type == was.popup_type && now.wf() && picked(
            now.selection_popup,
            was.selection_popup,
            pick,
        ),
        None => after.views.popup is None,
    }
}

/// Whether `after` is `before` with the step `pick` made in the pick-list
/// of its popup and the selection written into the focused field: the
/// selected items with commas between them take the place of the field's
/// text, and the cursor goes to its end. Without a popup nothing changes.
pub open spec fn selection_changed<B: NoteBackend>(
    before: &Model<B>,
    after: &Model<B>,
    pick: Pick,
) -> bool {
    &&& after.same_but_popup(before)
    &&& match before.views.popup {
        Some(was) => {
            &&& after.views.popup matches Some(now)
            &&& now.popup_type == was.popup_type
            &&& now.wf()
            &&& picked(now.selection_popup, was.selection_popup, pick)
            &&& now.state@ == was.state@.replace(
                joined(selection_of(now.selection_popup), seq![',']),
            )
        },
        None => after.views.popup is None,
    }
}

/// Whether `after` is `before` with the pick-list closed and the selection
/// written into the focused field. Without a popup nothing changes.
pub open spec fn selection_closed<B: NoteBackend>(before: &Model<B>, after: &Model<B>) -> bool {
    &&& after.same_but_popup(before)
    &&& match before.views.popup {
        Some(was) => {
            &&& after.views.popup matches Some(now)
            &&& now.popup_type == was.popup_type
            &&& now.wf()
            &&& now.selection_popup is None
            &&& now.state@ == was.state@.replace(
                joined(selection_of(was.selection_popup), seq![',']),
            )
        },
        None => after.views.popup is None,
    }
}

/// Whether the store of `after` is that of `before` with new text in the
/// note at storage index `index`, and nothing else differs.
pub open spec fn text_edited<B: NoteBackend>(
    before: &Model<B>,
    after: &Model<B>,
    index: int,
) -> bool {
    &&& after.same_but_store(before)
    &&& after.note_store.matched() == before.note_store.matched()
    &&& after.note_store.mode() == before.note_store.mode()
    &&& after.note_store.notes().len() == before.note_store.notes().len()
    &&& forall|i: int|
        0 <= i < before.note_store.notes().len() && i != index
            ==> #[trigger] after.note_store.notes()[i] == before.note_store.notes()[i]
    &&& after.note_store.notes()[index]@ == (NoteView {
        text: after.note_store.notes()[index]@.text,
        ..before.note_store.notes()[index]@
    })
}

/// What the reducer does with one message: how the model `after` relates
/// to the model `before`, and which message follows.
///
/// Where the backend or the editor is called, what they return decides
/// between the outcomes that are listed; which one it is, is not known
/// here.
pub open spec fn transition<B: NoteBackend>(
    before: &Model<B>,
    msg: Message,
    after: &Model<B>,
    next: Option<Message>,
) -> bool {
    match msg {
        Message::Exit => {
            &&& after.running_state == RunningState::Exit
            &&& after.input_mode == before.input_mode
            &&& after.views == before.views
            &&& after.note_store == before.note_store
            &&& after.backend == before.backend
            &&& next is None
        },
        Message::ClearScreen | Message::RunSearch(_) | Message::Error(_) => {
            &&& *after == *before
            &&& next is None
        },
        Message::InputMode(mode) => {
            &&& after.input_mode == mode
            &&& after.running_state == before.running_state
            &&& after.views == before.views
            &&& after.note_store == before.note_store
            &&& after.backend == before.backend
            &&& next is None
        },
        Message::PrevNote => {
            &&& after.same_but_highlight(before)
            &&& after.views.note_list.highlighted() == Some(
                step_up(before.views.note_list.highlighted()),
            )
            &&& next is None
        },
        Message::NextNote => {
            &&& after.same_but_highlight(before)
            &&& after.views.note_list.highlighted() == Some(
                step_down(before.views.note_list.highlighted()),
            )
            &&& next is None
        },
        Message::DeleteNote => {
            &&& *after == *before
            &&& match before.selected_index() {
                Some(_) => next == Some(Message::RetrieveNotes) || next matches Some(
                    Message::Error(_),
                ),
                None => next is None,
            }
        },
        Message::EditNote => match before.selected_index() {
            Some(index) => {
                ||| text_edited(before, after, index) && next == Some(Message::ClearScreen)
                ||| *after == *before && next matches Some(Message::Error(_))
            },
            None => *after == *before && next is None,
        },
        Message::OpenPopup(kind) => {
            &&& after.same_but_popup(before)
            &&& match kind {
                PopupType::EditNote => match before.selected_index() {
                    Some(index) => {
                        &&& after.views.popup matches Some(popup)
                        &&& opened(
                            popup,
                            kind,
                            seq![
                                before.note_store.notes()[index]@.label,
                                joined(before.note_store.notes()[index]@.tags, seq![',']),
                            ],
                        )
                        &&& next == Some(Message::InputMode(InputMode::EditNoteInfoPopup))
                    },
                    None => after.views.popup == before.views.popup && next is None,
                },
                _ => {
                    &&& after.views.popup matches Some(popup)
                    &&& opened(popup, kind, seq![Seq::<char>::empty(), Seq::<char>::empty()])
                    &&& next == Some(Message::InputMode(form_mode(kind)))
                },
            }
        },
        Message::ClosePopup => {
            &&& after.same_but_popup(before)
            &&& after.views.popup == match before.input_mode {
                InputMode::SelectionPopup => before.views.popup,
                _ => None,
            }
            &&& next == Some(Message::InputMode(InputMode::Navigating))
        },
        Message::SubmitForm => match before.views.popup {
            None => *after == *before && next is None,
            Some(popup) => match popup.popup_type {
                PopupType::SearchNote => *after == *before && next == Some(Message::ClosePopup),
                PopupType::NewNote => {
                    ||| after.reloaded(before) && next == Some(Message::ClosePopup)
                    ||| *after == *before && next matches Some(Message::Error(_))
                },
                PopupType::EditNote => if popup.state@.fields[0].len() == 0 {
                    *after == *before && next == Some(Message::ClosePopup)
                } else if before.selected_index() is None {
                    *after == *before && next is None
                } else {
                    ||| after.reloaded(before) && next == Some(Message::ClosePopup)
                    ||| *after == *before && next matches Some(Message::Error(_))
                },
            },
        },
        Message::RetrieveNotes => {
            ||| after.reloaded(before) && next is None
            ||| *after == *before && next matches Some(Message::Error(_))
        },
        Message::PerformSearch => match before.views.popup {
            None => *after == *before && next is None,
            Some(popup) => if forall|i: int|
                0 <= i < popup.state@.fields.len() ==> (#[trigger] popup.state@.fields[i]).len()
                    == 0 {
                &&& after.same_but_store(before)
                &&& after.same_notes(before)
                &&& after.note_store.matched() is None
                &&& next is None
            } else {
                &&& *after == *before
                &&& next matches Some(Message::RunSearch(plan))
                &&& planned(
                    plan,
                    before.note_store.notes(),
                    popup.state@.fields[0],
                    popup.state@.fields[1],
                )
            },
        },
        Message::SearchFinished(output) => {
            &&& after.same_but_store(before)
            &&& after.same_notes(before)
            &&& after.note_store.matched() == Some(
                search_result(output.note_text(), output.tag_texts()).intersect(
                    present_ids(before.note_store.notes()),
                ),
            )
            &&& next is None
        },
        Message::CleanState => {
            &&& after.input_mode == InputMode::Navigating
            &&& after.running_state == before.running_state
            &&& after.backend == before.backend
            &&& after.same_notes(before)
            &&& after.note_store.matched() is None
            &&& after.views.note_list.highlighted() == Some(0usize)
            &&& after.views.popup == before.views.popup
            &&& after.views.text_area == before.views.text_area
            &&& next is None
        },
        Message::AddChar(c) => popup_edited(before, after, Edit::Insert(c)) && next
            == match before.views.popup {
            Some(popup) => after_change(popup.popup_type),
            None => None,
        },
        Message::RemoveChar => popup_edited(before, after, Edit::Backspace) && next
            == match before.views.popup {
            Some(popup) => after_change(popup.popup_type),
            None => None,
        },
        Message::PrevField => popup_edited(before, after, Edit::PrevField) && next is None,
        Message::NextField => popup_edited(before, after, Edit::NextField) && next is None,
        Message::OpenSelection => {
            &&& after.same_but_popup(before)
            &&& match before.views.popup {
                Some(was) => {
                    &&& after.views.popup matches Some(now)
                    &&& now.state == was.state
                    &&& now.popup_type == was.popup_type
                    &&& now.wf()
                    &&& now.selection_popup matches Some(list)
                    &&& texts(list.items@) == tag_universe(before.note_store.notes())
                    &&& list.selected_indices@ == Set::<usize>::empty()
                    &&& list.cursor() is None
                    &&& list.wf()
                    &&& next == Some(Message::InputMode(InputMode::SelectionPopup))
                },
                None => after.views.popup is None && next is None,
            }
        },
        Message::NextSelection => selector_moved(before, after, Pick::Down) && next is None,
        Message::PrevSelection => selector_moved(before, after, Pick::Up) && next is None,
        Message::MakeSelection => selection_changed(before, after, Pick::Select) && next
            == match before.views.popup {
            Some(popup) => after_change(popup.popup_type),
            None => None,
        },
        Message::UnmakeSelection => selection_changed(before, after, Pick::Unselect) && next
            == match before.views.popup {
            Some(popup) => after_change(popup.popup_type),
            None => None,
        },
        Message::CloseSelection => selection_closed(before, after) && next == Some(
            Message::InputMode(
                match before.views.popup {
                    Some(popup) => form_mode(popup.popup_type),
                    None => InputMode::Navigating,
                },
            ),
        ),
        Message::NextSortMode => {
            &&& after.same_but_store(before)
            &&& after.note_store.notes() == before.note_store.notes()
            &&& after.note_store.matched() == before.note_store.matched()
            &&& after.note_store.mode() == before.note_store.mode().following()
            &&& next is None
        },
        Message::PrevSortMode => {
            &&& after.same_but_store(before)
            &&& after.note_store.notes() == before.note_store.notes()
            &&& after.note_store.matched() == before.note_store.matched()
            &&& after.note_store.mode() == before.note_store.mode().preceding()
            &&& next is None
        },
    }
}

/// Whether `plan` is what a search for the two queries hands to the
/// matcher over `notes`.
pub open spec fn planned(
    plan: SearchPlan,
    notes: Seq<Note>,
    note_search: Seq<char>,
    tag_search: Seq<char>,
) -> bool {
    &&& match plan.note_term {
        Some(term) => note_search.len() > 0 && term@ == note_search,
        None => note_search.len() == 0,
    }
    &&& texts(plan.tag_terms@) == tag_list(tag_search)
    &&& texts(plan.note_lines@) == Seq::new(notes.len(), |i: int| note_line(notes[i]))
    &&& texts(plan.tag_lines@) == Seq::new(notes.len(), |i: int| tag_line(notes[i]))
}

/// What follows the backend's answer to a deletion: a reload where it
/// went well, the report of the failure where it did not.
pub fn delete_outcome(res: Result<(), String>) -> (next: Option<Message>)
    ensures
        next == match res {
            Ok(_) => Some(Message::RetrieveNotes),
            Err(e) => Some(Message::Error(e)),
        },
{
    match handle_result(res) {
        Some(report) => Some(report),
        None => Some(Message::RetrieveNotes),
    }
}

/// Takes in what the backend answered to a request for all notes: the
/// notes take the place of the stored ones and the filter goes; a failure
/// leaves the store as it is and is reported.
pub fn reload(store: &mut NoteStore, loaded: Result<Vec<Note>, String>) -> (next: Option<Message>)
    ensures
        match loaded {
            Ok(notes) => {
                &&& final(store).notes() == notes@
                &&& final(store).matched() is None
                &&& final(store).mode() == old(store).mode()
                &&& next is None
            },
            Err(e) => *final(store) == *old(store) && next == Some(Message::Error(e)),
        },
{
    match loaded {
        Ok(notes) => {
            store.update_notes(notes);
            None
        },
        Err(e) => Some(Message::Error(e)),
    }
}

/// Takes in what the editor handed back for the note at view index
/// `index`: the new text goes into the note, and the screen is to be
/// cleared; a failure of the editor leaves the note as it is and is
/// reported. Without a note at that index nothing happens.
pub fn apply_edited_text(store: &mut NoteStore, index: usize, edited: Result<String, String>) -> (next:
    Option<Message>)
    ensures
        final(store).matched() == old(store).matched(),
        final(store).mode() == old(store).mode(),
        if index < old(store).view_order().len() {
            match edited {
                Ok(text) => {
                    &&& final(store).notes().len() == old(store).notes().len()
                    &&& forall|i: int|
                        0 <= i < old(store).notes().len() && i != old(store).view_order()[index as int]
                            ==> #[trigger] final(store).notes()[i] == old(store).notes()[i]
                    &&& final(store).notes()[old(store).view_order()[index as int] as int]@
                        == (NoteView { text: text@, ..old(store).viewed(index as int)@ })
                    &&& next == Some(Message::ClearScreen)
                },
                Err(e) => *final(store) == *old(store) && next == Some(Message::Error(e)),
            }
        } else {
            *final(store) == *old(store) && next is None
        },
{
    proof {
        store.lemma_view_order();
    }
    if store.get_note(index).is_none() {
        return None;
    }
    match edited {
        Ok(text) => {
            if let Some(note) = store.get_note_as_mut(index) {
                note.text = text;
            }
            Some(Message::ClearScreen)
        },
        Err(e) => Some(Message::Error(e)),
    }
}

/// Opens a popup of the given kind. The form for a note's label and tags
/// opens on the highlighted note, and not at all without one.
fn open_popup<B: NoteBackend>(model: &mut Model<B>, kind: PopupType) -> (next: Option<Message>)
    requires
        old(model).wf(),
    ensures
        final(model).wf(),
        transition(old(model), Message::OpenPopup(kind), final(model), next),
{
    proof {
        model.note_store.lemma_view_order();
        reveal_strlit(",");
        assert(","@ =~= seq![',']);
    }
    let form = match kind {
        PopupType::EditNote => {
            let selected = match model.views.note_list.selected_selection() {
                Some(selected) => selected,
                None => {
                    return None;
                },
            };
            match model.note_store.get_note(selected) {
                Some(note) => {
                    let mut fields: Vec<String> = Vec::new();
                    fields.push(note.label.clone());
                    fields.push(join(&note.tags, ","));
                    assert(texts(fields@) =~= seq![note@.label, joined(note@.tags, seq![','])]);
                    Form::with_fields(fields)
                },
                None => {
                    return None;
                },
            }
        },
        _ => {
            let form = Form::new(2);
            assert(form@ =~= seq![Seq::<char>::empty(), Seq::<char>::empty()]);
            form
        },
    };
    let mut popup = Popup::new(form, kind);
    popup.cursors_to_end();
    assert(popup.state@.cursors =~= Seq::new(
        popup.state@.fields.len(),
        |i: int| popup.state@.fields[i].len() as int,
    ));
    model.views.popup = Some(popup);
    Some(Message::InputMode(mode_of(kind)))
}

/// Loads the notes anew from the backend.
fn retrieve<B: NoteBackend>(model: &mut Model<B>) -> (next: Option<Message>)
    requires
        old(model).wf(),
    ensures
        final(model).wf(),
        final(model).reloaded(old(model)) && next is None || *final(model) == *old(model) && (
        next matches Some(Message::Error(_))),
{
    let loaded = model.backend.retrieve_notes();
    reload(&mut model.note_store, loaded)
}

/// Submits the form of the open popup. A form without a label is not
/// handed to the backend. A new note is handed over as
/// [`Form::to_unsaved_note`] makes it, a changed one as [`edited_note`]
/// makes it from the highlighted note; after either the notes are loaded
/// anew. The search form has nothing to hand over: it has searched on every
/// key.
fn submit_form<B: NoteBackend>(model: &mut Model<B>) -> (next: Option<Message>)
    requires
        old(model).wf(),
    ensures
        final(model).wf(),
        transition(old(model), Message::SubmitForm, final(model), next),
{
    proof {
        model.note_store.lemma_view_order();
    }
    let kind = match &model.views.popup {
        Some(popup) => popup.popup_type,
        None => {
            return None;
        },
    };
    match kind {
        PopupType::SearchNote => Some(Message::ClosePopup),
        PopupType::NewNote => {
            if let Some(popup) = &model.views.popup {
                if !popup.state.form.field_content(0).is_empty() {
                    let note = popup.state.form.to_unsaved_note();
                    let sent = handle_result(model.backend.add_note(note));
                    if sent.is_some() {
                        return sent;
                    }
                }
            }
            match retrieve(model) {
                Some(report) => Some(report),
                None => Some(Message::ClosePopup),
            }
        },
        PopupType::EditNote => {
            if let Some(popup) = &model.views.popup {
                if popup.state.form.field_content(0).is_empty() {
                    return Some(Message::ClosePopup);
                }
                let selected = match model.views.note_list.selected_selection() {
                    Some(selected) => selected,
                    None => {
                        return None;
                    },
                };
                let note = match model.note_store.get_note(selected) {
                    Some(note) => edited_note(
                        note,
                        popup.state.form.field_content(0),
                        popup.state.form.field_content(1),
                    ),
                    None => {
                        return None;
                    },
                };
                let sent = handle_result(model.backend.update_note(&note));
                if sent.is_some() {
                    return sent;
                }
            }
            match retrieve(model) {
                Some(report) => Some(report),
                None => Some(Message::ClosePopup),
            }
        },
    }
}

/// Decides what a search needs: nothing without a popup, no filter for an
/// empty form, and else a run of the matcher.
fn perform_search<B: NoteBackend>(model: &mut Model<B>) -> (next: Option<Message>)
    requires
        old(model).wf(),
    ensures
        final(model).wf(),
        transition(old(model), Message::PerformSearch, final(model), next),
{
    if let Some(popup) = &model.views.popup {
        let form = &popup.state.form;
        if !form.is_empty() {
            let plan = search_plan(
                model.note_store.get_notes_unfiltered(),
                form.field_content(0),
                form.field_content(1),
            );
            return Some(Message::RunSearch(plan));
        } else {
            model.note_store.remove_filter();
        }
    }
    None
}

/// Makes a step in the pick-list that changes the selection, and writes
/// the selection into the focused field.
fn change_selection<B: NoteBackend>(model: &mut Model<B>, select: bool) -> (next: Option<Message>)
    requires
        old(model).wf(),
    ensures
        final(model).wf(),
        select ==> transition(old(model), Message::MakeSelection, final(model), next),
        !select ==> transition(old(model), Message::UnmakeSelection, final(model), next),
{
    proof {
        reveal_strlit(",");
        assert(","@ =~= seq![',']);
    }
    if let Some(popup) = model.views.popup.as_mut() {
        if select {
            popup.make_selection();
        } else {
            popup.unmake_selection();
        }
        let content = join(&popup.retrieve_selection(), ",");
        popup.replace_selected_field(content.as_str());
        return match popup.popup_type {
            PopupType::SearchNote => Some(Message::PerformSearch),
            _ => None,
        };
    }
    None
}

/// Closes the pick-list and writes the selection into the focused field.
fn close_selection<B: NoteBackend>(model: &mut Model<B>) -> (next: Option<Message>)
    requires
        old(model).wf(),
    ensures
        final(model).wf(),
        transition(old(model), Message::CloseSelection, final(model), next),
{
    proof {
        reveal_strlit(",");
        assert(","@ =~= seq![',']);
    }
    if let Some(popup) = model.views.popup.as_mut() {
        let content = join(&popup.retrieve_selection(), ",");
        popup.replace_selected_field(content.as_str());
        popup.close_selector();
        return Some(Message::InputMode(mode_of(popup.popup_type)));
    }
    Some(Message::InputMode(InputMode::Navigating))
}

/// Edits the form of the open popup.
fn edit_popup<B: NoteBackend>(model: &mut Model<B>, msg: Message) -> (next: Option<Message>)
    requires
        old(model).wf(),
        msg is AddChar || msg is RemoveChar || msg is PrevField || msg is NextField,
    ensures
        final(model).wf(),
        transition(old(model), msg, final(model), next),
{
    if let Some(popup) = model.views.popup.as_mut() {
        match msg {
            Message::AddChar(c) => {
                popup.add_char(c);
            },
            Message::RemoveChar => {
                popup.remove_char();
            },
            Message::PrevField => {
                popup.prev_field();
                return None;
            },
            _ => {
                popup.next_field();
                return None;
            },
        }
        return match popup.popup_type {
            PopupType::SearchNote => Some(Message::PerformSearch),
            _ => None,
        };
    }
    None
}

/// Moves the highlight of the pick-list, or opens the pick-list on the
/// tags of all notes.
fn move_selector<B: NoteBackend>(model: &mut Model<B>, msg: Message) -> (next: Option<Message>)
    requires
        old(model).wf(),
        msg is OpenSelection || msg is NextSelection || msg is PrevSelection,
    ensures
        final(model).wf(),
        transition(old(model), msg, final(model), next),
{
    if let Some(popup) = model.views.popup.as_mut() {
        match msg {
            Message::OpenSelection => {
                let tags = model.note_store.get_tags();
                popup.init_selector(&tags);
                return Some(Message::InputMode(InputMode::SelectionPopup));
            },
            Message::NextSelection => {
                popup.next_selection();
            },
            _ => {
                popup.prev_selection();
            },
        }
    }
    None
}

/// Asks the backend to delete the highlighted note.
fn delete_note<B: NoteBackend>(model: &mut Model<B>) -> (next: Option<Message>)
    requires
        old(model).wf(),
    ensures
        final(model).wf(),
        transition(old(model), Message::DeleteNote, final(model), next),
{
    proof {
        model.note_store.lemma_view_order();
    }
    if let Some(selected) = model.views.note_list.selected_selection() {
        if let Some(note) = model.note_store.get_note(selected) {
            return delete_outcome(model.backend.delete_note(note.id));
        }
    }
    None
}

/// Hands the text of the highlighted note to the editor and takes in what
/// comes back.
fn edit_note<B: NoteBackend, E: TextEditor>(model: &mut Model<B>) -> (next: Option<Message>)
    requires
        old(model).wf(),
    ensures
        final(model).wf(),
        transition(old(model), Message::EditNote, final(model), next),
{
    proof {
        model.note_store.lemma_view_order();
    }
    if let Some(selected) = model.views.note_list.selected_selection() {
        if let Some(note) = model.note_store.get_note(selected) {
            let edited = E::open_temp_file(note.text.as_str());
            return apply_edited_text(&mut model.note_store, selected, edited);
        }
    }
    None
}

/// Applies one message to the model and says which message follows, if
/// any. The caller hands the following message back in before it reads the
/// next key.
///
/// The backend `B` and the editor `E` are called from here. The terminal
/// and the matcher are not: on `ClearScreen` and `RunSearch` nothing
/// happens here, they are the caller's to perform.
pub fn update<B: NoteBackend, E: TextEditor>(model: &mut Model<B>, msg: Message) -> (next: Option<
    Message,
>)
    requires
        old(model).wf(),
    ensures
        final(model).wf(),
        transition(old(model), msg, final(model), next),
{
    match msg {
        Message::Exit => {
            model.running_state = RunningState::Exit;
            None
        },
        Message::ClearScreen => None,
        Message::RunSearch(_) => None,
        Message::Error(_) => None,
        Message::InputMode(mode) => {
            model.input_mode = mode;
            None
        },
        Message::PrevNote => {
            model.views.note_list.prev_selection();
            None
        },
        Message::NextNote => {
            model.views.note_list.next_selection();
            None
        },
        Message::DeleteNote => delete_note(model),
        Message::EditNote => edit_note::<B, E>(model),
        Message::OpenPopup(kind) => open_popup(model, kind),
        Message::ClosePopup => {
            match model.input_mode {
                InputMode::SelectionPopup => {},
                _ => {
                    model.views.popup = None;
                },
            }
            Some(Message::InputMode(InputMode::Navigating))
        },
        Message::SubmitForm => submit_form(model),
        Message::RetrieveNotes => retrieve(model),
        Message::PerformSearch => perform_search(model),
        Message::SearchFinished(output) => {
            let matched = fzf_search(&output);
            model.note_store.update_filter(matched);
            None
        },
        Message::CleanState => {
            model.input_mode = InputMode::Navigating;
            model.note_store.remove_filter();
            model.views.note_list.reset_selection();
            None
        },
        Message::AddChar(_) | Message::RemoveChar | Message::PrevField | Message::NextField => {
            edit_popup(model, msg)
        },
        Message::OpenSelection | Message::NextSelection | Message::PrevSelection => {
            move_selector(model, msg)
        },
        Message::UnmakeSelection => change_selection(model, false),
        Message::MakeSelection => change_selection(model, true),
        Message::CloseSelection => close_selection(model),
        Message::NextSortMode => {
            model.note_store.next_sort_mode();
            None
        },
        Message::PrevSortMode => {
            model.note_store.prev_sort_mode();
            None
        },
    }
}

} // verus!
