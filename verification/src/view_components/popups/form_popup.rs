use super::selection::{chosen, SelectionPopup};
use super::{InputCursor, PopupType, SelectionPopupFields};
use crate::forms::Form;
use crate::text::{byte_index, lemma_byte_offset_bounds, lemma_offset_is_boundary, texts};
use crate::view_components::list_state::{step_down, step_up};
use crate::view_components::InteractiveList;
use vstd::prelude::*;
use vstd::string::*;

verus! {

/// What a popup's editing state holds: the text of each field, the index of
/// the focused field, and for each field the cursor, counted in scalars.
pub struct PopupView {
    pub fields: Seq<Seq<char>>,
    pub focus: int,
    pub cursors: Seq<int>,
}

/// One step of editing.
pub enum Edit {
    Insert(char),
    Backspace,
    Left,
    Right,
    Home,
    End,
    NextField,
    PrevField,
    Replace(Seq<char>),
    AllToEnd,
}

impl PopupView {
    /// The focus is on a field, and each field's cursor lies within its
    /// text or at its end.
    pub open spec fn wf(self) -> bool {
        &&& 0 <= self.focus < self.fields.len()
        &&& self.cursors.len() == self.fields.len()
        &&& forall|i: int|
            0 <= i < self.fields.len() ==> 0 <= #[trigger] self.cursors[i] <= self.fields[i].len()
    }

    /// The cursor of the focused field.
    pub open spec fn cursor(self) -> int {
        self.cursors[self.focus]
    }

    /// The text of the focused field.
    pub open spec fn text(self) -> Seq<char> {
        self.fields[self.focus]
    }

    /// The same state with the focused field's cursor at `k`.
    pub open spec fn with_cursor(self, k: int) -> PopupView {
        PopupView { cursors: self.cursors.update(self.focus, k), ..self }
    }

    /// The same state with `text` in the focused field.
    pub open spec fn with_text(self, text: Seq<char>) -> PopupView {
        PopupView { fields: self.fields.update(self.focus, text), ..self }
    }

    /// `c` goes in at the cursor, and the cursor moves past it.
    pub open spec fn insert(self, c: char) -> PopupView {
        self.with_text(self.text().insert(self.cursor(), c)).with_cursor(self.cursor() + 1)
    }

    /// The scalar in front of the cursor goes, and the cursor moves back
    /// by one; at the start of the field nothing changes.
    pub open spec fn backspace(self) -> PopupView {
        if self.cursor() <= 0 {
            self
        } else {
            self.with_text(self.text().remove(self.cursor() - 1)).with_cursor(self.cursor() - 1)
        }
    }

    pub open spec fn left(self) -> PopupView {
        if self.cursor() <= 0 {
            self
        } else {
            self.with_cursor(self.cursor() - 1)
        }
    }

    pub open spec fn right(self) -> PopupView {
        if self.cursor() >= self.text().len() {
            self
        } else {
            self.with_cursor(self.cursor() + 1)
        }
    }

    pub open spec fn home(self) -> PopupView {
        self.with_cursor(0)
    }

    pub open spec fn end(self) -> PopupView {
        self.with_cursor(self.text().len() as int)
    }

    /// The focus moves to the next field, from the last to the first. The
    /// cursors stay.
    pub open spec fn next_field(self) -> PopupView {
        PopupView { focus: (self.focus + 1) % (self.fields.len() as int), ..self }
    }

    /// The focus moves to the field before, from the first to the last.
    /// The cursors stay.
    pub open spec fn prev_field(self) -> PopupView {
        PopupView {
            focus: (self.focus + self.fields.len() - 1) % (self.fields.len() as int),
            ..self
        }
    }

    /// `content` takes the place of the focused field's text, and the
    /// cursor goes to its end.
    pub open spec fn replace(self, content: Seq<char>) -> PopupView {
        self.with_text(content).with_cursor(content.len() as int)
    }

    /// Every field's cursor goes to the end of its text.
    pub open spec fn all_to_end(self) -> PopupView {
        PopupView {
            cursors: Seq::new(self.fields.len(), |i: int| self.fields[i].len() as int),
            ..self
        }
    }

    /// The state after one step of editing.
    pub open spec fn apply(self, edit: Edit) -> PopupView {
        match edit {
            Edit::Insert(c) => self.insert(c),
            Edit::Backspace => self.backspace(),
            Edit::Left => self.left(),
            Edit::Right => self.right(),
            Edit::Home => self.home(),
            Edit::End => self.end(),
            Edit::NextField => self.next_field(),
            Edit::PrevField => self.prev_field(),
            Edit::Replace(content) => self.replace(content),
            Edit::AllToEnd => self.all_to_end(),
        }
    }

    /// The state after the steps of `edits`, first to last.
    pub open spec fn apply_all(self, edits: Seq<Edit>) -> PopupView
        decreases edits.len(),
    {
        if edits.len() == 0 {
            self
        } else {
            self.apply_all(edits.drop_last()).apply(edits.last())
        }
    }
}

/// One step of editing leaves every cursor within its field.
pub proof fn lemma_edit_keeps_cursors_in_bounds(view: PopupView, edit: Edit)
    requires
        view.wf(),
    ensures
        view.apply(edit).wf(),
{
    let after = view.apply(edit);
    match edit {
        Edit::NextField | Edit::PrevField => {
            let n = view.fields.len() as int;
            assert(0 <= (view.focus + 1) % n < n);
            assert(0 <= (view.focus + n - 1) % n < n);
        },
        _ => {},
    }
    assert forall|i: int| 0 <= i < after.fields.len() implies 0 <= #[trigger] after.cursors[i]
        <= after.fields[i].len() by {
        assert(0 <= view.cursors[i] <= view.fields[i].len());
    }
}

/// After any sequence of insertions, removals, cursor moves, changes of
/// focus and replacements, every cursor lies within its field, between 0 and
/// the number of scalars in it.
pub proof fn lemma_edits_keep_cursors_in_bounds(view: PopupView, edits: Seq<Edit>)
    requires
        view.wf(),
    ensures
        view.apply_all(edits).wf(),
    decreases edits.len(),
{
    if edits.len() > 0 {
        lemma_edits_keep_cursors_in_bounds(view, edits.drop_last());
        lemma_edit_keeps_cursors_in_bounds(view.apply_all(edits.drop_last()), edits.last());
    }
}

/// In a well-formed state the focused field's cursor lies within its text.
pub proof fn lemma_focused_cursor_in_bounds(view: PopupView)
    requires
        view.wf(),
    ensures
        0 <= view.cursor() <= view.text().len(),
{
    assert(0 <= view.cursors[view.focus] <= view.fields[view.focus].len());
}

/// The editing state of a popup.
pub struct PopupState {
    pub form: Form,
    pub selected_field: usize,
    pub selected_char_indices: Vec<usize>,
}

impl View for PopupState {
    type V = PopupView;

    open spec fn view(&self) -> PopupView {
        PopupView {
            fields: self.form@,
            focus: self.selected_field as int,
            cursors: Seq::new(
                self.selected_char_indices@.len(),
                |i: int| self.selected_char_indices@[i] as int,
            ),
        }
    }
}

impl PopupState {
    /// See [`PopupView::wf`].
    pub open spec fn wf(&self) -> bool {
        self@.wf()
    }

    /// Whether the focus is on a field and every cursor within its field.
    pub fn is_well_formed(&self) -> (r: bool)
        ensures
            r == self.wf(),
    {
        let count = self.form.field_count();
        if self.selected_field >= count || self.selected_char_indices.len() != count {
            return false;
        }
        let mut i: usize = 0;
        while i < count
            invariant
                i <= count,
                count == self.form@.len(),
                self.selected_char_indices@.len() == count,
                forall|j: int| 0 <= j < i ==> 0 <= #[trigger] self@.cursors[j] <= self.form@[j].len(),
            decreases count - i,
        {
            if self.selected_char_indices[i] > self.form.field_content(i).unicode_len() {
                assert(!(self@.cursors[i as int] <= self@.fields[i as int].len()));
                return false;
            }
            i += 1;
        }
        true
    }

    /// The state of a popup that was just opened on `form`: the focus is on
    /// the first field and every cursor at the start. It is well formed
    /// where the form has a field.
    pub fn new(form: Form) -> (state: Self)
        ensures
            state@.fields == form@,
            state@.focus == 0,
            state@.cursors == Seq::new(form@.len(), |i: int| 0int),
            state.wf() <==> form@.len() > 0,
    {
        let fields = form.field_count();
        let mut cursors: Vec<usize> = Vec::new();
        let mut i: usize = 0;
        while i < fields
            invariant
                i <= fields,
                cursors@.len() == i,
                forall|j: int| 0 <= j < i ==> cursors@[j] == 0,
            decreases fields - i,
        {
            cursors.push(0);
            i += 1;
        }
        let state = Self { form, selected_field: 0, selected_char_indices: cursors };
        assert(state@.cursors =~= Seq::new(form@.len(), |i: int| 0int));
        state
    }
}

/// What a step in the pick-list does to it.
pub enum Pick {
    /// The highlight goes one row down.
    Down,
    /// The highlight goes one row up.
    Up,
    /// The highlighted item is selected, where the highlight is on an
    /// item.
    Select,
    /// The highlighted item is taken out of the selection.
    Unselect,
}

/// Whether the step `pick` leads from the pick-list `before` to `after`.
/// Where none is open, none is open afterwards.
pub open spec fn picked(
    after: Option<SelectionPopup>,
    before: Option<SelectionPopup>,
    pick: Pick,
) -> bool {
    match before {
        Some(was) => after matches Some(now) && now.items == was.items && (was.wf()
            ==> now.wf()) && match pick {
            Pick::Down => now.selected_indices == was.selected_indices && now.cursor() == Some(
                step_down(was.cursor()),
            ),
            Pick::Up => now.selected_indices == was.selected_indices && now.cursor() == Some(
                step_up(was.cursor()),
            ),
            Pick::Select => now.cursor() == was.cursor() && now.selected_indices@
                == match was.cursor() {
                Some(i) if i < was.items@.len() => was.selected_indices@.insert(i),
                _ => was.selected_indices@,
            },
            Pick::Unselect => now.cursor() == was.cursor() && now.selected_indices@
                == match was.cursor() {
                Some(i) => was.selected_indices@.remove(i),
                None => was.selected_indices@,
            },
        },
        None => after is None,
    }
}

/// The selected items of the pick-list, in the order of the list; none
/// where no pick-list is open.
pub open spec fn selection_of(selector: Option<SelectionPopup>) -> Seq<Seq<char>> {
    match selector {
        Some(list) => chosen(texts(list.items@), list.selected_indices@),
        None => Seq::empty(),
    }
}

/// A form laid over the screen, with its cursors and, while the user picks
/// from a list, the pick-list.
pub struct Popup {
    pub popup_type: PopupType,
    pub state: PopupState,
    pub selection_popup: Option<SelectionPopup>,
}

impl Popup {
    /// The editing state is well formed.
    pub open spec fn wf(&self) -> bool {
        self.state.wf()
    }

    /// Whether the focus is on a field and every cursor within its field.
    pub fn is_well_formed(&self) -> (r: bool)
        ensures
            r == self.wf(),
    {
        self.state.is_well_formed()
    }

    /// Whether the editing step `edit` leads from `before` to this popup,
    /// with kind and pick-list as they were.
    pub open spec fn edited(&self, before: &Popup, edit: Edit) -> bool {
        &&& self.state@ == before.state@.apply(edit)
        &&& self.popup_type == before.popup_type
        &&& self.selection_popup == before.selection_popup
        &&& self.wf()
    }

    /// A popup of the given kind on `form`, without a pick-list.
    pub fn new(form: Form, popup_type: PopupType) -> (popup: Self)
        ensures
            popup.popup_type == popup_type,
            popup.state@.fields == form@,
            popup.state@.focus == 0,
            popup.state@.cursors == Seq::new(form@.len(), |i: int| 0int),
            popup.selection_popup is None,
            popup.wf() <==> form@.len() > 0,
    {
        Self { popup_type, state: PopupState::new(form), selection_popup: None }
    }

    /// Moves the focus to the next field, from the last to the first.
    pub fn next_field(&mut self)
        requires
            old(self).wf(),
        ensures
            final(self).edited(old(self), Edit::NextField),
    {
        let count = self.state.form.field_count();
        let field = self.state.selected_field;
        self.state.selected_field = if field + 1 == count {
            0
        } else {
            field + 1
        };
        proof {
            lemma_edit_keeps_cursors_in_bounds(old(self).state@, Edit::NextField);
            let n = count as int;
            assert(n % n == 0) by (nonlinear_arith)
                requires
                    n > 0,
            ;
            if field + 1 < n {
                assert((field + 1) % n == field + 1) by (nonlinear_arith)
                    requires
                        0 <= field + 1 < n,
                ;
            }
            assert(self.state@.cursors =~= old(self).state@.cursors);
        }
    }

    /// Moves the focus to the field before, from the first to the last.
    pub fn prev_field(&mut self)
        requires
            old(self).wf(),
        ensures
            final(self).edited(old(self), Edit::PrevField),
    {
        let count = self.state.form.field_count();
        let field = self.state.selected_field;
        self.state.selected_field = if field == 0 {
            count - 1
        } else {
            field - 1
        };
        proof {
            lemma_edit_keeps_cursors_in_bounds(old(self).state@, Edit::PrevField);
            let n = count as int;
            if field > 0 {
                assert((field + n - 1) % n == field - 1) by (nonlinear_arith)
                    requires
                        0 < field < n,
                ;
            } else {
                assert((0 + n - 1) % n == n - 1) by (nonlinear_arith)
                    requires
                        0 < n,
                ;
            }
            assert(self.state@.cursors =~= old(self).state@.cursors);
        }
    }

    /// Puts `c` into the focused field at the cursor and moves the cursor
    /// past it.
    pub fn add_char(&mut self, c: char)
        requires
            old(self).wf(),
        ensures
            final(self).edited(old(self), Edit::Insert(c)),
    {
        let field = self.state.selected_field;
        let index = self.state.selected_char_indices[field];
        let content = self.state.form.field_content(field);
        let at = byte_index(content, index);
        proof {
            lemma_focused_cursor_in_bounds(old(self).state@);
            lemma_offset_is_boundary(old(self).state@.text(), index as int);
        }
        self.state.form.insert_in_field(field, at, c);
        proof {
            assert(self.state@.cursors =~= old(self).state@.cursors);
            assert(self.state@ == old(self).state@.with_text(
                old(self).state@.text().insert(index as int, c),
            ));
        }
        self.move_right();
        proof {
            lemma_edit_keeps_cursors_in_bounds(old(self).state@, Edit::Insert(c));
            assert(self.state@.cursors =~= old(self).state@.insert(c).cursors);
        }
    }

    /// Takes the scalar in front of the cursor out of the focused field and
    /// moves the cursor back by one. At the start of the field nothing
    /// changes.
    pub fn remove_char(&mut self)
        requires
            old(self).wf(),
        ensures
            final(self).edited(old(self), Edit::Backspace),
    {
        let field = self.state.selected_field;
        let index = self.state.selected_char_indices[field];
        let content = self.state.form.field_content(field);
        let at = byte_index(content, index);
        proof {
            lemma_focused_cursor_in_bounds(old(self).state@);
            lemma_offset_is_boundary(old(self).state@.text(), index as int);
            lemma_byte_offset_bounds(old(self).state@.text(), index as int);
        }
        self.state.form.remove_in_field(field, at);
        proof {
            assert(self.state@.cursors =~= old(self).state@.cursors);
            if index > 0 {
                assert(self.state@ == old(self).state@.with_text(
                    old(self).state@.text().remove(index - 1),
                ));
            } else {
                assert(self.state@.fields =~= old(self).state@.fields);
            }
        }
        if index > 0 {
            self.state.selected_char_indices[field] = index - 1;
        }
        proof {
            lemma_edit_keeps_cursors_in_bounds(old(self).state@, Edit::Backspace);
            assert(self.state@.cursors =~= old(self).state@.backspace().cursors);
        }
    }

    /// Puts `content` in place of the focused field's text and the cursor
    /// at its end.
    pub fn replace_selected_field(&mut self, content: &str)
        requires
            old(self).wf(),
        ensures
            final(self).edited(old(self), Edit::Replace(content@)),
    {
        let field = self.state.selected_field;
        self.state.form.replace_field_content(field, content);
        self.state.selected_char_indices[field] = content.unicode_len();
        proof {
            lemma_edit_keeps_cursors_in_bounds(old(self).state@, Edit::Replace(content@));
            assert(self.state@.cursors =~= old(self).state@.replace(content@).cursors);
        }
    }

    /// Puts the cursor of every field at the end of its text.
    pub fn cursors_to_end(&mut self)
        requires
            old(self).wf(),
        ensures
            final(self).edited(old(self), Edit::AllToEnd),
    {
        let count = self.state.form.field_count();
        let mut i: usize = 0;
        while i < count
            invariant
                i <= count,
                count == self.state.form@.len(),
                self.state.form == old(self).state.form,
                self.state.selected_field == old(self).state.selected_field,
                self.popup_type == old(self).popup_type,
                self.selection_popup == old(self).selection_popup,
                self.state.selected_char_indices@.len() == count,
                forall|j: int|
                    0 <= j < i ==> self.state.selected_char_indices@[j]
                        == self.state.form@[j].len(),
            decreases count - i,
        {
            let end = self.state.form.field_content(i).unicode_len();
            self.state.selected_char_indices[i] = end;
            i += 1;
        }
        proof {
            lemma_edit_keeps_cursors_in_bounds(old(self).state@, Edit::AllToEnd);
            assert(self.state@.cursors =~= old(self).state@.all_to_end().cursors);
        }
    }
}

/// The captions that a popup is drawn with: one label for each field, and
/// the lines of help below the fields.
pub struct PopupData<'a> {
    pub labels: &'a [&'a str],
    pub help_texts: &'a [&'a str],
}

impl<'a> PopupData<'a> {
    pub fn new(labels: &'a [&'a str], help_texts: &'a [&'a str]) -> (data: Self)
        ensures
            data.labels == labels,
            data.help_texts == help_texts,
    {
        Self { labels, help_texts }
    }
}

impl InputCursor for Popup {
    open spec fn cursor_ok(&self) -> bool {
        self.wf()
    }

    open spec fn text_len(&self) -> nat {
        self.state@.text().len()
    }

    fn move_left(&mut self)
        ensures
            final(self).edited(old(self), Edit::Left),
    {
        let field = self.state.selected_field;
        let index = self.state.selected_char_indices[field];
        if index > 0 {
            self.state.selected_char_indices[field] = index - 1;
        }
        proof {
            lemma_edit_keeps_cursors_in_bounds(old(self).state@, Edit::Left);
            assert(self.state@.cursors =~= old(self).state@.left().cursors);
        }
    }

    fn move_right(&mut self)
        ensures
            final(self).edited(old(self), Edit::Right),
    {
        let field = self.state.selected_field;
        let index = self.state.selected_char_indices[field];
        let count = self.state.form.field_content(field).unicode_len();
        if index < count {
            self.state.selected_char_indices[field] = index + 1;
        }
        proof {
            lemma_focused_cursor_in_bounds(old(self).state@);
            lemma_edit_keeps_cursors_in_bounds(old(self).state@, Edit::Right);
            assert(self.state@.cursors =~= old(self).state@.right().cursors);
        }
    }

    fn move_to_start(&mut self)
        ensures
            final(self).edited(old(self), Edit::Home),
    {
        let field = self.state.selected_field;
        self.state.selected_char_indices[field] = 0;
        proof {
            lemma_edit_keeps_cursors_in_bounds(old(self).state@, Edit::Home);
            assert(self.state@.cursors =~= old(self).state@.home().cursors);
        }
    }

    fn move_to_end(&mut self)
        ensures
            final(self).edited(old(self), Edit::End),
    {
        let field = self.state.selected_field;
        let end = self.state.form.field_content(field).unicode_len();
        self.state.selected_char_indices[field] = end;
        proof {
            lemma_edit_keeps_cursors_in_bounds(old(self).state@, Edit::End);
            assert(self.state@.cursors =~= old(self).state@.end().cursors);
        }
    }

    fn clamp_cursor(&self, new_pos: usize) -> (pos: usize) {
        let field = self.state.selected_field;
        let count = self.state.form.field_content(field).unicode_len();
        if new_pos <= count {
            new_pos
        } else {
            count
        }
    }
}

impl SelectionPopupFields for Popup {
    fn init_selector(&mut self, items: &Vec<String>)
        ensures
            final(self).state == old(self).state,
            final(self).popup_type == old(self).popup_type,
            final(self).selection_popup matches Some(selector) && texts(selector.items@) == texts(
                items@,
            ) && selector.selected_indices@ == Set::<usize>::empty() && selector.cursor() is None
                && selector.wf(),
    {
        let copy = items.clone();
        assert(texts(copy@) =~= texts(items@));
        self.selection_popup = Some(SelectionPopup::new(copy));
    }

    fn close_selector(&mut self)
        ensures
            final(self).state == old(self).state,
            final(self).popup_type == old(self).popup_type,
            final(self).selection_popup is None,
    {
        self.selection_popup = None;
    }

    fn next_selection(&mut self)
        ensures
            final(self).state == old(self).state,
            final(self).popup_type == old(self).popup_type,
            picked(final(self).selection_popup, old(self).selection_popup, Pick::Down),
    {
        if let Some(popup) = self.selection_popup.as_mut() {
            popup.next_selection();
        }
    }

    fn prev_selection(&mut self)
        ensures
            final(self).state == old(self).state,
            final(self).popup_type == old(self).popup_type,
            picked(final(self).selection_popup, old(self).selection_popup, Pick::Up),
    {
        if let Some(popup) = self.selection_popup.as_mut() {
            popup.prev_selection();
        }
    }

    fn make_selection(&mut self)
        ensures
            final(self).state == old(self).state,
            final(self).popup_type == old(self).popup_type,
            picked(final(self).selection_popup, old(self).selection_popup, Pick::Select),
    {
        if let Some(popup) = self.selection_popup.as_mut() {
            popup.add_selected_to_selection();
        }
    }

    fn unmake_selection(&mut self)
        ensures
            final(self).state == old(self).state,
            final(self).popup_type == old(self).popup_type,
            picked(final(self).selection_popup, old(self).selection_popup, Pick::Unselect),
    {
        if let Some(popup) = self.selection_popup.as_mut() {
            popup.remove_selected_from_selection();
        }
    }

    fn retrieve_selection(&self) -> (items: Vec<String>)
        ensures
            texts(items@) == selection_of(self.selection_popup),
    {
        if let Some(popup) = &self.selection_popup {
            popup.selected_items()
        } else {
            let items: Vec<String> = Vec::new();
            assert(texts(items@) =~= Seq::<Seq<char>>::empty());
            items
        }
    }
}

} // verus!
