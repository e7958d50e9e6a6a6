//! What the library relies on from `ratatui`'s `ListState`, the cursor of a
//! list widget. None of it is proved here: each contract restates the
//! method's source.

use ratatui::widgets::ListState;
use vstd::prelude::*;

verus! {

#[verifier::external_type_specification]
#[verifier::external_body]
pub struct ExListState(ListState);

/// The index that a `ListState` holds as selected, if any.
pub uninterp spec fn list_selected(state: ListState) -> Option<usize>;

/// Where a step down leads: one further, without overflow; to the first
/// item where nothing was selected.
pub open spec fn step_down(selected: Option<usize>) -> usize {
    match selected {
        Some(i) => if i < usize::MAX {
            (i + 1) as usize
        } else {
            i
        },
        None => 0,
    }
}

/// Where a step up leads: one back, stopping at the first item; to the
/// greatest index where nothing was selected, which the widget takes for
/// the last item when it next draws the list.
pub open spec fn step_up(selected: Option<usize>) -> usize {
    match selected {
        Some(i) => if i > 0 {
            (i - 1) as usize
        } else {
            0
        },
        None => usize::MAX,
    }
}

/// `ListState::default`: nothing is selected.
pub assume_specification[ <ListState as core::default::Default>::default ]() -> (state: ListState)
    ensures
        list_selected(state) is None,
;

/// `ListState::selected`: hands out the selected index.
pub assume_specification[ ListState::selected ](state: &ListState) -> (selected: Option<usize>)
    ensures
        selected == list_selected(*state),
;

/// `ListState::select_next`: selects the index after the selected one,
/// saturating, or index 0 where none was selected.
pub assume_specification[ ListState::select_next ](state: &mut ListState)
    ensures
        list_selected(*final(state)) == Some(step_down(list_selected(*old(state)))),
;

/// `ListState::select_previous`: selects the index before the selected
/// one, saturating at 0, or the greatest index where none was selected.
pub assume_specification[ ListState::select_previous ](state: &mut ListState)
    ensures
        list_selected(*final(state)) == Some(step_up(list_selected(*old(state)))),
;

/// `ListState::select_first`: selects index 0.
pub assume_specification[ ListState::select_first ](state: &mut ListState)
    ensures
        list_selected(*final(state)) == Some(0usize),
;

} // verus!
