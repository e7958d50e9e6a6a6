use crate::text::texts;
use crate::view_components::list_state::list_selected;
use crate::view_components::InteractiveList;
use ratatui::widgets::ListState;
use std::collections::HashSet;
use vstd::prelude::*;

verus! {

/// A pick-list over a snapshot of items, any number of which can be
/// selected.
pub struct SelectionPopup {
    pub selected_indices: HashSet<usize>,
    pub state: ListState,
    pub items: Vec<String>,
}

/// The items at the selected indices, in the order of the items.
pub open spec fn chosen(items: Seq<Seq<char>>, selected: Set<usize>) -> Seq<Seq<char>>
    decreases items.len(),
{
    if items.len() == 0 {
        Seq::empty()
    } else if selected.contains((items.len() - 1) as usize) {
        chosen(items.drop_last(), selected).push(items.last())
    } else {
        chosen(items.drop_last(), selected)
    }
}

/// `selected` with those of `indices[..n]` added that are less than `limit`.
pub open spec fn with_indices(selected: Set<usize>, indices: Seq<usize>, limit: int) -> Set<usize> {
    Set::new(
        |i: usize|
            selected.contains(i) || (i < limit && exists|j: int|
                0 <= j < indices.len() && indices[j] == i),
    )
}

impl SelectionPopup {
    /// Every selected index is the index of an item.
    pub open spec fn wf(&self) -> bool {
        forall|i: usize| self.selected_indices@.contains(i) ==> i < self.items@.len()
    }

    /// The row that the highlight is on, if any. The list widget moves a
    /// highlight that is past the last item back onto it when it draws.
    pub open spec fn cursor(&self) -> Option<usize> {
        list_selected(self.state)
    }

    /// A pick-list over `items` with nothing selected and no highlight.
    pub fn new(items: Vec<String>) -> (popup: Self)
        ensures
            popup.items == items,
            popup.selected_indices@ == Set::<usize>::empty(),
            popup.cursor() is None,
            popup.wf(),
    {
        Self { selected_indices: HashSet::new(), state: ListState::default(), items }
    }

    /// Selects the highlighted item. Without a highlight, or with one past
    /// the last item, nothing changes.
    pub fn add_selected_to_selection(&mut self)
        ensures
            old(self).wf() ==> final(self).wf(),
            final(self).items == old(self).items,
            final(self).cursor() == old(self).cursor(),
            final(self).selected_indices@ == match old(self).cursor() {
                Some(i) if i < old(self).items@.len() => old(self).selected_indices@.insert(i),
                _ => old(self).selected_indices@,
            },
    {
        if let Some(selected) = self.selected_selection() {
            if selected < self.items.len() {
                self.selected_indices.insert(selected);
            }
        }
    }

    /// Takes the highlighted item out of the selection.
    pub fn remove_selected_from_selection(&mut self)
        ensures
            old(self).wf() ==> final(self).wf(),
            final(self).items == old(self).items,
            final(self).cursor() == old(self).cursor(),
            final(self).selected_indices@ == match old(self).cursor() {
                Some(i) => old(self).selected_indices@.remove(i),
                None => old(self).selected_indices@,
            },
    {
        if let Some(selected) = self.selected_selection() {
            self.selected_indices.remove(&selected);
        }
    }

    /// Selects each of `indices` that is the index of an item.
    pub fn add_indices_to_selection(&mut self, indices: &Vec<usize>)
        ensures
            old(self).wf() ==> final(self).wf(),
            final(self).items == old(self).items,
            final(self).cursor() == old(self).cursor(),
            final(self).selected_indices@ == with_indices(
                old(self).selected_indices@,
                indices@,
                old(self).items@.len() as int,
            ),
    {
        let mut n: usize = 0;
        while n < indices.len()
            invariant
                n <= indices@.len(),
                self.items == old(self).items,
                self.cursor() == old(self).cursor(),
                self.selected_indices@ == with_indices(
                    old(self).selected_indices@,
                    indices@.take(n as int),
                    old(self).items@.len() as int,
                ),
            decreases indices@.len() - n,
        {
            let index = indices[n];
            let ghost before = self.selected_indices@;
            if index < self.items.len() {
                self.selected_indices.insert(index);
            }
            n += 1;
            proof {
                let limit = old(self).items@.len() as int;
                let base = old(self).selected_indices@;
                let shorter = indices@.take(n - 1);
                let longer = indices@.take(n as int);
                assert forall|i: usize|
                    self.selected_indices@.contains(i) <==> with_indices(
                        base,
                        longer,
                        limit,
                    ).contains(i) by {
                    if base.contains(i) {
                    } else if i < limit && exists|j: int| 0 <= j < longer.len() && longer[j] == i {
                        let j = choose|j: int| 0 <= j < longer.len() && longer[j] == i;
                        if j < n - 1 {
                            assert(shorter[j] == i);
                        }
                    } else if with_indices(base, shorter, limit).contains(i) {
                        let j = choose|j: int| 0 <= j < shorter.len() && shorter[j] == i;
                        assert(longer[j] == i);
                    } else if i == index && index < limit {
                        assert(longer[n - 1] == i);
                    }
                }
                assert(self.selected_indices@ =~= with_indices(base, longer, limit));
            }
        }
        assert(indices@.take(n as int) =~= indices@);
    }

    /// The selected items, in the order of the items.
    pub fn selected_items(&self) -> (picked: Vec<String>)
        ensures
            texts(picked@) == chosen(texts(self.items@), self.selected_indices@),
    {
        let mut picked: Vec<String> = Vec::new();
        let mut i: usize = 0;
        assert(texts(self.items@).take(0) =~= Seq::<Seq<char>>::empty());
        assert(texts(picked@) =~= Seq::<Seq<char>>::empty());
        while i < self.items.len()
            invariant
                i <= self.items@.len(),
                texts(picked@) == chosen(texts(self.items@).take(i as int), self.selected_indices@),
            decreases self.items@.len() - i,
        {
            let ghost before = texts(picked@);
            let ghost head = texts(self.items@).take(i + 1);
            assert(head.drop_last() =~= texts(self.items@).take(i as int));
            assert(head.last() == self.items@[i as int]@);
            if self.selected_indices.contains(&i) {
                picked.push(self.items[i].clone());
                assert(texts(picked@) =~= before.push(self.items@[i as int]@));
            }
            i += 1;
        }
        assert(texts(self.items@).take(i as int) =~= texts(self.items@));
        picked
    }
}

impl InteractiveList for SelectionPopup {
    open spec fn highlighted(&self) -> Option<usize> {
        self.cursor()
    }

    /// Clears the selection and puts the highlight on the first item.
    fn reset_selection(&mut self)
        ensures
            final(self).selected_indices@ == Set::<usize>::empty(),
            final(self).items == old(self).items,
            final(self).wf(),
    {
        self.selected_indices.clear();
        self.state.select_first();
    }

    fn next_selection(&mut self)
        ensures
            final(self).selected_indices == old(self).selected_indices,
            final(self).items == old(self).items,
            old(self).wf() ==> final(self).wf(),
    {
        self.state.select_next();
    }

    fn prev_selection(&mut self)
        ensures
            final(self).selected_indices == old(self).selected_indices,
            final(self).items == old(self).items,
            old(self).wf() ==> final(self).wf(),
    {
        self.state.select_previous();
    }

    fn selected_selection(&self) -> (selected: Option<usize>) {
        self.state.selected()
    }
}

} // verus!
