use crate::model_helpers::{get_tag_set, tag_universe};
use crate::note::Note;
use crate::sorting::{
    built, goes_before, is_projection, lemma_built_is_projection, lemma_projection_exists,
    projection, shown, slot,
};
use crate::text::texts;
use std::collections::HashSet;
use vstd::prelude::*;

verus! {

/// Order in which the visible notes are listed.
#[derive(Clone, Copy, Debug, PartialEq, Eq, Structural)]
pub enum NoteSortMode {
    Unsorted,
    AscCreated,
    DesCreated,
    LabelAsc,
    LabelDesc,
}

impl NoteSortMode {
    /// Position of the mode in the cycle that `next` and `prev` walk.
    pub open spec fn index(self) -> int {
        match self {
            NoteSortMode::Unsorted => 0,
            NoteSortMode::AscCreated => 1,
            NoteSortMode::DesCreated => 2,
            NoteSortMode::LabelAsc => 3,
            NoteSortMode::LabelDesc => 4,
        }
    }

    /// The mode at position `i` of the cycle, positions taken modulo five.
    pub open spec fn at(i: int) -> NoteSortMode {
        let k = i % 5;
        if k == 0 {
            NoteSortMode::Unsorted
        } else if k == 1 {
            NoteSortMode::AscCreated
        } else if k == 2 {
            NoteSortMode::DesCreated
        } else if k == 3 {
            NoteSortMode::LabelAsc
        } else {
            NoteSortMode::LabelDesc
        }
    }

    /// The five modes in cycle order.
    pub fn modes() -> (r: [NoteSortMode; 5])
        ensures
            forall|i: int| 0 <= i < 5 ==> (#[trigger] r[i]).index() == i,
    {
        [
            NoteSortMode::Unsorted,
            NoteSortMode::AscCreated,
            NoteSortMode::DesCreated,
            NoteSortMode::LabelAsc,
            NoteSortMode::LabelDesc,
        ]
    }

    /// The mode after this one; the last is followed by the first.
    pub open spec fn following(self) -> NoteSortMode {
        Self::at(self.index() + 1)
    }

    /// The mode before this one; the first is preceded by the last.
    pub open spec fn preceding(self) -> NoteSortMode {
        Self::at(self.index() + 4)
    }

    /// The mode after this one; the last is followed by the first.
    pub fn next(self) -> (r: NoteSortMode)
        ensures
            r == self.following(),
    {
        match self {
            NoteSortMode::Unsorted => NoteSortMode::AscCreated,
            NoteSortMode::AscCreated => NoteSortMode::DesCreated,
            NoteSortMode::DesCreated => NoteSortMode::LabelAsc,
            NoteSortMode::LabelAsc => NoteSortMode::LabelDesc,
            NoteSortMode::LabelDesc => NoteSortMode::Unsorted,
        }
    }

    /// The mode before this one; the first is preceded by the last.
    pub fn prev(self) -> (r: NoteSortMode)
        ensures
            r == self.preceding(),
    {
        match self {
            NoteSortMode::Unsorted => NoteSortMode::LabelDesc,
            NoteSortMode::AscCreated => NoteSortMode::Unsorted,
            NoteSortMode::DesCreated => NoteSortMode::AscCreated,
            NoteSortMode::LabelAsc => NoteSortMode::DesCreated,
            NoteSortMode::LabelDesc => NoteSortMode::LabelAsc,
        }
    }
}

/// Going to the next mode and back, or back and to the next, leads to the
/// mode one started from; so does going to the next mode five times.
pub proof fn lemma_sort_mode_cycle(mode: NoteSortMode)
    ensures
        mode.following().preceding() == mode,
        mode.preceding().following() == mode,
        mode.following().following().following().following().following() == mode,
        mode.preceding().preceding().preceding().preceding().preceding() == mode,
{
}

/// The ids that the notes have.
pub open spec fn present_ids(notes: Seq<Note>) -> Set<usize> {
    Set::new(|id: usize| exists|i: int| 0 <= i < notes.len() && #[trigger] notes[i].id == id)
}

/// The notes of a session, the filter that a search has set, and the order
/// in which the notes are listed.
///
/// A note has two positions: its storage index, in the notes as they were
/// loaded, and its view index, in the list that the user sees.
pub struct NoteStore {
    notes: Vec<Note>,
    matched_ids: Option<HashSet<usize>>,
    sort_mode: NoteSortMode,
}

impl NoteStore {
    /// The notes, in storage order.
    pub closed spec fn notes(&self) -> Seq<Note> {
        self.notes@
    }

    /// The ids that the filter lets through; `None` without a filter.
    pub closed spec fn matched(&self) -> Option<Set<usize>> {
        match self.matched_ids {
            Some(ids) => Some(ids@),
            None => None,
        }
    }

    /// The sort mode.
    pub closed spec fn mode(&self) -> NoteSortMode {
        self.sort_mode
    }

    /// The list that the user sees: the storage index of each listed note,
    /// in view order.
    pub open spec fn view_order(&self) -> Seq<usize> {
        projection(self.notes(), self.matched(), self.mode())
    }

    /// The tag universe: every tag of every stored note, once, in the
    /// order of first use.
    pub open spec fn tags(&self) -> Seq<Seq<char>> {
        tag_universe(self.notes())
    }

    /// The note at view index `k`.
    pub open spec fn viewed(&self, k: int) -> Note {
        self.notes()[self.view_order()[k] as int]
    }

    /// The view order lists the notes that pass the filter, sorted by the
    /// mode's key, and every storage index in it is that of a note.
    pub proof fn lemma_view_order(&self)
        ensures
            is_projection(self.notes(), self.matched(), self.mode(), self.view_order()),
            forall|k: int|
                0 <= k < self.view_order().len() ==> #[trigger] self.view_order()[k]
                    < self.notes().len(),
    {
        assert(self.notes@.len() == self.notes.len());
        lemma_projection_exists(self.notes(), self.matched(), self.mode());
    }

    /// A store of `notes`, unfiltered and unsorted.
    pub fn new(notes: Vec<Note>) -> (store: Self)
        ensures
            store.notes() == notes@,
            store.matched() is None,
            store.tags() == tag_universe(notes@),
            store.mode() == NoteSortMode::Unsorted,
    {
        Self { notes, matched_ids: None, sort_mode: NoteSortMode::Unsorted }
    }

    /// Sets the filter to those ids of `set` that a note has. Ids that no
    /// note has change nothing.
    pub fn update_filter(&mut self, set: HashSet<usize>)
        ensures
            final(self).notes() == old(self).notes(),
            final(self).mode() == old(self).mode(),
            final(self).matched() == Some(set@.intersect(present_ids(old(self).notes()))),
            forall|k: int|
                0 <= k < final(self).view_order().len() ==> set@.contains(
                    #[trigger] final(self).viewed(k).id,
                ),
    {
        let mut matched: HashSet<usize> = HashSet::new();
        let mut i: usize = 0;
        while i < self.notes.len()
            invariant
                i <= self.notes@.len(),
                self.notes@ == old(self).notes@,
                self.sort_mode == old(self).sort_mode,
                matched@ == set@.intersect(present_ids(self.notes@.take(i as int))),
            decreases self.notes@.len() - i,
        {
            let id = self.notes[i].id;
            proof {
                let shorter = self.notes@.take(i as int);
                let longer = self.notes@.take(i + 1);
                assert forall|x: usize|
                    present_ids(longer).contains(x) <==> (present_ids(shorter).contains(x) || x
                        == id) by {
                    if present_ids(longer).contains(x) {
                        let k = choose|k: int| 0 <= k < longer.len() && #[trigger] longer[k].id == x;
                        if k < i {
                            assert(shorter[k].id == x);
                        }
                    }
                    if present_ids(shorter).contains(x) {
                        let k = choose|k: int|
                            0 <= k < shorter.len() && #[trigger] shorter[k].id == x;
                        assert(longer[k].id == x);
                    }
                    if x == id {
                        assert(longer[i as int].id == x);
                    }
                }
            }
            if set.contains(&id) {
                matched.insert(id);
            }
            assert(matched@ =~= set@.intersect(present_ids(self.notes@.take(i + 1))));
            i += 1;
        }
        assert(self.notes@.take(i as int) =~= self.notes@);
        self.matched_ids = Some(matched);
        proof {
            self.lemma_view_order();
            assert forall|k: int| 0 <= k < self.view_order().len() implies set@.contains(
                #[trigger] self.viewed(k).id,
            ) by {
                assert(shown(self.notes(), self.matched(), self.view_order()[k] as int));
            }
        }
    }

    /// Puts `notes` in place of the stored ones and drops the filter. The
    /// tag universe is that of the new notes; the sort mode stays.
    pub fn update_notes(&mut self, notes: Vec<Note>)
        ensures
            final(self).notes() == notes@,
            final(self).matched() is None,
            final(self).tags() == tag_universe(notes@),
            final(self).mode() == old(self).mode(),
    {
        self.matched_ids = None;
        self.notes = notes;
    }

    /// The storage indices of the listed notes, in view order.
    fn visible_indices(&self) -> (order: Vec<usize>)
        ensures
            order@ == self.view_order(),
            is_projection(self.notes(), self.matched(), self.mode(), order@),
            forall|k: int| 0 <= k < order@.len() ==> #[trigger] order@[k] < self.notes().len(),
    {
        let mut order: Vec<usize> = Vec::new();
        let mut n: usize = 0;
        while n < self.notes.len()
            invariant
                n <= self.notes@.len(),
                order@ == built(self.notes(), self.matched(), self.mode(), n as int),
            decreases self.notes@.len() - n,
        {
            proof {
                lemma_built_is_projection(self.notes(), self.matched(), self.mode(), n as int);
            }
            let pass = match &self.matched_ids {
                Some(ids) => ids.contains(&self.notes[n].id),
                None => true,
            };
            assert(pass == shown(self.notes(), self.matched(), n as int));
            if pass {
                let mut p: usize = order.len();
                assert(order@.take(p as int) =~= order@);
                while p > 0 && goes_before(
                    self.sort_mode,
                    &self.notes[n],
                    &self.notes[order[p - 1]],
                )
                    invariant
                        p <= order@.len(),
                        n < self.notes@.len(),
                        forall|k: int| 0 <= k < order@.len() ==> #[trigger] order@[k] < n,
                        slot(self.mode(), self.notes(), order@, n as int) == slot(
                            self.mode(),
                            self.notes(),
                            order@.take(p as int),
                            n as int,
                        ),
                    decreases p,
                {
                    assert(order@.take(p as int).drop_last() =~= order@.take(p - 1));
                    p -= 1;
                }
                order.insert(p, n);
            }
            n += 1;
        }
        proof {
            lemma_projection_exists(self.notes(), self.matched(), self.mode());
        }
        order
    }

    /// The notes that the user sees, in view order: those that pass the
    /// filter, sorted by the mode's key, notes with equal keys in storage
    /// order.
    pub fn get_notes(&self) -> (listed: Vec<&Note>)
        ensures
            listed@.len() == self.view_order().len(),
            forall|k: int| 0 <= k < listed@.len() ==> *(#[trigger] listed@[k]) == self.viewed(k),
    {
        let order = self.visible_indices();
        let mut listed: Vec<&Note> = Vec::new();
        let mut k: usize = 0;
        while k < order.len()
            invariant
                k <= order@.len(),
                order@ == self.view_order(),
                forall|j: int| 0 <= j < order@.len() ==> #[trigger] order@[j] < self.notes@.len(),
                listed@.len() == k,
                forall|j: int| 0 <= j < k ==> *(#[trigger] listed@[j]) == self.viewed(j),
            decreases order@.len() - k,
        {
            listed.push(&self.notes[order[k]]);
            k += 1;
        }
        listed
    }

    /// All notes in storage order, whatever the filter.
    pub fn get_notes_unfiltered(&self) -> (notes: &Vec<Note>)
        ensures
            notes@ == self.notes(),
    {
        &self.notes
    }

    /// The note at view index `index`, or `None` where the list is
    /// shorter.
    pub fn get_note(&self, index: usize) -> (found: Option<&Note>)
        ensures
            match found {
                Some(note) => index < self.view_order().len() && *note == self.viewed(
                    index as int,
                ),
                None => index >= self.view_order().len(),
            },
    {
        let order = self.visible_indices();
        if index < order.len() {
            Some(&self.notes[order[index]])
        } else {
            None
        }
    }

    /// The note at view index `index`, to be changed in place, or `None`
    /// where the list is shorter. Filter and sort mode stay; the other
    /// notes stay.
    pub fn get_note_as_mut(&mut self, index: usize) -> (found: Option<&mut Note>)
        ensures
            final(self).matched() == old(self).matched(),
            final(self).mode() == old(self).mode(),
            match found {
                Some(note) => index < old(self).view_order().len() && *note == old(self).viewed(
                    index as int,
                ) && final(self).notes() == old(self).notes().update(
                    old(self).view_order()[index as int] as int,
                    *final(note),
                ),
                None => index >= old(self).view_order().len() && final(self).notes() == old(
                    self,
                ).notes(),
            },
    {
        let order = self.visible_indices();
        if index < order.len() {
            Some(&mut self.notes[order[index]])
        } else {
            None
        }
    }

    /// The tag universe: every tag of every stored note, once, in the
    /// order of first use.
    pub fn get_tags(&self) -> (tags: Vec<String>)
        ensures
            texts(tags@) == self.tags(),
    {
        get_tag_set(&self.notes)
    }

    /// Drops the filter: every note is listed again.
    pub fn remove_filter(&mut self)
        ensures
            final(self).notes() == old(self).notes(),
            final(self).mode() == old(self).mode(),
            final(self).matched() is None,
    {
        self.matched_ids = None;
    }

    /// Whether a filter is set.
    pub fn is_filtered(&self) -> (filtered: bool)
        ensures
            filtered == self.matched().is_some(),
    {
        self.matched_ids.is_some()
    }

    /// Goes to the next sort mode, from the last to the first.
    pub fn next_sort_mode(&mut self)
        ensures
            final(self).notes() == old(self).notes(),
            final(self).matched() == old(self).matched(),
            final(self).mode() == old(self).mode().following(),
    {
        self.sort_mode = self.sort_mode.next();
    }

    /// Goes to the sort mode before, from the first to the last.
    pub fn prev_sort_mode(&mut self)
        ensures
            final(self).notes() == old(self).notes(),
            final(self).matched() == old(self).matched(),
            final(self).mode() == old(self).mode().preceding(),
    {
        self.sort_mode = self.sort_mode.prev();
    }

    /// The sort mode.
    pub fn current_sort_mode(&self) -> (mode: NoteSortMode)
        ensures
            mode == self.mode(),
    {
        self.sort_mode
    }

    /// The ids that the filter lets through; `None` without a filter.
    pub fn get_current_matches(&self) -> (current: &Option<HashSet<usize>>)
        ensures
            match *current {
                Some(ids) => self.matched() == Some(ids@),
                None => self.matched() is None,
            },
    {
        &self.matched_ids
    }
}

} // verus!
