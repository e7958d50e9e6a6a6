//! Helpers of the reducer.

use crate::model::Message;
use crate::note::Note;
use crate::text::texts;
use vstd::prelude::*;
use vstd::string::*;

verus! {

/// The message that reports a failed call; none for a call that went
/// well.
pub fn handle_result(res: Result<(), String>) -> (message: Option<Message>)
    ensures
        message == match res {
            Ok(_) => None,
            Err(e) => Some(Message::Error(e)),
        },
{
    match res {
        Ok(_) => None,
        Err(e) => Some(Message::Error(e)),
    }
}

/// The tags of all of `notes` in a row, note after note.
pub open spec fn all_tags(notes: Seq<Note>) -> Seq<Seq<char>>
    decreases notes.len(),
{
    if notes.len() == 0 {
        Seq::empty()
    } else {
        all_tags(notes.drop_last()) + texts(notes.last().tags@)
    }
}

/// `items` without the repetitions: of equal items the first one stays.
pub open spec fn distinct(items: Seq<Seq<char>>) -> Seq<Seq<char>>
    decreases items.len(),
{
    if items.len() == 0 {
        Seq::empty()
    } else {
        let front = distinct(items.drop_last());
        if front.contains(items.last()) {
            front
        } else {
            front.push(items.last())
        }
    }
}

/// The tag universe: every tag of every note, once, in the order of first
/// use.
pub open spec fn tag_universe(notes: Seq<Note>) -> Seq<Seq<char>> {
    distinct(all_tags(notes))
}

/// `distinct` keeps exactly the items that occur, and each once.
pub proof fn lemma_distinct(items: Seq<Seq<char>>)
    ensures
        distinct(items).no_duplicates(),
        forall|x: Seq<char>| distinct(items).contains(x) <==> items.contains(x),
    decreases items.len(),
{
    if items.len() > 0 {
        let shorter = items.drop_last();
        let front = distinct(shorter);
        lemma_distinct(shorter);
        assert forall|x: Seq<char>| distinct(items).contains(x) <==> items.contains(x) by {
            if items.contains(x) {
                let i = choose|i: int| 0 <= i < items.len() && items[i] == x;
                if i < shorter.len() {
                    assert(shorter[i] == x);
                    assert(shorter.contains(x));
                    assert(front.contains(x));
                    let j = choose|j: int| 0 <= j < front.len() && front[j] == x;
                    if !front.contains(items.last()) {
                        assert(front.push(items.last())[j] == x);
                    }
                } else if !front.contains(items.last()) {
                    assert(front.push(items.last())[front.len() as int] == x);
                }
            }
            if distinct(items).contains(x) {
                let j = choose|j: int| 0 <= j < distinct(items).len() && distinct(items)[j] == x;
                if j < front.len() {
                    assert(front[j] == x);
                    assert(shorter.contains(x));
                    let i = choose|i: int| 0 <= i < shorter.len() && shorter[i] == x;
                    assert(items[i] == x);
                } else {
                    assert(items[items.len() - 1] == x);
                }
            }
        }
    }
}

/// A tag is in the universe exactly when some note has it, and no tag is
/// in it twice.
pub proof fn lemma_tag_universe(notes: Seq<Note>)
    ensures
        tag_universe(notes).no_duplicates(),
        forall|tag: Seq<char>|
            tag_universe(notes).contains(tag) <==> exists|i: int|
                0 <= i < notes.len() && #[trigger] texts(notes[i].tags@).contains(tag),
{
    lemma_distinct(all_tags(notes));
    assert forall|tag: Seq<char>|
        tag_universe(notes).contains(tag) <==> exists|i: int|
            0 <= i < notes.len() && #[trigger] texts(notes[i].tags@).contains(tag) by {
        lemma_all_tags(notes, tag);
        assert(distinct(all_tags(notes)).contains(tag) <==> all_tags(notes).contains(tag));
    }
}

/// A tag is among all tags exactly when some note has it.
proof fn lemma_all_tags(notes: Seq<Note>, tag: Seq<char>)
    ensures
        all_tags(notes).contains(tag) <==> exists|i: int|
            0 <= i < notes.len() && #[trigger] texts(notes[i].tags@).contains(tag),
    decreases notes.len(),
{
    if notes.len() > 0 {
        let shorter = notes.drop_last();
        let head = all_tags(shorter);
        let tail = texts(notes.last().tags@);
        lemma_all_tags(shorter, tag);
        if all_tags(notes).contains(tag) {
            let k = choose|k: int| 0 <= k < all_tags(notes).len() && all_tags(notes)[k] == tag;
            if k < head.len() {
                assert(head[k] == tag);
                assert(head.contains(tag));
                let i = choose|i: int|
                    0 <= i < shorter.len() && #[trigger] texts(shorter[i].tags@).contains(tag);
                assert(texts(notes[i].tags@).contains(tag));
            } else {
                assert(tail[k - head.len()] == tag);
                assert(texts(notes[notes.len() - 1].tags@).contains(tag));
            }
        }
        if exists|i: int| 0 <= i < notes.len() && #[trigger] texts(notes[i].tags@).contains(tag) {
            let i = choose|i: int|
                0 <= i < notes.len() && #[trigger] texts(notes[i].tags@).contains(tag);
            if i < shorter.len() {
                assert(texts(shorter[i].tags@).contains(tag));
                assert(head.contains(tag));
                let k = choose|k: int| 0 <= k < head.len() && head[k] == tag;
                assert(all_tags(notes)[k] == tag);
            } else {
                let k = choose|k: int| 0 <= k < tail.len() && tail[k] == tag;
                assert(all_tags(notes)[head.len() + k] == tag);
            }
        }
    }
}

/// Whether `tag` is among `tags`.
pub fn has_tag(tags: &Vec<String>, tag: &String) -> (found: bool)
    ensures
        found == texts(tags@).contains(tag@),
{
    let mut i: usize = 0;
    while i < tags.len()
        invariant
            i <= tags@.len(),
            forall|j: int| 0 <= j < i ==> texts(tags@)[j] != tag@,
        decreases tags@.len() - i,
    {
        if tags[i] == *tag {
            assert(texts(tags@)[i as int] == tag@);
            return true;
        }
        i += 1;
    }
    false
}

/// The tag universe of `notes`: every tag of every note, once, in the
/// order of first use.
pub fn get_tag_set(notes: &Vec<Note>) -> (tags: Vec<String>)
    ensures
        texts(tags@) == tag_universe(notes@),
{
    let mut tags: Vec<String> = Vec::new();
    let mut i: usize = 0;
    assert(notes@.take(0) =~= Seq::<Note>::empty());
    assert(texts(tags@) =~= Seq::<Seq<char>>::empty());
    while i < notes.len()
        invariant
            i <= notes@.len(),
            texts(tags@) == distinct(all_tags(notes@.take(i as int))),
        decreases notes@.len() - i,
    {
        let note = &notes[i];
        let ghost head = all_tags(notes@.take(i as int));
        let ghost own = texts(note.tags@);
        let mut j: usize = 0;
        assert(head + own.take(0) =~= head);
        while j < note.tags.len()
            invariant
                j <= note.tags@.len(),
                own == texts(note.tags@),
                texts(tags@) == distinct(head + own.take(j as int)),
            decreases note.tags@.len() - j,
        {
            let ghost before = texts(tags@);
            proof {
                let longer = head + own.take(j + 1);
                assert(longer.drop_last() =~= head + own.take(j as int));
                assert(longer.last() == note.tags@[j as int]@);
            }
            if !has_tag(&tags, &note.tags[j]) {
                tags.push(note.tags[j].clone());
                assert(texts(tags@) =~= before.push(note.tags@[j as int]@));
            }
            j += 1;
        }
        proof {
            assert(own.take(j as int) =~= own);
            assert(notes@.take(i + 1).drop_last() =~= notes@.take(i as int));
            assert(notes@.take(i + 1).last() == notes@[i as int]);
        }
        i += 1;
    }
    assert(notes@.take(i as int) =~= notes@);
    tags
}

} // verus!
