//! The order of the note list: which notes a filter shows, and in which
//! order a sort mode lists them.

use crate::note::Note;
use crate::note_store::NoteSortMode;
use vstd::prelude::*;
use vstd::string::*;
use vstd::utf8::*;

verus! {

/// Whether `a` comes before `b` in the order of byte strings: at the first
/// byte in which they differ `a` has the smaller one, or `a` is a proper
/// prefix of `b`.
pub open spec fn bytes_less(a: Seq<u8>, b: Seq<u8>) -> bool
    decreases a.len(),
{
    if b.len() == 0 {
        false
    } else if a.len() == 0 {
        true
    } else if a[0] != b[0] {
        a[0] < b[0]
    } else {
        bytes_less(a.drop_first(), b.drop_first())
    }
}

/// Whether text `a` comes before text `b`: the order of their UTF-8
/// encodings, which is the order of `str`.
pub open spec fn text_less(a: Seq<char>, b: Seq<char>) -> bool {
    bytes_less(encode_utf8(a), encode_utf8(b))
}

/// No byte string comes before itself, and of two at most one comes before
/// the other.
pub proof fn lemma_bytes_less_asymmetric(a: Seq<u8>, b: Seq<u8>)
    ensures
        !(bytes_less(a, b) && bytes_less(b, a)),
    decreases a.len(),
{
    if a.len() > 0 && b.len() > 0 && a[0] == b[0] {
        lemma_bytes_less_asymmetric(a.drop_first(), b.drop_first());
    }
}

/// Where `a` is not after `b` and `b` not after `c`, `a` is not after `c`.
pub proof fn lemma_bytes_not_after_transitive(a: Seq<u8>, b: Seq<u8>, c: Seq<u8>)
    requires
        !bytes_less(b, a),
        !bytes_less(c, b),
    ensures
        !bytes_less(c, a),
    decreases a.len(),
{
    if a.len() > 0 && b.len() > 0 && c.len() > 0 && a[0] == b[0] && b[0] == c[0] {
        lemma_bytes_not_after_transitive(a.drop_first(), b.drop_first(), c.drop_first());
    }
}

/// Whether the text of `a` comes before the text of `b`.
pub fn str_less(a: &str, b: &str) -> (r: bool)
    ensures
        r == text_less(a@, b@),
{
    let x = a.as_bytes();
    let y = b.as_bytes();
    let mut i: usize = 0;
    assert(x@.skip(0) =~= x@ && y@.skip(0) =~= y@);
    while i < x.len() && i < y.len()
        invariant
            i <= x@.len(),
            i <= y@.len(),
            x@ == encode_utf8(a@),
            y@ == encode_utf8(b@),
            bytes_less(x@, y@) == bytes_less(x@.skip(i as int), y@.skip(i as int)),
        decreases x@.len() - i,
    {
        proof {
            assert(x@.skip(i as int).drop_first() =~= x@.skip(i + 1));
            assert(y@.skip(i as int).drop_first() =~= y@.skip(i + 1));
        }
        if x[i] != y[i] {
            return x[i] < y[i];
        }
        i += 1;
    }
    i < y.len()
}

/// Whether note `a` goes before note `b` by the key that `mode` sorts on.
/// Without sorting no note goes before another.
pub open spec fn key_less(mode: NoteSortMode, a: Note, b: Note) -> bool {
    match mode {
        NoteSortMode::Unsorted => false,
        NoteSortMode::AscCreated => a.created_at.before(b.created_at),
        NoteSortMode::DesCreated => b.created_at.before(a.created_at),
        NoteSortMode::LabelAsc => text_less(a.label@, b.label@),
        NoteSortMode::LabelDesc => text_less(b.label@, a.label@),
    }
}

/// Whether the note at storage index `i` is listed before the one at `j`:
/// by the sort key, and by their order in storage where the keys are equal.
pub open spec fn comes_before(mode: NoteSortMode, notes: Seq<Note>, i: int, j: int) -> bool {
    key_less(mode, notes[i], notes[j]) || (!key_less(mode, notes[j], notes[i]) && i < j)
}

/// Whether the note at storage index `i` passes the filter: every note
/// where no filter is set, else those whose id is among the matched ids.
pub open spec fn shown(notes: Seq<Note>, matched: Option<Set<usize>>, i: int) -> bool {
    0 <= i < notes.len() && match matched {
        Some(ids) => ids.contains(notes[i].id),
        None => true,
    }
}

/// Whether each index of `order` comes before those behind it.
pub open spec fn sorted_by(mode: NoteSortMode, notes: Seq<Note>, order: Seq<usize>) -> bool {
    forall|a: int, b: int|
        0 <= a < b < order.len() ==> comes_before(
            mode,
            notes,
            #[trigger] order[a] as int,
            #[trigger] order[b] as int,
        )
}

/// Whether every member of `a` is a member of `b`.
pub open spec fn members_within(a: Seq<usize>, b: Seq<usize>) -> bool {
    forall|k: int| 0 <= k < a.len() ==> b.contains(#[trigger] a[k])
}

/// Whether `order` lists the storage indices below `n` of the notes that
/// pass the filter, each before those that come after it.
pub open spec fn is_projection_of(
    notes: Seq<Note>,
    matched: Option<Set<usize>>,
    mode: NoteSortMode,
    order: Seq<usize>,
    n: int,
) -> bool {
    &&& forall|k: int|
        0 <= k < order.len() ==> #[trigger] order[k] < n && shown(notes, matched, order[k] as int)
    &&& forall|i: int|
        0 <= i < n && #[trigger] shown(notes, matched, i) ==> order.contains(i as usize)
    &&& sorted_by(mode, notes, order)
}

/// Whether `order` is the list that the user sees: the storage indices of
/// the notes that pass the filter, sorted by the mode's key, notes with
/// equal keys in storage order.
pub open spec fn is_projection(
    notes: Seq<Note>,
    matched: Option<Set<usize>>,
    mode: NoteSortMode,
    order: Seq<usize>,
) -> bool {
    is_projection_of(notes, matched, mode, order, notes.len() as int)
}

/// The list that the user sees, as storage indices. There is exactly one
/// such list: see [`lemma_projection_exists`] and
/// [`lemma_projection_unique`].
pub open spec fn projection(
    notes: Seq<Note>,
    matched: Option<Set<usize>>,
    mode: NoteSortMode,
) -> Seq<usize> {
    choose|order: Seq<usize>| is_projection(notes, matched, mode, order)
}

/// Of two notes at most one goes before the other by the key.
pub proof fn lemma_key_less_asymmetric(mode: NoteSortMode, a: Note, b: Note)
    ensures
        !(key_less(mode, a, b) && key_less(mode, b, a)),
{
    lemma_bytes_less_asymmetric(encode_utf8(a.label@), encode_utf8(b.label@));
}

/// Where `a` does not go after `b` and `b` not after `c`, `a` does not go
/// after `c`.
pub proof fn lemma_key_not_after_transitive(mode: NoteSortMode, a: Note, b: Note, c: Note)
    requires
        !key_less(mode, b, a),
        !key_less(mode, c, b),
    ensures
        !key_less(mode, c, a),
{
    match mode {
        NoteSortMode::LabelAsc => {
            lemma_bytes_not_after_transitive(
                encode_utf8(a.label@),
                encode_utf8(b.label@),
                encode_utf8(c.label@),
            );
        },
        NoteSortMode::LabelDesc => {
            lemma_bytes_not_after_transitive(
                encode_utf8(c.label@),
                encode_utf8(b.label@),
                encode_utf8(a.label@),
            );
        },
        _ => {},
    }
}

/// Where to put storage index `n` into a list of smaller indices: behind
/// the last note that does not go after note `n`.
pub open spec fn slot(mode: NoteSortMode, notes: Seq<Note>, order: Seq<usize>, n: int) -> int
    decreases order.len(),
{
    if order.len() == 0 {
        0
    } else if key_less(mode, notes[n], notes[order.last() as int]) {
        slot(mode, notes, order.drop_last(), n)
    } else {
        order.len() as int
    }
}

/// The list of the notes with storage index below `n`, built by putting in
/// one index after the other.
pub open spec fn built(
    notes: Seq<Note>,
    matched: Option<Set<usize>>,
    mode: NoteSortMode,
    n: int,
) -> Seq<usize>
    decreases n,
{
    if n <= 0 {
        Seq::empty()
    } else {
        let before = built(notes, matched, mode, n - 1);
        if shown(notes, matched, n - 1) {
            before.insert(slot(mode, notes, before, n - 1), (n - 1) as usize)
        } else {
            before
        }
    }
}

/// The slot lies within the list, every note behind it goes after note
/// `n`, and the note in front of it does not.
proof fn lemma_slot(mode: NoteSortMode, notes: Seq<Note>, order: Seq<usize>, n: int)
    ensures
        0 <= slot(mode, notes, order, n) <= order.len(),
        forall|q: int|
            slot(mode, notes, order, n) <= q < order.len() ==> key_less(
                mode,
                notes[n],
                notes[#[trigger] order[q] as int],
            ),
        slot(mode, notes, order, n) > 0 ==> !key_less(
            mode,
            notes[n],
            notes[order[slot(mode, notes, order, n) - 1] as int],
        ),
    decreases order.len(),
{
    if order.len() > 0 && key_less(mode, notes[n], notes[order.last() as int]) {
        let shorter = order.drop_last();
        lemma_slot(mode, notes, shorter, n);
        assert forall|q: int| slot(mode, notes, order, n) <= q < order.len() implies key_less(
            mode,
            notes[n],
            notes[#[trigger] order[q] as int],
        ) by {
            if q < shorter.len() {
                assert(shorter[q] == order[q]);
            }
        }
    }
}

/// Putting index `n` into its slot turns the list of the notes below `n`
/// into the list of the notes up to `n`.
proof fn lemma_insert_keeps_projection(
    notes: Seq<Note>,
    matched: Option<Set<usize>>,
    mode: NoteSortMode,
    order: Seq<usize>,
    n: int,
)
    requires
        0 <= n < notes.len(),
        n <= usize::MAX,
        is_projection_of(notes, matched, mode, order, n),
        shown(notes, matched, n),
    ensures
        is_projection_of(
            notes,
            matched,
            mode,
            order.insert(slot(mode, notes, order, n), n as usize),
            n + 1,
        ),
{
    let p = slot(mode, notes, order, n);
    let longer = order.insert(p, n as usize);
    lemma_slot(mode, notes, order, n);
    assert forall|k: int| 0 <= k < longer.len() implies #[trigger] longer[k] < n + 1 && shown(
        notes,
        matched,
        longer[k] as int,
    ) by {
        if k < p {
            assert(longer[k] == order[k]);
        } else if k > p {
            assert(longer[k] == order[k - 1]);
        }
    }
    assert forall|i: int|
        0 <= i < n + 1 && #[trigger] shown(notes, matched, i) implies longer.contains(
        i as usize,
    ) by {
        if i == n {
            assert(longer[p] == i);
        } else {
            assert(order.contains(i as usize));
            let k = choose|k: int| 0 <= k < order.len() && order[k] == i as usize;
            if k < p {
                assert(longer[k] == i);
            } else {
                assert(longer[k + 1] == i);
            }
        }
    }
    assert forall|a: int, b: int| 0 <= a < b < longer.len() implies comes_before(
        mode,
        notes,
        #[trigger] longer[a] as int,
        #[trigger] longer[b] as int,
    ) by {
        if b < p {
            assert(longer[a] == order[a] && longer[b] == order[b]);
        } else if a > p {
            assert(longer[a] == order[a - 1] && longer[b] == order[b - 1]);
        } else if a == p {
            assert(longer[b] == order[b - 1]);
        } else if b == p {
            assert(longer[a] == order[a]);
            let x = order[a] as int;
            let y = order[p - 1] as int;
            assert(order[p - 1] < n);
            if a < p - 1 {
                assert(comes_before(mode, notes, order[a] as int, order[p - 1] as int));
                lemma_key_less_asymmetric(mode, notes[x], notes[y]);
                lemma_key_not_after_transitive(mode, notes[x], notes[y], notes[n]);
            }
        } else {
            assert(longer[a] == order[a] && longer[b] == order[b - 1]);
        }
    }
}

/// The list that is built index by index is a list as the user sees it.
pub proof fn lemma_built_is_projection(
    notes: Seq<Note>,
    matched: Option<Set<usize>>,
    mode: NoteSortMode,
    n: int,
)
    requires
        0 <= n <= notes.len(),
        n <= usize::MAX + 1,
    ensures
        is_projection_of(notes, matched, mode, built(notes, matched, mode, n), n),
    decreases n,
{
    if n > 0 {
        lemma_built_is_projection(notes, matched, mode, n - 1);
        let before = built(notes, matched, mode, n - 1);
        if shown(notes, matched, n - 1) {
            lemma_insert_keeps_projection(notes, matched, mode, before, n - 1);
        } else {
            assert forall|i: int|
                0 <= i < n && #[trigger] shown(notes, matched, i) implies before.contains(
                i as usize,
            ) by {
                assert(i < n - 1);
            }
        }
    }
}

/// Two lists of the same notes that are both sorted are one list.
pub proof fn lemma_projection_unique(
    notes: Seq<Note>,
    matched: Option<Set<usize>>,
    mode: NoteSortMode,
    first: Seq<usize>,
    second: Seq<usize>,
)
    requires
        is_projection(notes, matched, mode, first),
        is_projection(notes, matched, mode, second),
    ensures
        first == second,
{
    assert(members_within(first, second)) by {
        assert forall|k: int| 0 <= k < first.len() implies second.contains(#[trigger] first[k]) by {
            assert(shown(notes, matched, first[k] as int));
        }
    }
    assert(members_within(second, first)) by {
        assert forall|k: int| 0 <= k < second.len() implies first.contains(
            #[trigger] second[k],
        ) by {
            assert(shown(notes, matched, second[k] as int));
        }
    }
    lemma_sorted_lists_equal(mode, notes, first, second);
}

/// No index comes before itself.
proof fn lemma_comes_before_irreflexive(mode: NoteSortMode, notes: Seq<Note>, i: int)
    ensures
        !comes_before(mode, notes, i, i),
{
    lemma_key_less_asymmetric(mode, notes[i], notes[i]);
}

/// Of two indices at most one comes before the other.
proof fn lemma_comes_before_asymmetric(mode: NoteSortMode, notes: Seq<Note>, i: int, j: int)
    ensures
        !(comes_before(mode, notes, i, j) && comes_before(mode, notes, j, i)),
{
    lemma_key_less_asymmetric(mode, notes[i], notes[j]);
}

/// Two sorted lists that hold each other's first member start alike.
proof fn lemma_heads_equal(
    mode: NoteSortMode,
    notes: Seq<Note>,
    first: Seq<usize>,
    second: Seq<usize>,
)
    requires
        first.len() > 0,
        second.len() > 0,
        sorted_by(mode, notes, first),
        sorted_by(mode, notes, second),
        second.contains(first[0]),
        first.contains(second[0]),
    ensures
        first[0] == second[0],
{
    let i = choose|i: int| 0 <= i < first.len() && first[i] == second[0];
    let j = choose|j: int| 0 <= j < second.len() && second[j] == first[0];
    if i > 0 && j > 0 {
        assert(comes_before(mode, notes, first[0] as int, first[i] as int));
        assert(comes_before(mode, notes, second[0] as int, second[j] as int));
        lemma_comes_before_asymmetric(mode, notes, first[0] as int, second[0] as int);
    }
}

/// What is left of a sorted list without its first member is sorted.
proof fn lemma_tail_sorted(mode: NoteSortMode, notes: Seq<Note>, order: Seq<usize>)
    requires
        order.len() > 0,
        sorted_by(mode, notes, order),
    ensures
        sorted_by(mode, notes, order.drop_first()),
{
    let rest = order.drop_first();
    assert forall|a: int, b: int| 0 <= a < b < rest.len() implies comes_before(
        mode,
        notes,
        #[trigger] rest[a] as int,
        #[trigger] rest[b] as int,
    ) by {
        assert(rest[a] == order[a + 1] && rest[b] == order[b + 1]);
    }
}

/// Two lists that start alike, the first sorted and within the second:
/// what follows in the first is within what follows in the second.
proof fn lemma_tail_members(
    mode: NoteSortMode,
    notes: Seq<Note>,
    first: Seq<usize>,
    second: Seq<usize>,
)
    requires
        first.len() > 0,
        second.len() > 0,
        first[0] == second[0],
        sorted_by(mode, notes, first),
        members_within(first, second),
    ensures
        members_within(first.drop_first(), second.drop_first()),
{
    let rest1 = first.drop_first();
    let rest2 = second.drop_first();
    assert forall|k: int| 0 <= k < rest1.len() implies rest2.contains(#[trigger] rest1[k]) by {
        assert(rest1[k] == first[k + 1]);
        assert(second.contains(first[k + 1]));
        let m = choose|m: int| 0 <= m < second.len() && second[m] == first[k + 1];
        assert(comes_before(mode, notes, first[0] as int, first[k + 1] as int));
        lemma_comes_before_irreflexive(mode, notes, first[0] as int);
        assert(m > 0);
        assert(rest2[m - 1] == rest1[k]);
    }
}

/// Two lists with the same members, both sorted, are equal.
proof fn lemma_sorted_lists_equal(
    mode: NoteSortMode,
    notes: Seq<Note>,
    first: Seq<usize>,
    second: Seq<usize>,
)
    requires
        members_within(first, second),
        members_within(second, first),
        sorted_by(mode, notes, first),
        sorted_by(mode, notes, second),
    ensures
        first == second,
    decreases first.len(),
{
    if first.len() == 0 {
        if second.len() > 0 {
            assert(first.contains(second[0]));
        }
        assert(first =~= second);
    } else if second.len() == 0 {
        assert(second.contains(first[0]));
    } else {
        assert(second.contains(first[0]));
        assert(first.contains(second[0]));
        lemma_heads_equal(mode, notes, first, second);
        lemma_tail_members(mode, notes, first, second);
        lemma_tail_members(mode, notes, second, first);
        lemma_tail_sorted(mode, notes, first);
        lemma_tail_sorted(mode, notes, second);
        lemma_sorted_lists_equal(mode, notes, first.drop_first(), second.drop_first());
        assert(first =~= seq![first[0]] + first.drop_first());
        assert(second =~= seq![second[0]] + second.drop_first());
    }
}

/// There is a list as the user sees it, whatever the notes, the filter and
/// the sort mode: the one that is built index by index.
pub proof fn lemma_projection_exists(
    notes: Seq<Note>,
    matched: Option<Set<usize>>,
    mode: NoteSortMode,
)
    requires
        notes.len() <= usize::MAX,
    ensures
        is_projection(notes, matched, mode, projection(notes, matched, mode)),
        projection(notes, matched, mode) == built(notes, matched, mode, notes.len() as int),
{
    lemma_built_is_projection(notes, matched, mode, notes.len() as int);
    let order = built(notes, matched, mode, notes.len() as int);
    assert(is_projection(notes, matched, mode, order));
    lemma_projection_unique(notes, matched, mode, projection(notes, matched, mode), order);
}

/// Whether note `a` goes before note `b` by the key that `mode` sorts on.
pub fn goes_before(mode: NoteSortMode, a: &Note, b: &Note) -> (r: bool)
    ensures
        r == key_less(mode, *a, *b),
{
    match mode {
        NoteSortMode::Unsorted => false,
        NoteSortMode::AscCreated => a.created_at.is_before(&b.created_at),
        NoteSortMode::DesCreated => b.created_at.is_before(&a.created_at),
        NoteSortMode::LabelAsc => str_less(a.label.as_str(), b.label.as_str()),
        NoteSortMode::LabelDesc => str_less(b.label.as_str(), a.label.as_str()),
    }
}

} // verus!
