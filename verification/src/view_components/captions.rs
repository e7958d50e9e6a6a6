//! The texts that the screen shows around the notes: captions, titles, and
//! how they are cut and wrapped to fit. To paint them is the caller's work.

use crate::note::Note;
use crate::note_store::NoteSortMode;
use crate::parsing::{decimal, push_decimal};
use crate::text::{push_char, texts};
use vstd::prelude::*;
use vstd::string::*;
use vstd::utf8::*;

verus! {

/// The first `n` of `bytes`, each taken as the scalar with that number.
pub open spec fn bytes_as_chars(bytes: Seq<u8>, n: int) -> Seq<char> {
    Seq::new(n as nat, |i: int| bytes[i] as char)
}

/// `text` cut to fit: a text of more than `limit` bytes gives way to its
/// first `keep` bytes, each taken as a scalar of its own, and an ellipsis.
/// A shorter text stays as it is.
pub open spec fn shortened(text: Seq<char>, limit: int, keep: int) -> Seq<char> {
    let bytes = encode_utf8(text);
    if bytes.len() > limit {
        bytes_as_chars(
            bytes,
            if keep < bytes.len() {
                keep
            } else {
                bytes.len() as int
            },
        ).push('…')
    } else {
        text
    }
}

/// `text` cut to fit: see [`shortened`].
pub fn shorten(text: &str, limit: usize, keep: usize) -> (cut: String)
    ensures
        cut@ == shortened(text@, limit as int, keep as int),
{
    let bytes = text.as_bytes();
    if bytes.len() <= limit {
        return text.to_owned();
    }
    let mut cut = String::new();
    let mut i: usize = 0;
    assert(cut@ =~= bytes_as_chars(bytes@, 0));
    while i < bytes.len() && i < keep
        invariant
            i <= bytes@.len(),
            i <= keep,
            cut@ == bytes_as_chars(bytes@, i as int),
        decreases bytes@.len() - i,
    {
        push_char(&mut cut, bytes[i] as char);
        assert(cut@ =~= bytes_as_chars(bytes@, i + 1));
        i += 1;
    }
    push_char(&mut cut, '…');
    cut
}

/// The caption of a note in the list: its id, a colon and its label, cut
/// to fit a list that is `max_width` columns wide.
pub open spec fn note_caption(note: Note, max_width: int) -> Seq<char> {
    shortened(
        decimal(note.id as nat).push(':') + note.label@,
        if max_width >= 5 {
            max_width - 5
        } else {
            0
        },
        if max_width >= 6 {
            max_width - 6
        } else {
            0
        },
    )
}

/// The caption of `note` in a list that is `max_width` columns wide.
pub fn format_caption(note: &Note, max_width: usize) -> (caption: String)
    ensures
        caption@ == note_caption(*note, max_width as int),
{
    let mut whole = String::new();
    push_decimal(&mut whole, note.id);
    push_char(&mut whole, ':');
    whole.append(note.label.as_str());
    assert(whole@ =~= decimal(note.id as nat).push(':') + note.label@);
    let limit = if max_width >= 5 {
        max_width - 5
    } else {
        0
    };
    let keep = if max_width >= 6 {
        max_width - 6
    } else {
        0
    };
    shorten(whole.as_str(), limit, keep)
}

/// A tag as the list shows it: in square brackets, with a space behind.
pub open spec fn tag_label(tag: Seq<char>) -> Seq<char> {
    seq!['['] + tag + seq![']', ' ']
}

/// The rows of tags while they are laid out: the rows that are full, the
/// row that is being filled, and how many columns of it are taken.
pub struct Rows {
    pub full: Seq<Seq<Seq<char>>>,
    pub open: Seq<Seq<char>>,
    pub width: int,
}

/// The rows after the tags of `tags` were put in one by one: a tag that
/// does not fit into what is left of the open row starts a new one.
pub open spec fn laid_out(tags: Seq<Seq<char>>, max_width: int) -> Rows
    decreases tags.len(),
{
    if tags.len() == 0 {
        Rows { full: Seq::empty(), open: Seq::empty(), width: 0 }
    } else {
        let before = laid_out(tags.drop_last(), max_width);
        let label = tag_label(tags.last());
        if before.width + label.len() > max_width {
            Rows {
                full: before.full.push(before.open),
                open: seq![label],
                width: label.len() as int,
            }
        } else {
            Rows {
                full: before.full,
                open: before.open.push(label),
                width: before.width + label.len(),
            }
        }
    }
}

/// The rows in which the tags of a note are shown, in a list that is
/// `max_width` columns wide: the tags in their order, as many in a row as
/// fit. A tag that is wider than the list has a row of its own.
pub open spec fn tag_rows(tags: Seq<Seq<char>>, max_width: int) -> Seq<Seq<Seq<char>>> {
    let rows = laid_out(tags, max_width);
    if rows.open.len() == 0 {
        rows.full
    } else {
        rows.full.push(rows.open)
    }
}

/// What each of the rows holds.
pub open spec fn row_texts(rows: Seq<Vec<String>>) -> Seq<Seq<Seq<char>>> {
    Seq::new(rows.len(), |i: int| texts(rows[i]@))
}

/// The rows in which `tags` are shown in a list that is `max_width` columns
/// wide.
pub fn wrap_tags(tags: &Vec<String>, max_width: usize) -> (rows: Vec<Vec<String>>)
    ensures
        row_texts(rows@) == tag_rows(texts(tags@), max_width as int),
{
    let mut rows: Vec<Vec<String>> = Vec::new();
    let mut open: Vec<String> = Vec::new();
    let mut width: usize = 0;
    let mut i: usize = 0;
    proof {
        assert(texts(tags@).take(0) =~= Seq::<Seq<char>>::empty());
        assert(row_texts(rows@) =~= Seq::<Seq<Seq<char>>>::empty());
        assert(texts(open@) =~= Seq::<Seq<char>>::empty());
    }
    while i < tags.len()
        invariant
            i <= tags@.len(),
            row_texts(rows@) == laid_out(texts(tags@).take(i as int), max_width as int).full,
            texts(open@) == laid_out(texts(tags@).take(i as int), max_width as int).open,
            width == laid_out(texts(tags@).take(i as int), max_width as int).width,
        decreases tags@.len() - i,
    {
        let mut label = String::new();
        push_char(&mut label, '[');
        label.append(tags[i].as_str());
        push_char(&mut label, ']');
        push_char(&mut label, ' ');
        let label_width = label.as_str().unicode_len();
        let ghost full_before = row_texts(rows@);
        let ghost open_before = texts(open@);
        proof {
            assert(label@ =~= tag_label(tags@[i as int]@));
            assert(texts(tags@).take(i + 1).drop_last() =~= texts(tags@).take(i as int));
            assert(texts(tags@).take(i + 1).last() == tags@[i as int]@);
        }
        if width > max_width || label_width > max_width - width {
            rows.push(open);
            open = Vec::new();
            open.push(label);
            width = label_width;
            proof {
                assert(row_texts(rows@) =~= full_before.push(open_before));
                assert(texts(open@) =~= seq![label@]);
            }
        } else {
            open.push(label);
            width = width + label_width;
            proof {
                assert(texts(open@) =~= open_before.push(label@));
            }
        }
        i += 1;
    }
    assert(texts(tags@).take(i as int) =~= texts(tags@));
    if open.len() > 0 {
        let ghost full_before = row_texts(rows@);
        let ghost open_before = texts(open@);
        rows.push(open);
        assert(row_texts(rows@) =~= full_before.push(open_before));
    }
    rows
}

/// The title of the note list: how many ids the filter matches where one
/// is set.
pub open spec fn list_title(matches: Option<usize>) -> Seq<char> {
    match matches {
        Some(n) => "Notes - "@ + decimal(n as nat) + " found"@,
        None => "Notes"@,
    }
}

/// The title of the note list.
pub fn format_list_title(matches: Option<usize>) -> (title: String)
    ensures
        title@ == list_title(matches),
{
    match matches {
        Some(n) => {
            let mut title = "Notes - ".to_owned();
            push_decimal(&mut title, n);
            title.append(" found");
            title
        },
        None => "Notes".to_owned(),
    }
}

/// How the note list names the order it is in.
pub open spec fn sort_caption(mode: NoteSortMode) -> Seq<char> {
    match mode {
        NoteSortMode::Unsorted => "<None>"@,
        NoteSortMode::LabelAsc => "<Abc ↑ >"@,
        NoteSortMode::LabelDesc => "<Abc ↓ >"@,
        NoteSortMode::AscCreated => "<Date ↑ >"@,
        NoteSortMode::DesCreated => "<Date ↓ >"@,
    }
}

/// How the note list names the order it is in.
pub fn format_sort_caption(mode: NoteSortMode) -> (caption: &'static str)
    ensures
        caption@ == sort_caption(mode),
{
    match mode {
        NoteSortMode::Unsorted => "<None>",
        NoteSortMode::LabelAsc => "<Abc ↑ >",
        NoteSortMode::LabelDesc => "<Abc ↓ >",
        NoteSortMode::AscCreated => "<Date ↑ >",
        NoteSortMode::DesCreated => "<Date ↓ >",
    }
}

/// An item of the pick-list as it is shown: marked with a star where it is
/// selected, and cut to fit a list of `max_width` columns.
pub open spec fn pick_caption(item: Seq<char>, selected: bool, max_width: int) -> Seq<char> {
    shortened(
        if selected {
            seq!['*', ' '] + item
        } else {
            item
        },
        if max_width >= 5 {
            max_width - 5
        } else {
            0
        },
        if max_width >= 6 {
            max_width - 6
        } else {
            0
        },
    )
}

/// An item of the pick-list as it is shown.
pub fn format_pick(item: &str, selected: bool, max_width: u16) -> (caption: String)
    ensures
        caption@ == pick_caption(item@, selected, max_width as int),
{
    let limit: usize = if max_width >= 5 {
        (max_width - 5) as usize
    } else {
        0
    };
    let keep: usize = if max_width >= 6 {
        (max_width - 6) as usize
    } else {
        0
    };
    if selected {
        let mut marked = String::new();
        push_char(&mut marked, '*');
        push_char(&mut marked, ' ');
        marked.append(item);
        assert(marked@ =~= seq!['*', ' '] + item@);
        shorten(marked.as_str(), limit, keep)
    } else {
        shorten(item, limit, keep)
    }
}

/// The title of the pick-list: how many of its items are selected.
pub open spec fn pick_title(selected: usize, total: usize) -> Seq<char> {
    "Tag Selection ("@ + decimal(selected as nat) + seq!['/'] + decimal(total as nat) + seq![')']
}

/// The title of the pick-list.
pub fn format_pick_title(selected: usize, total: usize) -> (title: String)
    ensures
        title@ == pick_title(selected, total),
{
    let mut title = "Tag Selection (".to_owned();
    push_decimal(&mut title, selected);
    push_char(&mut title, '/');
    push_decimal(&mut title, total);
    push_char(&mut title, ')');
    assert(title@ =~= pick_title(selected, total));
    title
}

/// How many rows the pick-list takes for `items` items where `max_height`
/// rows can be had: two for one item or none, else one for each item, and
/// no more than can be had.
pub fn pick_rows(items: usize, max_height: u16) -> (rows: u16)
    ensures
        rows == if items <= 1 {
            2
        } else if items < max_height {
            items as int
        } else {
            max_height as int
        },
{
    if items <= 1 {
        2
    } else if items < max_height as usize {
        items as u16
    } else {
        max_height
    }
}

} // verus!
