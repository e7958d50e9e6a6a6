//! Searching the notes with an outside matcher. The matcher reads lines
//! that each start with a note's id and prints the lines that match a
//! term. What is handed to it is laid out here, and what it printed is read
//! here; to run it is the caller's work.

use crate::note::Note;
use crate::parsing::{
    chars_of, decimal, is_digit, join, joined, lemma_first_piece, lemma_number_in_decimal,
    number_in, parse_number, parse_tags, pieces, push_decimal, split_ranges, tag_list, trim_range,
    trimmed,
};
use crate::text::texts;
use std::collections::HashSet;
use vstd::prelude::*;
use vstd::string::*;

verus! {

/// The line that stands for a note in a search on label and text: its id,
/// a colon and a space, its label, a bar between spaces, and its text.
pub open spec fn note_line(note: Note) -> Seq<char> {
    decimal(note.id as nat) + seq![':', ' '] + note.label@ + seq![' ', '|', ' '] + note.text@
}

/// The line that stands for a note in a search on tags: its id, a colon
/// and a space, and its tags with a space between each two.
pub open spec fn tag_line(note: Note) -> Seq<char> {
    decimal(note.id as nat) + seq![':', ' '] + joined(texts(note.tags@), seq![' '])
}

/// The id that a printed line starts with: what stands before its first
/// colon, trimmed, read as a decimal number. `None` where that is no
/// number.
pub open spec fn line_id(line: Seq<char>) -> Option<usize> {
    number_in(trimmed(pieces(line, ':')[0]))
}

/// The ids that the lines start with, in the order of the lines; lines
/// without an id are passed over.
pub open spec fn listed_ids(lines: Seq<Seq<char>>) -> Seq<usize>
    decreases lines.len(),
{
    if lines.len() == 0 {
        Seq::empty()
    } else {
        match line_id(lines.last()) {
            Some(id) => listed_ids(lines.drop_last()).push(id),
            None => listed_ids(lines.drop_last()),
        }
    }
}

/// The ids of the lines that the matcher printed.
pub open spec fn ids_in(output: Seq<char>) -> Seq<usize> {
    listed_ids(pieces(output, '\n'))
}

/// What the runs of the matcher printed: the run on label and text first,
/// where there was one, then the runs on tags.
pub open spec fn outputs(note_output: Option<Seq<char>>, tag_outputs: Seq<Seq<char>>) -> Seq<
    Seq<char>,
> {
    match note_output {
        Some(output) => seq![output] + tag_outputs,
        None => tag_outputs,
    }
}

/// The ids that a search matches: those that every run of the matcher
/// printed; none where no run was made.
pub open spec fn search_result(
    note_output: Option<Seq<char>>,
    tag_outputs: Seq<Seq<char>>,
) -> Set<usize> {
    let outs = outputs(note_output, tag_outputs);
    Set::new(
        |id: usize|
            outs.len() > 0 && forall|i: int|
                0 <= i < outs.len() ==> ids_in(#[trigger] outs[i]).contains(id),
    )
}

/// The line that stands for a note is read back as the note's id, in a
/// search on label and text as in a search on tags, whatever label, text
/// and tags the note has.
pub proof fn lemma_line_names_its_note(note: Note)
    ensures
        line_id(note_line(note)) == Some(note.id),
        line_id(tag_line(note)) == Some(note.id),
{
    let id = decimal(note.id as nat);
    lemma_number_in_decimal(note.id);
    assert forall|i: int| 0 <= i < id.len() implies #[trigger] id[i] != ':' by {
        assert(is_digit(id[i]));
    }
    let after = seq![' '] + note.label@ + seq![' ', '|', ' '] + note.text@;
    assert(note_line(note) =~= id + seq![':'] + after);
    lemma_first_piece(id, ':', after);
    let tags = seq![' '] + joined(texts(note.tags@), seq![' ']);
    assert(tag_line(note) =~= id + seq![':'] + tags);
    lemma_first_piece(id, ':', tags);
}

/// What a search hands to the matcher.
#[derive(Debug, PartialEq, Eq)]
pub struct SearchPlan {
    /// The term to match against `note_lines`; `None` where the query on
    /// label and text is empty.
    pub note_term: Option<String>,
    /// One line for each note, with its label and text.
    pub note_lines: Vec<String>,
    /// The terms to match against `tag_lines`, one run for each.
    pub tag_terms: Vec<String>,
    /// One line for each note, with its tags.
    pub tag_lines: Vec<String>,
}

/// What the matcher printed for a [`SearchPlan`].
#[derive(Debug, PartialEq, Eq)]
pub struct SearchOutput {
    /// Of the run on label and text, where the plan has a term for it.
    pub note_output: Option<String>,
    /// Of the runs on tags, in the order of the plan's terms.
    pub tag_outputs: Vec<String>,
}

impl SearchOutput {
    /// The text of each run on tags.
    pub open spec fn tag_texts(&self) -> Seq<Seq<char>> {
        texts(self.tag_outputs@)
    }

    /// The text of the run on label and text.
    pub open spec fn note_text(&self) -> Option<Seq<char>> {
        match self.note_output {
            Some(output) => Some(output@),
            None => None,
        }
    }
}

/// The line that stands for `note` in a search on label and text.
pub fn format_note_line(note: &Note) -> (line: String)
    ensures
        line@ == note_line(*note),
{
    proof {
        reveal_strlit(": ");
        reveal_strlit(" | ");
        assert(": "@ =~= seq![':', ' ']);
        assert(" | "@ =~= seq![' ', '|', ' ']);
    }
    let mut line = String::new();
    push_decimal(&mut line, note.id);
    assert(line@ =~= decimal(note.id as nat));
    line.append(": ");
    line.append(note.label.as_str());
    line.append(" | ");
    line.append(note.text.as_str());
    line
}

/// The line that stands for `note` in a search on tags.
pub fn format_tag_line(note: &Note) -> (line: String)
    ensures
        line@ == tag_line(*note),
{
    proof {
        reveal_strlit(": ");
        reveal_strlit(" ");
        assert(": "@ =~= seq![':', ' ']);
        assert(" "@ =~= seq![' ']);
    }
    let mut line = String::new();
    push_decimal(&mut line, note.id);
    assert(line@ =~= decimal(note.id as nat));
    line.append(": ");
    let tags = join(&note.tags, " ");
    line.append(tags.as_str());
    line
}

/// What to hand to the matcher for the two queries of the search form. An
/// empty query on label and text asks for no run; the query on tags asks
/// for one run for each tag that it names.
pub fn search_plan(notes: &Vec<Note>, note_search: &str, tag_search: &str) -> (plan: SearchPlan)
    ensures
        match plan.note_term {
            Some(term) => note_search@.len() > 0 && term@ == note_search@,
            None => note_search@.len() == 0,
        },
        texts(plan.tag_terms@) == tag_list(tag_search@),
        texts(plan.note_lines@) == Seq::new(notes@.len(), |i: int| note_line(notes@[i])),
        texts(plan.tag_lines@) == Seq::new(notes@.len(), |i: int| tag_line(notes@[i])),
{
    let note_term = if note_search.is_empty() {
        None
    } else {
        Some(note_search.to_owned())
    };
    let tag_terms = parse_tags(tag_search);
    let mut note_lines: Vec<String> = Vec::new();
    let mut tag_lines: Vec<String> = Vec::new();
    let mut i: usize = 0;
    while i < notes.len()
        invariant
            i <= notes@.len(),
            note_lines@.len() == i,
            tag_lines@.len() == i,
            forall|j: int| 0 <= j < i ==> (#[trigger] note_lines@[j])@ == note_line(notes@[j]),
            forall|j: int| 0 <= j < i ==> (#[trigger] tag_lines@[j])@ == tag_line(notes@[j]),
        decreases notes@.len() - i,
    {
        note_lines.push(format_note_line(&notes[i]));
        tag_lines.push(format_tag_line(&notes[i]));
        i += 1;
    }
    assert(texts(note_lines@) =~= Seq::new(notes@.len(), |i: int| note_line(notes@[i])));
    assert(texts(tag_lines@) =~= Seq::new(notes@.len(), |i: int| tag_line(notes@[i])));
    SearchPlan { note_term, note_lines, tag_terms, tag_lines }
}

/// The ids of the lines that the matcher printed, in the order of the
/// lines. Lines that do not start with a number and a colon, or with a
/// number alone, are passed over.
pub fn parse_matches(output: &str) -> (ids: Vec<usize>)
    ensures
        ids@ == ids_in(output@),
{
    let chars = chars_of(output);
    let lines = split_ranges(&chars, 0, chars.len(), '\n');
    assert(chars@.subrange(0, chars@.len() as int) =~= output@);
    let ghost all = pieces(output@, '\n');
    let mut ids: Vec<usize> = Vec::new();
    let mut k: usize = 0;
    assert(all.take(0) =~= Seq::<Seq<char>>::empty());
    while k < lines.len()
        invariant
            k <= lines@.len(),
            chars@ == output@,
            all == pieces(output@, '\n'),
            lines@.len() == all.len(),
            forall|j: int|
                0 <= j < lines@.len() ==> (#[trigger] lines@[j]).0 <= lines@[j].1 <= chars@.len()
                    && chars@.subrange(lines@[j].0 as int, lines@[j].1 as int) == all[j],
            ids@ == listed_ids(all.take(k as int)),
        decreases lines@.len() - k,
    {
        let (from, to) = lines[k];
        let parts = split_ranges(&chars, from, to, ':');
        proof {
            crate::parsing::lemma_pieces_nonempty(all[k as int], ':');
            assert(all.take(k + 1).drop_last() =~= all.take(k as int));
            assert(all.take(k + 1).last() == all[k as int]);
        }
        let (a, b) = parts[0];
        let (a, b) = trim_range(&chars, a, b);
        if let Some(id) = parse_number(&chars, a, b) {
            ids.push(id);
        }
        k += 1;
    }
    assert(all.take(k as int) =~= all);
    ids
}

/// Whether `id` is among `ids`.
pub fn has_id(ids: &Vec<usize>, id: usize) -> (found: bool)
    ensures
        found == ids@.contains(id),
{
    let mut i: usize = 0;
    while i < ids.len()
        invariant
            i <= ids@.len(),
            forall|j: int| 0 <= j < i ==> ids@[j] != id,
        decreases ids@.len() - i,
    {
        if ids[i] == id {
            return true;
        }
        i += 1;
    }
    false
}

/// The ids that a search matches, from what the matcher printed: those
/// that every run printed. A search on label and text and a search on tags
/// both narrow the result, and so does each tag that the query names.
/// Where no run was made the result is empty.
pub fn fzf_search(output: &SearchOutput) -> (matched: HashSet<usize>)
    ensures
        matched@ == search_result(output.note_text(), output.tag_texts()),
{
    let ghost outs = outputs(output.note_text(), output.tag_texts());
    let mut lists: Vec<Vec<usize>> = Vec::new();
    if let Some(text) = &output.note_output {
        lists.push(parse_matches(text.as_str()));
    }
    let ghost lead = lists@.len();
    let mut t: usize = 0;
    while t < output.tag_outputs.len()
        invariant
            t <= output.tag_outputs@.len(),
            outs == outputs(output.note_text(), output.tag_texts()),
            lead == if output.note_output is Some {
                1nat
            } else {
                0nat
            },
            lists@.len() == lead + t,
            forall|j: int| 0 <= j < lists@.len() ==> (#[trigger] lists@[j])@ == ids_in(outs[j]),
        decreases output.tag_outputs@.len() - t,
    {
        lists.push(parse_matches(output.tag_outputs[t].as_str()));
        t += 1;
    }
    assert(lists@.len() == outs.len());
    let mut matched: HashSet<usize> = HashSet::new();
    if lists.len() == 0 {
        assert(matched@ =~= search_result(output.note_text(), output.tag_texts()));
        return matched;
    }
    let mut i: usize = 0;
    while i < lists[0].len()
        invariant
            lists@.len() == outs.len(),
            lists@.len() > 0,
            i <= lists@[0]@.len(),
            forall|j: int| 0 <= j < lists@.len() ==> (#[trigger] lists@[j])@ == ids_in(outs[j]),
            forall|id: usize|
                matched@.contains(id) <==> (lists@[0]@.take(i as int).contains(id) && forall|
                    j: int,
                |
                    0 <= j < outs.len() ==> ids_in(#[trigger] outs[j]).contains(id)),
        decreases lists@[0]@.len() - i,
    {
        let id = lists[0][i];
        let mut everywhere = true;
        let mut j: usize = 1;
        assert(lists@[0]@.contains(id));
        while j < lists.len()
            invariant
                1 <= j <= lists@.len(),
                lists@.len() == outs.len(),
                lists@[0]@.contains(id),
                forall|m: int| 0 <= m < lists@.len() ==> (#[trigger] lists@[m])@ == ids_in(outs[m]),
                everywhere <==> forall|m: int|
                    0 <= m < j ==> ids_in(#[trigger] outs[m]).contains(id),
            decreases lists@.len() - j,
        {
            if !has_id(&lists[j], id) {
                everywhere = false;
                assert(!ids_in(outs[j as int]).contains(id));
            }
            j += 1;
        }
        let ghost before = matched@;
        if everywhere {
            matched.insert(id);
        }
        proof {
            let shorter = lists@[0]@.take(i as int);
            let longer = lists@[0]@.take(i + 1);
            assert(longer =~= shorter.push(id));
            assert forall|x: usize|
                matched@.contains(x) <==> (longer.contains(x) && forall|m: int|
                    0 <= m < outs.len() ==> ids_in(#[trigger] outs[m]).contains(x)) by {
                if longer.contains(x) {
                    let p = choose|p: int| 0 <= p < longer.len() && longer[p] == x;
                    if p < i {
                        assert(shorter[p] == x);
                    }
                }
                if shorter.contains(x) {
                    let p = choose|p: int| 0 <= p < shorter.len() && shorter[p] == x;
                    assert(longer[p] == x);
                }
                assert(longer[i as int] == id);
            }
        }
        i += 1;
    }
    proof {
        assert(lists@[0]@.take(i as int) =~= lists@[0]@);
        assert forall|id: usize|
            matched@.contains(id) <==> search_result(
                output.note_text(),
                output.tag_texts(),
            ).contains(id) by {
            if search_result(output.note_text(), output.tag_texts()).contains(id) {
                assert(ids_in(outs[0]).contains(id));
            }
        }
        assert(matched@ =~= search_result(output.note_text(), output.tag_texts()));
    }
    matched
}

} // verus!
