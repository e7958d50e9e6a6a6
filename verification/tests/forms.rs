use norganisers::forms::{
    unsaved_note, EditNoteForm, Fields, FinalizeForm, Form, InputForm, NewNoteForm, NoteSearchForm,
};
use norganisers::note::{Note, Timestamp};
use norganisers::parsing::{join, parse_tags, trim_range, whitespace};
use norganisers::text::{byte_index, insert_at, remove_before};

fn strings(items: &[&str]) -> Vec<String> {
    items.iter().map(|s| s.to_string()).collect()
}

fn sample_note() -> Note {
    Note {
        id: 7,
        label: "Testing title".to_string(),
        text: "a very long string".to_string(),
        created_at: Timestamp { secs: 1325376000, nanos: 0 },
        tags: strings(&["npc", "neverwinter"]),
        related_notes: vec![1, 2, 3],
    }
}

#[test]
fn new_form_has_empty_fields() {
    let form = Form::new(3);
    assert_eq!(form.field_count(), 3);
    assert_eq!(form.field_content(0), "");
    assert_eq!(form.field_content(2), "");
    assert!(form.is_empty());
    assert_eq!(Form::new(0).field_count(), 0);
    assert!(Form::new(0).is_empty());
}

#[test]
fn with_fields_keeps_texts_in_order() {
    let form = Form::with_fields(strings(&["label", "a,b"]));
    assert_eq!(form.field_count(), 2);
    assert_eq!(form.field_content(0), "label");
    assert_eq!(form.field_content(1), "a,b");
    assert!(!form.is_empty());
}

#[test]
fn is_empty_needs_every_field_empty() {
    assert!(!Form::with_fields(strings(&["", "x"])).is_empty());
    assert!(Form::with_fields(strings(&["", ""])).is_empty());
}

#[test]
fn insert_in_field_goes_in_front_of_the_byte() {
    let mut form = Form::with_fields(strings(&["ac", ""]));
    form.insert_in_field(0, 1, 'b');
    assert_eq!(form.field_content(0), "abc");
    form.insert_in_field(0, 3, 'd');
    assert_eq!(form.field_content(0), "abcd");
    form.insert_in_field(0, 0, '>');
    assert_eq!(form.field_content(0), ">abcd");
    assert_eq!(form.field_content(1), "");
}

#[test]
fn insert_in_field_counts_bytes_not_scalars() {
    let mut form = Form::with_fields(strings(&["héllo"]));
    // 'h' takes one byte and 'é' two: byte 3 is in front of the first 'l'.
    form.insert_in_field(0, 3, '→');
    assert_eq!(form.field_content(0), "hé→llo");
}

#[test]
fn remove_in_field_at_byte_zero_changes_nothing() {
    let mut form = Form::with_fields(strings(&["abc", "x"]));
    form.remove_in_field(0, 0);
    assert_eq!(form.field_content(0), "abc");
    assert_eq!(form.field_content(1), "x");
}

#[test]
fn remove_in_field_takes_the_scalar_in_front() {
    let mut form = Form::with_fields(strings(&["abc", "x"]));
    form.remove_in_field(0, 2);
    assert_eq!(form.field_content(0), "ac");
    form.remove_in_field(0, 2);
    assert_eq!(form.field_content(0), "a");
    form.remove_in_field(0, 1);
    assert_eq!(form.field_content(0), "");
    assert_eq!(form.field_content(1), "x");
}

#[test]
fn remove_in_field_takes_a_whole_scalar_of_several_bytes() {
    let mut form = Form::with_fields(strings(&["a→b"]));
    // '→' takes bytes 1, 2 and 3.
    form.remove_in_field(0, 4);
    assert_eq!(form.field_content(0), "ab");
    let mut form = Form::with_fields(strings(&["a→b"]));
    form.remove_in_field(0, 2);
    assert_eq!(form.field_content(0), "ab");
    let mut form = Form::with_fields(strings(&["a→b"]));
    form.remove_in_field(0, 5);
    assert_eq!(form.field_content(0), "a→");
}

#[test]
fn replace_field_content_touches_one_field() {
    let mut form = Form::with_fields(strings(&["one", "two"]));
    form.replace_field_content(1, "zwei");
    assert_eq!(form.field_content(0), "one");
    assert_eq!(form.field_content(1), "zwei");
}

#[test]
fn byte_index_walks_scalar_boundaries() {
    assert_eq!(byte_index("héllo", 0), 0);
    assert_eq!(byte_index("héllo", 1), 1);
    assert_eq!(byte_index("héllo", 2), 3);
    assert_eq!(byte_index("héllo", 5), 6);
    assert_eq!(byte_index("héllo", 99), 6);
    assert_eq!(byte_index("", 0), 0);
    assert_eq!(byte_index("日本語", 2), 6);
}

#[test]
fn insert_at_and_remove_before_edit_a_string() {
    let mut s = "日語".to_string();
    insert_at(&mut s, 3, '本');
    assert_eq!(s, "日本語");
    remove_before(&mut s, 6);
    assert_eq!(s, "日語");
    remove_before(&mut s, 0);
    assert_eq!(s, "日語");
    remove_before(&mut s, 1);
    assert_eq!(s, "語");
}

#[test]
fn parse_tags_splits_trims_and_drops_empty() {
    assert_eq!(parse_tags("npc,neverwinter"), strings(&["npc", "neverwinter"]));
    assert_eq!(parse_tags(" npc , neverwinter ,, "), strings(&["npc", "neverwinter"]));
    assert_eq!(parse_tags(""), Vec::<String>::new());
    assert_eq!(parse_tags(" , ,"), Vec::<String>::new());
    assert_eq!(parse_tags("two words,\tx\u{a0}"), strings(&["two words", "x"]));
    assert_eq!(parse_tags("a,a"), strings(&["a", "a"]));
}

#[test]
fn whitespace_is_the_unicode_property() {
    for c in ['\t', '\n', '\u{b}', '\u{c}', '\r', ' ', '\u{85}', '\u{a0}', '\u{1680}'] {
        assert!(whitespace(c));
    }
    for c in ['\u{2000}', '\u{200a}', '\u{2028}', '\u{2029}', '\u{202f}', '\u{205f}', '\u{3000}'] {
        assert!(whitespace(c));
    }
    for c in ['a', '0', ',', '\u{200b}', '\u{8}', '\u{e}', '\u{feff}'] {
        assert!(!whitespace(c));
    }
    for code in 0u32..0x3100 {
        if let Some(c) = char::from_u32(code) {
            assert_eq!(whitespace(c), c.is_whitespace());
        }
    }
}

#[test]
fn trim_range_gives_the_bounds_of_the_trimmed_part() {
    let chars: Vec<char> = "x  ab c  y".chars().collect();
    assert_eq!(trim_range(&chars, 1, 9), (3, 7));
    assert_eq!(trim_range(&chars, 1, 3), (3, 3));
    assert_eq!(trim_range(&chars, 0, 10), (0, 10));
}

#[test]
fn join_puts_the_separator_between() {
    assert_eq!(join(&strings(&["a", "b", "c"]), ","), "a,b,c");
    assert_eq!(join(&strings(&["a"]), ","), "a");
    assert_eq!(join(&Vec::new(), ","), "");
    assert_eq!(join(&strings(&["", ""]), ", "), ", ");
}

#[test]
fn to_unsaved_note_reads_label_and_tags() {
    let form = Form::with_fields(strings(&["Testing title 1", "npc, neverwinter,"]));
    let note = form.to_unsaved_note_at(Timestamp { secs: 5, nanos: 6 });
    assert_eq!(note.label, "Testing title 1");
    assert_eq!(note.text, "");
    assert_eq!(note.tags, strings(&["npc", "neverwinter"]));
    assert_eq!(note.related_notes, Vec::<usize>::new());
    assert_eq!(note.created_at, Timestamp { secs: 5, nanos: 6 });
}

#[test]
fn to_unsaved_note_stamps_the_current_time() {
    let form = Form::with_fields(strings(&["label", ""]));
    let note = form.to_unsaved_note();
    assert_eq!(note.label, "label");
    assert_eq!(note.tags, Vec::<String>::new());
    // Any reading of a clock that runs is later than the first of January 2020.
    assert!(note.created_at.secs > 1_577_836_800);
    assert!(note.created_at.nanos < 2_000_000_000);
    let now = chrono::Utc::now().timestamp();
    assert!((now - note.created_at.secs).abs() < 3600);
}

#[test]
fn unsaved_note_has_no_text_and_no_relations() {
    let note = unsaved_note("l", "t1,t2", Timestamp { secs: 1, nanos: 2 });
    assert_eq!(note.label, "l");
    assert_eq!(note.text, "");
    assert_eq!(note.tags, strings(&["t1", "t2"]));
    assert!(note.related_notes.is_empty());
}

#[test]
fn new_note_form_needs_a_label() {
    let mut form = NewNoteForm::default();
    assert_eq!(form.field_count(), 2);
    assert!(!form.valid());
    form.replace_field_content(1, "a, b");
    assert!(!form.valid());
    form.insert_in_field(0, 0, 'x');
    assert!(form.valid());
    assert_eq!(form.field_content(0), "x");
    assert_eq!(form.field_content(1), "a, b");
    let note = form.finalize_at(Timestamp { secs: 9, nanos: 0 });
    assert_eq!(note.label, "x");
    assert_eq!(note.tags, strings(&["a", "b"]));
    assert_eq!(note.created_at, Timestamp { secs: 9, nanos: 0 });
    let stamped = form.finalize();
    assert_eq!(stamped.label, "x");
    assert_eq!(stamped.tags, strings(&["a", "b"]));
    assert!(stamped.created_at.secs > 1_577_836_800);
    form.remove_in_field(0, 1);
    assert!(!form.valid());
    form.remove_in_field(0, 0);
    assert_eq!(form.field_content(0), "");
}

#[test]
fn edit_note_form_keeps_the_rest_of_the_note() {
    let note = sample_note();
    let mut form = EditNoteForm::from_note(&note);
    assert_eq!(form.field_count(), 2);
    assert_eq!(form.field_content(0), "Testing title");
    assert_eq!(form.field_content(1), "npc, neverwinter");
    assert_eq!(form.note(), &note);
    assert!(form.valid());
    form.replace_field_content(0, "New label");
    form.replace_field_content(1, "x ,, y");
    form.insert_in_field(1, 0, 'a');
    form.remove_in_field(0, 1);
    let changed = form.finalize();
    assert_eq!(changed.id, 7);
    assert_eq!(changed.label, "ew label");
    assert_eq!(changed.tags, strings(&["ax", "y"]));
    assert_eq!(changed.text, "a very long string");
    assert_eq!(changed.related_notes, vec![1, 2, 3]);
    assert_eq!(changed.created_at, note.created_at);
    form.replace_field_content(0, "");
    assert!(!form.valid());
}

#[test]
fn search_form_needs_one_of_its_queries() {
    let mut form = NoteSearchForm::default();
    assert_eq!(form.field_count(), 2);
    assert!(!form.valid());
    form.insert_in_field(1, 0, 't');
    assert!(form.valid());
    form.remove_in_field(1, 1);
    assert!(!form.valid());
    form.replace_field_content(0, "long");
    assert!(form.valid());
    assert_eq!(form.field_content(0), "long");
    assert_eq!(form.finalize(), ("long".to_string(), "".to_string()));
}
