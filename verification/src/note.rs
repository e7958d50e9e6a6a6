//! Notes, and the collaborators that store and edit them.

use crate::text::texts;
use vstd::prelude::*;
use vstd::string::*;

verus! {

/// A point in time: whole seconds since 1970-01-01 00:00:00 UTC, and the
/// nanoseconds past that second (a thousand million or more during a leap
/// second).
#[derive(Clone, Copy, Debug, PartialEq, Eq, Structural)]
pub struct Timestamp {
    pub secs: i64,
    pub nanos: u32,
}

impl Timestamp {
    /// Whether this point in time lies before `other`.
    pub open spec fn before(self, other: Timestamp) -> bool {
        self.secs < other.secs || (self.secs == other.secs && self.nanos < other.nanos)
    }

    /// Whether this point in time lies before `other`.
    pub fn is_before(&self, other: &Timestamp) -> (r: bool)
        ensures
            r == self.before(*other),
    {
        self.secs < other.secs || (self.secs == other.secs && self.nanos < other.nanos)
    }

    /// `chrono::Local::now`, turned into UTC: the reading of the system
    /// clock. Nothing is claimed of it.
    #[verifier::external_body]
    pub(crate) fn now() -> Timestamp {
        let now: chrono::DateTime<chrono::Utc> = chrono::Local::now().into();
        Timestamp { secs: now.timestamp(), nanos: now.timestamp_subsec_nanos() }
    }
}

/// What a note holds.
pub struct NoteView {
    pub id: usize,
    pub label: Seq<char>,
    pub text: Seq<char>,
    pub created_at: Timestamp,
    pub tags: Seq<Seq<char>>,
    pub related_notes: Seq<usize>,
}

/// A stored note. The backend gives each note its id.
#[derive(Debug, PartialEq, Eq)]
pub struct Note {
    pub id: usize,
    pub label: String,
    pub text: String,
    pub created_at: Timestamp,
    pub tags: Vec<String>,
    pub related_notes: Vec<usize>,
}

impl View for Note {
    type V = NoteView;

    open spec fn view(&self) -> NoteView {
        NoteView {
            id: self.id,
            label: self.label@,
            text: self.text@,
            created_at: self.created_at,
            tags: texts(self.tags@),
            related_notes: self.related_notes@,
        }
    }
}

impl Clone for Note {
    fn clone(&self) -> (copy: Self)
        ensures
            copy@ == self@,
    {
        let tags = self.tags.clone();
        let related_notes = self.related_notes.clone();
        assert(texts(tags@) =~= texts(self.tags@));
        assert(related_notes@ =~= self.related_notes@);
        Note {
            id: self.id,
            label: self.label.clone(),
            text: self.text.clone(),
            created_at: self.created_at,
            tags,
            related_notes,
        }
    }
}

/// What each of a sequence of notes holds.
pub open spec fn note_views(notes: Seq<Note>) -> Seq<NoteView> {
    Seq::new(notes.len(), |i: int| notes[i]@)
}

/// What a note holds before the backend has given it an id.
pub struct UnsavedNoteView {
    pub label: Seq<char>,
    pub text: Seq<char>,
    pub tags: Seq<Seq<char>>,
    pub related_notes: Seq<usize>,
    pub created_at: Timestamp,
}

impl UnsavedNoteView {
    /// The note that this one becomes under `id`.
    pub open spec fn with_id(self, id: usize) -> NoteView {
        NoteView {
            id,
            label: self.label,
            text: self.text,
            created_at: self.created_at,
            tags: self.tags,
            related_notes: self.related_notes,
        }
    }
}

/// A note that was not stored yet.
#[derive(Debug, PartialEq, Eq)]
pub struct UnsavedNote {
    pub label: String,
    pub text: String,
    pub tags: Vec<String>,
    pub related_notes: Vec<usize>,
    pub created_at: Timestamp,
}

impl View for UnsavedNote {
    type V = UnsavedNoteView;

    open spec fn view(&self) -> UnsavedNoteView {
        UnsavedNoteView {
            label: self.label@,
            text: self.text@,
            tags: texts(self.tags@),
            related_notes: self.related_notes@,
            created_at: self.created_at,
        }
    }
}

impl Clone for UnsavedNote {
    fn clone(&self) -> (copy: Self)
        ensures
            copy@ == self@,
    {
        let tags = self.tags.clone();
        let related_notes = self.related_notes.clone();
        assert(texts(tags@) =~= texts(self.tags@));
        assert(related_notes@ =~= self.related_notes@);
        UnsavedNote {
            label: self.label.clone(),
            text: self.text.clone(),
            tags,
            related_notes,
            created_at: self.created_at,
        }
    }
}

impl UnsavedNote {
    pub fn new(
        label: String,
        text: String,
        tags: Vec<String>,
        related_notes: Vec<usize>,
        created_at: Timestamp,
    ) -> (note: Self)
        ensures
            note.label == label,
            note.text == text,
            note.tags == tags,
            note.related_notes == related_notes,
            note.created_at == created_at,
    {
        Self { label, text, tags, related_notes, created_at }
    }

    /// The stored note that this one becomes under `id`.
    pub fn into_note(self, id: usize) -> (note: Note)
        ensures
            note@ == self@.with_id(id),
            note.label == self.label,
            note.text == self.text,
            note.tags == self.tags,
            note.related_notes == self.related_notes,
    {
        Note {
            id,
            label: self.label,
            text: self.text,
            tags: self.tags,
            related_notes: self.related_notes,
            created_at: self.created_at,
        }
    }
}

/// The store that keeps the notes between sessions. Nothing is required of
/// what an implementation returns: whoever calls one is verified for every
/// outcome.
pub trait NoteBackend {
    /// All stored notes, in stored order.
    fn retrieve_notes(&self) -> Result<Vec<Note>, String>;

    /// Stores `note` under an id that the backend picks.
    fn add_note(&self, note: UnsavedNote) -> Result<(), String>;

    /// Deletes the note with id `target_id`.
    fn delete_note(&self, target_id: usize) -> Result<(), String>;

    /// Puts `note` in place of the stored note that has its id.
    fn update_note(&self, note: &Note) -> Result<(), String>;
}

/// The editor in which the user changes a note's text. Nothing is required
/// of what an implementation returns.
pub trait TextEditor {
    /// Lets the user edit `text` and hands back what they left, or says why
    /// the editor failed.
    fn open_temp_file(text: &str) -> Result<String, String>;
}

} // verus!
