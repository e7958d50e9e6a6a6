//! State engine of a keyboard-driven note organiser: forms with per-field
//! cursors, a filtered and sorted note collection, and the reducer that
//! turns key presses into state transitions.

pub mod config;
pub mod event_handling;
pub mod forms;
pub mod json;
pub mod model;
pub mod model_helpers;
pub mod note;
pub mod note_store;
pub mod parsing;
pub mod searching;
pub mod sorting;
pub mod text;
pub mod view_components;

pub use model::{update, Message, Model, RunningState};
pub use note::{Note, NoteBackend, TextEditor, Timestamp, UnsavedNote};
pub use note_store::{NoteSortMode, NoteStore};
