//! The configuration of the program, and where in the user's directories it
//! is looked for.

use crate::parsing::chars_of;
use crate::text::texts;
use std::path::PathBuf;
use vstd::prelude::*;
use vstd::string::*;

verus! {

#[verifier::external_type_specification]
#[verifier::external_body]
pub struct ExPathBuf(PathBuf);

/// The kinds of backend that can keep the notes.
#[derive(Clone, Copy, Debug, PartialEq, Eq, Structural)]
pub enum NoteBackendType {
    Json,
}

impl Default for NoteBackendType {
    fn default() -> (kind: Self)
        ensures
            kind == NoteBackendType::Json,
    {
        NoteBackendType::Json
    }
}

/// The configuration: where the notes are kept, and by which backend.
#[derive(Debug, PartialEq, Eq)]
pub struct AppConfig {
    pub data_file_path: PathBuf,
    pub note_backend: NoteBackendType,
}

impl AppConfig {
    pub fn new(data_file_path: PathBuf, note_backend: NoteBackendType) -> (config: Self)
        ensures
            config.data_file_path == data_file_path,
            config.note_backend == note_backend,
    {
        Self { data_file_path, note_backend }
    }
}

/// `s` without the occurrences of `c` at its start.
pub open spec fn without_leading(s: Seq<char>, c: char) -> Seq<char>
    decreases s.len(),
{
    if s.len() > 0 && s[0] == c {
        without_leading(s.drop_first(), c)
    } else {
        s
    }
}

/// What follows the tilde in a path that starts with one: the path without
/// the tildes at its start and without the slashes that follow them.
/// `None` for a path that does not start with a tilde.
pub open spec fn after_tilde(path: Seq<char>) -> Option<Seq<char>> {
    if path.len() > 0 && path[0] == '~' {
        Some(without_leading(without_leading(path, '~'), '/'))
    } else {
        None
    }
}

/// The index of the first of `chars[from..]` that is not `c`.
fn skip_leading(chars: &Vec<char>, from: usize, c: char) -> (to: usize)
    requires
        from <= chars@.len(),
    ensures
        from <= to <= chars@.len(),
        chars@.skip(to as int) == without_leading(chars@.skip(from as int), c),
{
    let mut to = from;
    while to < chars.len() && chars[to] == c
        invariant
            from <= to <= chars@.len(),
            without_leading(chars@.skip(to as int), c) == without_leading(
                chars@.skip(from as int),
                c,
            ),
        decreases chars@.len() - to,
    {
        assert(chars@.skip(to as int).drop_first() =~= chars@.skip(to + 1));
        to += 1;
    }
    to
}

/// What is to be put behind the user's home directory for a path that
/// starts with a tilde; `None` for a path that does not, which is taken as
/// it stands.
pub fn tilde_rest(path: &str) -> (rest: Option<String>)
    ensures
        match rest {
            Some(text) => after_tilde(path@) == Some(text@),
            None => after_tilde(path@) is None,
        },
{
    let chars = chars_of(path);
    if chars.len() == 0 || chars[0] != '~' {
        return None;
    }
    assert(chars@.skip(0) =~= chars@);
    let a = skip_leading(&chars, 0, '~');
    let b = skip_leading(&chars, a, '/');
    assert(path@.subrange(b as int, chars@.len() as int) =~= chars@.skip(b as int));
    Some(path.substring_char(b, chars.len()).to_owned())
}

/// The names that lead to the configuration file, outermost first: below
/// the user's configuration directory where the environment names one,
/// else below `.config` in the home directory. `None` where the environment
/// names neither.
pub fn config_path_parts(config_home: Option<String>, home: Option<String>) -> (parts: Option<
    Vec<String>,
>)
    ensures
        match (config_home, home) {
            (Some(dir), _) => parts matches Some(names) && texts(names@) == seq![
                dir@,
                "norganise-rs"@,
                "config.json"@,
            ],
            (None, Some(dir)) => parts matches Some(names) && texts(names@) == seq![
                dir@,
                ".config"@,
                "norganise-rs"@,
                "config.json"@,
            ],
            (None, None) => parts is None,
        },
{
    let mut names: Vec<String> = Vec::new();
    match (config_home, home) {
        (Some(dir), _) => {
            names.push(dir);
            names.push("norganise-rs".to_owned());
            names.push("config.json".to_owned());
            assert(texts(names@) =~= seq![dir@, "norganise-rs"@, "config.json"@]);
            Some(names)
        },
        (None, Some(dir)) => {
            names.push(dir);
            names.push(".config".to_owned());
            names.push("norganise-rs".to_owned());
            names.push("config.json".to_owned());
            assert(texts(names@) =~= seq![dir@, ".config"@, "norganise-rs"@, "config.json"@]);
            Some(names)
        },
        (None, None) => None,
    }
}

} // verus!
