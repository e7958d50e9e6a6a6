use norganisers::config::{config_path_parts, tilde_rest, AppConfig, NoteBackendType};
use std::path::PathBuf;

#[test]
fn tilde_rest_strips_tildes_then_slashes() {
    assert_eq!(tilde_rest("~/notes/n.json"), Some("notes/n.json".to_string()));
    assert_eq!(tilde_rest("~"), Some(String::new()));
    assert_eq!(tilde_rest("~~//a/~/b"), Some("a/~/b".to_string()));
    assert_eq!(tilde_rest("~notes"), Some("notes".to_string()));
    assert_eq!(tilde_rest("/abs/~/x"), None);
    assert_eq!(tilde_rest("rel/x"), None);
    assert_eq!(tilde_rest(""), None);
}

#[test]
fn tilde_rest_agrees_with_the_standard_library() {
    for path in ["~/a", "~", "~~/", "~/~", "a~", "", "~é/日本", "//~"] {
        let expected = if path.starts_with('~') {
            Some(path.trim_start_matches("~").trim_start_matches('/').to_string())
        } else {
            None
        };
        assert_eq!(tilde_rest(path), expected);
    }
}

#[test]
fn config_lies_below_the_configuration_directory() {
    assert_eq!(
        config_path_parts(Some("/xdg".to_string()), Some("/home/u".to_string())),
        Some(vec!["/xdg".to_string(), "norganise-rs".to_string(), "config.json".to_string()])
    );
    assert_eq!(
        config_path_parts(None, Some("/home/u".to_string())),
        Some(vec![
            "/home/u".to_string(),
            ".config".to_string(),
            "norganise-rs".to_string(),
            "config.json".to_string(),
        ])
    );
    assert_eq!(config_path_parts(None, None), None);
}

#[test]
fn json_is_the_default_backend() {
    assert_eq!(NoteBackendType::default(), NoteBackendType::Json);
    let config = AppConfig {
        data_file_path: PathBuf::from("notes.json"),
        note_backend: NoteBackendType::default(),
    };
    assert_eq!(config.note_backend, NoteBackendType::Json);
}
