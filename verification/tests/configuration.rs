//! Transcript formats and the user's configuration.
use std::path::PathBuf;
use whispercli::app::AppPaths;
use whispercli::settings::{save_directories, TranscriptFormat, UserConfig};

fn relative_paths() -> AppPaths {
    AppPaths {
        root: PathBuf::from("root"),
        bin: PathBuf::from("bin"),
        models: PathBuf::from("models"),
        transcripts: PathBuf::from("transcripts"),
        logs: PathBuf::from("logs"),
        config: PathBuf::from("config.toml"),
    }
}

#[test]
fn format_parser_accepts_aliases() {
    assert_eq!(TranscriptFormat::parse("markdown"), Some(TranscriptFormat::Md));
    assert_eq!(TranscriptFormat::parse("text"), Some(TranscriptFormat::Txt));
    assert_eq!(TranscriptFormat::parse("jsonl"), Some(TranscriptFormat::Jsonl));
    assert_eq!(TranscriptFormat::parse("nope"), None);
}

#[test]
fn config_normalization_repairs_old_values() {
    let paths = relative_paths();
    let mut config = UserConfig::default_for(&paths, None, None);
    config.chunk_seconds = 0;
    config.threads = 0;
    config.microphone = Some(String::new());

    let config = config.normalized();
    assert_eq!(config.chunk_seconds, 2);
    assert_eq!(config.threads, 1);
    assert_eq!(config.microphone, None);
}

#[test]
fn every_name_of_a_format_is_read() {
    for format in TranscriptFormat::all() {
        assert_eq!(TranscriptFormat::parse(format.extension()), Some(*format));
        assert_eq!(TranscriptFormat::parse(format.label()), Some(*format));
    }
    assert_eq!(TranscriptFormat::parse("ndjson"), Some(TranscriptFormat::Jsonl));
    assert_eq!(TranscriptFormat::all().len(), 5);
}

#[test]
fn case_and_space_do_not_matter() {
    assert_eq!(TranscriptFormat::parse(" \tMarkDown\u{3000}\n"), Some(TranscriptFormat::Md));
    assert_eq!(TranscriptFormat::parse("SRT"), Some(TranscriptFormat::Srt));
    assert_eq!(TranscriptFormat::parse("m d"), None);
    assert_eq!(TranscriptFormat::parse(""), None);
}

#[test]
fn extensions_and_labels() {
    let extensions: Vec<&str> =
        TranscriptFormat::all().iter().map(|format| format.extension()).collect();
    assert_eq!(extensions, vec!["md", "txt", "srt", "json", "jsonl"]);
    let labels: Vec<&str> = TranscriptFormat::all().iter().map(|format| format.label()).collect();
    assert_eq!(labels, vec!["Markdown", "Text", "SRT", "JSON", "JSONL"]);
}

#[test]
fn format_is_read_from_the_extension_of_a_path() {
    let format = |path: &str| TranscriptFormat::from_path_extension(&PathBuf::from(path));
    assert_eq!(format("a/b.TXT"), Some(TranscriptFormat::Txt));
    assert_eq!(format("a.md/b"), None);
    assert_eq!(format(".md"), None);
    assert_eq!(format("a.tar.json"), Some(TranscriptFormat::Json));
    assert_eq!(format("a."), None);
    assert_eq!(format("a.bin"), None);
    assert_eq!(format("a.md/.."), None);
}

#[test]
fn default_configuration() {
    let config =
        UserConfig::default_for(&relative_paths(), Some(PathBuf::from("/home/ann/Documents")), Some(3));
    assert_eq!(config.model, "tiny");
    assert_eq!(config.language, "ja");
    assert_eq!(config.microphone, None);
    assert_eq!(config.output_dir, PathBuf::from("/home/ann/Documents/whisperCLI"));
    assert_eq!(config.output_format, TranscriptFormat::Md);
    assert_eq!(config.chunk_seconds, 5);
    assert_eq!(config.threads, 3);
    assert!(!config.start_paused);
}

#[test]
fn threads_are_kept_within_bounds() {
    let threads = |parallelism| UserConfig::default_for(&relative_paths(), None, parallelism).threads;
    assert_eq!(threads(Some(64)), 8);
    assert_eq!(threads(Some(8)), 8);
    assert_eq!(threads(Some(1)), 1);
    assert_eq!(threads(Some(0)), 1);
    assert_eq!(threads(None), 4);
}

#[test]
fn without_documents_transcripts_are_kept_with_the_rest() {
    let config = UserConfig::default_for(&relative_paths(), None, None);
    assert_eq!(config.output_dir, PathBuf::from("transcripts"));
}

#[test]
fn normal_values_are_kept() {
    let mut config = UserConfig::default_for(&relative_paths(), None, Some(2));
    config.chunk_seconds = 2;
    config.microphone = Some("USB".to_string());
    config.start_paused = true;
    let copy = config.clone().normalized().normalized();
    assert_eq!(copy.chunk_seconds, 2);
    assert_eq!(copy.threads, 2);
    assert_eq!(copy.microphone, Some("USB".to_string()));
    assert_eq!(copy.model, config.model);
    assert_eq!(copy.language, config.language);
    assert_eq!(copy.output_dir, config.output_dir);
    assert_eq!(copy.output_format, config.output_format);
    assert!(copy.start_paused);
}

#[test]
fn stored_configuration_is_put_in_order() {
    let mut stored = UserConfig::default_for(&relative_paths(), None, Some(2));
    stored.model = "base".to_string();
    stored.chunk_seconds = 1;
    let loaded = UserConfig::load_or_create(Some(stored), &relative_paths(), None, Some(7));
    assert!(!loaded.save);
    assert_eq!(loaded.config.model, "base");
    assert_eq!(loaded.config.chunk_seconds, 2);
    assert_eq!(loaded.config.threads, 2);
}

#[test]
fn missing_configuration_is_made_and_saved() {
    let loaded = UserConfig::load_or_create(None, &relative_paths(), None, Some(7));
    assert!(loaded.save);
    assert_eq!(loaded.config.model, "tiny");
    assert_eq!(loaded.config.threads, 7);
}

#[test]
fn directory_of_the_configuration_is_created_too() {
    let mut paths = relative_paths();
    paths.config = PathBuf::from("/etc/w/config.toml");
    let directories = save_directories(&paths);
    assert_eq!(directories.len(), 6);
    assert_eq!(directories[0], PathBuf::from("root"));
    assert_eq!(directories[4], PathBuf::from("logs"));
    assert_eq!(directories[5], PathBuf::from("/etc/w"));
    paths.config = PathBuf::from("/");
    assert_eq!(save_directories(&paths).len(), 5);
}
