//! Directories, the home, and the reports about them.
use std::path::PathBuf;
use whispercli::app::{
    current_exe_dir, documents_dir, home_dir, manual_path_line, model_by_name,
    path_script_arguments, path_script_report, short_home_path, tilde_path, updates_search_path,
    AppPaths, APP_DIR_NAME, MANUAL_PATH_NOTICE, PATH_SCRIPT,
};
use whispercli::cli::{command_or_live, doctor_report, init_report, Command, LiveArgs, ModelCommand};
use whispercli::path::join_name;

fn home_paths() -> AppPaths {
    AppPaths::new(Some(&PathBuf::from("/home/ann"))).unwrap()
}

#[test]
fn profile_goes_before_home() {
    let profile = PathBuf::from("/profile");
    let home = PathBuf::from("/home/ann");
    assert_eq!(home_dir(Some(profile.clone()), Some(home.clone())).unwrap(), profile);
    assert_eq!(home_dir(None, Some(home.clone())).unwrap(), home);
    assert_eq!(
        home_dir(None, None).unwrap_err().message(),
        "Neither USERPROFILE nor HOME is set"
    );
}

#[test]
fn everything_stands_in_one_directory() {
    let paths = home_paths();
    let root = PathBuf::from("/home/ann/.whispercli");
    assert_eq!(APP_DIR_NAME, ".whispercli");
    assert_eq!(paths.root, root);
    assert_eq!(paths.bin, root.join("bin"));
    assert_eq!(paths.models, root.join("models"));
    assert_eq!(paths.transcripts, root.join("transcripts"));
    assert_eq!(paths.logs, root.join("logs"));
    assert_eq!(paths.config, root.join("config.toml"));
}

#[test]
fn the_root_directory_can_be_a_home() {
    let paths = AppPaths::new(Some(&PathBuf::from("/"))).unwrap();
    assert_eq!(paths.models, PathBuf::from("/.whispercli/models"));
    let paths = AppPaths::new(Some(&PathBuf::from(""))).unwrap();
    assert_eq!(paths.models, PathBuf::from(".whispercli/models"));
}

#[test]
fn directories_come_root_first() {
    let paths = home_paths();
    assert_eq!(
        paths.directories(),
        vec![
            paths.root.clone(),
            paths.bin.clone(),
            paths.models.clone(),
            paths.transcripts.clone(),
            paths.logs.clone(),
        ]
    );
}

#[test]
fn without_a_home_there_are_no_paths() {
    assert_eq!(
        AppPaths::new(None).unwrap_err().message(),
        "Could not determine your home directory: Neither USERPROFILE nor HOME is set"
    );
}

#[test]
fn copies_of_paths_are_the_same() {
    let paths = home_paths();
    let copy = paths.clone();
    assert_eq!(copy.config, paths.config);
    assert_eq!(copy.directories(), paths.directories());
}

#[test]
fn model_files_stand_in_the_models_directory() {
    assert_eq!(
        home_paths().model_path(model_by_name("tiny").unwrap()),
        PathBuf::from("/home/ann/.whispercli/models/ggml-tiny.bin")
    );
}

#[test]
fn documents_stand_in_the_home() {
    assert_eq!(
        documents_dir(Some(&PathBuf::from("/home/ann"))),
        Some(PathBuf::from("/home/ann/Documents"))
    );
    assert_eq!(documents_dir(None), None);
}

#[test]
fn names_are_joined_behind_a_base() {
    assert_eq!(join_name(&PathBuf::from("a/b"), "c.txt"), PathBuf::from("a/b/c.txt"));
    assert_eq!(join_name(&PathBuf::from(""), "c"), PathBuf::from("c"));
}

#[test]
fn home_is_shown_as_a_tilde() {
    let home = PathBuf::from("/home/ann");
    let root = home.join(".whispercli");
    assert_eq!(short_home_path(&root, Some(&home), "/"), "~/.whispercli");
    assert_eq!(short_home_path(&root, Some(&home), "\\"), "~\\.whispercli");
    assert_eq!(short_home_path(&home, Some(&home), "/"), "~");
    assert_eq!(short_home_path(&root.join("bin"), Some(&home), "/"), "~/.whispercli/bin");
}

#[test]
fn paths_elsewhere_are_shown_whole() {
    let home = PathBuf::from("/home/ann");
    assert_eq!(short_home_path(&PathBuf::from("/etc/x"), Some(&home), "/"), "/etc/x");
    assert_eq!(short_home_path(&PathBuf::from("/home/anna"), Some(&home), "/"), "/home/anna");
    assert_eq!(short_home_path(&home, None, "/"), "/home/ann");
}

#[test]
fn separators_in_front_are_dropped_behind_the_tilde() {
    assert_eq!(tilde_path("\\/a/b", "/"), "~/a/b");
    assert_eq!(tilde_path("", "/"), "~");
    assert_eq!(tilde_path("//", "/"), "~/");
}

#[test]
fn executables_stand_in_directories() {
    assert_eq!(current_exe_dir(&PathBuf::from("/opt/w/whispercli")).unwrap(), PathBuf::from("/opt/w"));
    assert_eq!(current_exe_dir(&PathBuf::from("whispercli")).unwrap(), PathBuf::from(""));
    assert_eq!(
        current_exe_dir(&PathBuf::from("/")).unwrap_err().message(),
        "Executable has no parent directory: /"
    );
    assert!(current_exe_dir(&PathBuf::from("")).is_err());
}

#[test]
fn search_path_is_updated_on_windows_only() {
    assert!(updates_search_path("windows"));
    assert!(!updates_search_path("linux"));
    assert_eq!(MANUAL_PATH_NOTICE, "--add-to-path is currently implemented for Windows only.");
    assert_eq!(
        manual_path_line(&PathBuf::from("/opt/w")),
        "Add this directory to PATH manually: /opt/w"
    );
}

#[test]
fn script_gets_the_directory_as_its_argument() {
    assert_eq!(
        path_script_arguments(&PathBuf::from("/opt/w")),
        vec!["-NoProfile", "-ExecutionPolicy", "Bypass", "-Command", PATH_SCRIPT, "/opt/w"]
    );
    assert!(PATH_SCRIPT.starts_with("\n$dir = $args[0]\n"));
    assert!(PATH_SCRIPT.ends_with("Write-Host \"Added $dir to the user PATH\"\n"));
}

#[test]
fn script_outcome_is_reported() {
    let directory = PathBuf::from("/opt/w");
    assert_eq!(
        path_script_report(&directory, true, "exit code: 0").unwrap(),
        vec![
            "Added /opt/w to the user PATH.",
            "Open a new terminal before running whispercli by name.",
        ]
    );
    assert_eq!(
        path_script_report(&directory, false, "exit code: 1").unwrap_err().message(),
        "PowerShell PATH update failed with status exit code: 1"
    );
}

#[test]
fn init_is_reported() {
    assert_eq!(
        init_report(&home_paths()),
        vec![
            "created /home/ann/.whispercli",
            "models  /home/ann/.whispercli/models",
            "bin     /home/ann/.whispercli/bin",
        ]
    );
}

#[test]
fn doctor_describes_paths_and_platform() {
    assert_eq!(
        doctor_report(&home_paths(), "linux", "x86_64", &PathBuf::from("/opt/w/whispercli")),
        vec![
            "whisperCLI paths",
            "root        /home/ann/.whispercli",
            "bin         /home/ann/.whispercli/bin",
            "models      /home/ann/.whispercli/models",
            "transcripts /home/ann/.whispercli/transcripts",
            "logs        /home/ann/.whispercli/logs",
            "",
            "platform    linux",
            "arch        x86_64",
            "exe         /opt/w/whispercli",
        ]
    );
}

#[test]
fn without_a_command_the_screen_is_started() {
    match command_or_live(None) {
        Command::Live(args) => {
            assert_eq!(args.out, "meeting.md");
            assert_eq!(args.model, "tiny");
            assert_eq!(args.lang, "ja");
        }
        other => panic!("unexpected {other:?}"),
    }
}

#[test]
fn a_given_command_is_kept() {
    assert!(matches!(command_or_live(Some(Command::Doctor)), Command::Doctor));
    assert!(matches!(
        command_or_live(Some(Command::Init { add_to_path: true })),
        Command::Init { add_to_path: true }
    ));
    match command_or_live(Some(Command::Models(ModelCommand::Install("base".to_string())))) {
        Command::Models(ModelCommand::Install(name)) => assert_eq!(name, "base"),
        other => panic!("unexpected {other:?}"),
    }
}

#[test]
fn copies_of_arguments_are_the_same() {
    let args = LiveArgs { out: "a".to_string(), model: "b".to_string(), lang: "c".to_string() };
    let copy = args.clone();
    assert_eq!((copy.out, copy.model, copy.lang), (args.out, args.model, args.lang));
}
