//! The installation of a model, step by step.
use std::path::PathBuf;
use whispercli::app::{model_by_name, AppPaths, ModelInfo};
use whispercli::install::{
    plan_install, progress_line, Install, InstallAction, InstallEvent, InstallPlan,
};

const URL: &str = "https://huggingface.co/ggerganov/whisper.cpp/resolve/main/ggml-tiny.bin";
const TARGET: &str = "/home/ann/.whispercli/models/ggml-tiny.bin";
const TEMP: &str = "/home/ann/.whispercli/models/ggml-tiny.bin.part";

fn home_paths() -> AppPaths {
    AppPaths::new(Some(&PathBuf::from("/home/ann"))).unwrap()
}

fn plan() -> InstallPlan {
    plan_install(&home_paths(), "tiny").unwrap()
}

/// A plan for a model whose whole content is `abc`.
fn abc_plan() -> InstallPlan {
    let plan = plan();
    InstallPlan {
        model: ModelInfo { sha1: "a9993e364706816aba3e25717850c26c9cd0d89d", ..plan.model },
        ..plan
    }
}

fn run(plan: InstallPlan, events: Vec<InstallEvent>) -> (Install, String) {
    let (mut install, mut action) = Install::new(plan);
    for event in events {
        assert!(install.can_hear(&event), "{event:?} after {action:?}");
        action = install.step(event);
    }
    let shown = match action {
        InstallAction::CheckExists(path) => format!("exists? {}", path.display()),
        InstallAction::HashFile(path) => format!("hash {}", path.display()),
        InstallAction::CreateDirectory(path) => format!("mkdir {}", path.display()),
        InstallAction::RemoveFile(path) => format!("remove {}", path.display()),
        InstallAction::BuildClient(lines) => format!("client {}", lines.join("|")),
        InstallAction::Send(url) => format!("send {url}"),
        InstallAction::CheckStatus => "status".to_string(),
        InstallAction::CreateFile(path) => format!("create {}", path.display()),
        InstallAction::Receive => "receive".to_string(),
        InstallAction::Flush => "flush".to_string(),
        InstallAction::Discard(path) => format!("discard {}", path.display()),
        InstallAction::Rename { from, to } => format!("{} -> {}", from.display(), to.display()),
        InstallAction::Finish(line) => format!("finish {line}"),
        InstallAction::Fail(message) => format!("fail {message}"),
    };
    (install, shown)
}

fn until_receiving() -> Vec<InstallEvent> {
    vec![
        InstallEvent::Exists(false),
        InstallEvent::Done,
        InstallEvent::Exists(false),
        InstallEvent::Done,
        InstallEvent::Done,
        InstallEvent::Done,
        InstallEvent::Done,
    ]
}

fn until_flushed(pieces: &[&[u8]]) -> Vec<InstallEvent> {
    let mut events = until_receiving();
    for piece in pieces {
        events.push(InstallEvent::Chunk(piece.to_vec()));
    }
    events.push(InstallEvent::EndOfBody);
    events.push(InstallEvent::Done);
    events
}

fn failed(cause: &str) -> InstallEvent {
    InstallEvent::Failed(cause.to_string())
}

#[test]
fn plan_names_places_and_address() {
    let plan = plan();
    assert_eq!(plan.model.name, "tiny");
    assert_eq!(plan.directory, home_paths().models);
    assert_eq!(plan.target, PathBuf::from(TARGET));
    assert_eq!(plan.temp, PathBuf::from(TEMP));
    assert_eq!(plan.url, URL);
    assert_eq!(
        plan_install(&home_paths(), "recommended").unwrap().model.name,
        model_by_name("recommended").unwrap().name
    );
}

#[test]
fn incomplete_files_stand_apart() {
    for name in ["tiny", "base", "small", "recommended"] {
        let plan = plan_install(&home_paths(), name).unwrap();
        assert_eq!(plan.temp.display().to_string(), format!("{}.part", plan.target.display()));
    }
}

#[test]
fn unknown_models_are_not_planned() {
    assert_eq!(
        plan_install(&home_paths(), "huge").unwrap_err().message(),
        "Unknown model 'huge'. Supported models: tiny, base, small, large-v3-turbo-q5_0, recommended"
    );
}

#[test]
fn steps_come_in_order() {
    let expected = [
        format!("exists? {TARGET}"),
        "mkdir /home/ann/.whispercli/models".to_string(),
        format!("exists? {TEMP}"),
        format!("client downloading tiny (75 MiB)|{URL}"),
        format!("send {URL}"),
        "status".to_string(),
        format!("create {TEMP}"),
        "receive".to_string(),
    ];
    for (count, shown) in expected.iter().enumerate() {
        let events: Vec<InstallEvent> = until_receiving().into_iter().take(count).collect();
        assert_eq!(&run(plan(), events).1, shown);
    }
}

#[test]
fn stale_files_are_removed() {
    let events =
        || vec![InstallEvent::Exists(false), InstallEvent::Done, InstallEvent::Exists(true)];
    assert_eq!(run(plan(), events()).1, format!("remove {TEMP}"));
    let mut removed = events();
    removed.push(InstallEvent::Done);
    assert_eq!(run(plan(), removed).1, format!("client downloading tiny (75 MiB)|{URL}"));
}

#[test]
fn sound_content_is_put_in_place() {
    let mut events = until_flushed(&[b"a", b"bc"]);
    assert_eq!(run(abc_plan(), until_flushed(&[b"a", b"bc"])).1, format!("{TEMP} -> {TARGET}"));
    events.push(InstallEvent::Done);
    let (install, shown) = run(abc_plan(), events);
    assert_eq!(shown, format!("finish installed {TARGET}"));
    assert!(install.is_finished());
}

#[test]
fn wrong_content_is_discarded() {
    let message = "fail SHA1 mismatch for tiny: expected a9993e364706816aba3e25717850c26c9cd0d89d, \
                   got da39a3ee5e6b4b0d3255bfef95601890afd80709";
    assert_eq!(run(abc_plan(), until_flushed(&[])).1, format!("discard {TEMP}"));
    for end in [InstallEvent::Done, failed("gone")] {
        let mut events = until_flushed(&[]);
        events.push(end);
        let (install, shown) = run(abc_plan(), events);
        assert_eq!(shown, message);
        assert!(install.is_finished());
    }
}

#[test]
fn content_is_flushed_before_it_is_judged() {
    let mut events = until_receiving();
    events.push(InstallEvent::Chunk(b"abc".to_vec()));
    events.push(InstallEvent::EndOfBody);
    assert_eq!(run(abc_plan(), events).1, "flush");
}

#[test]
fn present_models_are_not_fetched() {
    let sound = model_by_name("tiny").unwrap().sha1.to_string();
    assert_eq!(run(plan(), vec![InstallEvent::Exists(true)]).1, format!("hash {TARGET}"));
    let (install, shown) =
        run(plan(), vec![InstallEvent::Exists(true), InstallEvent::Digest(sound.clone())]);
    assert_eq!(shown, format!("finish model 'tiny' already installed at {TARGET}"));
    assert!(install.is_finished());
    let (_, shown) =
        run(plan(), vec![InstallEvent::Exists(true), InstallEvent::Digest("00".to_string())]);
    assert_eq!(
        shown,
        format!(
            "fail Installed model is corrupt: {TARGET}: SHA1 mismatch for {TARGET}: \
             expected {sound}, got 00"
        )
    );
}

#[test]
fn failures_say_what_was_attempted() {
    let models = "/home/ann/.whispercli/models";
    let expected = [
        (1, format!("Failed to create {models}: gone")),
        (3, "Failed to create HTTP client: gone".to_string()),
        (4, format!("Failed to start download from {URL}: gone")),
        (5, format!("Model server returned an error for {URL}: gone")),
        (6, format!("Failed to create {TEMP}: gone")),
        (7, format!("Failed to read from {URL}: gone")),
    ];
    for (count, message) in expected {
        let mut events: Vec<InstallEvent> = until_receiving().into_iter().take(count).collect();
        events.push(failed("gone"));
        let (install, shown) = run(plan(), events);
        assert_eq!(shown, format!("fail {message}"));
        assert!(install.is_finished());
    }
}

#[test]
fn later_failures_say_what_was_attempted() {
    let mut events = until_receiving();
    events.push(InstallEvent::WriteFailed("full".to_string()));
    assert_eq!(run(plan(), events).1, format!("fail Failed to write {TEMP}: full"));
    let mut events = until_receiving();
    events.push(InstallEvent::EndOfBody);
    events.push(failed("full"));
    assert_eq!(run(plan(), events).1, "fail full");
    let mut events = until_flushed(&[b"abc"]);
    events.push(failed("no"));
    assert_eq!(run(abc_plan(), events).1, format!("fail Failed to move model into {TARGET}: no"));
    let events = vec![
        InstallEvent::Exists(false),
        InstallEvent::Done,
        InstallEvent::Exists(true),
        failed("no"),
    ];
    assert_eq!(run(plan(), events).1, format!("fail Failed to remove stale {TEMP}: no"));
    assert_eq!(
        run(plan(), vec![InstallEvent::Exists(true), failed("no")]).1,
        format!("fail Installed model is corrupt: {TARGET}: Failed to read {TARGET}: no")
    );
}

#[test]
fn finished_installations_hear_nothing() {
    let (install, _) =
        run(plan(), vec![InstallEvent::Exists(true), InstallEvent::Digest("00".to_string())]);
    assert!(!install.can_hear(&InstallEvent::Done));
    assert!(!install.can_hear(&failed("x")));
    assert!(!install.can_hear(&InstallEvent::Exists(true)));
}

#[test]
fn unexpected_events_are_told_apart() {
    let (install, _) = Install::new(plan());
    assert!(install.can_hear(&InstallEvent::Exists(true)));
    assert!(!install.can_hear(&InstallEvent::Done));
    assert!(!install.can_hear(&InstallEvent::EndOfBody));
    let (install, _) = run(plan(), until_receiving());
    assert!(install.can_hear(&InstallEvent::Chunk(vec![])));
    assert!(install.can_hear(&InstallEvent::EndOfBody));
    assert!(!install.can_hear(&InstallEvent::Done));
}

#[test]
fn progress_is_shown_in_mebibytes() {
    assert_eq!(progress_line(3 * 1024 * 1024 + 5, None, ""), "\r3 MiB");
    assert_eq!(
        progress_line(1024 * 1024, Some(75 * 1024 * 1024), "  1.3"),
        "\r  1.3%  1/75 MiB"
    );
    assert_eq!(progress_line(0, Some(0), "100.0"), "\r100.0%  0/0 MiB");
}
