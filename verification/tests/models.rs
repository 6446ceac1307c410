//! The model catalogue, its digests and the list of models.
use std::path::PathBuf;
use whispercli::app::{
    is_model_installed, model_by_name, model_state, models, supported_model_names, AppPaths,
    ModelFile, ModelState,
};
use whispercli::checksum::{compare_digest, lower_hex, verify_sha1, Checksum};
use whispercli::cli::{list_models, model_row};

fn home_paths() -> AppPaths {
    AppPaths::new(Some(&PathBuf::from("/home/ann"))).unwrap()
}

#[test]
fn model_lookup_accepts_recommended_alias() {
    assert_eq!(model_by_name("recommended").unwrap().name, "large-v3-turbo-q5_0");
    assert_eq!(
        model_by_name("large-v3-turbo-q5_0").unwrap().sha1,
        "e050f7970618a659205450ad97eb95a18d69c9ee"
    );
    assert!(model_by_name("missing").is_none());
}

#[test]
fn verify_sha1_detects_valid_and_invalid_files() {
    assert!(verify_sha1("abc", b"abc", "a9993e364706816aba3e25717850c26c9cd0d89d").is_ok());
    assert!(verify_sha1("abc", b"abc", "0000000000000000000000000000000000000000").is_err());
}

#[test]
fn mismatch_names_subject_and_both_digests() {
    let error = verify_sha1("file.bin", b"abc", "00").unwrap_err();
    assert_eq!(
        error.message(),
        "SHA1 mismatch for file.bin: expected 00, got a9993e364706816aba3e25717850c26c9cd0d89d"
    );
}

#[test]
fn digest_of_nothing() {
    assert_eq!(Checksum::new().finish().len(), 40);
    assert_eq!(Checksum::new().finish(), "da39a3ee5e6b4b0d3255bfef95601890afd80709");
}

#[test]
fn digest_does_not_depend_on_the_pieces() {
    let mut pieces = Checksum::new();
    pieces.update(b"a");
    pieces.update(b"");
    pieces.update(b"bc");
    assert_eq!(pieces.finish(), "a9993e364706816aba3e25717850c26c9cd0d89d");
}

#[test]
fn hexadecimal_is_lower_case_and_padded() {
    assert_eq!(lower_hex(&vec![0, 1, 15, 16, 171, 255]), "00010f10abff");
    assert_eq!(lower_hex(&vec![]), "");
}

#[test]
fn digests_are_compared_as_they_are_written() {
    assert!(compare_digest("x", "ab", "ab").is_ok());
    assert!(compare_digest("x", "ab", "AB").is_err());
}

#[test]
fn catalogue_is_listed_in_order() {
    let names: Vec<&str> = models().iter().map(|model| model.name).collect();
    assert_eq!(names, vec!["tiny", "base", "small", "large-v3-turbo-q5_0"]);
    assert_eq!(supported_model_names(), "tiny, base, small, large-v3-turbo-q5_0, recommended");
}

#[test]
fn names_and_files_of_models_are_distinct() {
    let models = models();
    for i in 0..models.len() {
        assert_ne!(models[i].name, "recommended");
        assert_eq!(models[i].sha1.len(), 40);
        for j in 0..i {
            assert_ne!(models[i].name, models[j].name);
            assert_ne!(models[i].file_name, models[j].file_name);
        }
    }
}

#[test]
fn model_names_are_case_sensitive() {
    assert!(model_by_name("Tiny").is_none());
    assert!(model_by_name("").is_none());
    assert_eq!(model_by_name("base").unwrap().file_name, "ggml-base.bin");
}

#[test]
fn model_state_tells_sound_from_corrupt() {
    let tiny = model_by_name("tiny").unwrap();
    assert_eq!(model_state(tiny, &ModelFile::Absent), ModelState::Missing);
    assert_eq!(model_state(tiny, &ModelFile::Unreadable), ModelState::Corrupt);
    assert_eq!(
        model_state(tiny, &ModelFile::Digest(tiny.sha1.to_string())),
        ModelState::Installed
    );
    assert_eq!(model_state(tiny, &ModelFile::Digest("00".to_string())), ModelState::Corrupt);
}

#[test]
fn any_file_counts_as_installed() {
    assert!(!is_model_installed(&ModelFile::Absent));
    assert!(is_model_installed(&ModelFile::Unreadable));
    assert!(is_model_installed(&ModelFile::Digest("00".to_string())));
}

#[test]
fn labels_of_states() {
    assert_eq!(ModelState::Installed.label(), "installed");
    assert_eq!(ModelState::Missing.label(), "missing");
    assert_eq!(ModelState::Corrupt.label(), "corrupt");
}

#[test]
fn row_has_columns() {
    let tiny = model_by_name("tiny").unwrap();
    assert_eq!(
        model_row(tiny, ModelState::Missing, &PathBuf::from("/m/ggml-tiny.bin")),
        "tiny   75 MiB     available  /m/ggml-tiny.bin"
    );
}

#[test]
fn long_names_are_not_cut() {
    let large = model_by_name("recommended").unwrap();
    assert_eq!(
        model_row(large, ModelState::Corrupt, &PathBuf::from("x")),
        "large-v3-turbo-q5_0 547 MiB    corrupt    x"
    );
}

#[test]
fn list_shows_every_model_with_its_state() {
    let base = model_by_name("base").unwrap();
    let rows = list_models(
        &home_paths(),
        &vec![
            ModelFile::Absent,
            ModelFile::Digest(base.sha1.to_string()),
            ModelFile::Digest("00".to_string()),
            ModelFile::Unreadable,
        ],
    );
    assert_eq!(
        rows,
        vec![
            "tiny   75 MiB     available  /home/ann/.whispercli/models/ggml-tiny.bin",
            "base   142 MiB    installed  /home/ann/.whispercli/models/ggml-base.bin",
            "small  466 MiB    corrupt    /home/ann/.whispercli/models/ggml-small.bin",
            "large-v3-turbo-q5_0 547 MiB    corrupt    \
             /home/ann/.whispercli/models/ggml-large-v3-turbo-q5_0.bin",
        ]
    );
}
