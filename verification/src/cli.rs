//! The commands of the program and the reports that they print.
use crate::app::{
    catalogue, model_state, model_texts, models, state_of, AppPaths,
    ModelFile, ModelInfo, ModelState, ModelText,
};
use crate::path::{display, joined_path, path_display, path_named};
use crate::text::{line_texts, pad_right, padded};
use std::path::PathBuf;
use vstd::prelude::*;
use vstd::string::*;

verus! {

/// What a live transcription is asked for.
#[derive(Debug)]
pub struct LiveArgs {
    /// The path of the transcript.
    pub out: String,
    /// The name of the model.
    pub model: String,
    /// The language that is spoken.
    pub lang: String,
}

impl Clone for LiveArgs {
    fn clone(&self) -> (copy: LiveArgs)
        ensures
            copy == *self,
    {
        LiveArgs { out: self.out.clone(), model: self.model.clone(), lang: self.lang.clone() }
    }
}

impl Default for LiveArgs {
    /// A Japanese meeting, with the smallest model.
    fn default() -> (args: LiveArgs)
        ensures
            args.out@ == "meeting.md"@,
            args.model@ == "tiny"@,
            args.lang@ == "ja"@,
    {
        LiveArgs {
            out: String::from_str("meeting.md"),
            model: String::from_str("tiny"),
            lang: String::from_str("ja"),
        }
    }
}

/// What can be done with models.
#[derive(Debug)]
pub enum ModelCommand {
    /// List the models.
    List,
    /// Install the model of this name.
    Install(String),
}

/// What the program can be told to do.
#[derive(Debug)]
pub enum Command {
    /// Start the transcription screen.
    Live(LiveArgs),
    /// Create the user's directories.
    Init { add_to_path: bool },
    /// Show paths and platform.
    Doctor,
    /// Manage the models.
    Models(ModelCommand),
}

/// The command to carry out: without one, the transcription screen is started
/// with its defaults.
pub fn command_or_live(command: Option<Command>) -> (chosen: Command)
    ensures
        match command {
            Some(command) => chosen == command,
            None => chosen matches Command::Live(args) && args.out@ == "meeting.md"@ && args.model@
                == "tiny"@ && args.lang@ == "ja"@,
        },
{
    match command {
        Some(command) => command,
        None => Command::Live(LiveArgs::default()),
    }
}

fn labelled(label: &str, path: &PathBuf) -> (line: String)
    ensures
        line@ == label@ + path_display(*path),
{
    let mut line = String::from_str(label);
    line.append(display(path).as_str());
    line
}

fn labelled_text(label: &str, text: &str) -> (line: String)
    ensures
        line@ == label@ + text@,
{
    let mut line = String::from_str(label);
    line.append(text);
    line
}

/// The lines that are printed once the directories have been created.
pub open spec fn init_lines(paths: AppPaths) -> Seq<Seq<char>> {
    seq![
        "created "@ + path_display(paths.root),
        "models  "@ + path_display(paths.models),
        "bin     "@ + path_display(paths.bin),
    ]
}

/// Reports that the directories have been created.
pub fn init_report(paths: &AppPaths) -> (lines: Vec<String>)
    ensures
        line_texts(lines@) == init_lines(*paths),
{
    let mut lines: Vec<String> = Vec::new();
    lines.push(labelled("created ", &paths.root));
    lines.push(labelled("models  ", &paths.models));
    lines.push(labelled("bin     ", &paths.bin));
    assert(line_texts(lines@) =~= init_lines(*paths));
    lines
}

/// The lines that describe the paths and the platform.
pub open spec fn doctor_lines(
    paths: AppPaths,
    os: Seq<char>,
    arch: Seq<char>,
    executable: PathBuf,
) -> Seq<Seq<char>> {
    seq![
        "whisperCLI paths"@,
        "root        "@ + path_display(paths.root),
        "bin         "@ + path_display(paths.bin),
        "models      "@ + path_display(paths.models),
        "transcripts "@ + path_display(paths.transcripts),
        "logs        "@ + path_display(paths.logs),
        ""@,
        "platform    "@ + os,
        "arch        "@ + arch,
        "exe         "@ + path_display(executable),
    ]
}

/// Describes the paths and the platform.
pub fn doctor_report(paths: &AppPaths, os: &str, arch: &str, executable: &PathBuf) -> (lines: Vec<
    String,
>)
    ensures
        line_texts(lines@) == doctor_lines(*paths, os@, arch@, *executable),
{
    let mut lines: Vec<String> = Vec::new();
    lines.push(String::from_str("whisperCLI paths"));
    lines.push(labelled("root        ", &paths.root));
    lines.push(labelled("bin         ", &paths.bin));
    lines.push(labelled("models      ", &paths.models));
    lines.push(labelled("transcripts ", &paths.transcripts));
    lines.push(labelled("logs        ", &paths.logs));
    lines.push(String::from_str(""));
    lines.push(labelled_text("platform    ", os));
    lines.push(labelled_text("arch        ", arch));
    lines.push(labelled("exe         ", executable));
    assert(line_texts(lines@) =~= doctor_lines(*paths, os@, arch@, *executable));
    lines
}

/// The word that a model is listed with: one that is missing can be had.
pub open spec fn listed_state(state: ModelState) -> Seq<char> {
    match state {
        ModelState::Missing => "available"@,
        _ => state.label_text(),
    }
}

/// The row of a model in the list: name, size and state in columns, then the
/// place of its file.
pub open spec fn row_text(model: ModelText, state: ModelState, place: Seq<char>) -> Seq<char> {
    padded(model.name, 6) + " "@ + padded(model.size, 10) + " "@ + padded(listed_state(state), 10)
        + " "@ + place
}

/// Writes the row of a model in the list.
pub fn model_row(model: ModelInfo, state: ModelState, path: &PathBuf) -> (row: String)
    ensures
        row@ == row_text(model@, state, path_display(*path)),
{
    let word: &str = match state {
        ModelState::Missing => "available",
        _ => state.label(),
    };
    let mut row = pad_right(model.name, 6);
    row.append(" ");
    row.append(pad_right(model.size, 10).as_str());
    row.append(" ");
    row.append(pad_right(word, 10).as_str());
    row.append(" ");
    row.append(display(path).as_str());
    row
}

/// The row that lists `model`, of which `file` was found at its place in the
/// directory `models`.
pub open spec fn model_line(models: PathBuf, model: ModelText, file: ModelFile) -> Seq<char> {
    row_text(
        model,
        state_of(model, file),
        path_display(joined_path(models, path_named(model.file_name))),
    )
}

/// Lists the models of the catalogue, `files` being what was found at the
/// place of each.
pub fn list_models(paths: &AppPaths, files: &Vec<ModelFile>) -> (rows: Vec<String>)
    requires
        files@.len() == catalogue().len(),
    ensures
        rows@.len() == catalogue().len(),
        forall|i: int|
            0 <= i < rows@.len() ==> (#[trigger] rows@[i])@ == model_line(
                paths.models,
                catalogue()[i],
                files@[i],
            ),
{
    let models = models();
    let mut rows: Vec<String> = Vec::new();
    let mut next: usize = 0;
    assert(model_texts(models@).len() == models@.len());
    while next < models.len()
        invariant
            next <= models@.len(),
            models@.len() == catalogue().len(),
            files@.len() == catalogue().len(),
            model_texts(models@) == catalogue(),
            rows@.len() == next,
            forall|i: int|
                0 <= i < next ==> (#[trigger] rows@[i])@ == model_line(
                    paths.models,
                    catalogue()[i],
                    files@[i],
                ),
        decreases models@.len() - next,
    {
        let model: ModelInfo = models[next];
        assert(model_texts(models@)[next as int] == model@);
        let place = paths.model_path(model);
        let state = model_state(model, &files[next]);
        let row = model_row(model, state, &place);
        let ghost before = rows@;
        rows.push(row);
        assert(forall|i: int| 0 <= i < next ==> rows@[i] == before[i]);
        next = next + 1;
    }
    rows
}

/// The row of a model shows its name, its size, the word for its state and the
/// place of its file, each whole; the first three stand in columns, which only
/// grow where a word does not fit.
pub proof fn law_rows_show_name_size_state_and_place(
    model: ModelText,
    state: ModelState,
    place: Seq<char>,
)
    ensures
        ({
            let row = row_text(model, state, place);
            let word = match state {
                ModelState::Installed => "installed"@,
                ModelState::Missing => "available"@,
                ModelState::Corrupt => "corrupt"@,
            };
            row == padded(model.name, 6) + " "@ + padded(model.size, 10) + " "@ + padded(word, 10)
                + " "@ + place
        }),
        model.name.is_prefix_of(row_text(model, state, place)),
        place.is_suffix_of(row_text(model, state, place)),
{
    crate::text::law_padding_adds_only_spaces(model.name, 6);
    let row = row_text(model, state, place);
    assert(row.subrange(row.len() - place.len(), row.len() as int) =~= place);
    assert(row.subrange(0, model.name.len() as int) =~= padded(model.name, 6).subrange(
        0,
        model.name.len() as int,
    ));
}

/// A model is listed by what was found of its file: as available if there is
/// none, as installed if it has the digest of the catalogue, else as corrupt; and
/// with the place of its file in the directory of the models.
pub proof fn law_models_are_listed_by_their_state(
    models: PathBuf,
    model: ModelText,
    digest: String,
)
    ensures
        ({
            let place = path_display(joined_path(models, path_named(model.file_name)));
            &&& model_line(models, model, ModelFile::Absent) == row_text(
                model,
                ModelState::Missing,
                place,
            )
            &&& model_line(models, model, ModelFile::Unreadable) == row_text(
                model,
                ModelState::Corrupt,
                place,
            )
            &&& model_line(models, model, ModelFile::Digest(digest)) == row_text(
                model,
                if digest@ == model.sha1 {
                    ModelState::Installed
                } else {
                    ModelState::Corrupt
                },
                place,
            )
        }),
{
}

/// The reports name every place whole, each on its line.
pub proof fn law_reports_name_every_place(
    paths: AppPaths,
    os: Seq<char>,
    arch: Seq<char>,
    executable: PathBuf,
)
    ensures
        init_lines(paths).len() == 3,
        init_lines(paths)[0] == "created "@ + path_display(paths.root),
        init_lines(paths)[1] == "models  "@ + path_display(paths.models),
        init_lines(paths)[2] == "bin     "@ + path_display(paths.bin),
        ({
            let lines = doctor_lines(paths, os, arch, executable);
            &&& lines.len() == 10
            &&& lines[0] == "whisperCLI paths"@
            &&& lines[1] == "root        "@ + path_display(paths.root)
            &&& lines[2] == "bin         "@ + path_display(paths.bin)
            &&& lines[3] == "models      "@ + path_display(paths.models)
            &&& lines[4] == "transcripts "@ + path_display(paths.transcripts)
            &&& lines[5] == "logs        "@ + path_display(paths.logs)
            &&& lines[6] == ""@
            &&& lines[7] == "platform    "@ + os
            &&& lines[8] == "arch        "@ + arch
            &&& lines[9] == "exe         "@ + path_display(executable)
        }),
{
}

} // verus!
