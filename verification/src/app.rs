//! The model catalogue, the application's directories and the user's home.
use crate::error::AppError;
use crate::path::{
    anchored, display, has_parent, join_name, joined_path, lemma_is_plain, name_part, ordinary, parent,
    path_display, path_named, path_of, path_parts, plain_name, rest_behind, strip_prefix,
};
use crate::text::{
    join, joined, line_texts, same_text, texts, trim_leading_separators, without_leading_separators,
};
use std::path::PathBuf;
use vstd::prelude::*;
use vstd::string::*;

verus! {

/// The directory in the user's home that holds everything.
pub const APP_DIR_NAME: &'static str = ".whispercli";

/// Where the model files are downloaded from.
pub const MODEL_BASE_URL: &'static str =
    "https://huggingface.co/ggerganov/whisper.cpp/resolve/main";

/// A speech model that can be installed.
#[derive(Clone, Copy, Debug)]
pub struct ModelInfo {
    pub name: &'static str,
    pub file_name: &'static str,
    pub size: &'static str,
    pub sha1: &'static str,
    pub description: &'static str,
}

/// What a `ModelInfo` says, as text.
#[verifier::ext_equal]
pub struct ModelText {
    pub name: Seq<char>,
    pub file_name: Seq<char>,
    pub size: Seq<char>,
    pub sha1: Seq<char>,
    pub description: Seq<char>,
}

impl View for ModelInfo {
    type V = ModelText;

    open spec fn view(&self) -> ModelText {
        ModelText {
            name: self.name@,
            file_name: self.file_name@,
            size: self.size@,
            sha1: self.sha1@,
            description: self.description@,
        }
    }
}

/// The models that can be installed, in the order in which they are listed.
pub open spec fn catalogue() -> Seq<ModelText> {
    seq![
        ModelText {
            name: "tiny"@,
            file_name: "ggml-tiny.bin"@,
            size: "75 MiB"@,
            sha1: "bd577a113a864445d4c299885e0cb97d4ba92b5f"@,
            description: "Fastest"@,
        },
        ModelText {
            name: "base"@,
            file_name: "ggml-base.bin"@,
            size: "142 MiB"@,
            sha1: "465707469ff3a37a2b9b8d8f89f2f99de7299dac"@,
            description: "Balanced"@,
        },
        ModelText {
            name: "small"@,
            file_name: "ggml-small.bin"@,
            size: "466 MiB"@,
            sha1: "55356645c2b361a969dfd0ef2c5a50d530afd8d5"@,
            description: "Better accuracy"@,
        },
        ModelText {
            name: "large-v3-turbo-q5_0"@,
            file_name: "ggml-large-v3-turbo-q5_0.bin"@,
            size: "547 MiB"@,
            sha1: "e050f7970618a659205450ad97eb95a18d69c9ee"@,
            description: "Recommended quality"@,
        },
    ]
}

/// The text of each of `models`.
pub open spec fn model_texts(models: Seq<ModelInfo>) -> Seq<ModelText> {
    models.map_values(|model: ModelInfo| model@)
}

/// Lists the models that can be installed.
pub fn models() -> (models: Vec<ModelInfo>)
    ensures
        model_texts(models@) == catalogue(),
{
    let mut models: Vec<ModelInfo> = Vec::new();
    models.push(
        ModelInfo {
            name: "tiny",
            file_name: "ggml-tiny.bin",
            size: "75 MiB",
            sha1: "bd577a113a864445d4c299885e0cb97d4ba92b5f",
            description: "Fastest",
        },
    );
    models.push(
        ModelInfo {
            name: "base",
            file_name: "ggml-base.bin",
            size: "142 MiB",
            sha1: "465707469ff3a37a2b9b8d8f89f2f99de7299dac",
            description: "Balanced",
        },
    );
    models.push(
        ModelInfo {
            name: "small",
            file_name: "ggml-small.bin",
            size: "466 MiB",
            sha1: "55356645c2b361a969dfd0ef2c5a50d530afd8d5",
            description: "Better accuracy",
        },
    );
    models.push(
        ModelInfo {
            name: "large-v3-turbo-q5_0",
            file_name: "ggml-large-v3-turbo-q5_0.bin",
            size: "547 MiB",
            sha1: "e050f7970618a659205450ad97eb95a18d69c9ee",
            description: "Recommended quality",
        },
    );
    assert(model_texts(models@) =~= catalogue());
    models
}

/// The name that a request stands for: `recommended` is an alias.
pub open spec fn requested_name(name: Seq<char>) -> Seq<char> {
    if name == "recommended"@ {
        "large-v3-turbo-q5_0"@
    } else {
        name
    }
}

/// The first of `models` whose name is `name`.
pub open spec fn first_named(models: Seq<ModelText>, name: Seq<char>) -> Option<ModelText>
    decreases models.len(),
{
    if models.len() == 0 {
        None
    } else if models.first().name == name {
        Some(models.first())
    } else {
        first_named(models.drop_first(), name)
    }
}

/// The model in the catalogue that `name` asks for.
pub open spec fn model_named(name: Seq<char>) -> Option<ModelText> {
    first_named(catalogue(), requested_name(name))
}

/// No two models of the catalogue have the same name, none has the name of
/// the alias, and the alias stands for one of them.
pub proof fn law_model_names_are_distinct()
    ensures
        forall|i: int, j: int|
            0 <= i < j < catalogue().len() ==> #[trigger] catalogue()[i].name
                != #[trigger] catalogue()[j].name,
        forall|i: int|
            0 <= i < catalogue().len() ==> #[trigger] catalogue()[i].name != "recommended"@,
        model_named("recommended"@) == Some(catalogue()[3]),
{
    reveal_strlit("tiny");
    reveal_strlit("base");
    reveal_strlit("small");
    reveal_strlit("large-v3-turbo-q5_0");
    reveal_strlit("recommended");
    assert("tiny"@[0] != "base"@[0]);
    assert("tiny"@.len() != "small"@.len());
    assert("base"@.len() != "small"@.len());
    assert("tiny"@.len() != "large-v3-turbo-q5_0"@.len());
    assert("small"@.len() != "large-v3-turbo-q5_0"@.len());
    assert("recommended"@.len() != "large-v3-turbo-q5_0"@.len());
    reveal_with_fuel(first_named, 5);
    let names = catalogue();
    assert(names.drop_first()[0] == names[1]);
    assert(names.drop_first().drop_first()[0] == names[2]);
    assert(names.drop_first().drop_first().drop_first()[0] == names[3]);
}

/// Looks a model up by its name or by the alias `recommended`.
pub fn model_by_name(name: &str) -> (found: Option<ModelInfo>)
    ensures
        match found {
            Some(model) => model_named(name@) == Some(model@),
            None => model_named(name@) is None,
        },
{
    let wanted: &str = if same_text(name, "recommended") {
        "large-v3-turbo-q5_0"
    } else {
        name
    };
    let models = models();
    let mut next: usize = 0;
    assert(catalogue().skip(0) =~= catalogue());
    while next < models.len()
        invariant
            next <= models@.len(),
            model_texts(models@) == catalogue(),
            wanted@ == requested_name(name@),
            model_named(name@) == first_named(catalogue().skip(next as int), wanted@),
        decreases models@.len() - next,
    {
        assert(model_texts(models@)[next as int] == models@[next as int]@);
        assert(catalogue().skip(next as int).first() == models@[next as int]@);
        assert(catalogue().skip(next as int).drop_first() =~= catalogue().skip(next + 1));
        if same_text(models[next].name, wanted) {
            return Some(models[next]);
        }
        next = next + 1;
    }
    assert(model_texts(models@).len() == models@.len());
    None
}

/// The names of `models`.
pub open spec fn model_names(models: Seq<ModelText>) -> Seq<Seq<char>> {
    models.map_values(|model: ModelText| model.name)
}

/// The names that can be asked for, as they are listed to the user.
pub open spec fn supported_names() -> Seq<char> {
    joined(model_names(catalogue()).push("recommended"@), ", "@)
}

/// Lists the names that can be asked for, the alias last.
pub fn supported_model_names() -> (names: String)
    ensures
        names@ == supported_names(),
{
    let models = models();
    let mut names: Vec<&'static str> = Vec::new();
    let mut next: usize = 0;
    while next < models.len()
        invariant
            next <= models@.len(),
            model_texts(models@) == catalogue(),
            texts(names@) == model_names(catalogue()).take(next as int),
        decreases models@.len() - next,
    {
        assert(model_texts(models@)[next as int] == models@[next as int]@);
        let ghost before = texts(names@);
        names.push(models[next].name);
        assert(texts(names@) =~= before.push(models@[next as int].name@));
        assert(model_names(catalogue())[next as int] == catalogue()[next as int].name);
        next = next + 1;
        assert(texts(names@) =~= model_names(catalogue()).take(next as int));
    }
    assert(model_texts(models@).len() == models@.len());
    let ghost before = texts(names@);
    assert(model_names(catalogue()).take(next as int) =~= model_names(catalogue()));
    names.push("recommended");
    assert(texts(names@) =~= before.push("recommended"@));
    join(&names, ", ")
}

/// What is known of the file of a model.
#[derive(Clone, Copy, Debug, Eq, PartialEq, Structural)]
pub enum ModelState {
    Installed,
    Missing,
    Corrupt,
}

impl ModelState {
    /// The word for this state.
    pub open spec fn label_text(self) -> Seq<char> {
        match self {
            ModelState::Installed => "installed"@,
            ModelState::Missing => "missing"@,
            ModelState::Corrupt => "corrupt"@,
        }
    }

    /// The word that this state is listed by.
    pub fn label(self) -> (label: &'static str)
        ensures
            label@ == self.label_text(),
    {
        match self {
            ModelState::Installed => "installed",
            ModelState::Missing => "missing",
            ModelState::Corrupt => "corrupt",
        }
    }
}

/// What was found at the place of a model's file.
#[derive(Debug)]
pub enum ModelFile {
    /// Nothing.
    Absent,
    /// Something that could not be read to its end.
    Unreadable,
    /// A file whose content has this digest.
    Digest(String),
}

/// True if there is a file at the model's place, sound or not.
pub fn is_model_installed(file: &ModelFile) -> (installed: bool)
    ensures
        installed == !(file is Absent),
{
    match file {
        ModelFile::Absent => false,
        _ => true,
    }
}

/// The state of `model`, of which `file` was found.
pub open spec fn state_of(model: ModelText, file: ModelFile) -> ModelState {
    match file {
        ModelFile::Absent => ModelState::Missing,
        ModelFile::Unreadable => ModelState::Corrupt,
        ModelFile::Digest(digest) => if digest@ == model.sha1 {
            ModelState::Installed
        } else {
            ModelState::Corrupt
        },
    }
}

/// Judges what was found at the place of `model`: a file is sound if it could
/// be read and has the digest of the catalogue.
pub fn model_state(model: ModelInfo, file: &ModelFile) -> (state: ModelState)
    ensures
        state == state_of(model@, *file),
{
    match file {
        ModelFile::Absent => ModelState::Missing,
        ModelFile::Unreadable => ModelState::Corrupt,
        ModelFile::Digest(digest) => if same_text(digest.as_str(), model.sha1) {
            ModelState::Installed
        } else {
            ModelState::Corrupt
        },
    }
}

/// Picks the home directory: `USERPROFILE` goes before `HOME`.
pub fn home_dir(user_profile: Option<PathBuf>, home: Option<PathBuf>) -> (directory: Result<
    PathBuf,
    AppError,
>)
    ensures
        match user_profile {
            Some(profile) => directory == Ok::<PathBuf, AppError>(profile),
            None => match home {
                Some(home) => directory == Ok::<PathBuf, AppError>(home),
                None => directory == Err::<PathBuf, AppError>(AppError::HomeNotSet),
            },
        },
{
    match user_profile {
        Some(profile) => Ok(profile),
        None => match home {
            Some(home) => Ok(home),
            None => Err(AppError::HomeNotSet),
        },
    }
}

/// The documents directory of a home, where there is one.
pub fn documents_dir(home: Option<&PathBuf>) -> (documents: Option<PathBuf>)
    ensures
        match home {
            Some(home) => {
                &&& documents == Some(joined_path(*home, path_named("Documents"@)))
                &&& ordinary(*home) ==> path_parts(documents->0) == path_parts(*home).push(
                    name_part("Documents"@),
                )
                &&& anchored(*home) ==> anchored(documents->0)
            },
            None => documents is None,
        },
{
    match home {
        Some(home) => {
            proof {
                reveal_strlit("Documents");
                lemma_is_plain("Documents"@);
            }
            Some(join_name(home, "Documents"))
        },
        None => None,
    }
}

/// The text for a path whose rest behind the home directory displays as `rest`.
pub open spec fn home_text(rest: Seq<char>, separator: Seq<char>) -> Seq<char> {
    if rest.len() == 0 {
        "~"@
    } else {
        "~"@ + separator + without_leading_separators(rest)
    }
}

/// Writes the part of a path behind the home directory, the home as `~`.
pub fn tilde_path(rest: &str, separator: &str) -> (text: String)
    ensures
        text@ == home_text(rest@, separator@),
{
    if rest.is_empty() {
        String::from_str("~")
    } else {
        let mut text = String::from_str("~");
        text.append(separator);
        text.append(trim_leading_separators(rest));
        text
    }
}

/// Writes a path for display, with the home directory as `~`; `separator` is
/// what the platform puts between directories.
pub fn short_home_path(path: &PathBuf, home: Option<&PathBuf>, separator: &str) -> (text: String)
    ensures
        match home {
            Some(home) => if path_parts(*home).is_prefix_of(path_parts(*path)) {
                text@ == home_text(path_display(rest_behind(*path, *home)), separator@)
            } else {
                text@ == path_display(*path)
            },
            None => text@ == path_display(*path),
        },
{
    match home {
        Some(home) => match strip_prefix(path, home) {
            Some(rest) => {
                let rest_text = display(&rest);
                tilde_path(rest_text.as_str(), separator)
            },
            None => display(path),
        },
        None => display(path),
    }
}

/// The directories and files that the application keeps.
#[derive(Debug)]
pub struct AppPaths {
    pub root: PathBuf,
    pub bin: PathBuf,
    pub models: PathBuf,
    pub transcripts: PathBuf,
    pub logs: PathBuf,
    pub config: PathBuf,
}

impl Clone for AppPaths {
    fn clone(&self) -> (copy: AppPaths)
        ensures
            copy == *self,
    {
        AppPaths {
            root: self.root.clone(),
            bin: self.bin.clone(),
            models: self.models.clone(),
            transcripts: self.transcripts.clone(),
            logs: self.logs.clone(),
            config: self.config.clone(),
        }
    }
}

impl AppPaths {
    /// True if the paths are those of the application under `home`.
    pub open spec fn stands_in(self, home: PathBuf) -> bool {
        &&& self.root == joined_path(home, path_named(APP_DIR_NAME@))
        &&& self.bin == joined_path(self.root, path_named("bin"@))
        &&& self.models == joined_path(self.root, path_named("models"@))
        &&& self.transcripts == joined_path(self.root, path_named("transcripts"@))
        &&& self.logs == joined_path(self.root, path_named("logs"@))
        &&& self.config == joined_path(self.root, path_named("config.toml"@))
        &&& anchored(home) ==> {
            let root = path_parts(home).push(name_part(APP_DIR_NAME@));
            &&& path_parts(self.root) == root
            &&& path_parts(self.bin) == root.push(name_part("bin"@))
            &&& path_parts(self.models) == root.push(name_part("models"@))
            &&& path_parts(self.transcripts) == root.push(name_part("transcripts"@))
            &&& path_parts(self.logs) == root.push(name_part("logs"@))
            &&& path_parts(self.config) == root.push(name_part("config.toml"@))
            &&& anchored(self.models)
        }
    }

    /// Lays the application's paths out under the home directory.
    pub fn new(home: Option<&PathBuf>) -> (paths: Result<AppPaths, AppError>)
        ensures
            match home {
                Some(home) => paths matches Ok(paths) && paths.stands_in(*home),
                None => paths == Err::<AppPaths, AppError>(AppError::NoHomeDirectory),
            },
    {
        match home {
            Some(home) => {
                proof {
                    lemma_own_names_are_plain();
                }
                let root = join_name(home, APP_DIR_NAME);
                Ok(
                    AppPaths {
                        bin: join_name(&root, "bin"),
                        models: join_name(&root, "models"),
                        transcripts: join_name(&root, "transcripts"),
                        logs: join_name(&root, "logs"),
                        config: join_name(&root, "config.toml"),
                        root,
                    },
                )
            },
            None => Err(AppError::NoHomeDirectory),
        }
    }

    /// Lists the directories that have to exist, in the order in which they
    /// are created.
    pub fn directories(&self) -> (directories: Vec<PathBuf>)
        ensures
            directories@ == seq![self.root, self.bin, self.models, self.transcripts, self.logs],
    {
        let mut directories: Vec<PathBuf> = Vec::new();
        directories.push(self.root.clone());
        directories.push(self.bin.clone());
        directories.push(self.models.clone());
        directories.push(self.transcripts.clone());
        directories.push(self.logs.clone());
        directories
    }

    /// The place of a model's file.
    pub fn model_path(&self, model: ModelInfo) -> (path: PathBuf)
        ensures
            path == joined_path(self.models, path_named(model.file_name@)),
            ordinary(self.models) && plain_name(model.file_name@) ==> path_parts(path)
                == path_parts(self.models).push(name_part(model.file_name@)),
    {
        let file = path_of(model.file_name);
        let path = crate::path::join(&self.models, &file);
        proof {
            if plain_name(model.file_name@) {
                crate::path::lemma_plain_name_parts(model.file_name@);
                assert(path_parts(self.models) + seq![name_part(model.file_name@)] =~= path_parts(
                    self.models,
                ).push(name_part(model.file_name@)));
            }
        }
        path
    }
}

proof fn lemma_own_names_are_plain()
    ensures
        plain_name(APP_DIR_NAME@),
        plain_name("bin"@),
        plain_name("models"@),
        plain_name("transcripts"@),
        plain_name("logs"@),
        plain_name("config.toml"@),
{
    assert(plain_name(".whispercli"@)) by {
        reveal_strlit(".whispercli");
        lemma_is_plain(".whispercli"@);
    }
    assert(plain_name("bin"@)) by {
        reveal_strlit("bin");
        lemma_is_plain("bin"@);
    }
    assert(plain_name("models"@)) by {
        reveal_strlit("models");
        lemma_is_plain("models"@);
    }
    assert(plain_name("transcripts"@)) by {
        reveal_strlit("transcripts");
        lemma_is_plain("transcripts"@);
    }
    assert(plain_name("logs"@)) by {
        reveal_strlit("logs");
        lemma_is_plain("logs"@);
    }
    assert(plain_name("config.toml"@)) by {
        reveal_strlit("config.toml");
        lemma_is_plain("config.toml"@);
    }
}

/// Everything that the application keeps stands in one directory of the home:
/// the four directories and the configuration directly, and the models in
/// theirs.
pub proof fn law_everything_stands_in_one_directory(paths: AppPaths, home: PathBuf)
    requires
        paths.stands_in(home),
        anchored(home),
    ensures
        path_parts(paths.root).drop_last() == path_parts(home),
        path_parts(paths.bin).drop_last() == path_parts(paths.root),
        path_parts(paths.models).drop_last() == path_parts(paths.root),
        path_parts(paths.transcripts).drop_last() == path_parts(paths.root),
        path_parts(paths.logs).drop_last() == path_parts(paths.root),
        path_parts(paths.config).drop_last() == path_parts(paths.root),
{
}

/// A model is missing exactly if there is nothing at its place: a file that is
/// corrupt counts as installed until it is looked into.
pub proof fn law_only_absent_models_are_missing(model: ModelText, file: ModelFile)
    ensures
        state_of(model, file) == ModelState::Missing <==> file is Absent,
{
}

/// Every model of the catalogue has a file name that is a plain name, and no
/// two have the same: their files stand side by side in the models directory.
pub proof fn law_model_files_are_distinct()
    ensures
        forall|i: int|
            0 <= i < catalogue().len() ==> plain_name(#[trigger] catalogue()[i].file_name),
        forall|i: int, j: int|
            0 <= i < j < catalogue().len() ==> #[trigger] catalogue()[i].file_name
                != #[trigger] catalogue()[j].file_name,
{
    assert(plain_name("ggml-tiny.bin"@)) by {
        reveal_strlit("ggml-tiny.bin");
        lemma_is_plain("ggml-tiny.bin"@);
    }
    assert(plain_name("ggml-base.bin"@)) by {
        reveal_strlit("ggml-base.bin");
        lemma_is_plain("ggml-base.bin"@);
    }
    assert(plain_name("ggml-small.bin"@)) by {
        reveal_strlit("ggml-small.bin");
        lemma_is_plain("ggml-small.bin"@);
    }
    assert(plain_name("ggml-large-v3-turbo-q5_0.bin"@)) by {
        reveal_strlit("ggml-large-v3-turbo-q5_0.bin");
        lemma_is_plain("ggml-large-v3-turbo-q5_0.bin"@);
    }
    reveal_strlit("ggml-tiny.bin");
    reveal_strlit("ggml-base.bin");
    reveal_strlit("ggml-small.bin");
    reveal_strlit("ggml-large-v3-turbo-q5_0.bin");
    assert("ggml-tiny.bin"@[5] != "ggml-base.bin"@[5]);
    assert("ggml-tiny.bin"@.len() != "ggml-small.bin"@.len());
}

/// The directory that the executable stands in.
pub fn current_exe_dir(executable: &PathBuf) -> (directory: Result<PathBuf, AppError>)
    ensures
        if has_parent(path_parts(*executable)) {
            directory matches Ok(directory) && path_parts(directory)
                == path_parts(*executable).drop_last()
        } else {
            directory matches Err(AppError::ExecutableWithoutParent { executable: named })
                && named@ == path_display(*executable)
        },
{
    match parent(executable) {
        Some(directory) => Ok(directory),
        None => Err(AppError::ExecutableWithoutParent { executable: display(executable) }),
    }
}

/// True if the search path can be updated on this operating system.
pub fn updates_search_path(os: &str) -> (supported: bool)
    ensures
        supported == (os@ == "windows"@),
{
    same_text(os, "windows")
}

/// What is said where the search path is not updated.
pub const MANUAL_PATH_NOTICE: &'static str =
    "--add-to-path is currently implemented for Windows only.";

/// Asks the user to add `directory` to the search path.
pub fn manual_path_line(directory: &PathBuf) -> (line: String)
    ensures
        line@ == "Add this directory to PATH manually: "@ + path_display(*directory),
{
    let mut line = String::from_str("Add this directory to PATH manually: ");
    line.append(display(directory).as_str());
    line
}

/// The PowerShell script that puts its argument into the user's search path
/// unless it is there already.
pub const PATH_SCRIPT: &'static str = r#"
$dir = $args[0]
$current = [Environment]::GetEnvironmentVariable("Path", "User")
$entries = @()
if ($current) {
    $entries = $current.Split(";") | Where-Object { $_ -ne "" }
}
foreach ($entry in $entries) {
    if ($entry.TrimEnd("\") -ieq $dir.TrimEnd("\")) {
        Write-Host "PATH already contains $dir"
        exit 0
    }
}
$updated = if ($current) { "$current;$dir" } else { $dir }
[Environment]::SetEnvironmentVariable("Path", $updated, "User")
Write-Host "Added $dir to the user PATH"
"#;

/// The arguments that PowerShell is started with to add `directory`.
pub fn path_script_arguments(directory: &PathBuf) -> (arguments: Vec<String>)
    ensures
        line_texts(arguments@) == seq![
            "-NoProfile"@,
            "-ExecutionPolicy"@,
            "Bypass"@,
            "-Command"@,
            PATH_SCRIPT@,
            path_display(*directory),
        ],
{
    let mut arguments: Vec<String> = Vec::new();
    arguments.push(String::from_str("-NoProfile"));
    arguments.push(String::from_str("-ExecutionPolicy"));
    arguments.push(String::from_str("Bypass"));
    arguments.push(String::from_str("-Command"));
    arguments.push(String::from_str(PATH_SCRIPT));
    arguments.push(display(directory));
    assert(line_texts(arguments@) =~= seq![
        "-NoProfile"@,
        "-ExecutionPolicy"@,
        "Bypass"@,
        "-Command"@,
        PATH_SCRIPT@,
        path_display(*directory),
    ]);
    arguments
}

/// What is said when the script has ended, `status` being how.
pub fn path_script_report(directory: &PathBuf, success: bool, status: &str) -> (report: Result<
    Vec<String>,
    AppError,
>)
    ensures
        success ==> (report matches Ok(lines) && line_texts(lines@) == seq![
            "Added "@ + path_display(*directory) + " to the user PATH."@,
            "Open a new terminal before running whispercli by name."@,
        ]),
        !success ==> (report matches Err(AppError::PathUpdateFailed { status: how }) && how@
            == status@),
{
    if success {
        let mut added = String::from_str("Added ");
        added.append(display(directory).as_str());
        added.append(" to the user PATH.");
        let mut lines: Vec<String> = Vec::new();
        lines.push(added);
        lines.push(String::from_str("Open a new terminal before running whispercli by name."));
        assert(line_texts(lines@) =~= seq![
            "Added "@ + path_display(*directory) + " to the user PATH."@,
            "Open a new terminal before running whispercli by name."@,
        ]);
        Ok(lines)
    } else {
        Err(AppError::PathUpdateFailed { status: String::from_str(status) })
    }
}

/// Every model of the catalogue is found by its name, `recommended` finds the
/// recommended one, and no other name finds any.
pub proof fn law_models_are_found_by_their_names(name: Seq<char>)
    ensures
        forall|i: int|
            0 <= i < catalogue().len() ==> model_named(#[trigger] catalogue()[i].name) == Some(
                catalogue()[i],
            ),
        model_named(name) matches Some(model) ==> {
            &&& name == model.name || (name == "recommended"@ && model.name
                == "large-v3-turbo-q5_0"@)
            &&& exists|i: int| 0 <= i < catalogue().len() && #[trigger] catalogue()[i] == model
        },
        model_named(name) is None ==> name != "recommended"@ && forall|i: int|
            0 <= i < catalogue().len() ==> #[trigger] catalogue()[i].name != name,
{
    law_model_names_are_distinct();
    reveal_with_fuel(first_named, 6);
    let models = catalogue();
    assert(models.drop_first()[0] == models[1]);
    assert(models.drop_first().drop_first()[0] == models[2]);
    assert(models.drop_first().drop_first().drop_first()[0] == models[3]);
    assert(models.drop_first().drop_first().drop_first().drop_first() =~= Seq::empty());
    assert(models[0].name != models[1].name);
    assert(models[0].name != models[2].name);
    assert(models[0].name != models[3].name);
    assert(models[1].name != models[2].name);
    assert(models[1].name != models[3].name);
    assert(models[2].name != models[3].name);
    assert forall|i: int| 0 <= i < models.len() implies model_named(#[trigger] models[i].name)
        == Some(models[i]) by {
        assert(models[i].name != "recommended"@);
    }
}

/// True if `c` is a digit of a number in base sixteen, in lower case.
pub open spec fn is_hex_digit(c: char) -> bool {
    48 <= c as int <= 57 || 97 <= c as int <= 102
}

/// The file of a model is named after the model, and the digest that its content
/// must have is one that content can have: forty hexadecimal digits.
pub proof fn law_catalogue_entries_are_coherent(index: int)
    requires
        0 <= index < catalogue().len(),
    ensures
        catalogue()[index].file_name == "ggml-"@ + catalogue()[index].name + ".bin"@,
        catalogue()[index].sha1.len() == 40,
        forall|i: int| 0 <= i < 40 ==> is_hex_digit(#[trigger] catalogue()[index].sha1[i]),
{
    reveal_strlit("ggml-");
    reveal_strlit(".bin");
    reveal_strlit("tiny");
    reveal_strlit("base");
    reveal_strlit("small");
    reveal_strlit("large-v3-turbo-q5_0");
    reveal_strlit("ggml-tiny.bin");
    reveal_strlit("ggml-base.bin");
    reveal_strlit("ggml-small.bin");
    reveal_strlit("ggml-large-v3-turbo-q5_0.bin");
    reveal_strlit("bd577a113a864445d4c299885e0cb97d4ba92b5f");
    reveal_strlit("465707469ff3a37a2b9b8d8f89f2f99de7299dac");
    reveal_strlit("55356645c2b361a969dfd0ef2c5a50d530afd8d5");
    reveal_strlit("e050f7970618a659205450ad97eb95a18d69c9ee");
    assert(catalogue()[index].file_name =~= "ggml-"@ + catalogue()[index].name + ".bin"@);
}

/// The names that can be asked for are those of all models, in the order of the
/// catalogue, and the alias behind them; each of them finds a model.
pub proof fn law_supported_names_are_all_names()
    ensures
        model_names(catalogue()).len() == catalogue().len(),
        forall|i: int|
            0 <= i < catalogue().len() ==> #[trigger] model_names(catalogue())[i]
                == catalogue()[i].name,
        supported_names() == joined(model_names(catalogue()), ", "@) + ", "@ + "recommended"@,
{
    crate::text::law_joining_separates_neighbours(
        model_names(catalogue()),
        "recommended"@,
        ", "@,
    );
}

/// A model is missing if nothing is at its place, installed if the file there
/// has the digest of the catalogue, and corrupt otherwise.
pub proof fn law_models_are_judged_by_their_digest(model: ModelText, digest: String)
    ensures
        state_of(model, ModelFile::Absent) == ModelState::Missing,
        state_of(model, ModelFile::Unreadable) == ModelState::Corrupt,
        digest@ == model.sha1 ==> state_of(model, ModelFile::Digest(digest))
            == ModelState::Installed,
        digest@ != model.sha1 ==> state_of(model, ModelFile::Digest(digest))
            == ModelState::Corrupt,
        ModelState::Installed.label_text() == "installed"@,
        ModelState::Missing.label_text() == "missing"@,
        ModelState::Corrupt.label_text() == "corrupt"@,
{
}

/// The texts of models are all there, each with all that it says.
pub proof fn law_models_say_all_they_hold(models: Seq<ModelInfo>)
    ensures
        model_texts(models).len() == models.len(),
        forall|i: int|
            0 <= i < models.len() ==> {
                let text = #[trigger] model_texts(models)[i];
                &&& text.name == models[i].name@
                &&& text.file_name == models[i].file_name@
                &&& text.size == models[i].size@
                &&& text.sha1 == models[i].sha1@
                &&& text.description == models[i].description@
            },
{
}

/// A place in the home is shown by a tilde for the home and then all of the
/// rest, with one separator between; the home itself is the tilde alone.
pub proof fn law_home_is_shown_by_a_tilde(
    separators: Seq<char>,
    rest: Seq<char>,
    separator: Seq<char>,
)
    requires
        forall|i: int|
            0 <= i < separators.len() ==> #[trigger] separators[i] == '/' || separators[i] == '\\',
        rest.len() > 0,
        rest.first() != '/' && rest.first() != '\\',
    ensures
        home_text(separators + rest, separator) == "~"@ + separator + rest,
        home_text(Seq::empty(), separator) == "~"@,
    decreases separators.len(),
{
    if separators.len() > 0 {
        law_home_is_shown_by_a_tilde(separators.drop_first(), rest, separator);
        assert(separators[0] == '/' || separators[0] == '\\');
        assert((separators + rest).drop_first() =~= separators.drop_first() + rest);
    } else {
        assert(separators + rest =~= rest);
    }
}

/// Everything that the application keeps has its fixed name under the home.
pub proof fn law_places_have_these_names(paths: AppPaths, home: PathBuf)
    requires
        paths.stands_in(home),
    ensures
        paths.root == joined_path(home, path_named(".whispercli"@)),
        paths.bin == joined_path(paths.root, path_named("bin"@)),
        paths.models == joined_path(paths.root, path_named("models"@)),
        paths.transcripts == joined_path(paths.root, path_named("transcripts"@)),
        paths.logs == joined_path(paths.root, path_named("logs"@)),
        paths.config == joined_path(paths.root, path_named("config.toml"@)),
        MODEL_BASE_URL@ == "https://huggingface.co/ggerganov/whisper.cpp/resolve/main"@,
{
}

} // verus!
