//! Transcript formats and the user's configuration.
use crate::app::AppPaths;
use crate::path::{
    anchored, extension, extension_text, has_parent, join_name, joined_path, lemma_is_plain, name_part, ordinary,
    parent, path_named, path_parts,
};
use crate::text::{
    law_lower_case_and_trimming_commute, law_outer_space_is_trimmed, lower_case, only_space, same_text,
    trimmed,
};
use std::path::PathBuf;
use vstd::prelude::*;
use vstd::string::*;

verus! {

/// How a transcript is laid out in its file.
#[derive(Clone, Copy, Debug, Eq, PartialEq, Structural)]
pub enum TranscriptFormat {
    Md,
    Txt,
    Srt,
    Json,
    Jsonl,
}

/// The format that a lower-case name stands for.
pub open spec fn format_named(name: Seq<char>) -> Option<TranscriptFormat> {
    if name == "md"@ || name == "markdown"@ {
        Some(TranscriptFormat::Md)
    } else if name == "txt"@ || name == "text"@ {
        Some(TranscriptFormat::Txt)
    } else if name == "srt"@ {
        Some(TranscriptFormat::Srt)
    } else if name == "json"@ {
        Some(TranscriptFormat::Json)
    } else if name == "jsonl"@ || name == "ndjson"@ {
        Some(TranscriptFormat::Jsonl)
    } else {
        None
    }
}

/// The format that the user means by `value`: neither case nor the space
/// around it matters.
pub open spec fn format_meant(value: Seq<char>) -> Option<TranscriptFormat> {
    format_named(lower_case(trimmed(value)))
}

impl TranscriptFormat {
    /// The extension of files in this format.
    pub open spec fn extension_text(self) -> Seq<char> {
        match self {
            TranscriptFormat::Md => "md"@,
            TranscriptFormat::Txt => "txt"@,
            TranscriptFormat::Srt => "srt"@,
            TranscriptFormat::Json => "json"@,
            TranscriptFormat::Jsonl => "jsonl"@,
        }
    }

    /// The name of this format for display.
    pub open spec fn label_text(self) -> Seq<char> {
        match self {
            TranscriptFormat::Md => "Markdown"@,
            TranscriptFormat::Txt => "Text"@,
            TranscriptFormat::Srt => "SRT"@,
            TranscriptFormat::Json => "JSON"@,
            TranscriptFormat::Jsonl => "JSONL"@,
        }
    }

    /// The extension of files in this format, without its dot.
    pub fn extension(self) -> (extension: &'static str)
        ensures
            extension@ == self.extension_text(),
    {
        match self {
            TranscriptFormat::Md => "md",
            TranscriptFormat::Txt => "txt",
            TranscriptFormat::Srt => "srt",
            TranscriptFormat::Json => "json",
            TranscriptFormat::Jsonl => "jsonl",
        }
    }

    /// The name of this format for display.
    pub fn label(self) -> (label: &'static str)
        ensures
            label@ == self.label_text(),
    {
        match self {
            TranscriptFormat::Md => "Markdown",
            TranscriptFormat::Txt => "Text",
            TranscriptFormat::Srt => "SRT",
            TranscriptFormat::Json => "JSON",
            TranscriptFormat::Jsonl => "JSONL",
        }
    }

    /// All formats, in the order in which they are offered.
    pub fn all() -> (formats: &'static [TranscriptFormat])
        ensures
            formats@ == seq![
                TranscriptFormat::Md,
                TranscriptFormat::Txt,
                TranscriptFormat::Srt,
                TranscriptFormat::Json,
                TranscriptFormat::Jsonl,
            ],
    {
        &[
            TranscriptFormat::Md,
            TranscriptFormat::Txt,
            TranscriptFormat::Srt,
            TranscriptFormat::Json,
            TranscriptFormat::Jsonl,
        ]
    }

    /// Reads the name of a format as the user may write it.
    pub fn parse(value: &str) -> (format: Option<TranscriptFormat>)
        ensures
            format == format_meant(value@),
    {
        let lower = value.trim().to_ascii_lowercase();
        let name = lower.as_str();
        if same_text(name, "md") || same_text(name, "markdown") {
            Some(TranscriptFormat::Md)
        } else if same_text(name, "txt") || same_text(name, "text") {
            Some(TranscriptFormat::Txt)
        } else if same_text(name, "srt") {
            Some(TranscriptFormat::Srt)
        } else if same_text(name, "json") {
            Some(TranscriptFormat::Json)
        } else if same_text(name, "jsonl") || same_text(name, "ndjson") {
            Some(TranscriptFormat::Jsonl)
        } else {
            None
        }
    }

    /// The format that the extension of `path` names.
    pub fn from_path_extension(path: &PathBuf) -> (format: Option<TranscriptFormat>)
        ensures
            match extension_text(path_parts(*path)) {
                Some(extension) => format == format_meant(extension),
                None => format is None,
            },
    {
        match extension(path) {
            Some(extension) => TranscriptFormat::parse(extension.as_str()),
            None => None,
        }
    }
}

/// The extension and the label of a format are both read as that format.
pub proof fn law_names_of_a_format_are_read(format: TranscriptFormat)
    ensures
        format_meant(format.extension_text()) == Some(format),
        format_meant(format.label_text()) == Some(format),
{
    reveal_strlit("md");
    reveal_strlit("txt");
    reveal_strlit("srt");
    reveal_strlit("json");
    reveal_strlit("jsonl");
    reveal_strlit("markdown");
    reveal_strlit("text");
    reveal_strlit("ndjson");
    reveal_strlit("Markdown");
    reveal_strlit("Text");
    reveal_strlit("SRT");
    reveal_strlit("JSON");
    reveal_strlit("JSONL");
    assert(lower_case("md"@) =~= "md"@);
    assert(lower_case("txt"@) =~= "txt"@);
    assert(lower_case("srt"@) =~= "srt"@);
    assert(lower_case("json"@) =~= "json"@);
    assert(lower_case("jsonl"@) =~= "jsonl"@);
    assert(lower_case("Markdown"@) =~= "markdown"@);
    assert(lower_case("Text"@) =~= "text"@);
    assert(lower_case("SRT"@) =~= "srt"@);
    assert(lower_case("JSON"@) =~= "json"@);
    assert(lower_case("JSONL"@) =~= "jsonl"@);
    assert("txt"@[1] != "srt"@[1]);
    assert("text"@[0] != "json"@[0]);
    assert("txt"@[0] != "srt"@[0]);
}

/// Neither white space around the name of a format nor its case matters.
pub proof fn law_format_names_ignore_case_and_space(
    before: Seq<char>,
    value: Seq<char>,
    after: Seq<char>,
)
    requires
        only_space(before),
        only_space(after),
    ensures
        format_meant(before + value + after) == format_meant(value),
        format_meant(lower_case(value)) == format_meant(value),
{
    law_outer_space_is_trimmed(before, value, after);
    law_lower_case_and_trimming_commute(value);
    law_lower_case_and_trimming_commute(trimmed(value));
}

/// What the user has configured.
#[derive(Debug)]
pub struct UserConfig {
    pub model: String,
    pub language: String,
    pub microphone: Option<String>,
    pub output_dir: PathBuf,
    pub output_format: TranscriptFormat,
    pub chunk_seconds: u64,
    pub threads: usize,
    pub start_paused: bool,
}

impl Clone for UserConfig {
    fn clone(&self) -> (copy: UserConfig)
        ensures
            copy == *self,
    {
        UserConfig {
            model: self.model.clone(),
            language: self.language.clone(),
            microphone: match &self.microphone {
                Some(name) => Some(name.clone()),
                None => None,
            },
            output_dir: self.output_dir.clone(),
            output_format: self.output_format,
            chunk_seconds: self.chunk_seconds,
            threads: self.threads,
            start_paused: self.start_paused,
        }
    }
}

/// The number of threads for a machine on which `parallelism` can run at once.
pub open spec fn default_threads(parallelism: Option<usize>) -> usize {
    match parallelism {
        Some(threads) => if threads < 1 {
            1
        } else if threads > 8 {
            8
        } else {
            threads
        },
        None => 4,
    }
}

impl UserConfig {
    /// True if the configuration can be worked with as it is.
    pub open spec fn is_normal(self) -> bool {
        &&& self.chunk_seconds >= 2
        &&& self.threads >= 1
        &&& self.microphone matches Some(name) ==> name@.len() > 0
    }

    /// True if this is what `stored` becomes when it is put in order: too
    /// small numbers are raised, an empty microphone is none, and nothing else
    /// changes.
    pub open spec fn normal_form_of(self, stored: UserConfig) -> bool {
        &&& self.model == stored.model
        &&& self.language == stored.language
        &&& self.microphone == (match stored.microphone {
            Some(name) => if name@.len() == 0 {
                None
            } else {
                Some(name)
            },
            None => None,
        })
        &&& self.output_dir == stored.output_dir
        &&& self.output_format == stored.output_format
        &&& self.chunk_seconds == (if stored.chunk_seconds < 2 {
            2
        } else {
            stored.chunk_seconds
        })
        &&& self.threads == (if stored.threads == 0 {
            1
        } else {
            stored.threads
        })
        &&& self.start_paused == stored.start_paused
    }

    /// True if this is the configuration that a new user starts with.
    pub open spec fn is_default_for(
        self,
        paths: AppPaths,
        documents: Option<PathBuf>,
        parallelism: Option<usize>,
    ) -> bool {
        &&& self.model@ == "tiny"@
        &&& self.language@ == "ja"@
        &&& self.microphone is None
        &&& match documents {
            Some(documents) => {
                &&& self.output_dir == joined_path(documents, path_named("whisperCLI"@))
                &&& ordinary(documents) ==> path_parts(self.output_dir) == path_parts(
                    documents,
                ).push(name_part("whisperCLI"@))
                &&& anchored(documents) ==> anchored(self.output_dir)
            },
            None => self.output_dir == paths.transcripts,
        }
        &&& self.output_format == TranscriptFormat::Md
        &&& self.chunk_seconds == 5
        &&& self.threads == default_threads(parallelism)
        &&& !self.start_paused
    }

    /// The configuration that a new user starts with. `documents` is the
    /// user's documents directory, and `parallelism` how many threads the
    /// machine runs at once, where they are known.
    pub fn default_for(
        paths: &AppPaths,
        documents: Option<PathBuf>,
        parallelism: Option<usize>,
    ) -> (config: UserConfig)
        ensures
            config.is_default_for(*paths, documents, parallelism),
    {
        proof {
            reveal_strlit("whisperCLI");
            lemma_is_plain("whisperCLI"@);
        }
        let output_dir = match &documents {
            Some(documents) => join_name(documents, "whisperCLI"),
            None => paths.transcripts.clone(),
        };
        let threads: usize = match parallelism {
            Some(threads) => if threads < 1 {
                1
            } else if threads > 8 {
                8
            } else {
                threads
            },
            None => 4,
        };
        UserConfig {
            model: String::from_str("tiny"),
            language: String::from_str("ja"),
            microphone: None,
            output_dir,
            output_format: TranscriptFormat::Md,
            chunk_seconds: 5,
            threads,
            start_paused: false,
        }
    }

    /// Puts a stored configuration in order.
    pub fn normalized(self) -> (config: UserConfig)
        ensures
            config.normal_form_of(self),
            config.is_normal(),
    {
        let chunk_seconds: u64 = if self.chunk_seconds < 2 {
            2
        } else {
            self.chunk_seconds
        };
        let threads: usize = if self.threads == 0 {
            1
        } else {
            self.threads
        };
        let microphone = match self.microphone {
            Some(name) => if name.as_str().is_empty() {
                None
            } else {
                Some(name)
            },
            None => None,
        };
        UserConfig {
            model: self.model,
            language: self.language,
            microphone,
            output_dir: self.output_dir,
            output_format: self.output_format,
            chunk_seconds,
            threads,
            start_paused: self.start_paused,
        }
    }

    /// Decides on the configuration: the stored one is put in order; where there
    /// is none, the default is taken and has to be saved.
    pub fn load_or_create(
        stored: Option<UserConfig>,
        paths: &AppPaths,
        documents: Option<PathBuf>,
        parallelism: Option<usize>,
    ) -> (loaded: LoadedConfig)
        ensures
            loaded.save == (stored is None),
            match stored {
                Some(stored) => loaded.config.normal_form_of(stored),
                None => loaded.config.is_default_for(*paths, documents, parallelism),
            },
            loaded.config.is_normal(),
    {
        match stored {
            Some(stored) => LoadedConfig { config: stored.normalized(), save: false },
            None => LoadedConfig {
                config: UserConfig::default_for(paths, documents, parallelism),
                save: true,
            },
        }
    }
}

/// Putting a configuration in order a second time changes nothing.
pub proof fn law_normalizing_is_idempotent(
    stored: UserConfig,
    once: UserConfig,
    twice: UserConfig,
)
    requires
        once.normal_form_of(stored),
        twice.normal_form_of(once),
    ensures
        twice == once,
{
}

/// A configuration that can be worked with is left as it is.
pub proof fn law_normal_configuration_is_kept(stored: UserConfig, config: UserConfig)
    requires
        stored.is_normal(),
        config.normal_form_of(stored),
    ensures
        config == stored,
{
}

/// The configuration that a new user starts with needs no putting in order.
pub proof fn law_default_configuration_is_normal(
    config: UserConfig,
    paths: AppPaths,
    documents: Option<PathBuf>,
    parallelism: Option<usize>,
)
    requires
        config.is_default_for(paths, documents, parallelism),
    ensures
        config.is_normal(),
{
}

/// The configuration to work with, and whether it has to be written first.
pub struct LoadedConfig {
    pub config: UserConfig,
    pub save: bool,
}

/// Lists the directories that have to exist before the configuration is
/// written, in the order in which they are created.
pub fn save_directories(paths: &AppPaths) -> (directories: Vec<PathBuf>)
    ensures
        directories@.take(5) == seq![
            paths.root,
            paths.bin,
            paths.models,
            paths.transcripts,
            paths.logs,
        ],
        if has_parent(path_parts(paths.config)) {
            directories@.len() == 6 && path_parts(directories@[5]) == path_parts(
                paths.config,
            ).drop_last()
        } else {
            directories@.len() == 5
        },
{
    let mut directories = paths.directories();
    match parent(&paths.config) {
        Some(directory) => {
            directories.push(directory);
        },
        None => {},
    }
    assert(directories@.take(5) =~= seq![
        paths.root,
        paths.bin,
        paths.models,
        paths.transcripts,
        paths.logs,
    ]);
    directories
}

/// A format is read from its names alone, whatever their case and the white
/// space around them; anything else names no format.
pub proof fn law_formats_are_read_from_their_names_alone(value: Seq<char>)
    ensures
        ({
            let name = lower_case(trimmed(value));
            &&& format_meant(value) == Some(TranscriptFormat::Md) <==> name == "md"@ || name
                == "markdown"@
            &&& format_meant(value) == Some(TranscriptFormat::Txt) <==> name == "txt"@ || name
                == "text"@
            &&& format_meant(value) == Some(TranscriptFormat::Srt) <==> name == "srt"@
            &&& format_meant(value) == Some(TranscriptFormat::Json) <==> name == "json"@
            &&& format_meant(value) == Some(TranscriptFormat::Jsonl) <==> name == "jsonl"@ || name
                == "ndjson"@
        }),
{
    reveal_strlit("md");
    reveal_strlit("txt");
    reveal_strlit("srt");
    reveal_strlit("json");
    reveal_strlit("jsonl");
    reveal_strlit("markdown");
    reveal_strlit("text");
    reveal_strlit("ndjson");
    assert("txt"@[1] != "srt"@[1]);
    assert("text"@[0] != "json"@[0]);
    let name = lower_case(trimmed(value));
    assert(name == "md"@ ==> name.len() == 2);
    assert(name == "markdown"@ ==> name.len() == 8);
    assert(name == "txt"@ ==> name.len() == 3 && name[1] == 'x');
    assert(name == "text"@ ==> name.len() == 4 && name[0] == 't');
    assert(name == "srt"@ ==> name.len() == 3 && name[1] == 'r');
    assert(name == "json"@ ==> name.len() == 4 && name[0] == 'j');
    assert(name == "jsonl"@ ==> name.len() == 5);
    assert(name == "ndjson"@ ==> name.len() == 6);
}

/// Every format has an extension and a name for display of its own.
pub proof fn law_formats_have_these_names(format: TranscriptFormat)
    ensures
        match format {
            TranscriptFormat::Md => format.extension_text() == "md"@ && format.label_text()
                == "Markdown"@,
            TranscriptFormat::Txt => format.extension_text() == "txt"@ && format.label_text()
                == "Text"@,
            TranscriptFormat::Srt => format.extension_text() == "srt"@ && format.label_text()
                == "SRT"@,
            TranscriptFormat::Json => format.extension_text() == "json"@ && format.label_text()
                == "JSON"@,
            TranscriptFormat::Jsonl => format.extension_text() == "jsonl"@ && format.label_text()
                == "JSONL"@,
        },
{
}

/// By default as many threads are used as the machine runs at once, but not more
/// than eight and at least one; four, where that is not known.
pub proof fn law_default_threads_follow_the_machine(parallelism: usize)
    ensures
        1 <= default_threads(Some(parallelism)) <= 8,
        1 <= parallelism <= 8 ==> default_threads(Some(parallelism)) == parallelism,
        parallelism > 8 ==> default_threads(Some(parallelism)) == 8,
        default_threads(None) == 4,
{
}

/// Putting a configuration in order raises numbers that are too small to the
/// least that works, takes an empty microphone for none, and changes nothing
/// else: every value that can be worked with is kept, however large.
pub proof fn law_only_unusable_values_are_changed(stored: UserConfig, config: UserConfig)
    requires
        config.normal_form_of(stored),
    ensures
        config.model == stored.model,
        config.language == stored.language,
        config.output_dir == stored.output_dir,
        config.output_format == stored.output_format,
        config.start_paused == stored.start_paused,
        config.chunk_seconds >= 2,
        stored.chunk_seconds >= 2 ==> config.chunk_seconds == stored.chunk_seconds,
        stored.chunk_seconds < 2 ==> config.chunk_seconds == 2,
        config.threads >= 1,
        stored.threads >= 1 ==> config.threads == stored.threads,
        stored.threads == 0 ==> config.threads == 1,
        stored.microphone is None ==> config.microphone is None,
        stored.microphone matches Some(name) ==> if name@.len() == 0 {
            config.microphone is None
        } else {
            config.microphone == Some(name)
        },
{
}

/// Every stored configuration has a form that is in order.
pub proof fn law_every_configuration_can_be_put_in_order(stored: UserConfig) -> (config: UserConfig)
    ensures
        config.normal_form_of(stored),
        config.is_normal(),
{
    UserConfig {
        microphone: match stored.microphone {
            Some(name) => if name@.len() == 0 {
                None
            } else {
                Some(name)
            },
            None => None,
        },
        chunk_seconds: if stored.chunk_seconds < 2 {
            2
        } else {
            stored.chunk_seconds
        },
        threads: if stored.threads == 0 {
            1
        } else {
            stored.threads
        },
        ..stored
    }
}

/// A new user starts with the smallest model, Japanese, the default microphone,
/// Markdown, pieces of five seconds and no pause; the transcripts go to a
/// directory in the user's documents, or to the application's where there are
/// no documents.
pub proof fn law_new_users_start_with_these_values(
    config: UserConfig,
    paths: AppPaths,
    documents: Option<PathBuf>,
    parallelism: Option<usize>,
)
    requires
        config.is_default_for(paths, documents, parallelism),
    ensures
        config.model@ == "tiny"@,
        config.language@ == "ja"@,
        config.microphone is None,
        config.output_format == TranscriptFormat::Md,
        config.chunk_seconds == 5,
        !config.start_paused,
        config.threads == default_threads(parallelism),
        documents matches Some(documents) ==> config.output_dir == joined_path(
            documents,
            path_named("whisperCLI"@),
        ),
        documents is None ==> config.output_dir == paths.transcripts,
{
}

} // verus!
