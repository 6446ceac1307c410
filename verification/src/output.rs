//! Where a transcript is written, and in which format.
use crate::path::{
    extension, extension_dot, extension_text, file_name, file_stem, has_prefix, is_rooted, join,
    joined_parts, joined_path, name_with_extension, ordinary, parts_with_extension, path_display,
    path_named, path_of, path_parts, portable, renamed_path, slash_parts, with_extension, PathPart,
};
use crate::settings::{format_meant, TranscriptFormat, UserConfig};
use crate::text::{lower_case, trimmed};
use std::path::PathBuf;
use vstd::prelude::*;
use vstd::string::*;
use vstd::utf8::*;

verus! {

/// The extension that a path has been given, if it has one with something
/// behind its dot.
pub open spec fn explicit_extension(parts: Seq<PathPart>) -> Option<Seq<char>> {
    match extension_text(parts) {
        Some(extension) => if extension.len() > 0 {
            Some(extension)
        } else {
            None
        },
        None => None,
    }
}

/// The format of a transcript that the user has named by a path of components
/// `typed`: the one that was asked for, else the one that the extension of the
/// path names, else the configured one.
pub open spec fn chosen_format(
    configured: TranscriptFormat,
    requested: Option<TranscriptFormat>,
    typed: Seq<PathPart>,
) -> TranscriptFormat {
    match requested {
        Some(format) => format,
        None => match explicit_extension(typed) {
            Some(extension) => match format_meant(extension) {
                Some(format) => format,
                None => configured,
            },
            None => configured,
        },
    }
}

/// The components of the path with its final extension: the one that it has
/// been given, unless a format was asked for; else that of the format.
pub open spec fn named_parts(
    configured: TranscriptFormat,
    requested: Option<TranscriptFormat>,
    typed: Seq<PathPart>,
) -> Seq<PathPart> {
    match requested {
        Some(format) => parts_with_extension(typed, format.extension_text()),
        None => if explicit_extension(typed) is Some {
            typed
        } else {
            parts_with_extension(typed, configured.extension_text())
        },
    }
}

/// The path with its final extension.
pub open spec fn named_path(
    configured: TranscriptFormat,
    requested: Option<TranscriptFormat>,
    typed: PathBuf,
) -> PathBuf {
    match requested {
        Some(format) => renamed_path(typed, format.extension_text()),
        None => if explicit_extension(path_parts(typed)) is Some {
            typed
        } else {
            renamed_path(typed, configured.extension_text())
        },
    }
}

/// The name that a transcript goes by: the one that was given, or `meeting`.
pub open spec fn output_name(out_override: Option<String>) -> Seq<char> {
    match out_override {
        Some(name) => name@,
        None => "meeting"@,
    }
}

/// Where a transcript is written, and how.
#[derive(Debug)]
pub struct Output {
    pub format: TranscriptFormat,
    pub path: PathBuf,
}

/// The output for a transcript of this name: it goes by the path that the name
/// writes, with its final extension, joined onto the configured directory. An
/// absolute path stays as it is when it is joined.
pub open spec fn output_for(
    config: UserConfig,
    requested: Option<TranscriptFormat>,
    name: Seq<char>,
) -> Output {
    Output {
        format: chosen_format(config.output_format, requested, path_parts(path_named(name))),
        path: joined_path(
            config.output_dir,
            named_path(config.output_format, requested, path_named(name)),
        ),
    }
}

/// What is known of the output for a transcript of this name: a relative path
/// stands in the configured directory; one that starts with a drive, share or
/// device stays as it is, and so does one with a root where the directory has
/// none of these.
pub open spec fn is_placed(
    output: Output,
    config: UserConfig,
    requested: Option<TranscriptFormat>,
    name: Seq<char>,
) -> bool {
    let typed = path_parts(path_named(name));
    let named = named_path(config.output_format, requested, path_named(name));
    let parts = named_parts(config.output_format, requested, typed);
    &&& path_display(path_named(name)) == name
    &&& portable(name) ==> typed == slash_parts(name)
    &&& path_parts(named) == parts
    &&& ordinary(config.output_dir) ==> path_parts(output.path) == joined_parts(
        path_parts(config.output_dir),
        parts,
    )
    &&& has_prefix(parts) || (is_rooted(parts) && !has_prefix(path_parts(config.output_dir)))
        ==> output.path == named
}

fn has_explicit_extension(typed: &PathBuf) -> (answer: bool)
    ensures
        answer == (explicit_extension(path_parts(*typed)) is Some),
{
    match extension(typed) {
        Some(extension) => !extension.as_str().is_empty(),
        None => false,
    }
}

/// Gives `typed` its final extension.
pub fn name_output(
    configured: TranscriptFormat,
    requested: Option<TranscriptFormat>,
    typed: &PathBuf,
) -> (named: PathBuf)
    ensures
        named == named_path(configured, requested, *typed),
        path_parts(named) == named_parts(configured, requested, path_parts(*typed)),
{
    match requested {
        Some(format) => {
            proof {
                lemma_extensions_are_plain(format);
            }
            with_extension(typed, format.extension())
        },
        None => if has_explicit_extension(typed) {
            typed.clone()
        } else {
            proof {
                lemma_extensions_are_plain(configured);
            }
            with_extension(typed, configured.extension())
        },
    }
}

/// Chooses the format of a transcript that goes by `typed`.
pub fn session_format(
    configured: TranscriptFormat,
    requested: Option<TranscriptFormat>,
    typed: &PathBuf,
) -> (format: TranscriptFormat)
    ensures
        format == chosen_format(configured, requested, path_parts(*typed)),
{
    proof {
        lemma_no_format_is_nameless();
    }
    match requested {
        Some(format) => format,
        None => match TranscriptFormat::from_path_extension(typed) {
            Some(format) => format,
            None => configured,
        },
    }
}

/// Decides where the transcript is written: under the name that was given or
/// `meeting`, in the configured directory unless the name is an absolute path.
/// An extension that was given is kept, and names the format where it can,
/// unless another format was asked for.
pub fn resolve_output_path(
    config: &UserConfig,
    requested: Option<TranscriptFormat>,
    out_override: Option<String>,
) -> (output: Output)
    ensures
        output == output_for(*config, requested, output_name(out_override)),
        is_placed(output, *config, requested, output_name(out_override)),
{
    let name = match out_override {
        Some(name) => name,
        None => String::from_str("meeting"),
    };
    let typed = path_of(name.as_str());
    let format = session_format(config.output_format, requested, &typed);
    let named = name_output(config.output_format, requested, &typed);
    Output { format, path: join(&config.output_dir, &named) }
}

proof fn lemma_extensions_are_plain(format: TranscriptFormat)
    ensures
        format.extension_text().len() > 0,
        !format.extension_text().contains('/'),
        !format.extension_text().contains('\\'),
        !format.extension_text().contains('.'),
        is_ascii_chars(format.extension_text()),
{
    reveal_strlit("md");
    reveal_strlit("txt");
    reveal_strlit("srt");
    reveal_strlit("json");
    reveal_strlit("jsonl");
}

proof fn lemma_no_format_is_nameless()
    ensures
        format_meant(Seq::empty()) is None,
{
    reveal_strlit("md");
    reveal_strlit("markdown");
    reveal_strlit("txt");
    reveal_strlit("text");
    reveal_strlit("srt");
    reveal_strlit("json");
    reveal_strlit("jsonl");
    reveal_strlit("ndjson");
    let nothing = Seq::<char>::empty();
    assert(trimmed(nothing) == nothing);
    assert(lower_case(nothing).len() == 0);
}

/// An extension that was given is kept unless a format is asked for, and if it
/// is a format's own, the transcript is written in that format.
pub proof fn law_explicit_extension_is_kept(
    configured: TranscriptFormat,
    format: TranscriptFormat,
    typed: Seq<PathPart>,
)
    requires
        explicit_extension(typed) is Some,
    ensures
        named_parts(configured, None, typed) == typed,
        explicit_extension(typed) == Some(format.extension_text()) ==> chosen_format(
            configured,
            None,
            typed,
        ) == format,
{
    crate::settings::law_names_of_a_format_are_read(format);
}

/// A format that is asked for is the one that is written, whatever extension
/// was given, and the file gets the extension of that format.
pub proof fn law_requested_format_is_written(
    configured: TranscriptFormat,
    format: TranscriptFormat,
    typed: Seq<PathPart>,
)
    requires
        file_name(typed) matches Some(name) && name.len() > 0,
    ensures
        chosen_format(configured, Some(format), typed) == format,
        explicit_extension(named_parts(configured, Some(format), typed)) == Some(
            format.extension_text(),
        ),
{
    lemma_new_extension_is_read(typed, format);
}

/// Where no format is asked for and no extension is given, the file is written
/// in the configured format and gets its extension.
pub proof fn law_configured_format_is_the_default(
    configured: TranscriptFormat,
    typed: Seq<PathPart>,
)
    requires
        file_name(typed) matches Some(name) && name.len() > 0,
        explicit_extension(typed) is None,
    ensures
        chosen_format(configured, None, typed) == configured,
        explicit_extension(named_parts(configured, None, typed)) == Some(
            configured.extension_text(),
        ),
{
    lemma_new_extension_is_read(typed, configured);
}

proof fn lemma_new_extension_is_read(typed: Seq<PathPart>, format: TranscriptFormat)
    requires
        file_name(typed) matches Some(name) && name.len() > 0,
    ensures
        explicit_extension(parts_with_extension(typed, format.extension_text())) == Some(
            format.extension_text(),
        ),
{
    let name = file_name(typed)->0;
    let extension = format.extension_text();
    let bytes = encode_utf8(extension);
    let stem = file_stem(name);
    let renamed = name_with_extension(name, extension);
    lemma_extensions_are_plain(format);
    is_ascii_chars_encode_utf8(extension);
    name.index_of_last_ensures('.' as u8);
    assert(stem.len() > 0);
    assert forall|i: int| stem.len() < i < renamed.len() implies renamed[i] != '.' as u8 by {
        assert(renamed[i] == bytes[i - stem.len() - 1]);
        assert(extension.contains(extension[i - stem.len() - 1]));
    }
    assert(renamed[stem.len() as int] == '.' as u8);
    assert(renamed.contains('.' as u8));
    renamed.index_of_last_ensures('.' as u8);
    assert(extension_dot(renamed) == Some(stem.len() as int));
    assert(renamed.skip(stem.len() as int + 1) =~= bytes);
    encode_utf8_valid_utf8(extension);
    encode_utf8_decode_utf8(extension);
    assert(file_name(parts_with_extension(typed, extension)) == Some(renamed));
}

/// Where no format is asked for, an extension that names a format decides, and
/// one that names none leaves the format as it is configured, as does a name
/// without an extension; where a format is asked for, that one is taken.
pub proof fn law_format_is_asked_for_named_or_configured(
    configured: TranscriptFormat,
    requested: TranscriptFormat,
    typed: Seq<PathPart>,
)
    ensures
        chosen_format(configured, Some(requested), typed) == requested,
        extension_text(typed) is None ==> chosen_format(configured, None, typed) == configured,
        extension_text(typed) matches Some(extension) ==> {
            &&& format_meant(extension) is None ==> chosen_format(configured, None, typed)
                == configured
            &&& format_meant(extension) matches Some(named) ==> chosen_format(
                configured,
                None,
                typed,
            ) == named
        },
{
    lemma_no_format_is_nameless();
    if let Some(given) = extension_text(typed) {
        if given.len() == 0 {
            assert(given =~= Seq::empty());
        }
    }
}

/// A transcript is written to the path that its name writes, joined onto the
/// configured directory. The path keeps an extension that was given; it gets the
/// extension of the configured format where it has none, and that of the format
/// that is asked for in any case.
pub proof fn law_transcripts_go_where_their_name_says(
    config: UserConfig,
    requested: TranscriptFormat,
    name: Seq<char>,
)
    ensures
        output_for(config, Some(requested), name).path == joined_path(
            config.output_dir,
            renamed_path(path_named(name), requested.extension_text()),
        ),
        extension_text(path_parts(path_named(name))) matches Some(extension) && extension.len() > 0
            ==> output_for(config, None, name).path == joined_path(
            config.output_dir,
            path_named(name),
        ),
        !(extension_text(path_parts(path_named(name))) matches Some(extension) && extension.len()
            > 0) ==> output_for(config, None, name).path == joined_path(
            config.output_dir,
            renamed_path(path_named(name), config.output_format.extension_text()),
        ),
        output_for(config, Some(requested), name).format == requested,
        output_for(config, None, name).format == chosen_format(
            config.output_format,
            None,
            path_parts(path_named(name)),
        ),
{
}

/// A transcript goes by the name that was given, and by `meeting` only where
/// none was.
pub proof fn law_transcripts_go_by_the_given_name(name: String)
    ensures
        output_name(Some(name)) == name@,
        output_name(None) == "meeting"@,
{
}

/// The components of the path change in the extension of the last one at most.
pub proof fn law_only_the_extension_is_changed(
    configured: TranscriptFormat,
    requested: Option<TranscriptFormat>,
    typed: Seq<PathPart>,
)
    ensures
        named_parts(configured, requested, typed).len() == typed.len(),
        typed.len() > 0 ==> named_parts(configured, requested, typed).drop_last()
            == typed.drop_last(),
        file_name(typed) is None ==> named_parts(configured, requested, typed) == typed,
        file_name(typed) matches Some(name) ==> (file_name(
            named_parts(configured, requested, typed),
        ) matches Some(renamed) && file_stem(name).is_prefix_of(renamed)),
{
    if typed.len() > 0 {
        assert(named_parts(configured, requested, typed).drop_last() =~= typed.drop_last());
    }
    if let Some(name) = file_name(typed) {
        name.index_of_last_ensures('.' as u8);
    }
}

} // verus!
