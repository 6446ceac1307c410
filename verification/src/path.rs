//! File-system paths, seen as the sequence of their components.
//!
//! `PathBuf` itself is opaque here. What the contracts say of a path they say
//! over its components, which is also what `==` on paths compares, and over
//! the text that it is displayed as.
use std::path::PathBuf;
use vstd::prelude::*;
use vstd::string::*;
use vstd::utf8::*;

verus! {

/// One component of a path, as `std::path::Component` tells them apart.
#[verifier::ext_equal]
pub enum PathPart {
    /// A drive, share or device that the path starts from.
    Prefix(Seq<u8>),
    /// The root directory.
    Root,
    /// The current directory, `.`.
    Current,
    /// The parent directory, `..`.
    Parent,
    /// The name of a file or directory, by its encoded bytes.
    Name(Seq<u8>),
}

/// `std::path::PathBuf`, an owned path.
#[verifier::external_type_specification]
#[verifier::external_body]
pub struct ExPathBuf(std::path::PathBuf);

/// The components that `path` holds, in order, each in the form by which
/// `==` on paths compares it.
pub uninterp spec fn path_parts(path: PathBuf) -> Seq<PathPart>;

/// The text that `path` is displayed as.
pub uninterp spec fn path_display(path: PathBuf) -> Seq<char>;

/// The path that `text` writes.
pub uninterp spec fn path_named(text: Seq<char>) -> PathBuf;

/// The path that comes of joining `path` onto `base`.
pub uninterp spec fn joined_path(base: PathBuf, path: PathBuf) -> PathBuf;

/// `path` with `extension` as the extension of its file name.
pub uninterp spec fn renamed_path(path: PathBuf, extension: Seq<char>) -> PathBuf;

/// What is left of `path` behind the path `base` that it starts with.
pub uninterp spec fn rest_behind(path: PathBuf, base: PathBuf) -> PathBuf;

/// True if every component is the name of a file or directory.
pub open spec fn only_names(parts: Seq<PathPart>) -> bool {
    forall|i: int| 0 <= i < parts.len() ==> #[trigger] parts[i] is Name
}

/// The component that a name stands for.
pub open spec fn name_part(name: Seq<char>) -> PathPart {
    PathPart::Name(encode_utf8(name))
}

/// True if `text` means the same path on every platform: it has neither a
/// backslash nor a colon, and does not start with two slashes.
pub open spec fn portable(text: Seq<char>) -> bool {
    &&& !text.contains('\\')
    &&& !text.contains(':')
    &&& !(text.len() >= 2 && text[0] == '/' && text[1] == '/')
}

/// True if `c` separates directories on some platform.
pub open spec fn is_separator(c: char) -> bool {
    c == '/' || c == '\\'
}

/// True if a path is not written with two separators in front, as a share or a
/// device is.
pub open spec fn ordinary(path: PathBuf) -> bool {
    let text = path_display(path);
    !(text.len() >= 2 && is_separator(text[0]) && is_separator(text[1]))
}

/// True if a path is ordinary and stays so when plain names are joined onto it:
/// it is not a backslash alone, which the next separator would double.
pub open spec fn anchored(path: PathBuf) -> bool {
    ordinary(path) && path_display(path) != seq!['\\']
}

/// True if a path of these components starts with a drive, share or device.
pub open spec fn has_prefix(parts: Seq<PathPart>) -> bool {
    parts.len() > 0 && parts[0] is Prefix
}

/// True if a path of these components starts at the root directory.
pub open spec fn is_rooted(parts: Seq<PathPart>) -> bool {
    parts.len() > 0 && parts[0] is Root
}

/// The components of a path of components `path` that was joined onto one of
/// components `base`. A path with a drive, share or device replaces the other;
/// one with a root replaces all of it but its drive; and one that is relative
/// goes behind it, where a `.` at its start counts for nothing unless there is
/// no directory before it.
pub open spec fn joined_parts(base: Seq<PathPart>, path: Seq<PathPart>) -> Seq<PathPart> {
    if has_prefix(path) {
        path
    } else if is_rooted(path) {
        if has_prefix(base) {
            seq![base[0]] + path
        } else {
            path
        }
    } else if path.len() > 0 && path[0] is Current && base.len() > 0 && !(base.last() is Prefix) {
        base + path.skip(1)
    } else {
        base + path
    }
}

/// True if `name` is a single file or directory name on every platform.
pub open spec fn plain_name(name: Seq<char>) -> bool {
    &&& name.len() > 0
    &&& name != seq!['.']
    &&& name != seq!['.', '.']
    &&& !name.contains('/')
    &&& !name.contains('\\')
    &&& !name.contains(':')
}

/// The component that the text between two slashes stands for; nothing, if it
/// is empty or is a `.` that is not the first thing in the path.
pub open spec fn segment_parts(segment: Seq<char>, first: bool) -> Seq<PathPart> {
    if segment.len() == 0 {
        Seq::empty()
    } else if segment == seq!['.'] {
        if first {
            seq![PathPart::Current]
        } else {
            Seq::empty()
        }
    } else if segment == seq!['.', '.'] {
        seq![PathPart::Parent]
    } else {
        seq![name_part(segment)]
    }
}

/// The components of the text of a relative path whose segments are separated
/// by slashes; `first` if the path starts with this text.
pub open spec fn slash_segments(text: Seq<char>, first: bool) -> Seq<PathPart>
    decreases text.len(),
{
    let slash = text.index_of_first('/');
    match slash {
        Some(at) => {
            if 0 <= at < text.len() {
                segment_parts(text.take(at), first) + slash_segments(text.skip(at + 1), false)
            } else {
                Seq::empty()
            }
        },
        None => segment_parts(text, first),
    }
}

/// The components that a portable text stands for: repeated and trailing
/// slashes count for nothing, and so does a `.` anywhere but at the start.
pub open spec fn slash_parts(text: Seq<char>) -> Seq<PathPart> {
    if text.len() > 0 && text[0] == '/' {
        seq![PathPart::Root] + slash_segments(text.skip(1), false)
    } else {
        slash_segments(text, true)
    }
}

/// True if a path stands in another: it is not empty and ends neither in a
/// root nor in a prefix.
pub open spec fn has_parent(parts: Seq<PathPart>) -> bool {
    parts.len() > 0 && !(parts.last() is Root) && !(parts.last() is Prefix)
}

/// The name that a path ends in, if it ends in one.
pub open spec fn file_name(parts: Seq<PathPart>) -> Option<Seq<u8>> {
    if parts.len() > 0 {
        match parts.last() {
            PathPart::Name(name) => Some(name),
            _ => None,
        }
    } else {
        None
    }
}

/// Where the extension of a file name starts: the last dot, unless there is
/// none or it is the first character.
pub open spec fn extension_dot(name: Seq<u8>) -> Option<int> {
    match name.index_of_last('.' as u8) {
        Some(at) => {
            if at > 0 {
                Some(at)
            } else {
                None
            }
        },
        None => None,
    }
}

/// A file name without its extension.
pub open spec fn file_stem(name: Seq<u8>) -> Seq<u8> {
    match extension_dot(name) {
        Some(at) => name.take(at),
        None => name,
    }
}

/// What follows the dot of a file name's extension.
pub open spec fn file_extension(name: Seq<u8>) -> Option<Seq<u8>> {
    match extension_dot(name) {
        Some(at) => Some(name.skip(at + 1)),
        None => None,
    }
}

/// The extension of the file name that a path ends in, where it is text.
pub open spec fn extension_text(parts: Seq<PathPart>) -> Option<Seq<char>> {
    match file_name(parts) {
        Some(name) => match file_extension(name) {
            Some(bytes) => if valid_utf8(bytes) {
                Some(decode_utf8(bytes))
            } else {
                None
            },
            None => None,
        },
        None => None,
    }
}

/// A file name with the non-empty `extension` in place of its own.
pub open spec fn name_with_extension(name: Seq<u8>, extension: Seq<char>) -> Seq<u8> {
    file_stem(name) + seq!['.' as u8] + encode_utf8(extension)
}

/// The components of a path whose file name has got a new extension; a path
/// that ends in no file name stays as it is.
pub open spec fn parts_with_extension(parts: Seq<PathPart>, extension: Seq<char>) -> Seq<
    PathPart,
> {
    match file_name(parts) {
        Some(name) => parts.drop_last().push(
            PathPart::Name(name_with_extension(name, extension)),
        ),
        None => parts,
    }
}

/// `PathBuf::clone`: the copy is the same path.
pub assume_specification[ <PathBuf as Clone>::clone ](path: &PathBuf) -> (copy: PathBuf)
    ensures
        copy == *path,
;

/// `PathBuf::from`: the path that displays as `text`. The components are
/// stated for the texts that every platform reads alike.
#[verifier::external_body]
pub(crate) fn path_of(text: &str) -> (path: PathBuf)
    ensures
        path == path_named(text@),
        path_display(path) == text@,
        portable(text@) ==> path_parts(path) == slash_parts(text@),
{
    PathBuf::from(text)
}

/// `Path::display`, as a string.
#[verifier::external_body]
pub(crate) fn display(path: &PathBuf) -> (text: String)
    ensures
        text@ == path_display(*path),
{
    path.display().to_string()
}

/// `Path::join`. Onto an ordinary `base` the components are joined as
/// `joined_parts` says, and a relative path is put behind the text of `base`,
/// with no separator between where that is empty or a slash. A path with a
/// prefix is the result itself, and so is one with a root where `base` has no
/// prefix. In all other cases the result has only its name.
#[verifier::external_body]
pub(crate) fn join(base: &PathBuf, path: &PathBuf) -> (whole: PathBuf)
    ensures
        whole == joined_path(*base, *path),
        ordinary(*base) ==> path_parts(whole) == joined_parts(path_parts(*base), path_parts(*path)),
        !has_prefix(path_parts(*path)) && !is_rooted(path_parts(*path)) && ordinary(*base)
            ==> path_display(*base).is_prefix_of(path_display(whole)),
        (path_display(*base) == seq!['/'] || path_display(*base).len() == 0) && only_names(
            path_parts(*path),
        ) ==> path_display(whole) == path_display(*base) + path_display(*path),
        has_prefix(path_parts(*path)) || (is_rooted(path_parts(*path)) && !has_prefix(
            path_parts(*base),
        )) ==> whole == *path,
{
    base.join(path)
}

/// `Path::strip_prefix`: what is left of `path` behind `base`, if the
/// components of `path` start with those of `base`. What is left has only its
/// name: read anew, it need not have the components that it had in `path`.
#[verifier::external_body]
pub(crate) fn strip_prefix(path: &PathBuf, base: &PathBuf) -> (rest: Option<PathBuf>)
    ensures
        rest is Some <==> path_parts(*base).is_prefix_of(path_parts(*path)),
        rest matches Some(rest) ==> rest == rest_behind(*path, *base),
{
    match path.strip_prefix(base) {
        Ok(rest) => Some(rest.to_path_buf()),
        Err(_) => None,
    }
}

/// `Path::extension`: what follows the last dot of the file name, where it is
/// text; nothing, if there is no file name or its only dot is its first
/// character.
#[verifier::external_body]
pub(crate) fn extension(path: &PathBuf) -> (extension: Option<String>)
    ensures
        match extension {
            Some(text) => extension_text(path_parts(*path)) == Some(text@),
            None => extension_text(path_parts(*path)) is None,
        },
{
    path.extension().and_then(|extension| extension.to_str()).map(|text| text.to_string())
}

/// `PathBuf::set_extension`: the extension of the file name is replaced, or
/// added where there is none; a path without a file name stays as it is.
#[verifier::external_body]
pub(crate) fn set_extension(path: &mut PathBuf, extension: &str)
    requires
        extension@.len() > 0,
        !extension@.contains('/'),
        !extension@.contains('\\'),
    ensures
        *final(path) == renamed_path(*old(path), extension@),
        path_parts(*final(path)) == parts_with_extension(path_parts(*old(path)), extension@),
{
    path.set_extension(extension);
}

/// Gives a copy of `path` the extension `extension`.
pub fn with_extension(path: &PathBuf, extension: &str) -> (renamed: PathBuf)
    requires
        extension@.len() > 0,
        !extension@.contains('/'),
        !extension@.contains('\\'),
    ensures
        renamed == renamed_path(*path, extension@),
        path_parts(renamed) == parts_with_extension(path_parts(*path), extension@),
{
    let mut renamed = path.clone();
    set_extension(&mut renamed, extension);
    renamed
}

/// `Path::parent`: the path without its last component; nothing, if the path
/// is empty or ends in a root or a prefix.
#[verifier::external_body]
pub(crate) fn parent(path: &PathBuf) -> (parent: Option<PathBuf>)
    ensures
        parent is Some <==> has_parent(path_parts(*path)),
        parent matches Some(directory) ==> path_parts(directory) == path_parts(*path).drop_last(),
{
    path.parent().map(|directory| directory.to_path_buf())
}

/// Three or more characters without a slash, a backslash or a colon are a plain
/// name.
pub proof fn lemma_is_plain(name: Seq<char>)
    requires
        name.len() > 2,
        forall|i: int|
            0 <= i < name.len() ==> #[trigger] name[i] != '/' && name[i] != '\\' && name[i] != ':',
    ensures
        plain_name(name),
{
}

/// A plain name stands for the one component of that name.
pub proof fn lemma_plain_name_parts(name: Seq<char>)
    requires
        plain_name(name),
    ensures
        portable(name),
        slash_parts(name) == seq![name_part(name)],
{
    assert(name[0] != '/') by {
        assert(name.contains(name[0]));
    }
    name.index_of_first_ensures('/');
}

/// A text that starts with that of an anchored path, and goes on with a plain
/// name where that is empty or a slash, is that of an anchored path.
pub proof fn lemma_stays_anchored(base: Seq<char>, name: Seq<char>, whole: Seq<char>)
    requires
        plain_name(name),
        !(base.len() >= 2 && is_separator(base[0]) && is_separator(base[1])),
        base != seq!['\\'],
        base.is_prefix_of(whole),
        base == seq!['/'] || base.len() == 0 ==> whole == base + name,
    ensures
        !(whole.len() >= 2 && is_separator(whole[0]) && is_separator(whole[1])),
        whole != seq!['\\'],
{
    assert(name.contains(name[0]));
    if name.len() > 1 {
        assert(name.contains(name[1]));
    }
    if base.len() >= 1 {
        assert(whole[0] == base[0]);
        if base.len() >= 2 {
            assert(whole[1] == base[1]);
        } else if base[0] == '/' {
            assert(base =~= seq!['/']);
        } else if base[0] == '\\' {
            assert(base =~= seq!['\\']);
        }
    }
}

/// Joins the file or directory `name` onto `base`.
pub fn join_name(base: &PathBuf, name: &str) -> (whole: PathBuf)
    requires
        plain_name(name@),
    ensures
        whole == joined_path(*base, path_named(name@)),
        ordinary(*base) ==> path_parts(whole) == path_parts(*base).push(name_part(name@)),
        anchored(*base) ==> anchored(whole),
{
    let tail = path_of(name);
    proof {
        lemma_plain_name_parts(name@);
    }
    let whole = join(base, &tail);
    assert(path_parts(tail)[0] is Name);
    assert(path_parts(*base) + seq![name_part(name@)] =~= path_parts(*base).push(
        name_part(name@),
    ));
    proof {
        if anchored(*base) {
            lemma_stays_anchored(path_display(*base), name@, path_display(whole));
        }
    }
    whole
}

} // verus!
