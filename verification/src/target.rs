//! Target kinds, platforms, the check of a target before it is changed, and
//! the depth limit of a recursive application.

use vstd::prelude::*;
use crate::error::IconError;
use crate::text::str_eq;

verus! {

/// The operating system the application runs on.
#[derive(Debug, Clone, Copy, PartialEq, Eq, Structural)]
pub enum Platform {
    MacOs,
    Windows,
    Other,
}

impl Platform {
    /// The name the user interface knows the platform by.
    pub fn name(&self) -> (s: &'static str)
        ensures
            s@ == platform_name(*self),
    {
        match self {
            Platform::MacOs => "macos",
            Platform::Windows => "windows",
            Platform::Other => "other",
        }
    }
}

/// The name of each platform.
pub open spec fn platform_name(p: Platform) -> Seq<char> {
    match p {
        Platform::MacOs => "macos"@,
        Platform::Windows => "windows"@,
        Platform::Other => "other"@,
    }
}

/// The kind of a single directory target.
pub open spec fn folder_kind() -> Seq<char> {
    "folder"@
}

/// The kind of a single file target.
pub open spec fn file_kind() -> Seq<char> {
    "file"@
}

/// The kind of a file-extension target.
pub open spec fn extension_kind() -> Seq<char> {
    "extension"@
}

/// Whether a text names an extension: a dot followed by at least one more
/// character.
pub open spec fn is_extension_text(t: Seq<char>) -> bool {
    t.len() >= 2 && t[0] == '.'
}

/// An extension is a dot followed by at least one character, of any length:
/// every such text passes the check of an extension target, whatever is on
/// disk, and every other text is refused as a bad extension.
pub proof fn lemma_extension_texts_any_length(t: Seq<char>, is_dir: bool, is_file: bool)
    ensures
        is_extension_text(t) <==> (t.len() >= 2 && t[0] == '.'),
        t.len() >= 2 && t[0] == '.' ==> target_check(t, "extension"@, is_dir, is_file) == Ok::<(), IconError>(()),
        !(t.len() >= 2 && t[0] == '.') ==> target_check(t, "extension"@, is_dir, is_file) == Err::<(), IconError>(
            IconError::BadExtension,
        ),
{
    reveal_strlit("extension");
    reveal_strlit("folder");
    reveal_strlit("file");
    assert("extension"@.len() != "folder"@.len());
    assert("extension"@.len() != "file"@.len());
}

/// The outcome of checking a target of a kind, given whether the target
/// exists as a directory and as a file.
pub open spec fn target_check(target: Seq<char>, kind: Seq<char>, is_dir: bool, is_file: bool) -> Result<(), IconError> {
    if kind == folder_kind() {
        if is_dir { Ok(()) } else { Err(IconError::FolderMissing) }
    } else if kind == file_kind() {
        if is_file { Ok(()) } else { Err(IconError::FileMissing) }
    } else if kind == extension_kind() {
        if is_extension_text(target) { Ok(()) } else { Err(IconError::BadExtension) }
    } else {
        Err(IconError::UnsupportedKind)
    }
}

/// Checks a target before its icon is changed or restored: a folder must
/// exist as a directory, a file as a file, and an extension must be a dot
/// followed by something. `is_dir` and `is_file` say what the target path is
/// on disk.
pub fn validate_target(target: &str, kind: &str, is_dir: bool, is_file: bool) -> (r: Result<(), IconError>)
    ensures
        r == target_check(target@, kind@, is_dir, is_file),
{
    if str_eq(kind, "folder") {
        if is_dir { Ok(()) } else { Err(IconError::FolderMissing) }
    } else if str_eq(kind, "file") {
        if is_file { Ok(()) } else { Err(IconError::FileMissing) }
    } else if str_eq(kind, "extension") {
        if is_extension(target) { Ok(()) } else { Err(IconError::BadExtension) }
    } else {
        Err(IconError::UnsupportedKind)
    }
}

/// Whether a target of `kind` is applied to the directories under it
/// (a folder) rather than to itself alone.
pub fn walks_directories(kind: &str) -> (b: bool)
    ensures
        b == (kind@ == folder_kind()),
{
    str_eq(kind, "folder")
}

/// Whether the text is a dot followed by at least one character.
pub fn is_extension(t: &str) -> (r: bool)
    ensures
        r == is_extension_text(t@),
{
    let n = t.unicode_len();
    n >= 2 && t.get_char(0) == '.'
}

/// The depth limit of each recursion mode: `none` stays at the target,
/// `depth` goes down the given number of levels (one when none is given),
/// held between one and ten, and `all` has no limit.
pub open spec fn limit_for(mode: Seq<char>, max_depth: Option<usize>) -> Result<usize, IconError> {
    if mode == "none"@ {
        Ok(0)
    } else if mode == "depth"@ {
        let d: usize = match max_depth { Some(d) => d, None => 1 };
        Ok(if d < 1 { 1 } else if d > 10 { 10 } else { d })
    } else if mode == "all"@ {
        Ok(usize::MAX)
    } else {
        Err(IconError::InvalidRecursiveMode)
    }
}

/// The depth limit of a recursion mode, or the error for an unknown mode.
pub fn recursion_limit(mode: &str, max_depth: Option<usize>) -> (r: Result<usize, IconError>)
    ensures
        r == limit_for(mode@, max_depth),
{
    if str_eq(mode, "none") {
        Ok(0)
    } else if str_eq(mode, "depth") {
        let d: usize = match max_depth { Some(d) => d, None => 1 };
        Ok(if d < 1 { 1 } else if d > 10 { 10 } else { d })
    } else if str_eq(mode, "all") {
        Ok(usize::MAX)
    } else {
        Err(IconError::InvalidRecursiveMode)
    }
}

} // verus!
