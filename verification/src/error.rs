//! The errors that the library's decisions can end in.

use vstd::prelude::*;

verus! {

/// Why an operation was refused. Variants that carry a `String` carry the
/// text of an underlying error.
#[derive(Debug, Clone, PartialEq, Eq)]
pub enum IconError {
    /// No local data directory is known for this user.
    NoDataDir,
    /// The recursion mode is none of `none`, `depth` and `all`.
    InvalidRecursiveMode,
    /// The root of an easter batch is not a directory.
    EasterRootMissing,
    /// A folder target does not exist as a directory.
    FolderMissing,
    /// A file target does not exist as a file.
    FileMissing,
    /// An extension target does not start with a dot followed by something.
    BadExtension,
    /// The target kind is none of `folder`, `file` and `extension`.
    UnsupportedKind,
    /// The uploaded image data is not valid base64.
    InvalidImageData(String),
    /// The stored PNG icon could not be decoded.
    ImageRead(String),
    /// The ICO file could not be produced.
    IcoWrite(String),
    /// macOS has no global per-extension icons.
    MacExtensionUnsupported,
    /// Windows sets file icons per extension, not per file.
    WindowsFileUnsupported,
    /// Icons cannot be applied on this platform.
    PlatformUnsupported,
    /// No easter batch has the given id.
    EasterBatchMissing,
    /// No home directory is known for this user.
    NoHomeDir,
    /// Start at login is not available on this platform.
    AutostartUnsupported,
    /// An error of the platform, passed on as text.
    Other(String),
}

} // verus!
