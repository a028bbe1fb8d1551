//! The ways in which a file can fail to load.

use vstd::prelude::*;

verus! {

/// Why a file could not be loaded.
#[derive(Debug)]
pub enum FileError {
    /// The path leaves its root, or names a virtual entity that does not exist.
    AccessDenied,
    /// The path names a directory.
    IsDirectory,
    /// Reading the file at `path` failed for the reason in `cause`.
    ReadError { path: String, cause: String },
    /// Text was asked of bytes that are not valid UTF-8.
    InvalidUtf8,
    /// The package could not be made available; the resolver's own message.
    PackageResolutionError(String),
}

/// A `FileError` with its strings as sequences of characters.
pub enum FileErrorView {
    AccessDenied,
    IsDirectory,
    ReadError { path: Seq<char>, cause: Seq<char> },
    InvalidUtf8,
    PackageResolutionError(Seq<char>),
}

impl View for FileError {
    type V = FileErrorView;

    open spec fn view(&self) -> FileErrorView {
        match self {
            FileError::AccessDenied => FileErrorView::AccessDenied,
            FileError::IsDirectory => FileErrorView::IsDirectory,
            FileError::ReadError { path, cause } => FileErrorView::ReadError {
                path: path@,
                cause: cause@,
            },
            FileError::InvalidUtf8 => FileErrorView::InvalidUtf8,
            FileError::PackageResolutionError(message) => FileErrorView::PackageResolutionError(
                message@,
            ),
        }
    }
}

impl Clone for FileError {
    fn clone(&self) -> (r: FileError)
        ensures
            r@ == self@,
    {
        match self {
            FileError::AccessDenied => FileError::AccessDenied,
            FileError::IsDirectory => FileError::IsDirectory,
            FileError::ReadError { path, cause } => FileError::ReadError {
                path: path.clone(),
                cause: cause.clone(),
            },
            FileError::InvalidUtf8 => FileError::InvalidUtf8,
            FileError::PackageResolutionError(message) => FileError::PackageResolutionError(
                message.clone(),
            ),
        }
    }
}

impl PartialEq for FileError {
    fn eq(&self, other: &FileError) -> (r: bool) {
        match (self, other) {
            (FileError::AccessDenied, FileError::AccessDenied) => true,
            (FileError::IsDirectory, FileError::IsDirectory) => true,
            (
                FileError::ReadError { path, cause },
                FileError::ReadError { path: other_path, cause: other_cause },
            ) => *path == *other_path && *cause == *other_cause,
            (FileError::InvalidUtf8, FileError::InvalidUtf8) => true,
            (
                FileError::PackageResolutionError(message),
                FileError::PackageResolutionError(other_message),
            ) => *message == *other_message,
            _ => false,
        }
    }
}

impl vstd::std_specs::cmp::PartialEqSpecImpl for FileError {
    open spec fn obeys_eq_spec() -> bool {
        true
    }

    open spec fn eq_spec(&self, other: &FileError) -> bool {
        self@ == other@
    }
}

impl Eq for FileError {

}

} // verus!
