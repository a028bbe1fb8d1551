//! A cache entry: the outcome of loading one file, fetched at most once.

use std::borrow::Cow;
use vstd::pervasive::unreached;
use vstd::prelude::*;
use vstd::utf8::*;
use crate::data::{Content, FileData};
use crate::error::{FileError, FileErrorView};
use crate::resolve::FileLoc;

verus! {

/// Why a file on disk could not be read.
#[derive(Debug, Clone, PartialEq, Eq, Hash)]
pub enum ReadFailure {
    /// The path names a directory.
    IsDirectory,
    /// Any other failure, with its cause in words.
    Other(String),
}

/// What a read from disk gave, as plain sequences.
pub open spec fn read_view(read: Result<Vec<u8>, ReadFailure>) -> Result<
    Seq<u8>,
    Option<Seq<char>>,
> {
    match read {
        Ok(bytes) => Ok(bytes@),
        Err(ReadFailure::IsDirectory) => Err(None),
        Err(ReadFailure::Other(cause)) => Err(Some(cause@)),
    }
}

/// What an entity lookup gave, as a plain sequence.
pub open spec fn lookup_view(found: Option<Vec<u8>>) -> Option<Seq<u8>> {
    match found {
        Some(bytes) => Some(bytes@),
        None => None,
    }
}

/// What a load gives, as plain values: content, or the reason there is none.
pub type Outcome = Result<Content, FileErrorView>;

/// The outcome of a load, as plain values.
pub open spec fn outcome_view(outcome: Result<FileData, FileError>) -> Outcome {
    match outcome {
        Ok(data) => Ok(data@),
        Err(error) => Err(error@),
    }
}

/// What is memoized for a file on disk, given what reading it gave: its
/// content, `IsDirectory` for a directory, `ReadError` for any other failure.
pub open spec fn disk_outcome(
    path: Seq<char>,
    read: Result<Seq<u8>, Option<Seq<char>>>,
) -> Outcome {
    match read {
        Ok(bytes) => Ok(Content::of_bytes(bytes)),
        Err(None) => Err(FileErrorView::IsDirectory),
        Err(Some(cause)) => Err(FileErrorView::ReadError { path, cause }),
    }
}

/// What is memoized for a virtual file, given what looking its entity up
/// gave: its content, or `AccessDenied` where there is no such entity.
pub open spec fn virtual_outcome(found: Option<Seq<u8>>) -> Outcome {
    match found {
        Some(bytes) => Ok(Content::of_bytes(bytes)),
        None => Err(FileErrorView::AccessDenied),
    }
}

/// Turns what a read of the file at `path` gave into what is memoized.
pub fn read_outcome(path: &str, read: Result<Vec<u8>, ReadFailure>) -> (r: Result<
    FileData,
    FileError,
>)
    ensures
        outcome_view(r) == disk_outcome(path@, read_view(read)),
{
    match read {
        Ok(bytes) => Ok(FileData::new(Cow::Owned(bytes))),
        Err(ReadFailure::IsDirectory) => Err(FileError::IsDirectory),
        Err(ReadFailure::Other(cause)) => Err(
            FileError::ReadError { path: path.to_owned(), cause },
        ),
    }
}

/// Turns what the lookup of an entity gave into what is memoized.
pub fn lookup_outcome(found: Option<Vec<u8>>) -> (r: Result<FileData, FileError>)
    ensures
        outcome_view(r) == virtual_outcome(lookup_view(found)),
{
    match found {
        Some(bytes) => Ok(FileData::new(Cow::Owned(bytes))),
        None => Err(FileError::AccessDenied),
    }
}

/// What a memoized outcome is to one who asks for text: the text of content
/// that is valid UTF-8, `InvalidUtf8` for any other content, and the
/// memoized error.
pub open spec fn text_outcome(outcome: Outcome) -> Result<
    Seq<u8>,
    FileErrorView,
> {
    match outcome {
        Ok(content) => if valid_utf8(content.bytes) {
            Ok(content.bytes)
        } else {
            Err(FileErrorView::InvalidUtf8)
        },
        Err(error) => Err(error),
    }
}

/// What a memoized outcome is to one who asks for bytes: the bytes of any
/// content, and the memoized error.
pub open spec fn byte_outcome(outcome: Outcome) -> Result<
    Seq<u8>,
    FileErrorView,
> {
    match outcome {
        Ok(content) => Ok(content.bytes),
        Err(error) => Err(error),
    }
}

/// The text of a memoized outcome.
pub fn text_view<'a>(outcome: &'a Result<FileData, FileError>) -> (r: Result<&'a str, FileError>)
    ensures
        match text_outcome(outcome_view(*outcome)) {
            Ok(bytes) => r matches Ok(text) && encode_utf8(text@) == bytes,
            Err(error) => r matches Err(e) && e@ == error,
        },
{
    match outcome {
        Ok(data) => match data.to_str() {
            Ok(text) => Ok(text),
            Err(_) => Err(FileError::InvalidUtf8),
        },
        Err(error) => Err(error.clone()),
    }
}

/// The bytes of a memoized outcome.
pub fn byte_view<'a>(outcome: &'a Result<FileData, FileError>) -> (r: Result<&'a [u8], FileError>)
    ensures
        match byte_outcome(outcome_view(*outcome)) {
            Ok(bytes) => r matches Ok(view) && view@ == bytes,
            Err(error) => r matches Err(e) && e@ == error,
        },
{
    match outcome {
        Ok(data) => Ok(data.as_binary()),
        Err(error) => Err(error.clone()),
    }
}

/// A directory is never taken for any other failure to read.
pub proof fn lemma_directory_is_distinct(path: Seq<char>, cause: Seq<char>)
    ensures
        disk_outcome(path, Err(None)) == Err::<Content, FileErrorView>(FileErrorView::IsDirectory),
        disk_outcome(path, Err(Some(cause))) != disk_outcome(path, Err(None)),
{
}

/// A file's memoized outcome, with a mark for whether this pass asked for it.
#[derive(Debug)]
pub struct FileEntry {
    accessed: bool,
    result: Option<Result<FileData, FileError>>,
}

/// A `FileEntry` as plain values.
pub struct FileEntryView {
    /// The entry was asked for since the last reset.
    pub accessed: bool,
    /// The memoized outcome, once there is one.
    pub outcome: Option<Outcome>,
}

impl View for FileEntry {
    type V = FileEntryView;

    closed spec fn view(&self) -> FileEntryView {
        FileEntryView {
            accessed: self.accessed,
            outcome: match self.result {
                Some(outcome) => Some(outcome_view(outcome)),
                None => None,
            },
        }
    }
}

impl FileEntry {
    /// An entry that already holds `outcome` and was not asked for yet.
    pub fn with_outcome(outcome: Result<FileData, FileError>) -> (r: FileEntry)
        ensures
            r@ == (FileEntryView { accessed: false, outcome: Some(outcome_view(outcome)) }),
    {
        FileEntry { accessed: false, result: Some(outcome) }
    }

    /// Whether the entry was asked for since the last reset.
    pub fn accessed(&self) -> (r: bool)
        ensures
            r == self@.accessed,
    {
        self.accessed
    }

    /// The memoized outcome, if there is one. Marks nothing.
    pub fn result(&self) -> (r: Option<&Result<FileData, FileError>>)
        ensures
            r is Some <==> self@.outcome is Some,
            r matches Some(outcome) ==> self@.outcome == Some(outcome_view(*outcome)),
    {
        self.result.as_ref()
    }

    /// Marks the entry as asked for and returns its outcome, if it has one.
    pub fn access(&mut self) -> (r: Option<&mut Result<FileData, FileError>>)
        ensures
            r is Some <==> old(self)@.outcome is Some,
            r matches Some(outcome) ==> old(self)@.outcome == Some(outcome_view(*outcome))
                && final(self)@ == (FileEntryView {
                accessed: true,
                outcome: Some(outcome_view(*final(outcome))),
            }),
            r is None ==> final(self)@ == (FileEntryView { accessed: true, outcome: None }),
    {
        self.accessed = true;
        self.result.as_mut()
    }

    /// Marks the entry as asked for and returns its outcome. Only an entry
    /// without an outcome fetches one: from `read` for a file on disk, from
    /// `entity_lookup` for a virtual one.
    pub fn get_or_init<R, L>(
        &mut self,
        loc: FileLoc<'_>,
        read: R,
        entity_lookup: L,
    ) -> (r: &mut Result<FileData, FileError>) where
        R: FnOnce(&str) -> Result<Vec<u8>, ReadFailure>,
        L: FnOnce(u64) -> Option<Vec<u8>>,

        requires
            old(self)@.outcome is None ==> match loc {
                FileLoc::Disk(path) => call_requires(read, (path,)),
                FileLoc::Entity(handle) => call_requires(entity_lookup, (handle,)),
            },
        ensures
            old(self)@.outcome matches Some(outcome) ==> outcome_view(*r) == outcome,
            old(self)@.outcome is None ==> match loc {
                FileLoc::Disk(path) => exists|got: Result<Vec<u8>, ReadFailure>|
                    call_ensures(read, (path,), got) && outcome_view(*r) == disk_outcome(
                        path@,
                        read_view(got),
                    ),
                FileLoc::Entity(handle) => exists|got: Option<Vec<u8>>|
                    call_ensures(entity_lookup, (handle,), got) && outcome_view(*r)
                        == virtual_outcome(lookup_view(got)),
            },
            final(self)@ == (FileEntryView {
                accessed: true,
                outcome: Some(outcome_view(*final(r))),
            }),
    {
        self.accessed = true;
        if self.result.is_none() {
            let outcome = match loc {
                FileLoc::Disk(path) => {
                    let got = read(path);
                    read_outcome(path, got)
                },
                FileLoc::Entity(handle) => {
                    let got = entity_lookup(handle);
                    lookup_outcome(got)
                },
            };
            self.result = Some(outcome);
        }
        match &mut self.result {
            Some(outcome) => outcome,
            None => unreached(),
        }
    }

    /// Forgets that the entry was asked for; its outcome stays.
    pub fn reset(&mut self)
        ensures
            final(self)@ == (FileEntryView { accessed: false, outcome: old(self)@.outcome }),
    {
        self.accessed = false;
    }
}

impl Default for FileEntry {
    /// An entry without an outcome.
    fn default() -> (r: FileEntry)
        ensures
            r@ == (FileEntryView { accessed: false, outcome: None }),
    {
        FileEntry { accessed: false, result: None }
    }
}

} // verus!
