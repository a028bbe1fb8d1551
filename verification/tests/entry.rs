use std::borrow::Cow;
use std::cell::Cell;

use elysium::data::FileData;
use elysium::entry::{
    byte_view, lookup_outcome, read_outcome, text_view, FileEntry, ReadFailure,
};
use elysium::error::FileError;
use elysium::resolve::FileLoc;

fn no_read(_: &str) -> Result<Vec<u8>, ReadFailure> {
    panic!("the disk was read")
}

fn no_lookup(_: u64) -> Option<Vec<u8>> {
    panic!("an entity was looked up")
}

#[test]
fn read_bytes_become_content() {
    assert_eq!(
        read_outcome("/p/a.typ", Ok(b"= Title".to_vec())),
        Ok(FileData::Text(Cow::Borrowed("= Title")))
    );
    assert!(matches!(read_outcome("/p/a.png", Ok(vec![0x89, 0x50])), Ok(FileData::Binary(_))));
}

#[test]
fn directory_is_told_apart_from_other_failures() {
    let directory = read_outcome("/p/dir", Err(ReadFailure::IsDirectory));
    let other = read_outcome("/p/dir", Err(ReadFailure::Other(String::from("permission denied"))));
    assert_eq!(directory, Err(FileError::IsDirectory));
    assert_eq!(
        other,
        Err(FileError::ReadError {
            path: String::from("/p/dir"),
            cause: String::from("permission denied"),
        })
    );
    assert_ne!(directory, other);
}

#[test]
fn missing_entity_is_denied() {
    assert_eq!(lookup_outcome(None), Err(FileError::AccessDenied));
    assert_eq!(lookup_outcome(Some(b"x".to_vec())), Ok(FileData::Text(Cow::Borrowed("x"))));
}

#[test]
fn fresh_entry_holds_nothing() {
    let entry = FileEntry::default();
    assert!(!entry.accessed());
    assert!(entry.result().is_none());
}

#[test]
fn entry_reads_the_disk_once() {
    let reads = Cell::new(0);
    let mut entry = FileEntry::default();
    let first = entry
        .get_or_init(
            FileLoc::Disk("/p/a.typ"),
            |path| {
                assert_eq!(path, "/p/a.typ");
                reads.set(reads.get() + 1);
                Ok(b"content".to_vec())
            },
            no_lookup,
        )
        .clone();
    assert!(entry.accessed());
    let second = entry.get_or_init(FileLoc::Disk("/p/a.typ"), no_read, no_lookup).clone();
    assert_eq!(first, Ok(FileData::Text(Cow::Borrowed("content"))));
    assert_eq!(second, first);
    assert_eq!(reads.get(), 1);
}

#[test]
fn entry_looks_the_entity_up_once() {
    let lookups = Cell::new(0);
    let mut entry = FileEntry::default();
    let first = entry
        .get_or_init(FileLoc::Entity(5), no_read, |handle| {
            assert_eq!(handle, 5);
            lookups.set(lookups.get() + 1);
            Some(vec![0xff])
        })
        .clone();
    let second = entry.get_or_init(FileLoc::Entity(5), no_read, no_lookup).clone();
    assert!(matches!(first, Ok(FileData::Binary(_))));
    assert_eq!(second, first);
    assert_eq!(lookups.get(), 1);
}

#[test]
fn entry_keeps_a_failure() {
    let mut entry = FileEntry::default();
    let first = entry.get_or_init(FileLoc::Entity(5), no_read, |_| None).clone();
    let second = entry.get_or_init(FileLoc::Entity(5), no_read, no_lookup).clone();
    assert_eq!(first, Err(FileError::AccessDenied));
    assert_eq!(second, Err(FileError::AccessDenied));
}

#[test]
fn reset_unmarks_and_keeps_the_outcome() {
    let mut entry = FileEntry::default();
    let _ = entry.get_or_init(FileLoc::Disk("/p/a"), |_| Ok(b"a".to_vec()), no_lookup);
    entry.reset();
    assert!(!entry.accessed());
    assert_eq!(entry.result(), Some(&Ok(FileData::Text(Cow::Borrowed("a")))));
    let again = entry.get_or_init(FileLoc::Disk("/p/a"), no_read, no_lookup).clone();
    assert_eq!(again, Ok(FileData::Text(Cow::Borrowed("a"))));
    assert!(entry.accessed());
}

#[test]
fn access_marks_and_returns_what_is_there() {
    let mut empty = FileEntry::default();
    assert!(empty.access().is_none());
    assert!(empty.accessed());
    let mut full = FileEntry::with_outcome(Err(FileError::IsDirectory));
    assert!(!full.accessed());
    assert_eq!(full.access(), Some(&mut Err(FileError::IsDirectory)));
    assert!(full.accessed());
}

#[test]
fn outcome_can_be_relabelled_in_place() {
    let mut entry = FileEntry::with_outcome(Ok(FileData::Binary(Cow::Borrowed(b"late text"))));
    if let Ok(data) = entry.get_or_init(FileLoc::Entity(1), no_read, no_lookup) {
        assert!(data.make_text().is_ok());
    }
    assert_eq!(entry.result(), Some(&Ok(FileData::Text(Cow::Borrowed("late text")))));
}

#[test]
fn text_view_of_each_outcome() {
    let text = Ok(FileData::Text(Cow::Borrowed("= Title")));
    assert_eq!(text_view(&text), Ok("= Title"));
    let relabelled = Ok(FileData::Binary(Cow::Borrowed(b"valid")));
    assert_eq!(text_view(&relabelled), Ok("valid"));
    let binary = Ok(FileData::Binary(Cow::Borrowed(&[0x89, 0x50, 0xff])));
    assert_eq!(text_view(&binary), Err(FileError::InvalidUtf8));
    let failed = Err(FileError::ReadError {
        path: String::from("/p/a"),
        cause: String::from("broken pipe"),
    });
    assert_eq!(text_view(&failed), failed.clone().map(|_: FileData| ""));
}

#[test]
fn byte_view_of_each_outcome() {
    let text = Ok(FileData::Text(Cow::Borrowed("añb")));
    assert_eq!(byte_view(&text), Ok("añb".as_bytes()));
    let binary = Ok(FileData::Binary(Cow::Owned(vec![0x89, 0x50, 0xff])));
    assert_eq!(byte_view(&binary), Ok(&[0x89u8, 0x50, 0xff][..]));
    let failed: Result<FileData, FileError> = Err(FileError::IsDirectory);
    assert_eq!(byte_view(&failed), Err(FileError::IsDirectory));
}
