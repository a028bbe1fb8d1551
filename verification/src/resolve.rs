//! Deciding where the content of a file is to be had.

use vstd::prelude::*;
use crate::error::{FileError, FileErrorView};
use crate::id::{FileId, FileIdView};

verus! {

/// Where the content of a file is to be had.
#[derive(Debug, Clone, PartialEq, Eq, Hash)]
pub enum FileLocation {
    /// A file on disk, by its path.
    Disk(String),
    /// Content held in memory by the entity with this handle.
    Virtual(u64),
}

/// A `FileLocation` that borrows its path.
#[derive(Debug, Clone, Copy, PartialEq, Eq, Hash)]
pub enum FileLoc<'a> {
    /// A file on disk, by its path.
    Disk(&'a str),
    /// Content held in memory by the entity with this handle.
    Entity(u64),
}

/// A location with its path as a sequence of characters.
pub enum FileLocationView {
    Disk(Seq<char>),
    Virtual(u64),
}

impl View for FileLocation {
    type V = FileLocationView;

    open spec fn view(&self) -> FileLocationView {
        match self {
            FileLocation::Disk(path) => FileLocationView::Disk(path@),
            FileLocation::Virtual(handle) => FileLocationView::Virtual(*handle),
        }
    }
}

impl<'a> View for FileLoc<'a> {
    type V = FileLocationView;

    open spec fn view(&self) -> FileLocationView {
        match self {
            FileLoc::Disk(path) => FileLocationView::Disk(path@),
            FileLoc::Entity(handle) => FileLocationView::Virtual(*handle),
        }
    }
}

impl FileLocation {
    /// The same location, borrowing the path.
    pub fn as_loc(&self) -> (r: FileLoc<'_>)
        ensures
            r@ == self@,
    {
        match self {
            FileLocation::Disk(path) => FileLoc::Disk(path.as_str()),
            FileLocation::Virtual(handle) => FileLoc::Entity(*handle),
        }
    }
}

/// The outcome of a resolution, with its strings as sequences of characters.
pub open spec fn located_view(r: Result<FileLocation, FileError>) -> Result<
    FileLocationView,
    FileErrorView,
> {
    match r {
        Ok(location) => Ok(location@),
        Err(error) => Err(error@),
    }
}

/// The path that `typst_syntax::VirtualPath::new(vpath).resolve(root)` gives:
/// `vpath`, normalized, joined onto `root`, or `None` where it leaves `root`.
/// Both strings are read as `std::path` reads paths on the platform that the
/// crate is built for.
pub uninterp spec fn rooted_path(vpath: Seq<char>, root: Seq<char>) -> Option<Seq<char>>;

/// `typst_syntax::VirtualPath::resolve`, on the virtual path that
/// `VirtualPath::new` makes of `vpath`. It looks at the two paths alone,
/// never at the disk, so its result is a function of the two strings, which
/// the contract names `rooted_path`. It starts from `root`, only ever adds
/// to the end or takes from the end, and gives up once less than `root` is
/// left: a path that it returns starts with `root`.
#[verifier::external_body]
fn join_under_root(vpath: &str, root: &str) -> (r: Option<String>)
    ensures
        r matches Some(path) ==> rooted_path(vpath@, root@) == Some(path@) && root@.is_prefix_of(
            path@,
        ),
        r is None ==> rooted_path(vpath@, root@) is None,
{
    typst_syntax::VirtualPath::new(vpath)
        .resolve(std::path::Path::new(root))
        .map(|path| path.to_string_lossy().into_owned())
}

/// Where a reserved identifier leads, once it is known whether its entity exists.
pub open spec fn located_entity(handle: Option<u64>, found: bool) -> Result<
    FileLocationView,
    FileErrorView,
> {
    match handle {
        Some(h) if found => Ok(FileLocationView::Virtual(h)),
        _ => Err(FileErrorView::AccessDenied),
    }
}

/// Where a path leads below a root on disk.
pub open spec fn located_disk(vpath: Seq<char>, root: Seq<char>) -> Result<
    FileLocationView,
    FileErrorView,
> {
    match rooted_path(vpath, root) {
        Some(path) => Ok(FileLocationView::Disk(path)),
        None => Err(FileErrorView::AccessDenied),
    }
}

/// Where a path leads in a package, once the package was asked for.
pub open spec fn located_in_package(
    vpath: Seq<char>,
    prepared: Result<Seq<char>, Seq<char>>,
) -> Result<FileLocationView, FileErrorView> {
    match prepared {
        Ok(directory) => located_disk(vpath, directory),
        Err(message) => Err(FileErrorView::PackageResolutionError(message)),
    }
}

/// A reserved identifier leads to its entity if that exists, and nowhere else.
pub fn resolve_entity(handle: Option<u64>, found: bool) -> (r: Result<FileLocation, FileError>)
    ensures
        located_view(r) == located_entity(handle, found),
{
    match handle {
        Some(h) => if found {
            Ok(FileLocation::Virtual(h))
        } else {
            Err(FileError::AccessDenied)
        },
        None => Err(FileError::AccessDenied),
    }
}

/// Where a joined path leads: to the file on disk at that path, and nowhere
/// where the join left the root.
pub fn locate_joined(joined: Option<String>) -> (r: Result<FileLocation, FileError>)
    ensures
        located_view(r) == (match joined {
            Some(path) => Ok::<FileLocationView, FileErrorView>(FileLocationView::Disk(path@)),
            None => Err(FileErrorView::AccessDenied),
        }),
{
    match joined {
        Some(path) => Ok(FileLocation::Disk(path)),
        None => Err(FileError::AccessDenied),
    }
}

/// Joins `vpath` onto `root`; a path that leaves the root is denied.
pub fn resolve_disk(vpath: &str, root: &str) -> (r: Result<FileLocation, FileError>)
    ensures
        located_view(r) == located_disk(vpath@, root@),
        below(located_view(r), root@),
{
    locate_joined(join_under_root(vpath, root))
}

/// A location on disk lies below `root`: its path starts with `root`.
pub open spec fn below(located: Result<FileLocationView, FileErrorView>, root: Seq<char>) -> bool {
    located matches Ok(FileLocationView::Disk(path)) ==> root.is_prefix_of(path)
}

/// What a package resolver gave, as sequences of characters.
pub open spec fn prepared_view(prepared: Result<String, String>) -> Result<Seq<char>, Seq<char>> {
    match prepared {
        Ok(directory) => Ok(directory@),
        Err(message) => Err(message@),
    }
}

/// Joins `vpath` onto the directory of a prepared package, or passes on the
/// resolver's failure.
pub fn resolve_in_package(vpath: &str, prepared: Result<String, String>) -> (r: Result<
    FileLocation,
    FileError,
>)
    ensures
        located_view(r) == located_in_package(vpath@, prepared_view(prepared)),
        prepared matches Ok(directory) ==> below(located_view(r), directory@),
{
    match prepared {
        Ok(directory) => resolve_disk(vpath, directory.as_str()),
        Err(message) => Err(FileError::PackageResolutionError(message)),
    }
}

/// What an identifier that is not reserved may resolve to: a path below the
/// directory that `prepare` gives for its package, or below `root`, and no
/// path anywhere else.
pub open spec fn resolves<P>(
    id: FileIdView,
    root: Seq<char>,
    prepare: P,
    located: Result<FileLocationView, FileErrorView>,
) -> bool where P: FnOnce(&str) -> Result<String, String> {
    match id.package {
        Some(package) => exists|spec: &str, prepared: Result<String, String>|
            {
                &&& spec@ == package
                &&& call_ensures(prepare, (spec,), prepared)
                &&& located == located_in_package(id.vpath, prepared_view(prepared))
                &&& prepared matches Ok(directory) ==> below(located, directory@)
            },
        None => located == located_disk(id.vpath, root) && below(located, root),
    }
}

/// Resolves an identifier that is not reserved: below the directory that
/// `prepare` gives for its package, or below `root`.
pub fn resolve_path<P>(id: &FileId, root: &str, prepare: P) -> (r: Result<
    FileLocation,
    FileError,
>) where P: FnOnce(&str) -> Result<String, String>
    requires
        id@.package matches Some(package) ==> forall|spec: &str|
            spec@ == package ==> call_requires(prepare, (spec,)),
    ensures
        resolves(id@, root@, prepare, located_view(r)),
{
    match &id.package {
        Some(package) => {
            let prepared = prepare(package.as_str());
            resolve_in_package(id.vpath.as_str(), prepared)
        },
        None => resolve_disk(id.vpath.as_str(), root),
    }
}

} // verus!
