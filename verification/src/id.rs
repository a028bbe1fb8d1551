//! File identifiers and the reserved numeric convention.

use vstd::prelude::*;
use vstd::utf8::*;

verus! {

/// Names a file: an optional package specifier and a path below the root.
/// Two identifiers are equal, and hash alike, where both parts are equal.
#[derive(Debug, Hash)]
pub struct FileId {
    /// The package the file lives in, if any.
    pub package: Option<String>,
    /// The path of the file below its root.
    pub vpath: String,
}

/// A `FileId` with its strings as sequences of characters.
pub struct FileIdView {
    pub package: Option<Seq<char>>,
    pub vpath: Seq<char>,
}

impl View for FileId {
    type V = FileIdView;

    open spec fn view(&self) -> FileIdView {
        FileIdView {
            package: match self.package {
                Some(spec) => Some(spec@),
                None => None,
            },
            vpath: self.vpath@,
        }
    }
}

/// Whether a byte is an ASCII decimal digit.
pub open spec fn is_digit(b: u8) -> bool {
    0x30 <= b <= 0x39
}

/// Whether `bytes` is one or more decimal digits and nothing else.
pub open spec fn all_digits(bytes: Seq<u8>) -> bool {
    &&& bytes.len() > 0
    &&& forall|i: int| 0 <= i < bytes.len() ==> is_digit(#[trigger] bytes[i])
}

/// The number that a sequence of decimal digits writes.
pub open spec fn decimal(digits: Seq<u8>) -> nat
    decreases digits.len(),
{
    if digits.len() == 0 {
        0
    } else {
        decimal(digits.drop_last()) * 10 + (digits.last() - 0x30) as nat
    }
}

/// The entity handle that the bytes of a virtual path write, if they write one.
pub open spec fn handle_of(bytes: Seq<u8>) -> Option<u64> {
    if all_digits(bytes) && decimal(bytes) <= u64::MAX {
        Some(decimal(bytes) as u64)
    } else {
        None
    }
}

impl FileIdView {
    /// The virtual path as bytes.
    pub open spec fn vpath_bytes(self) -> Seq<u8> {
        encode_utf8(self.vpath)
    }

    /// The virtual path follows the numeric convention, so names an entity.
    pub open spec fn is_reserved(self) -> bool {
        all_digits(self.vpath_bytes())
    }

    /// The handle of the entity named, where the digits fit one.
    pub open spec fn handle(self) -> Option<u64> {
        handle_of(self.vpath_bytes())
    }
}

/// Tells whether `bytes` is one or more decimal digits and nothing else.
pub fn is_all_digits(bytes: &[u8]) -> (r: bool)
    ensures
        r == all_digits(bytes@),
{
    let n: usize = bytes.len();
    let mut i: usize = 0;
    while i < n
        invariant
            n == bytes@.len(),
            0 <= i <= n,
            forall|j: int| 0 <= j < i ==> is_digit(#[trigger] bytes@[j]),
        decreases n - i,
    {
        let b: u8 = bytes[i];
        if !(b >= 0x30 && b <= 0x39) {
            assert(!is_digit(bytes@[i as int]));
            return false;
        }
        i += 1;
    }
    n > 0
}

/// Reads `bytes` as an entity handle.
pub fn parse_handle(bytes: &[u8]) -> (r: Option<u64>)
    ensures
        r == handle_of(bytes@),
{
    let n: usize = bytes.len();
    if n == 0 {
        return None;
    }
    let mut value: u64 = 0;
    let mut overflow: bool = false;
    let mut i: usize = 0;
    while i < n
        invariant
            n == bytes@.len(),
            0 <= i <= n,
            forall|j: int| 0 <= j < i ==> is_digit(#[trigger] bytes@[j]),
            !overflow ==> value == decimal(bytes@.take(i as int)),
            overflow ==> decimal(bytes@.take(i as int)) > u64::MAX,
        decreases n - i,
    {
        let b: u8 = bytes[i];
        if !(b >= 0x30 && b <= 0x39) {
            assert(!is_digit(bytes@[i as int]));
            return None;
        }
        proof {
            assert(bytes@.take(i + 1).drop_last() =~= bytes@.take(i as int));
            assert(bytes@.take(i + 1).last() == b);
        }
        if !overflow {
            let d: u64 = (b - 0x30) as u64;
            match value.checked_mul(10) {
                Some(tens) => match tens.checked_add(d) {
                    Some(next) => {
                        value = next;
                    },
                    None => {
                        overflow = true;
                    },
                },
                None => {
                    overflow = true;
                },
            }
        }
        i += 1;
    }
    proof {
        assert(bytes@.take(n as int) =~= bytes@);
    }
    if overflow {
        None
    } else {
        Some(value)
    }
}

impl FileId {
    /// An identifier for the file at `vpath` in `package`, or in the project.
    pub fn new(package: Option<String>, vpath: String) -> (r: FileId)
        ensures
            r.package == package,
            r.vpath == vpath,
    {
        FileId { package, vpath }
    }

    /// The entity handle that the virtual path writes, if it writes one.
    pub fn handle(&self) -> (r: Option<u64>)
        ensures
            r == self@.handle(),
    {
        parse_handle(self.vpath.as_str().as_bytes())
    }

    /// Whether the virtual path is made of decimal digits alone.
    pub fn is_reserved(&self) -> (r: bool)
        ensures
            r == self@.is_reserved(),
    {
        is_all_digits(self.vpath.as_str().as_bytes())
    }

    /// Whether two identifiers name the same file.
    pub fn same(&self, other: &FileId) -> (r: bool)
        ensures
            r == (self@ == other@),
    {
        let packages = match (&self.package, &other.package) {
            (Some(a), Some(b)) => *a == *b,
            (None, None) => true,
            _ => false,
        };
        packages && self.vpath == other.vpath
    }
}

impl Clone for FileId {
    fn clone(&self) -> (r: FileId)
        ensures
            r@ == self@,
    {
        FileId {
            package: match &self.package {
                Some(spec) => Some(spec.clone()),
                None => None,
            },
            vpath: self.vpath.clone(),
        }
    }
}

impl PartialEq for FileId {
    fn eq(&self, other: &FileId) -> (r: bool) {
        self.same(other)
    }
}

impl vstd::std_specs::cmp::PartialEqSpecImpl for FileId {
    open spec fn obeys_eq_spec() -> bool {
        true
    }

    open spec fn eq_spec(&self, other: &FileId) -> bool {
        self@ == other@
    }
}

impl Eq for FileId {

}

} // verus!
