//! Front matter: a fenced block of metadata at the head of a document.

use vstd::prelude::*;
use vstd::string::StringSliceAdditionalSpecFns;
use vstd::utf8::*;

verus! {

/// The byte `-`, of which fences are made.
pub const DASH: u8 = 0x2d;

/// The byte `\n`.
pub const NEWLINE: u8 = 0x0a;

/// The byte `\r`.
pub const RETURN: u8 = 0x0d;

/// In valid UTF-8 a character starts right after every ASCII byte.
proof fn lemma_boundary_after_ascii(bytes: Seq<u8>, i: int)
    requires
        valid_utf8(bytes),
        0 <= i < bytes.len(),
        bytes[i] <= 0x7f,
    ensures
        is_char_boundary(bytes, i),
        is_char_boundary(bytes, i + 1),
{
    is_char_boundary_iff_not_is_continuation_byte(bytes, i);
    if i + 1 == bytes.len() {
        is_char_boundary_start_end_of_seq(bytes);
    } else {
        valid_utf8_split(bytes, i);
        let suffix = bytes.subrange(i, bytes.len() as int);
        assert(suffix[0] == bytes[i]);
        assert(valid_first_scalar(suffix) && valid_utf8(pop_first_scalar(suffix)));
        let rest = pop_first_scalar(suffix);
        assert(rest =~= bytes.subrange(i + 1, bytes.len() as int));
        assert(valid_first_scalar(rest));
        assert(rest[0] == bytes[i + 1]);
        is_char_boundary_iff_not_is_continuation_byte(bytes, i + 1);
    }
}

/// The part of `text` from byte `from` up to byte `to`.
fn slice_str<'a>(text: &'a str, from: usize, to: usize) -> (r: &'a str)
    requires
        from <= to <= text.spec_bytes().len(),
        is_char_boundary(text.spec_bytes(), from as int),
        is_char_boundary(text.spec_bytes(), to as int),
    ensures
        r.spec_bytes() == text.spec_bytes().subrange(from as int, to as int),
{
    let ghost bytes = text.spec_bytes();
    proof {
        encode_utf8_valid_utf8(text@);
    }
    let (head, _) = text.split_at(to);
    proof {
        valid_utf8_split(bytes, to as int);
        if from < to {
            is_char_boundary_iff_not_is_continuation_byte(bytes, from as int);
            is_char_boundary_iff_not_is_continuation_byte(head.spec_bytes(), from as int);
        } else {
            is_char_boundary_start_end_of_seq(head.spec_bytes());
        }
    }
    let (_, r) = head.split_at(from);
    assert(r.spec_bytes() =~= bytes.subrange(from as int, to as int));
    r
}

/// `end` is where the first line of `text` ends: at its first `\n`, or at
/// its end where it has none.
pub open spec fn is_line_end(text: Seq<u8>, end: int) -> bool {
    &&& 0 <= end <= text.len()
    &&& forall|i: int| 0 <= i < end ==> text[i] != NEWLINE
    &&& end < text.len() ==> text[end] == NEWLINE
}

/// Where the first line of `text` ends.
pub open spec fn line_end(text: Seq<u8>) -> int {
    choose|end: int| is_line_end(text, end)
}

/// `text` starts with exactly `count` dashes.
pub open spec fn is_run(text: Seq<u8>, count: int) -> bool {
    &&& 0 <= count <= text.len()
    &&& forall|i: int| 0 <= i < count ==> text[i] == DASH
    &&& count < text.len() ==> text[count] != DASH
}

/// The number of dashes that `text` starts with.
pub open spec fn dashes(text: Seq<u8>) -> int {
    choose|count: int| is_run(text, count)
}

/// `width` dashes stand at `at` in `body`.
pub open spec fn fence_at(body: Seq<u8>, width: int, at: int) -> bool {
    &&& 0 <= at
    &&& at + width <= body.len()
    &&& forall|i: int| at <= i < at + width ==> body[i] == DASH
}

/// `at` is the first place from `from` on where `width` dashes stand.
pub open spec fn is_next_fence(body: Seq<u8>, width: int, from: int, at: int) -> bool {
    &&& from <= at
    &&& fence_at(body, width, at)
    &&& forall|i: int| from <= i < at ==> !fence_at(body, width, i)
}

/// The first place from `from` on where `width` dashes stand.
pub open spec fn next_fence(body: Seq<u8>, width: int, from: int) -> int {
    choose|at: int| is_next_fence(body, width, from, at)
}

/// What stands before a closing fence is nothing, or ends a line.
pub open spec fn content_closed(before: Seq<u8>) -> bool {
    before.len() == 0 || before.last() == NEWLINE
}

/// What stands before a closing fence, without the line break that ends it.
pub open spec fn content_of(before: Seq<u8>) -> Seq<u8> {
    if before.len() == 0 {
        before
    } else {
        let line = before.drop_last();
        if line.len() > 0 && line.last() == RETURN {
            line.drop_last()
        } else {
            line
        }
    }
}

/// How long the line break is that follows a closing fence, counting a `\r`
/// before the `\n`.
pub open spec fn break_len(after: Seq<u8>) -> int {
    if after.len() > 0 && after[0] == RETURN {
        2
    } else {
        1
    }
}

/// What follows a closing fence is nothing, or starts with a line break.
pub open spec fn rest_closed(after: Seq<u8>) -> bool {
    after.len() == 0 || (break_len(after) <= after.len() && after[break_len(after) - 1] == NEWLINE)
}

/// What follows a closing fence, without the line break that it starts with.
pub open spec fn rest_of(after: Seq<u8>) -> Seq<u8> {
    if after.len() == 0 {
        after
    } else {
        after.skip(break_len(after))
    }
}

/// The fence at `at` closes the front matter: it stands alone on its line.
pub open spec fn closes(body: Seq<u8>, width: int, at: int) -> bool {
    content_closed(body.take(at)) && rest_closed(body.skip(at + width))
}

/// The fence that closes the front matter: the first that stands alone on its
/// line, among those found when the search goes on behind each fence.
pub open spec fn closing(body: Seq<u8>, width: int, from: int) -> Option<int>
    decreases body.len() - from,
    when width > 0
{
    if exists|at: int| is_next_fence(body, width, from, at) {
        let at = next_fence(body, width, from);
        if closes(body, width, at) {
            Some(at)
        } else {
            closing(body, width, at + width)
        }
    } else {
        None
    }
}

/// Front matter as sequences of bytes.
pub struct FrontMatterView {
    /// What stands between the fences.
    pub content: Seq<u8>,
    /// What follows the opening fence on its line, if anything.
    pub language: Option<Seq<u8>>,
    /// What follows the closing fence and its line break.
    pub rest: Seq<u8>,
}

/// The document after its first line.
pub open spec fn body_of(text: Seq<u8>) -> Seq<u8> {
    let end = line_end(text);
    if end < text.len() {
        text.skip(end + 1)
    } else {
        text.skip(end)
    }
}

/// The front matter of `text`, if it has any: the first line starts with a
/// fence of three dashes or more, and a fence of that many dashes, alone on
/// its line, follows.
pub open spec fn front_matter(text: Seq<u8>) -> Option<FrontMatterView> {
    let first = text.take(line_end(text));
    let width = dashes(first);
    let body = body_of(text);
    if width < 3 {
        None
    } else {
        match closing(body, width, 0) {
            Some(at) => Some(
                FrontMatterView {
                    content: content_of(body.take(at)),
                    language: if width == first.len() {
                        None
                    } else {
                        Some(first.skip(width))
                    },
                    rest: rest_of(body.skip(at + width)),
                },
            ),
            None => None,
        }
    }
}

/// The rest of a document is no longer than the document.
pub proof fn lemma_rest_is_shorter(text: Seq<u8>)
    ensures
        front_matter(text) matches Some(found) ==> found.rest.len() <= text.len(),
{
    if front_matter(text) is Some {
        let body = body_of(text);
        let width = dashes(text.take(line_end(text)));
        let end = line_end(text);
        assert(exists|e: int| is_line_end(text, e)) by {
            lemma_line_end_exists(text, 0);
        }
        assert(is_line_end(text, end));
        assert(body.len() <= text.len());
        let at = closing(body, width, 0)->0;
        lemma_closing_is_fence(body, width, 0);
    }
}

/// Every text has a place where its first line ends.
proof fn lemma_line_end_exists(text: Seq<u8>, from: int)
    requires
        0 <= from <= text.len(),
        forall|i: int| 0 <= i < from ==> text[i] != NEWLINE,
    ensures
        exists|end: int| is_line_end(text, end),
    decreases text.len() - from,
{
    if from == text.len() || text[from] == NEWLINE {
        assert(is_line_end(text, from));
    } else {
        lemma_line_end_exists(text, from + 1);
    }
}

/// A closing fence is a fence.
proof fn lemma_closing_is_fence(body: Seq<u8>, width: int, from: int)
    requires
        width > 0,
        closing(body, width, from) is Some,
    ensures
        fence_at(body, width, closing(body, width, from)->0),
        closes(body, width, closing(body, width, from)->0),
    decreases body.len() - from,
{
    let at = next_fence(body, width, from);
    assert(is_next_fence(body, width, from, at));
    if !closes(body, width, at) {
        lemma_closing_is_fence(body, width, at + width);
    }
}

/// A first line ends in one place only.
pub proof fn lemma_line_end(text: Seq<u8>, end: int)
    requires
        is_line_end(text, end),
    ensures
        line_end(text) == end,
{
    let other = line_end(text);
    assert(is_line_end(text, other));
    if other < end {
        assert(text[other] != NEWLINE);
    }
    if end < other {
        assert(text[end] != NEWLINE);
    }
}

/// A run of dashes has one length only.
pub proof fn lemma_dashes(text: Seq<u8>, count: int)
    requires
        is_run(text, count),
    ensures
        dashes(text) == count,
{
    let other = dashes(text);
    assert(is_run(text, other));
    if other < count {
        assert(text[other] == DASH);
    }
    if count < other {
        assert(text[count] == DASH);
    }
}

/// The next fence is in one place only.
pub proof fn lemma_next_fence(body: Seq<u8>, width: int, from: int, at: int)
    requires
        is_next_fence(body, width, from, at),
    ensures
        next_fence(body, width, from) == at,
{
    let other = next_fence(body, width, from);
    assert(is_next_fence(body, width, from, other));
    if other < at {
        assert(!fence_at(body, width, other));
    }
    if at < other {
        assert(!fence_at(body, width, at));
    }
}

/// Finds where the first line of `text` ends.
pub fn find_line_end(text: &[u8]) -> (r: usize)
    ensures
        is_line_end(text@, r as int),
{
    let n: usize = text.len();
    let mut i: usize = 0;
    while i < n && text[i] != NEWLINE
        invariant
            n == text@.len(),
            0 <= i <= n,
            forall|j: int| 0 <= j < i ==> text@[j] != NEWLINE,
        decreases n - i,
    {
        i += 1;
    }
    i
}

/// Counts the dashes that the first `end` bytes of `text` start with.
pub fn count_dashes(text: &[u8], end: usize) -> (r: usize)
    requires
        end <= text@.len(),
    ensures
        is_run(text@.take(end as int), r as int),
{
    let mut i: usize = 0;
    while i < end && text[i] == DASH
        invariant
            end <= text@.len(),
            0 <= i <= end,
            forall|j: int| 0 <= j < i ==> text@[j] == DASH,
        decreases end - i,
    {
        i += 1;
    }
    i
}

/// Tells whether `width` dashes stand at `at` in `body`.
pub fn has_fence_at(body: &[u8], width: usize, at: usize) -> (r: bool)
    ensures
        r == fence_at(body@, width as int, at as int),
{
    let n: usize = body.len();
    if width > n || at > n - width {
        return false;
    }
    let mut i: usize = at;
    while i < at + width
        invariant
            at + width <= n,
            n == body@.len(),
            at <= i <= at + width,
            forall|j: int| at <= j < i ==> body@[j] == DASH,
        decreases at + width - i,
    {
        if body[i] != DASH {
            return false;
        }
        i += 1;
    }
    true
}

/// Finds the first place from `from` on where `width` dashes stand.
pub fn find_fence(body: &[u8], width: usize, from: usize) -> (r: Option<usize>)
    ensures
        r matches Some(at) ==> is_next_fence(body@, width as int, from as int, at as int),
        r is None ==> forall|at: int| !is_next_fence(body@, width as int, from as int, at),
{
    let n: usize = body.len();
    let mut i: usize = from;
    while i < n
        invariant
            n == body@.len(),
            from <= i,
            forall|j: int| from <= j < i ==> !fence_at(body@, width as int, j),
        decreases n - i,
    {
        if has_fence_at(body, width, i) {
            return Some(i);
        }
        i += 1;
    }
    if has_fence_at(body, width, i) {
        return Some(i);
    }
    proof {
        assert forall|at: int| !is_next_fence(body@, width as int, from as int, at) by {
            if is_next_fence(body@, width as int, from as int, at) {
                if at > i {
                    assert(at + width <= n);
                } else if at < i {
                    assert(!fence_at(body@, width as int, at));
                }
            }
        }
    }
    None
}

/// The front matter of a document, and the document that follows it.
#[derive(Debug, Clone, Copy, PartialEq, Eq, PartialOrd, Ord, Hash, Default)]
pub struct FrontMatter<'a> {
    /// What stands between the fences.
    pub content: &'a str,
    /// What follows the opening fence on its line.
    pub language: Option<&'a str>,
    /// The rest of the document.
    pub rest: &'a str,
}

impl<'a> View for FrontMatter<'a> {
    type V = FrontMatterView;

    open spec fn view(&self) -> FrontMatterView {
        FrontMatterView {
            content: self.content.spec_bytes(),
            language: match self.language {
                Some(language) => Some(language.spec_bytes()),
                None => None,
            },
            rest: self.rest.spec_bytes(),
        }
    }
}

impl<'a> FrontMatter<'a> {
    /// Takes the front matter off the head of `input`.
    pub fn parse(input: &'a str) -> (r: Result<FrontMatter<'a>, &'static str>)
        ensures
            match front_matter(input.spec_bytes()) {
                Some(found) => r matches Ok(matter) && matter@ == found,
                None => r matches Err(message) && message@ == "no marker"@,
            },
    {
        let text = input.as_bytes();
        let n: usize = text.len();
        let end = find_line_end(text);
        let width = count_dashes(text, end);
        let start: usize = if end < n {
            end + 1
        } else {
            end
        };
        proof {
            lemma_line_end(text@, end as int);
            lemma_dashes(text@.take(end as int), width as int);
        }
        if width < 3 {
            return Err("no marker");
        }
        proof {
            encode_utf8_valid_utf8(input@);
            assert(text@.take(end as int)[width - 1] == DASH);
            lemma_boundary_after_ascii(text@, width - 1);
            if end < n {
                lemma_boundary_after_ascii(text@, end as int);
            }
            is_char_boundary_start_end_of_seq(text@);
        }
        let tail = slice_str(input, start, n);
        let language = if width == end {
            None
        } else {
            Some(slice_str(input, width, end))
        };
        let body = tail.as_bytes();
        let m: usize = body.len();
        proof {
            assert(body@ =~= body_of(text@));
            assert(text@.take(end as int) =~= text@.subrange(0, end as int));
            assert(text@.take(end as int).skip(width as int) =~= text@.subrange(
                width as int,
                end as int,
            ));
            encode_utf8_valid_utf8(tail@);
            is_char_boundary_start_end_of_seq(body@);
        }
        let mut from: usize = 0;
        loop
            invariant
                m == body@.len(),
                body@ == tail.spec_bytes(),
                valid_utf8(body@),
                is_char_boundary(body@, 0),
                is_char_boundary(body@, m as int),
                width >= 3,
                from <= m,
                closing(body@, width as int, 0) == closing(body@, width as int, from as int),
                front_matter(input.spec_bytes()) == match closing(body@, width as int, 0) {
                    Some(at) => Some(
                        FrontMatterView {
                            content: content_of(body@.take(at)),
                            language: match language {
                                Some(language) => Some(language.spec_bytes()),
                                None => None,
                            },
                            rest: rest_of(body@.skip(at + width)),
                        },
                    ),
                    None => None,
                },
            decreases m - from,
        {
            let at = match find_fence(body, width, from) {
                Some(at) => at,
                None => {
                    return Err("no marker");
                },
            };
            proof {
                lemma_next_fence(body@, width as int, from as int, at as int);
            }
            let after: usize = at + width;
            // The content ends the line before the fence, or is empty.
            let content_end: Option<usize> = if at == 0 {
                Some(0)
            } else if body[at - 1] != NEWLINE {
                None
            } else if at >= 2 && body[at - 2] == RETURN {
                Some(at - 2)
            } else {
                Some(at - 1)
            };
            // The rest starts on the line after the fence, or is empty.
            let rest_start: Option<usize> = if after == m {
                Some(m)
            } else {
                let skip: usize = if body[after] == RETURN {
                    2
                } else {
                    1
                };
                if skip <= m - after && body[after + skip - 1] == NEWLINE {
                    Some(after + skip)
                } else {
                    None
                }
            };
            proof {
                let before = body@.take(at as int);
                let behind = body@.skip(after as int);
                assert(content_closed(before) == content_end is Some);
                assert(rest_closed(behind) == rest_start is Some);
            }
            match (content_end, rest_start) {
                (Some(content_end), Some(rest_start)) => {
                    proof {
                        let before = body@.take(at as int);
                        let behind = body@.skip(after as int);
                        if content_end > 0 || at > 0 {
                            lemma_boundary_after_ascii(body@, content_end as int);
                        }
                        if rest_start < m {
                            lemma_boundary_after_ascii(body@, rest_start - 1);
                        }
                        assert(content_of(before) =~= body@.subrange(0, content_end as int));
                        assert(rest_of(behind) =~= body@.subrange(rest_start as int, m as int));
                    }
                    let content = slice_str(tail, 0, content_end);
                    let rest = slice_str(tail, rest_start, m);
                    return Ok(FrontMatter { content, language, rest });
                },
                _ => {},
            }
            from = after;
        }
    }
}

} // verus!
