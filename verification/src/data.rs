//! A buffer that is either text or bytes.

use std::borrow::Cow;
use vstd::pervasive::unreached;
use vstd::prelude::*;
use vstd::string::StringExecFns;
use vstd::utf8::*;
use crate::encoding::{
    cow_bytes_to_mut, cow_str_to_mut, str_from_utf8, str_from_utf8_mut, string_as_mut_str,
    string_clear, string_from_utf8, string_into_bytes, Utf8Error,
};

verus! {

/// What a buffer holds, apart from how it is stored.
pub struct Content {
    /// The buffer is labelled as text.
    pub text: bool,
    /// The stored bytes; for text, its UTF-8 encoding.
    pub bytes: Seq<u8>,
}

/// File content: validated text, or bytes of unknown encoding.
#[derive(Debug, PartialEq, Eq, Hash)]
pub enum FileData {
    /// UTF-8 text.
    Text(Cow<'static, str>),
    /// Bytes of unknown encoding.
    Binary(Cow<'static, [u8]>),
}

impl View for FileData {
    type V = Content;

    open spec fn view(&self) -> Content {
        match self {
            FileData::Text(text) => Content { text: true, bytes: encode_utf8(text@) },
            FileData::Binary(binary) => Content { text: false, bytes: binary@ },
        }
    }
}

impl Content {
    /// The content of a fresh buffer over `bytes`.
    pub open spec fn of_bytes(bytes: Seq<u8>) -> Content {
        Content { text: valid_utf8(bytes), bytes }
    }

    /// A text label is only ever on valid UTF-8.
    pub open spec fn wf(self) -> bool {
        self.text ==> valid_utf8(self.bytes)
    }

    /// The same bytes, labelled as text where they are valid UTF-8.
    pub open spec fn as_text(self) -> Content {
        Content { text: self.text || valid_utf8(self.bytes), bytes: self.bytes }
    }

    /// The same bytes, labelled as binary.
    pub open spec fn as_binary(self) -> Content {
        Content { text: false, bytes: self.bytes }
    }

    /// The same label on no bytes.
    pub open spec fn cleared(self) -> Content {
        Content { text: self.text, bytes: Seq::empty() }
    }
}

/// The text behind a `Cow`, whichever way it is stored.
fn cow_str<'a>(text: &'a Cow<'static, str>) -> (r: &'a str)
    ensures
        r@ == text@,
{
    match text {
        Cow::Borrowed(s) => *s,
        Cow::Owned(s) => s.as_str(),
    }
}

/// The bytes behind a `Cow`, whichever way they are stored.
fn cow_bytes<'a>(binary: &'a Cow<'static, [u8]>) -> (r: &'a [u8])
    ensures
        r@ == binary@,
{
    match binary {
        Cow::Borrowed(s) => *s,
        Cow::Owned(s) => s.as_slice(),
    }
}

impl FileData {
    /// The buffer owns its storage, rather than borrowing it.
    pub open spec fn owned(&self) -> bool {
        match self {
            FileData::Text(text) => text is Owned,
            FileData::Binary(binary) => binary is Owned,
        }
    }

    /// Tells whether the buffer owns its storage.
    pub fn is_owned(&self) -> (r: bool)
        ensures
            r == self.owned(),
    {
        match self {
            FileData::Text(Cow::Owned(_)) => true,
            FileData::Binary(Cow::Owned(_)) => true,
            _ => false,
        }
    }

    /// Wraps `binary`, labelling it text exactly if it is valid UTF-8. The
    /// storage is taken over as it is.
    pub fn new(binary: Cow<'static, [u8]>) -> (r: FileData)
        ensures
            r@ == Content::of_bytes(binary@),
            r.owned() == (binary is Owned),
    {
        match binary {
            Cow::Borrowed(bytes) => match str_from_utf8(bytes) {
                Ok(text) => FileData::Text(Cow::Borrowed(text)),
                Err(_) => FileData::Binary(Cow::Borrowed(bytes)),
            },
            Cow::Owned(bytes) => match string_from_utf8(bytes) {
                Ok(text) => FileData::Text(Cow::Owned(text)),
                Err(e) => FileData::Binary(Cow::Owned(e.0)),
            },
        }
    }

    /// The text, if the buffer is labelled as text. Validates nothing.
    pub fn as_str(&self) -> (r: Option<&str>)
        ensures
            r is Some <==> self@.text,
            r matches Some(s) ==> encode_utf8(s@) == self@.bytes,
    {
        match self {
            FileData::Text(text) => Some(cow_str(text)),
            FileData::Binary(_) => None,
        }
    }

    /// The text, if the bytes are valid UTF-8, whatever the label.
    pub fn to_str(&self) -> (r: Result<&str, Utf8Error>)
        ensures
            r is Ok <==> valid_utf8(self@.bytes),
            r matches Ok(s) ==> encode_utf8(s@) == self@.bytes,
            r matches Err(e) ==> e.describes(self@.bytes),
    {
        broadcast use encode_utf8_valid_utf8;

        match self {
            FileData::Text(text) => Ok(cow_str(text)),
            FileData::Binary(binary) => str_from_utf8(cow_bytes(binary)),
        }
    }

    /// The text for changing in place, if the buffer is labelled as text.
    /// Borrowed text is copied first.
    pub fn as_str_mut(&mut self) -> (r: Option<&mut str>)
        ensures
            r is Some <==> old(self)@.text,
            r matches Some(text) ==> {
                &&& encode_utf8(text@) == old(self)@.bytes
                &&& final(self)@ == (Content { text: true, bytes: encode_utf8(final(text)@) })
                &&& final(self).owned()
            },
            r is None ==> *final(self) == *old(self),
    {
        match self {
            FileData::Text(text) => Some(string_as_mut_str(cow_str_to_mut(text))),
            FileData::Binary(_) => None,
        }
    }

    /// The text for changing in place, if the bytes are valid UTF-8. The
    /// label stays as it is: bytes that are text for this one call are
    /// bytes again after it. Borrowed storage is copied first.
    pub fn to_str_mut(&mut self) -> (r: Result<&mut str, Utf8Error>)
        ensures
            r is Ok <==> valid_utf8(old(self)@.bytes),
            r matches Ok(text) ==> {
                &&& encode_utf8(text@) == old(self)@.bytes
                &&& final(self)@.text == old(self)@.text
                &&& final(self)@.bytes == encode_utf8(final(text)@)
                &&& final(self).owned()
            },
            r matches Err(e) ==> {
                &&& final(self)@ == old(self)@
                &&& final(self).owned()
                &&& e.describes(old(self)@.bytes)
            },
    {
        broadcast use encode_utf8_valid_utf8;

        match self {
            FileData::Text(text) => Ok(string_as_mut_str(cow_str_to_mut(text))),
            FileData::Binary(binary) => str_from_utf8_mut(
                cow_bytes_to_mut(binary).as_mut_slice(),
            ),
        }
    }

    /// The bytes, whatever the label: text is its own encoding.
    pub fn as_binary(&self) -> (r: &[u8])
        ensures
            r@ == self@.bytes,
    {
        match self {
            FileData::Text(text) => cow_str(text).as_bytes(),
            FileData::Binary(binary) => cow_bytes(binary),
        }
    }

    /// Gives up the buffer as text, or gives the bytes back with the reason.
    pub fn into_text(self) -> (r: Result<Cow<'static, str>, (Cow<'static, [u8]>, Utf8Error)>)
        ensures
            r is Ok <==> valid_utf8(self@.bytes),
            r matches Ok(text) ==> {
                &&& encode_utf8(text@) == self@.bytes
                &&& (text is Owned) == self.owned()
            },
            r matches Err(e) ==> {
                &&& !self@.text
                &&& e.0@ == self@.bytes
                &&& (e.0 is Owned) == self.owned()
                &&& e.1.describes(self@.bytes)
            },
    {
        broadcast use encode_utf8_valid_utf8;

        match self {
            FileData::Text(text) => Ok(text),
            FileData::Binary(Cow::Borrowed(bytes)) => match str_from_utf8(bytes) {
                Ok(text) => Ok(Cow::Borrowed(text)),
                Err(e) => Err((Cow::Borrowed(bytes), e)),
            },
            FileData::Binary(Cow::Owned(bytes)) => match string_from_utf8(bytes) {
                Ok(text) => Ok(Cow::Owned(text)),
                Err(e) => Err((Cow::Owned(e.0), e.1)),
            },
        }
    }

    /// Gives up the buffer as bytes.
    pub fn into_binary(self) -> (r: Cow<'static, [u8]>)
        ensures
            r@ == self@.bytes,
            (r is Owned) == self.owned(),
    {
        match self {
            FileData::Binary(binary) => binary,
            FileData::Text(Cow::Borrowed(text)) => Cow::Borrowed(text.as_bytes()),
            FileData::Text(Cow::Owned(text)) => Cow::Owned(string_into_bytes(text)),
        }
    }

    /// Relabels the buffer as text where its bytes are valid UTF-8, and hands
    /// out the storage either way. Bytes that are not valid stay as they are.
    /// Text is not looked at again.
    pub fn make_text(&mut self) -> (r: Result<
        &mut Cow<'static, str>,
        (&mut Cow<'static, [u8]>, Utf8Error),
    >)
        ensures
            r is Ok <==> valid_utf8(old(self)@.bytes),
            r matches Ok(text) ==> {
                &&& FileData::Text(*text)@ == old(self)@.as_text()
                &&& (*text is Owned) == old(self).owned()
                &&& *final(self) == FileData::Text(*final(text))
            },
            r matches Err(e) ==> {
                &&& FileData::Binary(*e.0)@ == old(self)@
                &&& (*e.0 is Owned) == old(self).owned()
                &&& *final(self) == FileData::Binary(*final(e.0))
                &&& e.1.describes(old(self)@.bytes)
            },
    {
        let mut taken = FileData::Binary(Cow::Borrowed(&[]));
        core::mem::swap(self, &mut taken);
        match taken.into_text() {
            Ok(text) => {
                *self = FileData::Text(text);
                match self {
                    FileData::Text(text) => Ok(text),
                    FileData::Binary(_) => unreached(),
                }
            },
            Err((binary, err)) => {
                *self = FileData::Binary(binary);
                match self {
                    FileData::Binary(binary) => Err((binary, err)),
                    FileData::Text(_) => unreached(),
                }
            },
        }
    }

    /// Relabels the buffer as bytes, which is always possible.
    pub fn make_binary(&mut self) -> (r: &mut Cow<'static, [u8]>)
        ensures
            FileData::Binary(*r)@ == old(self)@.as_binary(),
            (*r is Owned) == old(self).owned(),
            *final(self) == FileData::Binary(*final(r)),
    {
        let mut taken = FileData::Binary(Cow::Borrowed(&[]));
        core::mem::swap(self, &mut taken);
        *self = FileData::Binary(taken.into_binary());
        match self {
            FileData::Binary(binary) => binary,
            FileData::Text(_) => unreached(),
        }
    }

    /// Empties the buffer and keeps its label. Owned storage is emptied in
    /// place; borrowed storage is left alone, and an empty piece borrowed.
    pub fn clear(&mut self)
        ensures
            final(self)@ == old(self)@.cleared(),
            final(self).owned() == old(self).owned(),
    {
        match self {
            FileData::Text(Cow::Borrowed(text)) => {
                *text = "";
                proof {
                    reveal_strlit("");
                    assert(text@ =~= Seq::<char>::empty());
                }
            },
            FileData::Text(Cow::Owned(text)) => string_clear(text),
            FileData::Binary(Cow::Borrowed(binary)) => {
                *binary = &[];
                assert(binary@ =~= Seq::<u8>::empty());
            },
            FileData::Binary(Cow::Owned(binary)) => binary.clear(),
        }
    }
}

/// A buffer labelled as text holds valid UTF-8, whatever was done to it.
pub proof fn lemma_text_is_valid(data: FileData)
    ensures
        data@.wf(),
{
    broadcast use encode_utf8_valid_utf8;

}

/// A buffer made of any bytes gives exactly those bytes back as binary.
pub proof fn lemma_binary_round_trip(bytes: Seq<u8>)
    ensures
        Content::of_bytes(bytes).bytes == bytes,
        Content::of_bytes(bytes).as_binary().bytes == bytes,
        Content::of_bytes(bytes).as_text().as_binary().bytes == bytes,
{
}

/// A buffer made of valid UTF-8 is text from the start, asking it for text
/// changes nothing, and the text it gives encodes to the bytes it was made of.
pub proof fn lemma_text_round_trip(bytes: Seq<u8>)
    requires
        valid_utf8(bytes),
    ensures
        Content::of_bytes(bytes).text,
        Content::of_bytes(bytes).as_text() == Content::of_bytes(bytes),
        encode_utf8(decode_utf8(bytes)) == bytes,
{
    broadcast use decode_utf8_encode_utf8;

}

/// Asking a buffer made of invalid UTF-8 for text changes nothing: it stays
/// binary and still gives the bytes it was made of.
pub proof fn lemma_invalid_stays_binary(bytes: Seq<u8>)
    requires
        !valid_utf8(bytes),
    ensures
        !Content::of_bytes(bytes).text,
        Content::of_bytes(bytes).as_text() == Content::of_bytes(bytes),
        Content::of_bytes(bytes).as_text().as_binary().bytes == bytes,
{
}

impl Default for FileData {
    /// An empty text buffer.
    fn default() -> (r: FileData)
        ensures
            r@ == (Content { text: true, bytes: Seq::empty() }),
            !r.owned(),
    {
        proof {
            reveal_strlit("");
        }
        FileData::Text(Cow::Borrowed(""))
    }
}

impl Clone for FileData {
    fn clone(&self) -> (r: FileData)
        ensures
            r@ == self@,
            r.owned() == self.owned(),
    {
        match self {
            FileData::Text(Cow::Borrowed(text)) => FileData::Text(Cow::Borrowed(*text)),
            FileData::Text(Cow::Owned(text)) => FileData::Text(Cow::Owned(text.clone())),
            FileData::Binary(Cow::Borrowed(binary)) => FileData::Binary(Cow::Borrowed(*binary)),
            FileData::Binary(Cow::Owned(binary)) => FileData::Binary(Cow::Owned(binary.clone())),
        }
    }

    /// Makes the buffer equal to `source`. Where both own their storage the
    /// buffer keeps its own and copies into it, whatever its label was.
    fn clone_from(&mut self, source: &FileData)
        ensures
            final(self)@ == source@,
            final(self).owned() == source.owned(),
    {
        match source {
            FileData::Text(Cow::Owned(text)) => if self.is_owned() {
                self.clear();
                match self.make_text() {
                    Ok(kept) => {
                        let kept = cow_str_to_mut(kept);
                        kept.append(text.as_str());
                        assert(kept@ =~= text@);
                    },
                    // No bytes are valid text.
                    Err(_) => unreached(),
                }
            } else {
                *self = source.clone();
            },
            FileData::Binary(Cow::Owned(binary)) => if self.is_owned() {
                let kept = cow_bytes_to_mut(self.make_binary());
                kept.clear();
                kept.extend_from_slice(binary.as_slice());
                assert(kept@ =~= binary@);
            } else {
                *self = source.clone();
            },
            _ => {
                *self = source.clone();
            },
        }
    }
}

} // verus!
