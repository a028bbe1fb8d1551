//! UTF-8 validation at the boundary between bytes and text.

use std::borrow::Cow;
use vstd::prelude::*;
use vstd::utf8::*;

verus! {

/// Why a byte sequence is not UTF-8.
#[derive(Clone, Copy, Debug, PartialEq, Eq, Hash)]
pub struct Utf8Error {
    /// Length of the longest prefix of the bytes that is valid UTF-8.
    pub valid_up_to: usize,
    /// Length of the invalid sequence that follows the valid prefix, where
    /// an unexpected byte was met; `None` where the bytes end in the middle
    /// of a character.
    pub error_len: Option<usize>,
}

/// `k` is the greatest length of a prefix of `bytes` that is valid UTF-8.
pub open spec fn is_valid_up_to(bytes: Seq<u8>, k: int) -> bool {
    &&& 0 <= k <= bytes.len()
    &&& valid_utf8(bytes.take(k))
    &&& forall|j: int| k < j <= bytes.len() ==> !valid_utf8(#[trigger] bytes.take(j))
}

/// `tail` starts a character and ends before the character does.
pub open spec fn cut_short(tail: Seq<u8>) -> bool {
    exists|more: Seq<u8>| #[trigger]
        valid_first_scalar(tail + more) && tail.len() < length_of_first_scalar(tail + more)
}

impl Utf8Error {
    /// The error says how `bytes` fail to be UTF-8: up to where they are
    /// valid, and whether they then end in the middle of a character or go
    /// on with a sequence of `error_len` bytes that is none.
    pub open spec fn describes(self, bytes: Seq<u8>) -> bool {
        &&& is_valid_up_to(bytes, self.valid_up_to as int)
        &&& match self.error_len {
            None => {
                &&& 1 <= bytes.len() - self.valid_up_to <= 3
                &&& cut_short(bytes.skip(self.valid_up_to as int))
            },
            Some(len) => {
                &&& 1 <= len
                &&& self.valid_up_to + len <= bytes.len()
                &&& !cut_short(bytes.skip(self.valid_up_to as int))
            },
        }
    }
}

/// Asking the same bytes for text again fails in the same way: the bytes
/// have one greatest valid prefix only.
pub proof fn lemma_valid_up_to_unique(bytes: Seq<u8>, first: int, second: int)
    requires
        is_valid_up_to(bytes, first),
        is_valid_up_to(bytes, second),
    ensures
        first == second,
{
}

/// Two errors for the same bytes agree on where the bytes stop being
/// valid and on what stops them, the end of the bytes or an unexpected byte.
pub proof fn lemma_errors_agree(bytes: Seq<u8>, first: Utf8Error, second: Utf8Error)
    requires
        first.describes(bytes),
        second.describes(bytes),
    ensures
        first.valid_up_to == second.valid_up_to,
        first.error_len is None <==> second.error_len is None,
{
    lemma_valid_up_to_unique(bytes, first.valid_up_to as int, second.valid_up_to as int);
}

/// `core::str::from_utf8`: succeeds exactly on valid UTF-8, and the text it
/// returns is made of the very bytes it was given. On failure the error's
/// `valid_up_to` is the greatest index up to which the input is valid, and
/// its `error_len` is `None` where the input ends in the middle of a
/// character, one to three bytes behind that index, and else the length of
/// the invalid sequence that starts at that index.
#[verifier::external_body]
pub(crate) fn str_from_utf8<'a>(bytes: &'a [u8]) -> (r: Result<&'a str, Utf8Error>)
    ensures
        r is Ok <==> valid_utf8(bytes@),
        r matches Ok(s) ==> encode_utf8(s@) == bytes@,
        r matches Err(e) ==> e.describes(bytes@),
{
    match core::str::from_utf8(bytes) {
        Ok(text) => Ok(text),
        Err(e) => Err(Utf8Error { valid_up_to: e.valid_up_to(), error_len: e.error_len() }),
    }
}

/// `core::str::from_utf8_mut`: as `core::str::from_utf8`, with the text
/// handed out for changing in place; what the text is in the end, the bytes
/// are. Bytes that are not valid are left as they are.
#[verifier::external_body]
pub(crate) fn str_from_utf8_mut<'a>(bytes: &'a mut [u8]) -> (r: Result<&'a mut str, Utf8Error>)
    ensures
        r is Ok <==> valid_utf8(old(bytes)@),
        r matches Ok(s) ==> encode_utf8(s@) == old(bytes)@ && final(bytes)@ == encode_utf8(
            final(s)@,
        ),
        r matches Err(e) ==> e.describes(old(bytes)@) && final(bytes)@ == old(bytes)@,
{
    match core::str::from_utf8_mut(bytes) {
        Ok(text) => Ok(text),
        Err(e) => Err(Utf8Error { valid_up_to: e.valid_up_to(), error_len: e.error_len() }),
    }
}

/// `String::from_utf8`: succeeds exactly on valid UTF-8, and the string takes
/// over the very bytes it was given; on failure the bytes come back unchanged
/// with the error that `core::str::from_utf8` gives for them.
#[verifier::external_body]
pub(crate) fn string_from_utf8(bytes: Vec<u8>) -> (r: Result<String, (Vec<u8>, Utf8Error)>)
    ensures
        r is Ok <==> valid_utf8(bytes@),
        r matches Ok(s) ==> encode_utf8(s@) == bytes@,
        r matches Err(e) ==> e.0@ == bytes@ && e.1.describes(bytes@),
{
    match String::from_utf8(bytes) {
        Ok(text) => Ok(text),
        Err(e) => {
            let valid_up_to = e.utf8_error().valid_up_to();
            let error_len = e.utf8_error().error_len();
            Err((e.into_bytes(), Utf8Error { valid_up_to, error_len }))
        },
    }
}

/// `String::into_bytes`: the string's UTF-8 encoding, without copying.
#[verifier::external_body]
pub(crate) fn string_into_bytes(text: String) -> (r: Vec<u8>)
    ensures
        r@ == encode_utf8(text@),
{
    text.into_bytes()
}

/// `String::clear`: removes all contents.
#[verifier::external_body]
pub(crate) fn string_clear(text: &mut String)
    ensures
        final(text)@ == Seq::<char>::empty(),
{
    text.clear()
}

/// `Cow::to_mut` on text: the text as an owned string, copied first where it
/// was borrowed. What the string holds in the end, the `Cow` holds.
#[verifier::external_body]
pub(crate) fn cow_str_to_mut<'a>(text: &'a mut Cow<'static, str>) -> (r: &'a mut String)
    ensures
        r@ == old(text)@,
        *final(text) == Cow::<'static, str>::Owned(*final(r)),
{
    text.to_mut()
}

/// `Cow::to_mut` on bytes: the bytes as an owned vector, copied first where
/// they were borrowed. What the vector holds in the end, the `Cow` holds.
#[verifier::external_body]
pub(crate) fn cow_bytes_to_mut<'a>(binary: &'a mut Cow<'static, [u8]>) -> (r: &'a mut Vec<u8>)
    ensures
        r@ == old(binary)@,
        *final(binary) == Cow::<'static, [u8]>::Owned(*final(r)),
{
    binary.to_mut()
}

/// `String::as_mut_str`: the string as a mutable slice of the same text.
#[verifier::external_body]
pub(crate) fn string_as_mut_str<'a>(text: &'a mut String) -> (r: &'a mut str)
    ensures
        r@ == old(text)@,
        final(text)@ == final(r)@,
{
    text.as_mut_str()
}

} // verus!
