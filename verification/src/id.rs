//! The contract that every kind of identifier meets, and the operations
//! that all kinds share.
//!
//! A kind is a type that implements [`Id`]. The trait asks for three
//! things: the prefix, a way in from a UUID and a way out to it. What it
//! promises of them is what parsing and writing rest on: the prefix of a
//! kind never changes, and an identifier gives back the UUID that it was
//! made from.

use crate::encoding::{decode, decoding, encode, encoding};
use crate::error::IdParseError;
use crate::{SEPARATOR_LENGTH, UUID_STRING_LENGTH};
use vstd::prelude::*;
use vstd::utf8::encode_utf8;

verus! {

/// A kind of identifier: a type with a fixed prefix that wraps a 128-bit
/// UUID, held as the number that its sixteen bytes spell.
///
/// Two kinds are two types, so an identifier of one kind is never taken for
/// one of another, even where both wrap the same UUID.
///
/// A kind that is written in plain Rust gives the three methods and nothing
/// else, and is taken at its word that they keep what is promised here.
pub trait Id: Sized {
    /// The prefix of this kind, as a text. It is left open here, one text
    /// for each kind: it is what [`Id::prefix`] answers.
    open spec fn prefix_text() -> Seq<char> {
        arbitrary::<spec_fn(Self) -> Seq<char>>()(arbitrary())
    }

    /// The UUID that an identifier wraps. It is left open here, for each
    /// kind: it is what [`Id::get`] hands out.
    open spec fn payload(self) -> u128 {
        arbitrary::<spec_fn(Self) -> u128>()(self)
    }

    /// The prefix of this kind: the same text at every call.
    fn prefix() -> (prefix: &'static str)
        ensures
            prefix@ == Self::prefix_text(),
    ;

    /// Wraps a UUID. This never fails.
    fn from_uuid(payload: u128) -> (id: Self)
        ensures
            id.payload() == payload,
    ;

    /// Hands out the UUID and gives up the identifier.
    fn get(self) -> (payload: u128)
        ensures
            payload == self.payload(),
    ;
}

/// What parsing `text` gives for the kind `T`: an identifier that wraps the
/// UUID in the text, or the reason why the text holds none.
pub open spec fn is_parsed<T: Id>(text: Seq<char>, outcome: Result<T, IdParseError>) -> bool {
    match decoding(T::prefix_text(), text) {
        Ok(payload) => outcome matches Ok(id) && id.payload() == payload,
        Err(reason) => outcome == Err::<T, IdParseError>(reason),
    }
}

/// What reading the scalar `text` gives for the kind `T`: as [`is_parsed`],
/// but with the message of the error in place of the error.
pub open spec fn is_deserialized<T: Id>(text: Seq<char>, outcome: Result<T, String>) -> bool {
    match decoding(T::prefix_text(), text) {
        Ok(payload) => outcome matches Ok(id) && id.payload() == payload,
        Err(reason) => outcome matches Err(message) && message@ == reason.message_text(),
    }
}

/// The text of the identifier `id`: the text form under the prefix of its
/// kind.
pub open spec fn serialized<T: Id>(id: T) -> Seq<char> {
    encoding(T::prefix_text(), id.payload())
}

/// Parses an identifier of the kind `T`: the text must start with the
/// prefix of the kind and the separator, and a UUID must follow.
pub fn parse<T: Id>(text: &str) -> (outcome: Result<T, IdParseError>)
    ensures
        is_parsed(text@, outcome),
{
    match decode(T::prefix(), text) {
        Ok(payload) => Ok(T::from_uuid(payload)),
        Err(reason) => Err(reason),
    }
}

/// Writes an identifier as the one text scalar that stands for it in a
/// structured format, which is also how it is displayed. The text is 37
/// bytes longer than the prefix.
pub fn serialize<T: Id>(id: T) -> (text: String)
    ensures
        text@ == serialized(id),
        encode_utf8(text@).len() == encode_utf8(T::prefix_text()).len() + SEPARATOR_LENGTH
            + UUID_STRING_LENGTH,
{
    encode(T::prefix(), id.get())
}

/// Reads an identifier of the kind `T` from a text scalar of a structured
/// format. Where the text is no identifier, the error is the message of the
/// parse error, for the format's own error to carry.
pub fn deserialize<T: Id>(text: &str) -> (outcome: Result<T, String>)
    ensures
        is_deserialized(text@, outcome),
{
    match decode(T::prefix(), text) {
        Ok(payload) => Ok(T::from_uuid(payload)),
        Err(reason) => Err(reason.message()),
    }
}

} // verus!
