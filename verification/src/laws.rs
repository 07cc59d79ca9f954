//! What holds of the text form for every prefix and every UUID.

use crate::encoding::{decoding, encoding, has_prefix, payload_text};
use crate::error::IdParseError;
use crate::id::{is_parsed, serialized, Id};
use crate::uuid_text::{
    hyphenated_value, is_hyphenated, lemma_hyphenated_spells, lemma_spells_one_value,
    lemma_uuid_text_spells, spells, uuid_reading, uuid_text,
};
use crate::SEPARATOR;
use vstd::prelude::*;

verus! {

/// The canonical text of a UUID is read back as that UUID.
pub proof fn lemma_uuid_text_read_back(payload: u128)
    ensures
        uuid_reading(uuid_text(payload)) == Ok::<u128, uuid::Error>(payload),
{
    let text = uuid_text(payload);
    lemma_uuid_text_spells(payload);
    lemma_spells_one_value(text, hyphenated_value(text), payload);
}

/// Round trip: the text of an identifier parses, under the same prefix, to
/// the UUID that it was written from. This holds for every prefix, also an
/// empty one and one with a hyphen in it.
pub proof fn lemma_round_trip(prefix: Seq<char>, payload: u128)
    ensures
        decoding(prefix, encoding(prefix, payload)) == Ok::<u128, IdParseError>(payload),
{
    let text = encoding(prefix, payload);
    assert(text.subrange(0, prefix.len() as int) =~= prefix);
    assert(has_prefix(prefix, text));
    assert(payload_text(prefix, text) =~= uuid_text(payload));
    lemma_uuid_text_read_back(payload);
}

/// Round trip for a kind: parsing the text of an identifier gives an
/// identifier of the same kind that wraps the same UUID.
pub proof fn lemma_kind_round_trip<T: Id>(id: T, outcome: Result<T, IdParseError>)
    requires
        is_parsed(serialized(id), outcome),
    ensures
        outcome matches Ok(back) && back.payload() == id.payload(),
{
    lemma_round_trip(T::prefix_text(), id.payload());
}

/// The separator is part of the prefix test: a text in which anything but
/// the separator follows the prefix is refused for its prefix, whatever
/// comes after.
pub proof fn lemma_separator_is_checked(prefix: Seq<char>, text: Seq<char>)
    requires
        prefix.len() < text.len(),
        text[prefix.len() as int] != SEPARATOR,
    ensures
        decoding(prefix, text) == Err::<u128, IdParseError>(IdParseError::InvalidPrefix),
{
}

/// Success is owed exactly where the prefix and the separator are there
/// and a text of the form of a UUID follows, and then the UUID is the one
/// that this text spells, digit by digit.
pub proof fn lemma_accepted_exactly(prefix: Seq<char>, text: Seq<char>)
    ensures
        decoding(prefix, text) is Ok <==> has_prefix(prefix, text) && is_hyphenated(
            payload_text(prefix, text),
        ),
        decoding(prefix, text) matches Ok(payload) ==> spells(
            payload_text(prefix, text),
            payload,
        ),
{
    if has_prefix(prefix, text) && is_hyphenated(payload_text(prefix, text)) {
        lemma_hyphenated_spells(payload_text(prefix, text));
    }
}

/// The case of the digits does not matter to what is read: two payloads
/// that spell the same UUID are read as the same UUID.
pub proof fn lemma_spelling_decides(prefix: Seq<char>, text: Seq<char>, payload: u128)
    requires
        has_prefix(prefix, text),
        is_hyphenated(payload_text(prefix, text)),
        spells(payload_text(prefix, text), payload),
    ensures
        decoding(prefix, text) == Ok::<u128, IdParseError>(payload),
{
    let digits = payload_text(prefix, text);
    lemma_hyphenated_spells(digits);
    lemma_spells_one_value(digits, hyphenated_value(digits), payload);
}

/// A malformed UUID is refused as such: behind the prefix and the
/// separator, a text that has not the form of a UUID gives `InvalidUuid`. So
/// a UUID that was cut short is never read as a shorter one, and one without
/// its hyphens, in braces or as a URN is not read either.
pub proof fn lemma_malformed_is_refused(prefix: Seq<char>, text: Seq<char>)
    requires
        has_prefix(prefix, text),
        !is_hyphenated(payload_text(prefix, text)),
    ensures
        decoding(prefix, text) matches Err(reason) && reason is InvalidUuid,
{
}

/// Only a payload of 36 characters is read.
pub proof fn lemma_wrong_length_is_refused(prefix: Seq<char>, text: Seq<char>)
    requires
        has_prefix(prefix, text),
        text.len() != prefix.len() + 37,
    ensures
        decoding(prefix, text) matches Err(reason) && reason is InvalidUuid,
{
}

/// Kinds stay apart: where neither of two different prefixes holds the
/// separator, the text of an identifier of the one kind is refused for its
/// prefix by the other.
pub proof fn lemma_kinds_apart(prefix: Seq<char>, other: Seq<char>, payload: u128)
    requires
        prefix != other,
        !prefix.contains(SEPARATOR),
        !other.contains(SEPARATOR),
    ensures
        decoding(other, encoding(prefix, payload)) == Err::<u128, IdParseError>(
            IdParseError::InvalidPrefix,
        ),
{
    let text = encoding(prefix, payload);
    if has_prefix(other, text) {
        if other.len() < prefix.len() {
            assert(text[other.len() as int] == prefix[other.len() as int]);
            assert(prefix.contains(SEPARATOR));
        } else if other.len() > prefix.len() {
            assert(text.subrange(0, other.len() as int)[prefix.len() as int] == SEPARATOR);
            assert(other[prefix.len() as int] == SEPARATOR);
            assert(other.contains(SEPARATOR));
        } else {
            assert(text.subrange(0, prefix.len() as int) =~= prefix);
        }
    }
}

/// Kinds stay apart, said of two kinds: where their prefixes differ and
/// neither holds the separator, parsing the text of an identifier of the one
/// kind as the other fails for its prefix.
pub proof fn lemma_kind_refuses_another<A: Id, B: Id>(id: A, outcome: Result<B, IdParseError>)
    requires
        A::prefix_text() != B::prefix_text(),
        !A::prefix_text().contains(SEPARATOR),
        !B::prefix_text().contains(SEPARATOR),
        is_parsed(serialized(id), outcome),
    ensures
        outcome == Err::<B, IdParseError>(IdParseError::InvalidPrefix),
{
    lemma_kinds_apart(A::prefix_text(), B::prefix_text(), id.payload());
}

} // verus!
