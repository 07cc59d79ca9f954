//! The text form `<prefix>-<uuid>`: what it is, how it is written and how
//! it is read back.

use crate::error::IdParseError;
use crate::utf8_facts::{
    lemma_boundary_at_joint, lemma_encode_ascii, lemma_encode_concat, lemma_encode_injective,
};
use crate::uuid_text::{lemma_uuid_text_ascii, parse_uuid, push_uuid, uuid_reading, uuid_text};
use crate::{SEPARATOR, SEPARATOR_LENGTH, UUID_STRING_LENGTH};
use vstd::prelude::*;
use vstd::utf8::*;

verus! {

/// The text of the identifier with the given prefix and UUID: the prefix,
/// the separator, and the canonical text of the UUID.
pub open spec fn encoding(prefix: Seq<char>, payload: u128) -> Seq<char> {
    prefix + seq![SEPARATOR] + uuid_text(payload)
}

/// Whether `text` starts with `prefix` and has the separator right behind
/// it. The separator is part of the test, so that the prefix `user` does not
/// match a text that starts with `user2-`.
pub open spec fn has_prefix(prefix: Seq<char>, text: Seq<char>) -> bool {
    &&& prefix.len() < text.len()
    &&& text.subrange(0, prefix.len() as int) == prefix
    &&& text[prefix.len() as int] == SEPARATOR
}

/// What stands in `text` behind the prefix and its separator.
pub open spec fn payload_text(prefix: Seq<char>, text: Seq<char>) -> Seq<char>
    recommends
        has_prefix(prefix, text),
{
    text.subrange(prefix.len() as int + 1, text.len() as int)
}

/// The outcome of parsing, given what the UUID parser made of the payload.
pub open spec fn payload_outcome(parsed: Result<u128, uuid::Error>) -> Result<u128, IdParseError> {
    match parsed {
        Ok(payload) => Ok(payload),
        Err(cause) => Err(IdParseError::InvalidUuid(cause)),
    }
}

/// What parsing `text` as an identifier with the given prefix returns: the
/// UUID, or the reason why there is none.
pub open spec fn decoding(prefix: Seq<char>, text: Seq<char>) -> Result<u128, IdParseError> {
    if has_prefix(prefix, text) {
        payload_outcome(uuid_reading(payload_text(prefix, text)))
    } else {
        Err(IdParseError::InvalidPrefix)
    }
}

/// The text of an identifier has as many characters as its prefix and 37
/// more, and as many bytes as its prefix and 37 more: one for the separator
/// and 36 for the UUID.
pub proof fn lemma_encoding_length(prefix: Seq<char>, payload: u128)
    ensures
        encoding(prefix, payload).len() == prefix.len() + SEPARATOR_LENGTH + UUID_STRING_LENGTH,
        encode_utf8(encoding(prefix, payload)).len() == encode_utf8(prefix).len()
            + SEPARATOR_LENGTH + UUID_STRING_LENGTH,
{
    lemma_uuid_text_ascii(payload);
    lemma_encode_concat(prefix + seq![SEPARATOR], uuid_text(payload));
    lemma_encode_concat(prefix, seq![SEPARATOR]);
    lemma_encode_ascii(SEPARATOR);
}

/// [`has_prefix`], said of the bytes of the two texts.
spec fn bytes_have_prefix(lead: Seq<u8>, bytes: Seq<u8>) -> bool {
    &&& lead.len() < bytes.len()
    &&& bytes.subrange(0, lead.len() as int) == lead
    &&& bytes[lead.len() as int] == SEPARATOR as u8
}

/// A text with the prefix has it in its bytes too, and its payload begins
/// at a character.
proof fn lemma_prefix_in_bytes(prefix: Seq<char>, text: Seq<char>)
    requires
        has_prefix(prefix, text),
    ensures
        bytes_have_prefix(encode_utf8(prefix), encode_utf8(text)),
        is_char_boundary(encode_utf8(text), encode_utf8(prefix).len() as int + 1),
        encode_utf8(text).subrange(
            encode_utf8(prefix).len() as int + 1,
            encode_utf8(text).len() as int,
        ) == encode_utf8(payload_text(prefix, text)),
{
    let head = prefix + seq![SEPARATOR];
    let rest = payload_text(prefix, text);
    let lead = encode_utf8(prefix);
    assert(text =~= head + rest);
    lemma_encode_concat(head, rest);
    lemma_encode_concat(prefix, seq![SEPARATOR]);
    lemma_encode_ascii(SEPARATOR);
    assert(encode_utf8(head) =~= lead + seq![0x2du8]);
    let bytes = encode_utf8(head) + encode_utf8(rest);
    assert(bytes.subrange(0, lead.len() as int) =~= lead);
    assert(bytes.subrange(lead.len() as int + 1, bytes.len() as int) =~= encode_utf8(rest));
    encode_utf8_valid_utf8(head);
    encode_utf8_valid_utf8(rest);
    lemma_boundary_at_joint(encode_utf8(head), encode_utf8(rest));
}

/// A text whose bytes have the prefix has it in its characters.
proof fn lemma_prefix_from_bytes(prefix: Seq<char>, text: Seq<char>)
    requires
        bytes_have_prefix(encode_utf8(prefix), encode_utf8(text)),
    ensures
        has_prefix(prefix, text),
{
    let lead = encode_utf8(prefix);
    let bytes = encode_utf8(text);
    let n = lead.len() as int;
    let tail = bytes.subrange(n, bytes.len() as int);
    encode_utf8_valid_utf8(text);
    encode_utf8_decode_utf8(text);
    encode_utf8_decode_utf8(prefix);
    is_char_boundary_iff_is_leading_byte(bytes, n);
    valid_utf8_split(bytes, n);
    decode_utf8_split(bytes, n);
    assert(tail[0] == 0x2d);
    assert(0x2du8 & 0x7f == 0x2d) by (bit_vector);
    assert(decode_first_scalar(tail) == 0x2d);
    assert(decode_utf8(tail) == seq![0x2du32 as char] + decode_utf8(pop_first_scalar(tail)));
    assert(text =~= prefix + (seq![SEPARATOR] + decode_utf8(pop_first_scalar(tail))));
    assert(text.subrange(0, prefix.len() as int) =~= prefix);
}

/// Looks for the prefix and its separator at the start of `text`, and hands
/// out what stands behind them.
pub fn strip_prefix<'a>(prefix: &str, text: &'a str) -> (rest: Option<&'a str>)
    ensures
        rest is Some <==> has_prefix(prefix@, text@),
        rest matches Some(payload) ==> payload@ == payload_text(prefix@, text@),
{
    let lead = prefix.as_bytes();
    let bytes = text.as_bytes();
    let n = lead.len();
    proof {
        if has_prefix(prefix@, text@) {
            lemma_prefix_in_bytes(prefix@, text@);
        }
    }
    if bytes.len() <= n {
        return None;
    }
    let mut i: usize = 0;
    while i < n
        invariant
            i <= n,
            n == lead@.len(),
            n < bytes@.len(),
            forall|j: int| 0 <= j < i ==> bytes@[j] == lead@[j],
            has_prefix(prefix@, text@) ==> bytes_have_prefix(lead@, bytes@),
        decreases n - i,
    {
        if bytes[i] != lead[i] {
            return None;
        }
        i += 1;
    }
    if bytes[n] != SEPARATOR as u8 {
        return None;
    }
    proof {
        assert(bytes@.subrange(0, n as int) =~= lead@);
        lemma_prefix_from_bytes(prefix@, text@);
        lemma_prefix_in_bytes(prefix@, text@);
    }
    let (_, payload) = text.split_at(n + 1);
    proof {
        lemma_encode_injective(payload@, payload_text(prefix@, text@));
    }
    Some(payload)
}

/// Turns what the UUID parser returned into the outcome of parsing an
/// identifier.
pub fn from_parsed(parsed: Result<u128, uuid::Error>) -> (outcome: Result<u128, IdParseError>)
    ensures
        outcome == payload_outcome(parsed),
{
    match parsed {
        Ok(payload) => Ok(payload),
        Err(cause) => Err(IdParseError::InvalidUuid(cause)),
    }
}

/// Parses `text` as an identifier with the given prefix.
///
/// The text must start with the prefix and the separator; what follows is
/// handed to the UUID parser.
pub fn decode(prefix: &str, text: &str) -> (outcome: Result<u128, IdParseError>)
    ensures
        outcome == decoding(prefix@, text@),
{
    match strip_prefix(prefix, text) {
        Some(payload) => from_parsed(parse_uuid(payload)),
        None => Err(IdParseError::InvalidPrefix),
    }
}

/// `String::with_capacity`: an empty text with room for `capacity` bytes.
/// It panics where the capacity is over `isize::MAX`.
pub assume_specification[ String::with_capacity ](capacity: usize) -> (buffer: String)
    requires
        capacity <= isize::MAX,
    ensures
        buffer@ == Seq::<char>::empty(),
;

/// `String::push`: the character comes at the end, and the rest stays.
pub assume_specification[ String::push ](buffer: &mut String, ch: char)
    ensures
        final(buffer)@ == old(buffer)@.push(ch),
;

/// Writes the identifier with the given prefix and UUID as text.
///
/// The buffer is made with room for the whole text, so that it never grows
/// while it is filled. The prefix is taken as it is: an empty one, or one
/// that holds the separator, is written like any other.
pub fn encode(prefix: &str, payload: u128) -> (text: String)
    ensures
        text@ == encoding(prefix@, payload),
        encode_utf8(text@).len() == encode_utf8(prefix@).len() + SEPARATOR_LENGTH
            + UUID_STRING_LENGTH,
{
    let fixed: usize = UUID_STRING_LENGTH + SEPARATOR_LENGTH;
    // No text is longer than `isize::MAX` bytes, so the first branch is the
    // one that runs; nothing here states that limit, hence the second.
    let mut text = if prefix.len() <= isize::MAX as usize - fixed {
        String::with_capacity(prefix.len() + fixed)
    } else {
        String::new()
    };
    text.append(prefix);
    text.push(SEPARATOR);
    push_uuid(&mut text, payload);
    proof {
        assert(text@ =~= encoding(prefix@, payload));
        lemma_encoding_length(prefix@, payload);
    }
    text
}

} // verus!
