//! The text of a UUID, and the calls into the `uuid` crate that write and
//! read it.
//!
//! A UUID is held as the 128-bit number that its sixteen bytes spell, most
//! significant byte first. Its text is that number in 32 hexadecimal digits,
//! in groups of 8, 4, 4, 4 and 12 with a hyphen between them: 36 characters.
//! The canonical text, which is what is written, has its digits in lower
//! case; a text with digits in upper case is read as well. No other form is
//! read.

use std::fmt::Write;
use std::str::FromStr;
use vstd::prelude::*;

verus! {

/// The `k`-th hexadecimal digit of `value`, counted from the most
/// significant one, as a number below 16.
pub open spec fn nibble(value: u128, k: int) -> u8 {
    ((value >> ((4 * (31 - k)) as u128)) & 0xf) as u8
}

/// The lower-case character for a hexadecimal digit.
pub open spec fn hex_digit(digit: u8) -> char {
    if digit < 10 {
        (0x30 + digit) as u8 as char
    } else {
        (0x57 + digit) as u8 as char
    }
}

/// The characters of the digits `first`, `first + 1`, .. of `value`,
/// `count` of them.
pub open spec fn hex_digits(value: u128, first: int, count: nat) -> Seq<char> {
    Seq::new(count, |j: int| hex_digit(nibble(value, first + j)))
}

/// The canonical text of the UUID `value`: 36 characters.
pub open spec fn uuid_text(value: u128) -> Seq<char> {
    hex_digits(value, 0, 8) + seq!['-'] + hex_digits(value, 8, 4) + seq!['-'] + hex_digits(
        value,
        12,
        4,
    ) + seq!['-'] + hex_digits(value, 16, 4) + seq!['-'] + hex_digits(value, 20, 12)
}

/// Where the `k`-th digit stands in the text of a UUID.
pub open spec fn digit_position(k: int) -> int {
    if k < 8 {
        k
    } else if k < 12 {
        k + 1
    } else if k < 16 {
        k + 2
    } else if k < 20 {
        k + 3
    } else {
        k + 4
    }
}

/// The canonical text has 36 characters: hyphens at 8, 13, 18 and 23, and
/// the digits in order at the other places.
pub proof fn lemma_uuid_text_shape(value: u128)
    ensures
        uuid_text(value).len() == 36,
        uuid_text(value)[8] == '-',
        uuid_text(value)[13] == '-',
        uuid_text(value)[18] == '-',
        uuid_text(value)[23] == '-',
        forall|k: int|
            0 <= k < 32 ==> #[trigger] uuid_text(value)[digit_position(k)] == hex_digit(
                nibble(value, k),
            ),
{
}

/// The canonical text is ASCII: every character of it takes one byte.
pub proof fn lemma_uuid_text_ascii(value: u128)
    ensures
        vstd::utf8::is_ascii_chars(uuid_text(value)),
        vstd::utf8::encode_utf8(uuid_text(value)).len() == 36,
{
    let text = uuid_text(value);
    assert forall|i: int| 0 <= i < text.len() implies '\0' <= #[trigger] text[i] <= '\u{7f}' by {
        if i != 8 && i != 13 && i != 18 && i != 23 {
            let k = if i < 8 {
                i
            } else if i < 13 {
                i - 1
            } else if i < 18 {
                i - 2
            } else if i < 23 {
                i - 3
            } else {
                i - 4
            };
            assert(text[i] == hex_digit(nibble(value, k)));
            lemma_nibble_bits(value, k);
        }
    }
    vstd::utf8::is_ascii_chars_encode_utf8(text);
}

/// A number is fixed by its 32 hexadecimal digits.
proof fn lemma_digits_fix_value(a: u128, b: u128)
    by (bit_vector)
    requires
        (a >> 124) & 0xf == (b >> 124) & 0xf,
        (a >> 120) & 0xf == (b >> 120) & 0xf,
        (a >> 116) & 0xf == (b >> 116) & 0xf,
        (a >> 112) & 0xf == (b >> 112) & 0xf,
        (a >> 108) & 0xf == (b >> 108) & 0xf,
        (a >> 104) & 0xf == (b >> 104) & 0xf,
        (a >> 100) & 0xf == (b >> 100) & 0xf,
        (a >> 96) & 0xf == (b >> 96) & 0xf,
        (a >> 92) & 0xf == (b >> 92) & 0xf,
        (a >> 88) & 0xf == (b >> 88) & 0xf,
        (a >> 84) & 0xf == (b >> 84) & 0xf,
        (a >> 80) & 0xf == (b >> 80) & 0xf,
        (a >> 76) & 0xf == (b >> 76) & 0xf,
        (a >> 72) & 0xf == (b >> 72) & 0xf,
        (a >> 68) & 0xf == (b >> 68) & 0xf,
        (a >> 64) & 0xf == (b >> 64) & 0xf,
        (a >> 60) & 0xf == (b >> 60) & 0xf,
        (a >> 56) & 0xf == (b >> 56) & 0xf,
        (a >> 52) & 0xf == (b >> 52) & 0xf,
        (a >> 48) & 0xf == (b >> 48) & 0xf,
        (a >> 44) & 0xf == (b >> 44) & 0xf,
        (a >> 40) & 0xf == (b >> 40) & 0xf,
        (a >> 36) & 0xf == (b >> 36) & 0xf,
        (a >> 32) & 0xf == (b >> 32) & 0xf,
        (a >> 28) & 0xf == (b >> 28) & 0xf,
        (a >> 24) & 0xf == (b >> 24) & 0xf,
        (a >> 20) & 0xf == (b >> 20) & 0xf,
        (a >> 16) & 0xf == (b >> 16) & 0xf,
        (a >> 12) & 0xf == (b >> 12) & 0xf,
        (a >> 8) & 0xf == (b >> 8) & 0xf,
        (a >> 4) & 0xf == (b >> 4) & 0xf,
        (a >> 0) & 0xf == (b >> 0) & 0xf,
    ensures
        a == b,
{
}

/// A digit is below 16, and is the value's bits at its place.
proof fn lemma_nibble_bits(value: u128, k: int)
    requires
        0 <= k < 32,
    ensures
        nibble(value, k) < 16,
        nibble(value, k) as u128 == (value >> ((4 * (31 - k)) as u128)) & 0xf,
{
    let shifted = value >> ((4 * (31 - k)) as u128);
    assert(shifted & 0xf < 16) by (bit_vector);
}

/// The number that a character stands for as a hexadecimal digit, in
/// either case, if it is one.
pub open spec fn hex_value(c: char) -> Option<u8> {
    if '0' <= c <= '9' {
        Some((c as u8 - 0x30) as u8)
    } else if 'a' <= c <= 'f' {
        Some((c as u8 - 0x57) as u8)
    } else if 'A' <= c <= 'F' {
        Some((c as u8 - 0x37) as u8)
    } else {
        None
    }
}

/// Whether `text` has the form of a UUID: 36 characters, of which those at
/// 8, 13, 18 and 23 are hyphens and the other 32 are hexadecimal digits.
pub open spec fn is_hyphenated(text: Seq<char>) -> bool {
    &&& text.len() == 36
    &&& text[8] == '-'
    &&& text[13] == '-'
    &&& text[18] == '-'
    &&& text[23] == '-'
    &&& forall|k: int| 0 <= k < 32 ==> hex_value(#[trigger] text[digit_position(k)]) is Some
}

/// Whether the digits of `text` are those of `value`, each at its place.
pub open spec fn spells(text: Seq<char>, value: u128) -> bool {
    forall|k: int|
        0 <= k < 32 ==> hex_value(#[trigger] text[digit_position(k)]) == Some(nibble(value, k))
}

/// The UUID that a text of the form of a UUID spells.
pub open spec fn hyphenated_value(text: Seq<char>) -> u128
    recommends
        is_hyphenated(text),
{
    choose|value: u128| spells(text, value)
}

/// The canonical text of a UUID has the form of a UUID and spells it.
pub proof fn lemma_uuid_text_spells(value: u128)
    ensures
        is_hyphenated(uuid_text(value)),
        spells(uuid_text(value), value),
{
    lemma_uuid_text_shape(value);
    let text = uuid_text(value);
    assert forall|k: int| 0 <= k < 32 implies hex_value(#[trigger] text[digit_position(k)])
        == Some(nibble(value, k)) by {
        lemma_nibble_bits(value, k);
    }
}

/// The number `x` with the digit `d` behind its own.
pub open spec fn with_digit(x: u128, d: u8) -> u128 {
    (x << 4) | (d as u128)
}

/// The number that the first `count` digits of `text` make.
pub open spec fn digits_value(text: Seq<char>, count: nat) -> u128
    decreases count,
{
    if count == 0 {
        0
    } else {
        with_digit(
            digits_value(text, (count - 1) as nat),
            hex_value(text[digit_position(count - 1)]).unwrap(),
        )
    }
}

/// A digit that is shifted in stands at the end, and those before it move
/// up by one place.
proof fn lemma_shift_in(x: u128, d: u128, s: u128, t: u128)
    by (bit_vector)
    requires
        d < 16,
        s <= 120,
        t == s + 4,
    ensures
        ((x << 4) | d) & 0xf == d,
        (((x << 4) | d) >> t) & 0xf == (x >> s) & 0xf,
{
}

/// The number that the first `count` digits make has these digits, the
/// last of them at the end.
proof fn lemma_digits_value(text: Seq<char>, count: nat, j: int)
    requires
        is_hyphenated(text),
        0 <= j < count <= 32,
    ensures
        (digits_value(text, count) >> ((4 * (count - 1 - j)) as u128)) & 0xf == hex_value(
            text[digit_position(j)],
        ).unwrap() as u128,
    decreases count,
{
    let before = digits_value(text, (count - 1) as nat);
    let last = hex_value(text[digit_position(count - 1)]).unwrap() as u128;
    assert(hex_value(text[digit_position(count - 1)]) is Some);
    if j == count - 1 {
        lemma_shift_in(before, last, 0, 4);
        let value = digits_value(text, count);
        assert(value >> 0 == value) by (bit_vector);
    } else {
        lemma_digits_value(text, (count - 1) as nat, j);
        let s = (4 * (count - 2 - j)) as u128;
        lemma_shift_in(before, last, s, (s + 4) as u128);
    }
}

/// Every text of the form of a UUID spells a UUID: the one that its 32
/// digits make.
pub proof fn lemma_hyphenated_spells(text: Seq<char>)
    requires
        is_hyphenated(text),
    ensures
        spells(text, digits_value(text, 32)),
        spells(text, hyphenated_value(text)),
{
    let value = digits_value(text, 32);
    assert forall|k: int| 0 <= k < 32 implies hex_value(#[trigger] text[digit_position(k)])
        == Some(nibble(value, k)) by {
        lemma_digits_value(text, 32, k);
        assert(hex_value(text[digit_position(k)]) is Some);
    }
    assert(spells(text, value));
}

/// Where a text spells two numbers, they agree in each digit.
proof fn lemma_digit_agrees(text: Seq<char>, a: u128, b: u128, k: int)
    requires
        0 <= k < 32,
        spells(text, a),
        spells(text, b),
    ensures
        (a >> ((4 * (31 - k)) as u128)) & 0xf == (b >> ((4 * (31 - k)) as u128)) & 0xf,
{
    lemma_nibble_bits(a, k);
    lemma_nibble_bits(b, k);
    assert(hex_value(text[digit_position(k)]) == Some(nibble(a, k)));
    assert(hex_value(text[digit_position(k)]) == Some(nibble(b, k)));
}

/// A text spells one UUID at most.
pub proof fn lemma_spells_one_value(text: Seq<char>, a: u128, b: u128)
    requires
        spells(text, a),
        spells(text, b),
    ensures
        a == b,
{
    lemma_digit_agrees(text, a, b, 0);
    lemma_digit_agrees(text, a, b, 1);
    lemma_digit_agrees(text, a, b, 2);
    lemma_digit_agrees(text, a, b, 3);
    lemma_digit_agrees(text, a, b, 4);
    lemma_digit_agrees(text, a, b, 5);
    lemma_digit_agrees(text, a, b, 6);
    lemma_digit_agrees(text, a, b, 7);
    lemma_digit_agrees(text, a, b, 8);
    lemma_digit_agrees(text, a, b, 9);
    lemma_digit_agrees(text, a, b, 10);
    lemma_digit_agrees(text, a, b, 11);
    lemma_digit_agrees(text, a, b, 12);
    lemma_digit_agrees(text, a, b, 13);
    lemma_digit_agrees(text, a, b, 14);
    lemma_digit_agrees(text, a, b, 15);
    lemma_digit_agrees(text, a, b, 16);
    lemma_digit_agrees(text, a, b, 17);
    lemma_digit_agrees(text, a, b, 18);
    lemma_digit_agrees(text, a, b, 19);
    lemma_digit_agrees(text, a, b, 20);
    lemma_digit_agrees(text, a, b, 21);
    lemma_digit_agrees(text, a, b, 22);
    lemma_digit_agrees(text, a, b, 23);
    lemma_digit_agrees(text, a, b, 24);
    lemma_digit_agrees(text, a, b, 25);
    lemma_digit_agrees(text, a, b, 26);
    lemma_digit_agrees(text, a, b, 27);
    lemma_digit_agrees(text, a, b, 28);
    lemma_digit_agrees(text, a, b, 29);
    lemma_digit_agrees(text, a, b, 30);
    lemma_digit_agrees(text, a, b, 31);
    lemma_digits_fix_value(a, b);
}

/// What `Hyphenated::from_str` of the `uuid` crate returns for `text`, the
/// UUID as its number.
pub uninterp spec fn hyphenated_from_str(text: Seq<char>) -> Result<u128, uuid::Error>;

/// How a text is read as a UUID. A text of the form of a UUID is read as
/// the UUID that it spells. Any other text is refused, with the error that
/// the parser of the `uuid` crate gives for it.
pub open spec fn uuid_reading(text: Seq<char>) -> Result<u128, uuid::Error> {
    if is_hyphenated(text) {
        Ok(hyphenated_value(text))
    } else {
        Err(hyphenated_from_str(text)->Err_0)
    }
}

/// Reads a UUID with `Hyphenated::from_str`, the parser of the `uuid` crate
/// that takes the hyphenated form only, and hands it out as its number
/// (`Hyphenated::into_uuid`, `Uuid::as_u128`). The contract claims three
/// things of the parser that are not proved here: what it returns depends on
/// the text alone; it takes a text exactly if that has 36 bytes, hyphens at
/// 8, 13, 18 and 23 and hexadecimal digits of either case elsewhere, which
/// makes it a text of 36 characters; and the UUID that it returns has those
/// digits.
#[verifier::external_body]
pub(crate) fn parse_uuid(text: &str) -> (parsed: Result<u128, uuid::Error>)
    ensures
        parsed == hyphenated_from_str(text@),
        parsed == uuid_reading(text@),
{
    match uuid::fmt::Hyphenated::from_str(text) {
        Ok(id) => Ok(id.into_uuid().as_u128()),
        Err(cause) => Err(cause),
    }
}

/// Writes the UUID with the number `value` (`Uuid::from_u128`) at the end of
/// `buffer`, through its `Display`. The contract claims that what is written
/// is the canonical text, and that the rest of the buffer stays.
#[verifier::external_body]
pub(crate) fn push_uuid(buffer: &mut String, value: u128)
    ensures
        final(buffer)@ == old(buffer)@ + uuid_text(value),
{
    let _ = write!(buffer, "{}", uuid::Uuid::from_u128(value));
}

} // verus!
