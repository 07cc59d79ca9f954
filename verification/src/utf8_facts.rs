//! Facts about UTF-8 that tie the bytes of a text to its characters.

use vstd::prelude::*;
use vstd::utf8::*;

verus! {

/// The bytes of two texts in a row are the bytes of the one, then the bytes
/// of the other.
pub proof fn lemma_encode_concat(a: Seq<char>, b: Seq<char>)
    ensures
        encode_utf8(a + b) == encode_utf8(a) + encode_utf8(b),
    decreases a.len(),
{
    if a.len() == 0 {
        assert(a + b =~= b);
        assert(encode_utf8(a) + encode_utf8(b) =~= encode_utf8(b));
    } else {
        assert((a + b).drop_first() =~= a.drop_first() + b);
        lemma_encode_concat(a.drop_first(), b);
        assert(encode_utf8(a + b) =~= encode_utf8(a) + encode_utf8(b));
    }
}

/// Two texts with the same bytes are the same text.
pub proof fn lemma_encode_injective(a: Seq<char>, b: Seq<char>)
    requires
        encode_utf8(a) == encode_utf8(b),
    ensures
        a == b,
{
    encode_utf8_decode_utf8(a);
    encode_utf8_decode_utf8(b);
}

/// An ASCII character takes one byte, its own number.
pub proof fn lemma_encode_ascii(c: char)
    requires
        c <= '\u{7f}',
    ensures
        encode_utf8(seq![c]) == seq![c as u8],
{
    assert(is_ascii_chars(seq![c]));
    is_ascii_chars_encode_utf8(seq![c]);
    assert(encode_utf8(seq![c]) =~= seq![c as u8]);
}

/// Where one well-formed run of bytes ends and the next begins, a
/// character begins.
pub proof fn lemma_boundary_at_joint(first: Seq<u8>, second: Seq<u8>)
    requires
        valid_utf8(first),
        valid_utf8(second),
    ensures
        is_char_boundary(first + second, first.len() as int),
    decreases first.len(),
{
    valid_utf8_concat(first, second);
    if first.len() > 0 {
        let rest = pop_first_scalar(first);
        assert(pop_first_scalar(first + second) =~= rest + second);
        assert(length_of_first_scalar(first + second) == length_of_first_scalar(first));
        lemma_boundary_at_joint(rest, second);
    }
}

} // verus!
