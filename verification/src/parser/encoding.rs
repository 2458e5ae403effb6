//! Facts about UTF-8 that the decoder rests on: how the encoding of a text is
//! made of the encodings of its parts, where characters start, and which bytes
//! can be a backslash.

use crate::parser::escape::BACKSLASH;
use vstd::prelude::*;
use vstd::utf8::{
    decode_first_scalar, encode_scalar, encode_utf8, encode_utf8_decode_utf8,
    encode_utf8_valid_utf8, has_width_1_encoding, is_char_boundary,
    is_char_boundary_iff_not_is_continuation_byte, is_char_boundary_start_end_of_seq,
    pop_first_scalar, valid_utf8, valid_utf8_split,
};

verus! {

/// The character that starts at the byte offset `offset` of the UTF-8 text
/// `bytes`.
pub open spec fn char_at(bytes: Seq<u8>, offset: int) -> char {
    decode_first_scalar(bytes.subrange(offset, bytes.len() as int)) as char
}

/// The encoding of a text is the encoding of its parts, one after the other.
pub proof fn lemma_encode_utf8_concat(first: Seq<char>, second: Seq<char>)
    ensures
        encode_utf8(first + second) == encode_utf8(first) + encode_utf8(second),
    decreases first.len(),
{
    if first.len() == 0 {
    } else {
        assert((first + second).drop_first() =~= first.drop_first() + second);
        lemma_encode_utf8_concat(first.drop_first(), second);
    }
}

/// Appending a character appends its encoding.
pub proof fn lemma_encode_utf8_push(text: Seq<char>, c: char)
    ensures
        encode_utf8(text.push(c)) == encode_utf8(text) + encode_scalar(c as u32),
{
    lemma_encode_utf8_concat(text, seq![c]);
    assert(text.push(c) =~= text + seq![c]);
    assert(encode_utf8(seq![c]) =~= encode_scalar(c as u32)) by {
        reveal_with_fuel(encode_utf8, 2);
    }
}

/// In UTF-8 a character starts right after every ASCII byte.
pub proof fn lemma_boundary_after_ascii(bytes: Seq<u8>, index: int)
    requires
        valid_utf8(bytes),
        0 < index <= bytes.len(),
        bytes[index - 1] < 0x80,
    ensures
        is_char_boundary(bytes, index),
{
    if index == bytes.len() {
        is_char_boundary_start_end_of_seq(bytes);
    } else {
        is_char_boundary_iff_not_is_continuation_byte(bytes, index - 1);
        valid_utf8_split(bytes, index - 1);
        let tail = bytes.subrange(index - 1, bytes.len() as int);
        assert(valid_utf8(pop_first_scalar(tail)));
        is_char_boundary_iff_not_is_continuation_byte(bytes, index);
    }
}

/// The first character of a text is the first scalar value of its encoding.
pub proof fn lemma_first_char(text: Seq<char>)
    requires
        encode_utf8(text).len() > 0,
    ensures
        text.len() > 0,
        text[0] == decode_first_scalar(encode_utf8(text)) as char,
{
    encode_utf8_valid_utf8(text);
    encode_utf8_decode_utf8(text);
}

/// No byte of the encoding of a character is a backslash, unless the
/// character is one.
pub proof fn lemma_backslash_in_scalar(c: char)
    ensures
        encode_scalar(c as u32).contains(BACKSLASH) <==> c == '\\',
{
    let scalar = c as u32;
    let bytes = encode_scalar(scalar);
    assert forall|low: u8| #![auto] (0x80u8 | low) != BACKSLASH by {
        assert((0x80u8 | low) != 0x5cu8) by (bit_vector);
    }
    assert forall|low: u8| #![auto] (0xC0u8 | low) != BACKSLASH by {
        assert((0xC0u8 | low) != 0x5cu8) by (bit_vector);
    }
    assert forall|low: u8| #![auto] (0xE0u8 | low) != BACKSLASH by {
        assert((0xE0u8 | low) != 0x5cu8) by (bit_vector);
    }
    assert forall|low: u8| #![auto] (0xF0u8 | low) != BACKSLASH by {
        assert((0xF0u8 | low) != 0x5cu8) by (bit_vector);
    }
    if has_width_1_encoding(scalar) {
        assert(scalar & 0x7F == scalar) by (bit_vector)
            requires
                scalar <= 0x7F,
        ;
        if c == '\\' {
            assert(bytes[0] == BACKSLASH);
        } else {
            assert forall|i: int| 0 <= i < bytes.len() implies bytes[i] != BACKSLASH by {}
        }
    } else {
        assert forall|i: int| 0 <= i < bytes.len() implies bytes[i] != BACKSLASH by {}
    }
}

/// A text holds a backslash exactly when its encoding holds the byte of one.
pub proof fn lemma_backslash_in_encoding(text: Seq<char>)
    ensures
        encode_utf8(text).contains(BACKSLASH) <==> text.contains('\\'),
    decreases text.len(),
{
    if text.len() > 0 {
        let first = encode_scalar(text[0] as u32);
        let rest = encode_utf8(text.drop_first());
        lemma_backslash_in_scalar(text[0]);
        lemma_backslash_in_encoding(text.drop_first());
        if text.contains('\\') {
            let i = choose|i: int| 0 <= i < text.len() && text[i] == '\\';
            if i == 0 {
                let j = choose|j: int| 0 <= j < first.len() && first[j] == BACKSLASH;
                assert((first + rest)[j] == BACKSLASH);
            } else {
                assert(text.drop_first()[i - 1] == '\\');
                let j = choose|j: int| 0 <= j < rest.len() && rest[j] == BACKSLASH;
                assert((first + rest)[first.len() + j] == BACKSLASH);
            }
        }
        if (first + rest).contains(BACKSLASH) {
            let j = choose|j: int| 0 <= j < (first + rest).len() && (first + rest)[j] == BACKSLASH;
            if j < first.len() {
                assert(first.contains(BACKSLASH));
            } else {
                assert(rest[j - first.len()] == BACKSLASH);
                let i = choose|i: int|
                    0 <= i < text.drop_first().len() && text.drop_first()[i] == '\\';
                assert(text[i + 1] == '\\');
            }
        }
    }
}

} // verus!
