//! Decoding of the escape sequences of a string literal.

use crate::base::pos::{BytePos, Span, Spanned};
use crate::parser::encoding::{
    lemma_backslash_in_encoding, lemma_boundary_after_ascii, lemma_encode_utf8_concat,
    lemma_encode_utf8_push, lemma_first_char,
};
use crate::parser::error::{Error, ErrorKind};
use crate::parser::escape::{
    decoded, decoded_from, escape_at, hex_digit_value, hex_run, hex_value, is_hex_digit,
    lemma_hex_run, lemma_literal_run, lemma_preceded_twice, preceded, scalar_escape,
    unicode_escape_at, Escape, Rejection, BACKSLASH, BRACED_FRAME, CARRIAGE_RETURN, CLOSE_BRACE,
    DOUBLE_QUOTE, FIXED_DIGITS, FIXED_LEN, LINE_FEED, MARKER_CARRIAGE_RETURN, MARKER_LINE_FEED,
    MARKER_TAB, MARKER_UNICODE, MAX_BRACED_DIGITS, OPEN_BRACE, SIMPLE_LEN, SINGLE_QUOTE, TAB,
};
use memchr::memchr;
use std::borrow::Cow;
use vstd::prelude::*;
use vstd::slice::slice_subrange;
use vstd::string::StrSliceExecFns;
use vstd::string::StringExecFns;
use vstd::string::StringSliceAdditionalSpecFns;
use vstd::utf8::{
    decode_utf8, encode_scalar, encode_utf8, encode_utf8_decode_utf8, encode_utf8_valid_utf8,
    is_char_boundary, is_char_boundary_iff_not_is_continuation_byte,
    is_char_boundary_start_end_of_seq, is_scalar, valid_utf8,
};

verus! {

/// `memchr::memchr` returns the index of the first byte of `haystack` that
/// equals `needle`, and nothing if no byte does.
pub assume_specification[ memchr::memchr ](needle: u8, haystack: &[u8]) -> (found: Option<usize>)
    ensures
        match found {
            Some(i) => i < haystack@.len() && haystack@[i as int] == needle
                && forall|j: int| 0 <= j < i ==> haystack@[j] != needle,
            None => forall|j: int| 0 <= j < haystack@.len() ==> haystack@[j] != needle,
        },
;

/// `char::from_u32` returns the character of a Unicode scalar value, and
/// nothing for any other number.
pub assume_specification[ char::from_u32 ](value: u32) -> (c: Option<char>)
    ensures
        c == if is_scalar(value) {
            Some(value as char)
        } else {
            None::<char>
        },
;

/// `String::push` appends one character.
pub assume_specification[ String::push ](text: &mut String, c: char)
    ensures
        final(text)@ == old(text)@.push(c),
;

/// True when `error` reports the `rejection` of the inner text `bytes`: its
/// kind, its message, and the empty span at its offset.
pub open spec fn reports(
    error: Spanned<BytePos, Error>,
    bytes: Seq<u8>,
    rejection: Rejection,
) -> bool {
    &&& error.span.start == rejection.offset
    &&& error.span.end == rejection.offset
    &&& error.value.kind == rejection.kind
    &&& error.value.message@ == rejection.message(bytes)
}

/// The error of kind `kind` at the byte offset `offset`, with the text of the
/// kind as its message.
fn reject(kind: ErrorKind, offset: usize) -> (error: Spanned<BytePos, Error>)
    ensures
        error.span.start == offset,
        error.span.end == offset,
        error.value.kind == kind,
        error.value.message@ == kind.text(),
{
    let message = kind.describe();
    Spanned::from((Span::new(offset, offset), Error { kind, message }))
}

/// The error for the character at `offset`, which follows a backslash and
/// starts no escape sequence.
fn reject_escape_character(text: &str, offset: usize) -> (error: Spanned<BytePos, Error>)
    requires
        0 < offset < text.spec_bytes().len(),
        text.spec_bytes()[offset - 1] < 0x80,
    ensures
        reports(
            error,
            text.spec_bytes(),
            Rejection { kind: ErrorKind::InvalidEscapeCharacter, offset: offset as nat },
        ),
{
    proof {
        encode_utf8_valid_utf8(text@);
        lemma_boundary_after_ascii(text.spec_bytes(), offset as int);
    }
    let (_, rest) = text.split_at(offset);
    proof {
        lemma_first_char(rest@);
    }
    let c = rest.get_char(0);
    let mut message = ErrorKind::InvalidEscapeCharacter.describe();
    message.append(" '");
    message.push(c);
    message.append("'");
    assert(message@ == ErrorKind::InvalidEscapeCharacter.text() + " '"@ + seq![c] + "'"@);
    Spanned::from(
        (Span::new(offset, offset), Error { kind: ErrorKind::InvalidEscapeCharacter, message }),
    )
}

/// The number that the hex digit `byte` stands for, if it is one.
fn hex_digit(byte: u8) -> (value: Option<u32>)
    ensures
        value == if is_hex_digit(byte) {
            Some(hex_digit_value(byte) as u32)
        } else {
            None::<u32>
        },
{
    if 0x30 <= byte && byte <= 0x39 {
        Some((byte - 0x30) as u32)
    } else if 0x41 <= byte && byte <= 0x46 {
        Some((byte - 0x41 + 10) as u32)
    } else if 0x61 <= byte && byte <= 0x66 {
        Some((byte - 0x61 + 10) as u32)
    } else {
        None
    }
}

/// `16` to the power of `n`.
spec fn sixteen_to(n: nat) -> nat
    decreases n,
{
    if n == 0 {
        1
    } else {
        16 * sixteen_to((n - 1) as nat)
    }
}

/// A number written with `n` hex digits is below `16` to the power of `n`.
proof fn lemma_hex_value_bound(digits: Seq<u8>)
    requires
        forall|k: int| 0 <= k < digits.len() ==> is_hex_digit(digits[k]),
    ensures
        hex_value(digits) < sixteen_to(digits.len()),
    decreases digits.len(),
{
    if digits.len() > 0 {
        lemma_hex_value_bound(digits.drop_last());
    }
}

/// Reads the hex digits that stand in a row from `from` on, at most `limit` of
/// them, and returns the number they write and how many they are.
fn read_hex_run(bytes: &[u8], from: usize, limit: usize) -> (run: (u32, usize))
    requires
        from <= bytes@.len(),
        limit <= MAX_BRACED_DIGITS,
    ensures
        run.1 == hex_run(bytes@, from as int, limit as nat),
        run.0 == hex_value(bytes@.subrange(from as int, from + run.1)),
        from + run.1 <= bytes@.len(),
        run.1 <= limit,
        forall|k: int| from <= k < from + run.1 ==> is_hex_digit(bytes@[k]),
{
    let len = bytes.len();
    let mut value: u32 = 0;
    let mut count: usize = 0;
    loop
        invariant
            len == bytes@.len(),
            from <= len,
            limit <= MAX_BRACED_DIGITS,
            count <= limit,
            from + count <= len,
            forall|k: int| from <= k < from + count ==> is_hex_digit(bytes@[k]),
            value == hex_value(bytes@.subrange(from as int, from + count)),
        ensures
            count == limit || from + count == len || !is_hex_digit(bytes@[from + count]),
        decreases limit - count,
    {
        if count >= limit || from + count >= len {
            break ;
        }
        let digit = match hex_digit(bytes[from + count]) {
            Some(digit) => digit,
            None => {
                break ;
            },
        };
        proof {
            let read = bytes@.subrange(from as int, from + count);
            let next = bytes@.subrange(from as int, from + count + 1);
            assert(next.drop_last() =~= read);
            lemma_hex_value_bound(read);
            reveal_with_fuel(sixteen_to, 7);
        }
        value = value * 16 + digit;
        count = count + 1;
    }
    proof {
        lemma_hex_run(bytes@, from as int, limit as nat);
    }
    (value, count)
}

/// The character of the escape of `len` bytes at `at` whose digits write
/// `value`.
fn scalar_of(value: u32, len: usize, at: usize) -> (escape: Result<
    (char, usize),
    Spanned<BytePos, Error>,
>)
    requires
        at < usize::MAX,
    ensures
        escape_matches(escape, scalar_escape(value as nat, len as nat, at as int)),
{
    match char::from_u32(value) {
        Some(c) => Ok((c, len)),
        None => Err(reject(ErrorKind::InvalidCodepoint, at + 1)),
    }
}

/// True when the outcome `escape` of reading one Unicode escape is the one
/// that the model gives.
spec fn escape_matches(
    escape: Result<(char, usize), Spanned<BytePos, Error>>,
    model: Result<Escape, Rejection>,
) -> bool {
    match model {
        Ok(expected) => escape == Ok::<(char, usize), Spanned<BytePos, Error>>(
            (expected.scalar as char, expected.len as usize),
        ),
        Err(rejection) => {
            &&& escape matches Err(error)
            &&& error.span.start == rejection.offset
            &&& error.span.end == rejection.offset
            &&& error.value.kind == rejection.kind
            &&& error.value.message@ == rejection.kind.text()
        },
    }
}

/// Reads the Unicode escape whose backslash is at `at`: `\uXXXX` or
/// `\u{X..}` with one to six digits.
fn unescape_unicode(bytes: &[u8], at: usize) -> (escape: Result<
    (char, usize),
    Spanned<BytePos, Error>,
>)
    requires
        at + 1 < bytes@.len(),
    ensures
        escape_matches(escape, unicode_escape_at(bytes@, at as int)),
        escape matches Ok(read) ==> at + read.1 <= bytes@.len() && bytes@[at + read.1 - 1] < 0x80,
{
    let len = bytes.len();
    if at + 2 >= len {
        return Err(reject(ErrorKind::UnexpectedEof, at + 1));
    }
    if bytes[at + 2] == OPEN_BRACE {
        let (value, count) = read_hex_run(bytes, at + 3, MAX_BRACED_DIGITS);
        let stop = at + 3 + count;
        if stop >= len {
            Err(reject(ErrorKind::UnexpectedEof, at + 1))
        } else if bytes[stop] == CLOSE_BRACE {
            if count == 0 {
                Err(reject(ErrorKind::TooFewHexDigits, at + 1))
            } else {
                scalar_of(value, count + BRACED_FRAME, at)
            }
        } else if count == MAX_BRACED_DIGITS {
            Err(reject(ErrorKind::TooManyHexDigits, at + 1))
        } else {
            Err(reject(ErrorKind::InvalidHexDigit, stop))
        }
    } else {
        let (value, count) = read_hex_run(bytes, at + 2, FIXED_DIGITS);
        if count == FIXED_DIGITS {
            scalar_of(value, FIXED_LEN, at)
        } else if at + 2 + count >= len {
            Err(reject(ErrorKind::UnexpectedEof, at + 1))
        } else {
            Err(reject(ErrorKind::InvalidHexDigit, at + 2 + count))
        }
    }
}

/// The part of `text` between the byte offsets `from` and `to`.
fn slice_between<'a>(text: &'a str, from: usize, to: usize) -> (piece: &'a str)
    requires
        from <= to <= text.spec_bytes().len(),
        is_char_boundary(text.spec_bytes(), from as int),
        is_char_boundary(text.spec_bytes(), to as int),
    ensures
        piece.spec_bytes() == text.spec_bytes().subrange(from as int, to as int),
{
    let (head, _) = text.split_at(to);
    proof {
        let bytes = text.spec_bytes();
        encode_utf8_valid_utf8(text@);
        encode_utf8_valid_utf8(head@);
        if from < to {
            is_char_boundary_iff_not_is_continuation_byte(bytes, from as int);
            is_char_boundary_iff_not_is_continuation_byte(head.spec_bytes(), from as int);
        } else {
            is_char_boundary_start_end_of_seq(head.spec_bytes());
        }
    }
    let (_, piece) = head.split_at(from);
    piece
}

/// True when `out` is the decoded form of the first `at` bytes of `bytes`, so
/// that what is left to do is to decode `bytes` from `at` on.
spec fn decoded_up_to(bytes: Seq<u8>, out: Seq<char>, at: int) -> bool {
    decoded(bytes) == preceded(encode_utf8(out), decoded_from(bytes, at))
}

/// Reads the escape sequence whose backslash is at `at` and appends the
/// character it stands for to `dst`. Returns the number of bytes it takes.
fn push_unescape_one(dst: &mut String, text: &str, at: usize) -> (read: Result<
    usize,
    Spanned<BytePos, Error>,
>)
    requires
        at < text.spec_bytes().len(),
        text.spec_bytes()[at as int] == BACKSLASH,
        decoded_up_to(text.spec_bytes(), old(dst)@, at as int),
    ensures
        match escape_at(text.spec_bytes(), at as int) {
            Ok(escape) => {
                &&& read == Ok::<usize, Spanned<BytePos, Error>>(escape.len as usize)
                &&& 2 <= escape.len
                &&& at + escape.len <= text.spec_bytes().len()
                &&& is_char_boundary(text.spec_bytes(), at + escape.len)
                &&& decoded_up_to(text.spec_bytes(), final(dst)@, at + escape.len)
            },
            Err(rejection) => {
                &&& read matches Err(error) && reports(error, text.spec_bytes(), rejection)
                &&& decoded(text.spec_bytes()) == Err::<Seq<u8>, Rejection>(rejection)
            },
        },
{
    let bytes = text.as_bytes();
    let len = bytes.len();
    if at + 1 >= len {
        return Err(reject(ErrorKind::UnexpectedEof, at + 1));
    }
    let marker = bytes[at + 1];
    let ghost before = dst@;
    let (c, read) = if marker == MARKER_UNICODE {
        match unescape_unicode(bytes, at) {
            Ok(escape) => escape,
            Err(error) => {
                return Err(error);
            },
        }
    } else {
        let byte = if marker == DOUBLE_QUOTE || marker == SINGLE_QUOTE || marker == BACKSLASH {
            marker
        } else if marker == MARKER_LINE_FEED {
            LINE_FEED
        } else if marker == MARKER_CARRIAGE_RETURN {
            CARRIAGE_RETURN
        } else if marker == MARKER_TAB {
            TAB
        } else {
            return Err(reject_escape_character(text, at + 1));
        };
        (byte as char, SIMPLE_LEN)
    };
    dst.push(c);
    proof {
        let escape = escape_at(bytes@, at as int)->Ok_0;
        lemma_encode_utf8_push(before, c);
        lemma_preceded_twice(
            encode_utf8(before),
            encode_scalar(escape.scalar),
            decoded_from(bytes@, at + read),
        );
        encode_utf8_valid_utf8(text@);
        lemma_boundary_after_ascii(bytes@, at + read);
    }
    Ok(read)
}

/// The offset of the first backslash at or after `start`, if there is one.
fn find_backslash(bytes: &[u8], start: usize) -> (found: Option<usize>)
    requires
        start <= bytes@.len(),
    ensures
        match found {
            Some(at) => {
                &&& start <= at < bytes@.len()
                &&& bytes@[at as int] == BACKSLASH
                &&& forall|k: int| start <= k < at ==> bytes@[k] != BACKSLASH
            },
            None => forall|k: int| start <= k < bytes@.len() ==> bytes@[k] != BACKSLASH,
        },
{
    let len = bytes.len();
    let found = memchr(BACKSLASH, slice_subrange(bytes, start, len));
    proof {
        let rest = bytes@.subrange(start as int, len as int);
        let stop = match found {
            Some(offset) => start + offset,
            None => len as int,
        };
        assert forall|k: int| start <= k < stop implies bytes@[k] != BACKSLASH by {
            assert(bytes@[k] == rest[k - start]);
        }
    }
    match found {
        Some(offset) => Some(start + offset),
        None => None,
    }
}

/// Appends the text between `start` and `stop`, which holds no backslash.
fn push_literal_run(dst: &mut String, text: &str, start: usize, stop: usize)
    requires
        start <= stop <= text.spec_bytes().len(),
        is_char_boundary(text.spec_bytes(), start as int),
        is_char_boundary(text.spec_bytes(), stop as int),
        forall|k: int| start <= k < stop ==> text.spec_bytes()[k] != BACKSLASH,
        decoded_up_to(text.spec_bytes(), old(dst)@, start as int),
    ensures
        decoded_up_to(text.spec_bytes(), final(dst)@, stop as int),
{
    let ghost bytes = text.spec_bytes();
    let ghost before = dst@;
    let run = slice_between(text, start, stop);
    dst.append(run);
    proof {
        lemma_literal_run(bytes, start as int, stop as int);
        lemma_encode_utf8_concat(before, run@);
        lemma_preceded_twice(
            encode_utf8(before),
            bytes.subrange(start as int, stop as int),
            decoded_from(bytes, stop as int),
        );
    }
}

/// Decodes the inner text of a string literal, the quotes already taken off.
///
/// A text without a backslash is handed back as it is, borrowed. Otherwise the
/// result is a new text in which every escape sequence is replaced by the
/// character it stands for: `\"`, `\'`, `\\`, `\n`, `\r`, `\t`, `\uXXXX`
/// and `\u{X}` with one to six hex digits.
///
/// The first escape sequence that cannot be decoded ends the decoding. The
/// error holds its kind and the empty span at a byte offset into `string`: the
/// offset of the character after the backslash or, of a character that had to
/// be a hex digit and is none, its own offset.
pub fn unescape<'a>(string: &'a str) -> (text: Result<Cow<'a, str>, Spanned<BytePos, Error>>)
    ensures
        match decoded(string.spec_bytes()) {
            Ok(bytes) => {
                &&& text matches Ok(decoded_text) && encode_utf8(decoded_text@) == bytes
                &&& valid_utf8(bytes)
                &&& text matches Ok(decoded_text) && decoded_text@ == decode_utf8(bytes)
            },
            Err(rejection) => text matches Err(error) && reports(
                error,
                string.spec_bytes(),
                rejection,
            ),
        },
        !string@.contains('\\') ==> text == Ok::<Cow<'a, str>, Spanned<BytePos, Error>>(
            Cow::Borrowed(string),
        ),
{
    let bytes = string.as_bytes();
    let len = bytes.len();
    proof {
        lemma_backslash_in_encoding(string@);
        encode_utf8_valid_utf8(string@);
        is_char_boundary_start_end_of_seq(bytes@);
    }
    let first = match find_backslash(bytes, 0) {
        Some(first) => first,
        None => {
            proof {
                lemma_literal_run(bytes@, 0, len as int);
                encode_utf8_decode_utf8(string@);
            }
            return Ok(Cow::Borrowed(string));
        },
    };
    let mut out = String::new();
    proof {
        is_char_boundary_iff_not_is_continuation_byte(bytes@, first as int);
    }
    push_literal_run(&mut out, string, 0, first);
    let mut at = first;
    loop
        invariant_except_break
            at < len,
            bytes@[at as int] == BACKSLASH,
            decoded_up_to(bytes@, out@, at as int),
        invariant
            bytes@ == string.spec_bytes(),
            len == bytes@.len(),
            valid_utf8(bytes@),
            is_char_boundary(bytes@, len as int),
            string@.contains('\\'),
        ensures
            decoded_up_to(bytes@, out@, len as int),
        decreases len - at,
    {
        let read = match push_unescape_one(&mut out, string, at) {
            Ok(read) => read,
            Err(error) => {
                return Err(error);
            },
        };
        let start = at + read;
        match find_backslash(bytes, start) {
            Some(next) => {
                proof {
                    is_char_boundary_iff_not_is_continuation_byte(bytes@, next as int);
                }
                push_literal_run(&mut out, string, start, next);
                at = next;
            },
            None => {
                push_literal_run(&mut out, string, start, len);
                break ;
            },
        }
    }
    proof {
        encode_utf8_decode_utf8(out@);
        encode_utf8_valid_utf8(out@);
    }
    Ok(Cow::Owned(out))
}

} // verus!
