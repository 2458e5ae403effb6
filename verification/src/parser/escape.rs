//! The meaning of escape sequences, stated over the bytes of a literal's
//! inner text.
//!
//! The inner text of a literal is UTF-8. Every byte that belongs to the syntax
//! of an escape sequence is ASCII, so the model reads the text byte by byte
//! and offsets are byte offsets.

use crate::parser::encoding::{char_at, lemma_backslash_in_encoding};
use crate::parser::error::ErrorKind;
use vstd::prelude::*;
use vstd::utf8::{encode_scalar, encode_utf8, is_scalar};

verus! {

/// `\`, which starts an escape sequence.
pub const BACKSLASH: u8 = 0x5c;

/// `"`.
pub const DOUBLE_QUOTE: u8 = 0x22;

/// `'`.
pub const SINGLE_QUOTE: u8 = 0x27;

/// `n`, the marker of a line feed.
pub const MARKER_LINE_FEED: u8 = 0x6e;

/// `r`, the marker of a carriage return.
pub const MARKER_CARRIAGE_RETURN: u8 = 0x72;

/// `t`, the marker of a horizontal tab.
pub const MARKER_TAB: u8 = 0x74;

/// `u`, the marker of a Unicode escape.
pub const MARKER_UNICODE: u8 = 0x75;

/// `{`, which opens the braced form of a Unicode escape.
pub const OPEN_BRACE: u8 = 0x7b;

/// `}`, which closes the braced form of a Unicode escape.
pub const CLOSE_BRACE: u8 = 0x7d;

/// The line feed.
pub const LINE_FEED: u8 = 0x0a;

/// The carriage return.
pub const CARRIAGE_RETURN: u8 = 0x0d;

/// The horizontal tab.
pub const TAB: u8 = 0x09;

/// Number of hex digits of the fixed form `\uXXXX`.
pub const FIXED_DIGITS: usize = 4;

/// Largest number of hex digits of the braced form `\u{X..}`.
pub const MAX_BRACED_DIGITS: usize = 6;

/// Length of a one-character escape such as `\n`.
pub const SIMPLE_LEN: usize = 2;

/// Length of the fixed form `\uXXXX`.
pub const FIXED_LEN: usize = 6;

/// Length of the braced form without its digits: `\u{` and `}`.
pub const BRACED_FRAME: usize = 4;

/// One decoded escape sequence: the scalar value it stands for and the number
/// of bytes it takes in the input, the backslash included.
pub struct Escape {
    pub scalar: u32,
    pub len: nat,
}

/// Why decoding stops, and the byte offset in the inner text that is reported.
pub struct Rejection {
    pub kind: ErrorKind,
    pub offset: nat,
}

impl Rejection {
    /// The message of the rejection of the inner text `bytes`: the text of the
    /// kind and, where the character after the backslash starts no escape
    /// sequence, that character in quotes.
    pub open spec fn message(self, bytes: Seq<u8>) -> Seq<char> {
        if self.kind == ErrorKind::InvalidEscapeCharacter {
            self.kind.text() + " '"@ + seq![char_at(bytes, self.offset as int)] + "'"@
        } else {
            self.kind.text()
        }
    }
}

/// True for `0`-`9`, `A`-`F` and `a`-`f`.
pub open spec fn is_hex_digit(byte: u8) -> bool {
    ||| 0x30 <= byte <= 0x39
    ||| 0x41 <= byte <= 0x46
    ||| 0x61 <= byte <= 0x66
}

/// The number that a hex digit stands for.
pub open spec fn hex_digit_value(byte: u8) -> nat
    recommends
        is_hex_digit(byte),
{
    if byte <= 0x39 {
        (byte - 0x30) as nat
    } else if byte <= 0x46 {
        (byte - 0x41 + 10) as nat
    } else {
        (byte - 0x61 + 10) as nat
    }
}

/// The number written by a sequence of hex digits, most significant first.
pub open spec fn hex_value(digits: Seq<u8>) -> nat
    decreases digits.len(),
{
    if digits.len() == 0 {
        0
    } else {
        16 * hex_value(digits.drop_last()) + hex_digit_value(digits.last())
    }
}

/// Number of hex digits that stand in a row in `bytes` from `from` on, counted
/// up to `limit`.
pub open spec fn hex_run(bytes: Seq<u8>, from: int, limit: nat) -> nat
    decreases limit,
{
    if limit == 0 || from < 0 || from >= bytes.len() || !is_hex_digit(bytes[from]) {
        0
    } else {
        1 + hex_run(bytes, from + 1, (limit - 1) as nat)
    }
}

/// The byte that a one-character escape stands for, if `marker` is one.
pub open spec fn simple_escape(marker: u8) -> Option<u8> {
    if marker == DOUBLE_QUOTE || marker == SINGLE_QUOTE || marker == BACKSLASH {
        Some(marker)
    } else if marker == MARKER_LINE_FEED {
        Some(LINE_FEED)
    } else if marker == MARKER_CARRIAGE_RETURN {
        Some(CARRIAGE_RETURN)
    } else if marker == MARKER_TAB {
        Some(TAB)
    } else {
        None
    }
}

/// A failure of the escape sequence whose backslash is at `at`, reported at the
/// character after the backslash.
pub open spec fn rejected(kind: ErrorKind, at: int) -> Result<Escape, Rejection> {
    Err(Rejection { kind, offset: (at + 1) as nat })
}

/// The escape of `len` bytes at `at` whose digits write `value`: the scalar
/// value of that number, or `InvalidCodepoint` if there is none.
pub open spec fn scalar_escape(value: nat, len: nat, at: int) -> Result<Escape, Rejection> {
    if value <= u32::MAX && is_scalar(value as u32) {
        Ok(Escape { scalar: value as u32, len })
    } else {
        rejected(ErrorKind::InvalidCodepoint, at)
    }
}

/// The fixed form `\uXXXX` at `at`: exactly four hex digits, read one by one.
/// The first character that is no hex digit is reported at its own offset;
/// the end of the input before the fourth digit is `UnexpectedEof`.
pub open spec fn fixed_escape_at(bytes: Seq<u8>, at: int) -> Result<Escape, Rejection> {
    let run = hex_run(bytes, at + 2, FIXED_DIGITS as nat);
    let stop = at + 2 + run;
    if run == FIXED_DIGITS {
        scalar_escape(hex_value(bytes.subrange(at + 2, stop)), FIXED_LEN as nat, at)
    } else if stop >= bytes.len() {
        rejected(ErrorKind::UnexpectedEof, at)
    } else {
        Err(Rejection { kind: ErrorKind::InvalidHexDigit, offset: stop as nat })
    }
}

/// The braced form `\u{X..}` at `at`: one to six hex digits, read one by one
/// up to the closing brace. After six digits anything but the closing brace is
/// `TooManyHexDigits`; before that, a character that is neither a hex digit
/// nor the closing brace is reported at its own offset.
pub open spec fn braced_escape_at(bytes: Seq<u8>, at: int) -> Result<Escape, Rejection> {
    let run = hex_run(bytes, at + 3, MAX_BRACED_DIGITS as nat);
    let stop = at + 3 + run;
    if stop >= bytes.len() {
        rejected(ErrorKind::UnexpectedEof, at)
    } else if bytes[stop] == CLOSE_BRACE {
        if run == 0 {
            rejected(ErrorKind::TooFewHexDigits, at)
        } else {
            scalar_escape(
                hex_value(bytes.subrange(at + 3, stop)),
                run + BRACED_FRAME as nat,
                at,
            )
        }
    } else if run == MAX_BRACED_DIGITS {
        rejected(ErrorKind::TooManyHexDigits, at)
    } else {
        Err(Rejection { kind: ErrorKind::InvalidHexDigit, offset: stop as nat })
    }
}

/// The Unicode escape whose backslash is at `at` and whose marker `u` is at
/// `at + 1`.
pub open spec fn unicode_escape_at(bytes: Seq<u8>, at: int) -> Result<Escape, Rejection> {
    if at + 2 >= bytes.len() {
        rejected(ErrorKind::UnexpectedEof, at)
    } else if bytes[at + 2] == OPEN_BRACE {
        braced_escape_at(bytes, at)
    } else {
        fixed_escape_at(bytes, at)
    }
}

/// The escape sequence whose backslash is at `at`.
pub open spec fn escape_at(bytes: Seq<u8>, at: int) -> Result<Escape, Rejection>
    recommends
        0 <= at < bytes.len(),
        bytes[at] == BACKSLASH,
{
    if at + 1 >= bytes.len() {
        rejected(ErrorKind::UnexpectedEof, at)
    } else if bytes[at + 1] == MARKER_UNICODE {
        unicode_escape_at(bytes, at)
    } else {
        match simple_escape(bytes[at + 1]) {
            Some(byte) => Ok(Escape { scalar: byte as u32, len: SIMPLE_LEN as nat }),
            None => rejected(ErrorKind::InvalidEscapeCharacter, at),
        }
    }
}

/// `prefix` followed by the outcome of decoding what comes after it.
pub open spec fn preceded(prefix: Seq<u8>, rest: Result<Seq<u8>, Rejection>) -> Result<
    Seq<u8>,
    Rejection,
> {
    match rest {
        Ok(tail) => Ok(prefix + tail),
        Err(rejection) => Err(rejection),
    }
}

/// The decoded form of `bytes` from `from` on: every byte outside an escape
/// sequence stands for itself, every escape sequence for the UTF-8 encoding of
/// its scalar value. The first escape sequence that fails decides the outcome.
pub open spec fn decoded_from(bytes: Seq<u8>, from: int) -> Result<Seq<u8>, Rejection>
    decreases
            if 0 <= from < bytes.len() {
                bytes.len() - from
            } else {
                0
            },
{
    if from < 0 || from >= bytes.len() {
        Ok(Seq::empty())
    } else if bytes[from] != BACKSLASH {
        preceded(seq![bytes[from]], decoded_from(bytes, from + 1))
    } else {
        match escape_at(bytes, from) {
            Ok(escape) => preceded(
                encode_scalar(escape.scalar),
                decoded_from(bytes, from + escape.len),
            ),
            Err(rejection) => Err(rejection),
        }
    }
}

/// The decoded form of the inner text `bytes` of a literal.
pub open spec fn decoded(bytes: Seq<u8>) -> Result<Seq<u8>, Rejection> {
    decoded_from(bytes, 0)
}

/// Two prefixes in a row are one prefix.
pub proof fn lemma_preceded_twice(
    first: Seq<u8>,
    second: Seq<u8>,
    rest: Result<Seq<u8>, Rejection>,
)
    ensures
        preceded(first, preceded(second, rest)) == preceded(first + second, rest),
{
    if let Ok(tail) = rest {
        assert(first + (second + tail) =~= (first + second) + tail);
    }
}

/// Bytes that hold no backslash stand for themselves.
pub proof fn lemma_literal_run(bytes: Seq<u8>, from: int, to: int)
    requires
        0 <= from <= to <= bytes.len(),
        forall|k: int| from <= k < to ==> bytes[k] != BACKSLASH,
    ensures
        decoded_from(bytes, from) == preceded(bytes.subrange(from, to), decoded_from(bytes, to)),
    decreases to - from,
{
    if from < to {
        lemma_literal_run(bytes, from + 1, to);
        lemma_preceded_twice(
            seq![bytes[from]],
            bytes.subrange(from + 1, to),
            decoded_from(bytes, to),
        );
        assert(seq![bytes[from]] + bytes.subrange(from + 1, to) =~= bytes.subrange(from, to));
    }
}

/// What `hex_run` counts: hex digits that lie within the input, no more than
/// the limit, and that end at the limit, at the end of the input, or before a
/// byte that is no hex digit.
pub proof fn lemma_hex_run(bytes: Seq<u8>, from: int, limit: nat)
    requires
        0 <= from,
    ensures
        hex_run(bytes, from, limit) <= limit,
        hex_run(bytes, from, limit) > 0 ==> from + hex_run(bytes, from, limit) <= bytes.len(),
        forall|k: int| from <= k < from + hex_run(bytes, from, limit) ==> is_hex_digit(bytes[k]),
        hex_run(bytes, from, limit) == limit || from + hex_run(bytes, from, limit) >= bytes.len()
            || !is_hex_digit(bytes[from + hex_run(bytes, from, limit)]),
    decreases limit,
{
    if limit > 0 && from < bytes.len() && is_hex_digit(bytes[from]) {
        lemma_hex_run(bytes, from + 1, (limit - 1) as nat);
    }
}

/// Where an escape sequence is rejected. A character that had to be a hex
/// digit and is none is reported at its own offset. Every other rejection is
/// reported at the offset after the backslash of the escape sequence, which
/// is at most the length of the input.
pub proof fn law_escape_rejection_offset(bytes: Seq<u8>, at: int)
    requires
        0 <= at < bytes.len(),
        bytes[at] == BACKSLASH,
    ensures
        escape_at(bytes, at) matches Err(rejection) ==> {
            &&& rejection.kind != ErrorKind::ParserSyntaxError
            &&& if rejection.kind == ErrorKind::InvalidHexDigit {
                &&& at + 2 <= rejection.offset < bytes.len()
                &&& !is_hex_digit(bytes[rejection.offset as int])
            } else {
                rejection.offset == at + 1
            }
        },
{
    lemma_hex_run(bytes, at + 2, FIXED_DIGITS as nat);
    lemma_hex_run(bytes, at + 3, MAX_BRACED_DIGITS as nat);
}

/// Where decoding is rejected: at the offset of a character of the input that
/// had to be a hex digit and is none, or right after a backslash of the input.
pub proof fn law_rejection_offset(bytes: Seq<u8>)
    ensures
        decoded(bytes) matches Err(rejection) ==> {
            &&& rejection.kind != ErrorKind::ParserSyntaxError
            &&& 1 <= rejection.offset <= bytes.len()
            &&& if rejection.kind == ErrorKind::InvalidHexDigit {
                &&& rejection.offset < bytes.len()
                &&& !is_hex_digit(bytes[rejection.offset as int])
            } else {
                bytes[rejection.offset - 1] == BACKSLASH
            }
        },
{
    lemma_rejection_offset_from(bytes, 0);
}

proof fn lemma_rejection_offset_from(bytes: Seq<u8>, from: int)
    requires
        0 <= from,
    ensures
        decoded_from(bytes, from) matches Err(rejection) ==> {
            &&& rejection.kind != ErrorKind::ParserSyntaxError
            &&& 1 <= rejection.offset <= bytes.len()
            &&& if rejection.kind == ErrorKind::InvalidHexDigit {
                &&& rejection.offset < bytes.len()
                &&& !is_hex_digit(bytes[rejection.offset as int])
            } else {
                bytes[rejection.offset - 1] == BACKSLASH
            }
        },
    decreases
            if from < bytes.len() {
                bytes.len() - from
            } else {
                0
            },
{
    if from < bytes.len() {
        if bytes[from] != BACKSLASH {
            lemma_rejection_offset_from(bytes, from + 1);
        } else {
            law_escape_rejection_offset(bytes, from);
            if let Ok(escape) = escape_at(bytes, from) {
                lemma_rejection_offset_from(bytes, from + escape.len);
            }
        }
    }
}

/// A text without a backslash decodes to itself.
pub proof fn law_plain_text_is_unchanged(text: Seq<char>)
    requires
        !text.contains('\\'),
    ensures
        decoded(encode_utf8(text)) == Ok::<Seq<u8>, Rejection>(encode_utf8(text)),
{
    let bytes = encode_utf8(text);
    lemma_backslash_in_encoding(text);
    lemma_literal_run(bytes, 0, bytes.len() as int);
    assert(bytes.subrange(0, bytes.len() as int) + Seq::<u8>::empty() =~= bytes);
}

} // verus!
