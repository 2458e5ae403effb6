//! Classified errors and their place in the source.

use crate::base::pos::{BytePos, Span, Spanned};
use vstd::prelude::*;
use vstd::string::StringExecFns;

verus! {

/// What went wrong.
#[derive(Debug, Clone, Copy, PartialEq, Eq, Structural)]
pub enum ErrorKind {
    /// The input ended inside an escape sequence.
    UnexpectedEof,
    /// The character after a backslash starts no escape sequence.
    InvalidEscapeCharacter,
    /// A character that had to be a hex digit is none.
    InvalidHexDigit,
    /// A braced Unicode escape holds no digit.
    TooFewHexDigits,
    /// A braced Unicode escape holds more than six digits.
    TooManyHexDigits,
    /// The digits of a Unicode escape name no Unicode scalar value.
    InvalidCodepoint,
    /// The parsing engine rejected the token stream.
    ParserSyntaxError,
}

impl ErrorKind {
    /// The text that names the kind in a message.
    pub open spec fn text(self) -> Seq<char> {
        match self {
            ErrorKind::UnexpectedEof => "Unexpected EOF"@,
            ErrorKind::InvalidEscapeCharacter => "Invalid escape character"@,
            ErrorKind::InvalidHexDigit => "Invalid hex digit"@,
            ErrorKind::TooFewHexDigits => "Unicode escape must have at least 1 hex digit"@,
            ErrorKind::TooManyHexDigits => "Unicode escape must have at most 6 hex digits"@,
            ErrorKind::InvalidCodepoint => "Invalid Unicode codepoint"@,
            ErrorKind::ParserSyntaxError => "Syntax error"@,
        }
    }

    /// The text that names the kind in a message.
    pub fn describe(self) -> (message: String)
        ensures
            message@ == self.text(),
    {
        match self {
            ErrorKind::UnexpectedEof => String::from_str("Unexpected EOF"),
            ErrorKind::InvalidEscapeCharacter => String::from_str("Invalid escape character"),
            ErrorKind::InvalidHexDigit => String::from_str("Invalid hex digit"),
            ErrorKind::TooFewHexDigits => String::from_str(
                "Unicode escape must have at least 1 hex digit",
            ),
            ErrorKind::TooManyHexDigits => String::from_str(
                "Unicode escape must have at most 6 hex digits",
            ),
            ErrorKind::InvalidCodepoint => String::from_str("Invalid Unicode codepoint"),
            ErrorKind::ParserSyntaxError => String::from_str("Syntax error"),
        }
    }
}

/// A classified error with the text shown to the user.
#[derive(Debug, Clone)]
pub struct Error {
    pub kind: ErrorKind,
    pub message: String,
}

/// The errors of one parse attempt, in the order in which they were found.
/// The attempt succeeded if and only if the collection is empty at its end.
pub type Errors = Vec<Spanned<BytePos, Error>>;

/// A failure of the parsing engine, in the engine's own shapes: four
/// structural ones and one that carries an error raised by the grammar's
/// actions. Positions are byte offsets into the source text.
#[derive(Debug, Clone)]
pub enum ParseFailure {
    /// No token starts at `location`.
    InvalidToken { location: BytePos },
    /// The input ends at `location`, where one of `expected` had to follow.
    UnrecognizedEof { location: BytePos, expected: Vec<String> },
    /// The token with the text `token`, from `start` to `end`, stands where
    /// one of `expected` had to stand.
    UnrecognizedToken { start: BytePos, token: String, end: BytePos, expected: Vec<String> },
    /// The token with the text `token`, from `start` to `end`, follows a
    /// complete input.
    ExtraToken { start: BytePos, token: String, end: BytePos },
    /// An error raised inside a grammar action, such as a failure to decode a
    /// string literal. `span` is where the error lies in the source text, if
    /// the action knew; an error that comes without a span is put at `[0, 0)`.
    User { span: Option<Span<BytePos>>, error: Error },
}

/// The text that `format!` prints for a list of strings with `{:?}`.
pub uninterp spec fn debug_text(names: Seq<Seq<char>>) -> Seq<char>;

/// `format!` with `{:?}` on a `Vec<String>`, which prints the list through
/// the `Debug` impls of `Vec` and `String`. The text depends on the strings
/// alone; `debug_text` names it and nothing more is claimed of it.
#[verifier::external_body]
fn render_expected(expected: &Vec<String>) -> (text: String)
    ensures
        text@ == debug_text(expected.deep_view()),
{
    format!("{:?}", expected)
}

impl ParseFailure {
    /// True when the failure can be given a span: the position after the
    /// location of an invalid token or of an unexpected end of input is a
    /// `BytePos`.
    pub open spec fn is_locatable(&self) -> bool {
        match self {
            ParseFailure::InvalidToken { location } => *location < usize::MAX,
            ParseFailure::UnrecognizedEof { location, .. } => *location < usize::MAX,
            _ => true,
        }
    }

    /// The span of the failure. A location `L` stands for `[L, L + 1)`, a
    /// token for its own extent. An embedded error keeps the span it comes
    /// with; one that comes with none is put at `[0, 0)`.
    pub open spec fn located_span(&self) -> Span<BytePos> {
        match self {
            ParseFailure::InvalidToken { location } => Span {
                start: *location,
                end: (*location + 1) as usize,
            },
            ParseFailure::UnrecognizedEof { location, .. } => Span {
                start: *location,
                end: (*location + 1) as usize,
            },
            ParseFailure::UnrecognizedToken { start, end, .. } => Span { start: *start, end: *end },
            ParseFailure::ExtraToken { start, end, .. } => Span { start: *start, end: *end },
            ParseFailure::User { span, .. } => match span {
                Some(span) => *span,
                None => Span { start: 0, end: 0 },
            },
        }
    }

    /// The kind of the failure: that of the embedded error, and
    /// `ParserSyntaxError` for the four structural shapes.
    pub open spec fn kind(&self) -> ErrorKind {
        match self {
            ParseFailure::User { error, .. } => error.kind,
            _ => ErrorKind::ParserSyntaxError,
        }
    }

    /// The names of the tokens that the engine expected, in its order.
    pub open spec fn expected_names(&self) -> Seq<Seq<char>> {
        match self {
            ParseFailure::UnrecognizedEof { expected, .. } => expected.deep_view(),
            ParseFailure::UnrecognizedToken { expected, .. } => expected.deep_view(),
            _ => Seq::empty(),
        }
    }

    /// The message of the failure, where `expected_text` is the text that
    /// stands for the expected tokens.
    pub open spec fn message(&self, expected_text: Seq<char>) -> Seq<char> {
        match self {
            ParseFailure::InvalidToken { .. } => "Invalid Token"@,
            ParseFailure::UnrecognizedEof { .. } => "Unexpected EOF, expected "@ + expected_text,
            ParseFailure::UnrecognizedToken { token, .. } => "Unexpected token "@ + token@
                + ", expected "@ + expected_text,
            ParseFailure::ExtraToken { token, .. } => "Unexpected token "@ + token@,
            ParseFailure::User { error, .. } => error.message@,
        }
    }

    /// True when `located` is the error that stands for the failure, with
    /// `expected_text` for the expected tokens.
    pub open spec fn is_located_as(
        &self,
        located: Spanned<BytePos, Error>,
        expected_text: Seq<char>,
    ) -> bool {
        &&& located.span == self.located_span()
        &&& located.value.kind == self.kind()
        &&& located.value.message@ == self.message(expected_text)
    }
}

impl Spanned<BytePos, Error> {
    /// The located error that stands for a failure of the parsing engine, with
    /// `expected_text` as the text for the tokens that the engine expected.
    pub fn from_rendered_failure(failure: ParseFailure, expected_text: String) -> (located: Self)
        requires
            failure.is_locatable(),
        ensures
            failure.is_located_as(located, expected_text@),
    {
        match failure {
            ParseFailure::InvalidToken { location } => {
                let message = String::from_str("Invalid Token");
                Spanned::from(
                    (
                        Span::new_unchecked(location, location + 1),
                        Error { kind: ErrorKind::ParserSyntaxError, message },
                    ),
                )
            },
            ParseFailure::UnrecognizedEof { location, expected } => {
                let mut message = String::from_str("Unexpected EOF, expected ");
                message.append(expected_text.as_str());
                Spanned::from(
                    (
                        Span::new_unchecked(location, location + 1),
                        Error { kind: ErrorKind::ParserSyntaxError, message },
                    ),
                )
            },
            ParseFailure::UnrecognizedToken { start, token, end, expected } => {
                let mut message = String::from_str("Unexpected token ");
                message.append(token.as_str());
                message.append(", expected ");
                message.append(expected_text.as_str());
                Spanned::from(
                    (
                        Span::new_unchecked(start, end),
                        Error { kind: ErrorKind::ParserSyntaxError, message },
                    ),
                )
            },
            ParseFailure::ExtraToken { start, token, end } => {
                let mut message = String::from_str("Unexpected token ");
                message.append(token.as_str());
                Spanned::from(
                    (
                        Span::new_unchecked(start, end),
                        Error { kind: ErrorKind::ParserSyntaxError, message },
                    ),
                )
            },
            ParseFailure::User { span, error } => {
                let span = match span {
                    Some(span) => span,
                    None => Span::new_unchecked(0, 0),
                };
                Spanned::from((span, error))
            },
        }
    }

    /// The located error that stands for a failure of the parsing engine. The
    /// expected tokens are shown as `format!` prints their list with `{:?}`.
    pub fn from_failure(failure: ParseFailure) -> (located: Self)
        requires
            failure.is_locatable(),
        ensures
            failure.is_located_as(located, debug_text(failure.expected_names())),
    {
        let expected_text = match &failure {
            ParseFailure::UnrecognizedEof { expected, .. } => render_expected(expected),
            ParseFailure::UnrecognizedToken { expected, .. } => render_expected(expected),
            _ => String::new(),
        };
        Spanned::from_rendered_failure(failure, expected_text)
    }
}

/// Adds the error that stands for `failure` at the end of `errors`.
pub fn record_failure(errors: &mut Errors, failure: ParseFailure)
    requires
        failure.is_locatable(),
    ensures
        final(errors)@.len() == old(errors)@.len() + 1,
        final(errors)@.drop_last() == old(errors)@,
        failure.is_located_as(final(errors)@.last(), debug_text(failure.expected_names())),
{
    let located = Spanned::from_failure(failure);
    errors.push(located);
}

} // verus!
