use kagami::ast::{FuncBody, FuncDef};
use kagami::base::pos::Spanned;
use kagami::parser::error::{Error, ErrorKind, Errors};
use kagami::parser::string_literal::unescape;
use std::borrow::Cow;

fn decoded(input: &str) -> String {
    match unescape(input) {
        Ok(text) => text.into_owned(),
        Err(error) => panic!("{:?} was rejected: {:?}", input, error),
    }
}

fn rejected(input: &str) -> Spanned<usize, Error> {
    match unescape(input) {
        Ok(text) => panic!("{:?} was decoded to {:?}", input, text),
        Err(error) => error,
    }
}

fn assert_rejected(input: &str, kind: ErrorKind, offset: usize, message: &str) {
    let error = rejected(input);
    assert_eq!(error.value.kind, kind, "{:?}", input);
    assert_eq!(error.span.start, offset, "{:?}", input);
    assert_eq!(error.span.end, offset, "{:?}", input);
    assert_eq!(error.value.message, message, "{:?}", input);
}

#[test]
fn plain_text_is_borrowed_unchanged() {
    for input in ["", "a", "fnaeuoifhda", "two words", "caf\u{e9} \u{6b64}\u{65b9} \u{1F600}", "'\"{}u"] {
        match unescape(input) {
            Ok(Cow::Borrowed(text)) => {
                assert_eq!(text, input);
                assert_eq!(text.as_ptr(), input.as_ptr());
            }
            other => panic!("{:?} gave {:?}", input, other),
        }
    }
}

#[test]
fn text_with_an_escape_is_owned() {
    assert!(matches!(unescape("a\\nb"), Ok(Cow::Owned(_))));
    assert!(matches!(unescape("\\\\"), Ok(Cow::Owned(_))));
}

#[test]
fn line_feed_between_letters() {
    assert_eq!(decoded("a\\nb"), "a\nb");
    assert_eq!(decoded("a\\nb").as_bytes(), [0x61, 0x0a, 0x62]);
}

#[test]
fn every_simple_escape() {
    assert_eq!(decoded("\\\""), "\"");
    assert_eq!(decoded("\\'"), "'");
    assert_eq!(decoded("\\\\"), "\\");
    assert_eq!(decoded("\\n"), "\n");
    assert_eq!(decoded("\\r"), "\r");
    assert_eq!(decoded("\\t"), "\t");
    assert_eq!(decoded("\\\"\\'\\\\\\n\\r\\t"), "\"'\\\n\r\t");
}

#[test]
fn escaped_backslash_does_not_start_an_escape() {
    assert_eq!(decoded("\\\\n"), "\\n");
    assert_eq!(decoded("\\\\\\n"), "\\\n");
    assert_eq!(decoded("\\\\u0041"), "\\u0041");
}

#[test]
fn fixed_unicode_escape() {
    assert_eq!(decoded("\\u0041"), "A");
    assert_eq!(decoded("\\u00e9"), "\u{e9}");
    assert_eq!(decoded("\\u00E9"), "\u{e9}");
    assert_eq!(decoded("\\u6b64\\u65b9"), "\u{6b64}\u{65b9}");
    assert_eq!(decoded("\\uFFFF"), "\u{ffff}");
    assert_eq!(decoded("\\u0000"), "\u{0}");
    assert_eq!(decoded("\\uD7FF"), "\u{d7ff}");
    assert_eq!(decoded("\\uE000"), "\u{e000}");
}

#[test]
fn fixed_unicode_escape_takes_four_digits_only() {
    assert_eq!(decoded("\\u00411"), "A1");
    assert_eq!(decoded("\\u0041F"), "AF");
    assert_eq!(decoded("x\\u0041y"), "xAy");
}

#[test]
fn braced_unicode_escape() {
    assert_eq!(decoded("\\u{1F600}"), "\u{1F600}");
    assert_eq!(decoded("\\u{1F600}").chars().count(), 1);
    assert_eq!(decoded("\\u{1F600}").chars().next(), Some('\u{1F600}'));
    assert_eq!(decoded("\\u{1f600}"), "\u{1F600}");
}

#[test]
fn braced_unicode_escape_of_every_length() {
    assert_eq!(decoded("\\u{a}"), "\n");
    assert_eq!(decoded("\\u{41}"), "A");
    assert_eq!(decoded("\\u{0e9}"), "\u{e9}");
    assert_eq!(decoded("\\u{6b64}"), "\u{6b64}");
    assert_eq!(decoded("\\u{1F600}"), "\u{1F600}");
    assert_eq!(decoded("\\u{10FFFF}"), "\u{10FFFF}");
    assert_eq!(decoded("\\u{000041}"), "A");
    assert_eq!(decoded("\\u{0}"), "\u{0}");
}

#[test]
fn text_around_escapes_is_kept() {
    assert_eq!(decoded("fnaeuo\\nifh\\tda"), "fnaeuo\nifh\tda");
    assert_eq!(
        decoded("fnaeuoiarl\\ngijfigexbfasdaojknm\\u{41}23iojuf8asfoi\\tucnm\\\\law4ijasefdasfhdaaefda\\u0041sfawefvzxcvzxcvase"),
        "fnaeuoiarl\ngijfigexbfasdaojknmA23iojuf8asfoi\tucnm\\law4ijasefdasfhdaaefdaAsfawefvzxcvzxcvase"
    );
    assert_eq!(
        decoded("\\u6b64\\u65b9\\u5c0f\\u955c\\u529e\\u4e8b\\u4e2d"),
        "\u{6b64}\u{65b9}\u{5c0f}\u{955c}\u{529e}\u{4e8b}\u{4e2d}"
    );
}

#[test]
fn text_that_is_not_ascii_is_kept() {
    assert_eq!(decoded("caf\u{e9}\\n\u{6b64}\u{65b9}\\t\u{1F600}"), "caf\u{e9}\n\u{6b64}\u{65b9}\t\u{1F600}");
    assert_eq!(decoded("\u{1F600}\\u{1F600}\u{1F600}"), "\u{1F600}\u{1F600}\u{1F600}");
    assert_eq!(decoded("\\n\u{e9}"), "\n\u{e9}");
    assert_eq!(decoded("\u{e9}\\n"), "\u{e9}\n");
}

#[test]
fn empty_braces_have_too_few_digits() {
    assert_rejected(
        "\\u{}",
        ErrorKind::TooFewHexDigits,
        1,
        "Unicode escape must have at least 1 hex digit",
    );
    assert!(rejected("\\u{}").value.message.contains("at least 1 hex digit"));
}

#[test]
fn seven_digits_are_too_many() {
    assert_rejected(
        "\\u{1234567}",
        ErrorKind::TooManyHexDigits,
        1,
        "Unicode escape must have at most 6 hex digits",
    );
    assert!(rejected("\\u{1234567}").value.message.contains("at most 6 hex digits"));
}

#[test]
fn anything_but_the_brace_after_six_digits_is_too_many() {
    assert_rejected(
        "\\u{123456G}",
        ErrorKind::TooManyHexDigits,
        1,
        "Unicode escape must have at most 6 hex digits",
    );
    assert_rejected(
        "\\u{123456 }",
        ErrorKind::TooManyHexDigits,
        1,
        "Unicode escape must have at most 6 hex digits",
    );
    assert_rejected(
        "ab\\u{0000000041}",
        ErrorKind::TooManyHexDigits,
        3,
        "Unicode escape must have at most 6 hex digits",
    );
}

#[test]
fn unknown_marker_is_reported_after_the_backslash() {
    assert_rejected("\\q", ErrorKind::InvalidEscapeCharacter, 1, "Invalid escape character 'q'");
    assert_rejected("ab\\qcd", ErrorKind::InvalidEscapeCharacter, 3, "Invalid escape character 'q'");
    assert_rejected("\\0", ErrorKind::InvalidEscapeCharacter, 1, "Invalid escape character '0'");
    assert_rejected("\\N", ErrorKind::InvalidEscapeCharacter, 1, "Invalid escape character 'N'");
    assert_rejected("\\U0041", ErrorKind::InvalidEscapeCharacter, 1, "Invalid escape character 'U'");
    assert_rejected("\\ ", ErrorKind::InvalidEscapeCharacter, 1, "Invalid escape character ' '");
}

#[test]
fn unknown_marker_that_is_not_ascii() {
    assert_rejected(
        "\\\u{e9}",
        ErrorKind::InvalidEscapeCharacter,
        1,
        "Invalid escape character '\u{e9}'",
    );
    assert_rejected(
        "\u{6b64}\\\u{1F600}x",
        ErrorKind::InvalidEscapeCharacter,
        4,
        "Invalid escape character '\u{1F600}'",
    );
}

#[test]
fn backslash_at_the_end() {
    assert_rejected("abc\\", ErrorKind::UnexpectedEof, 4, "Unexpected EOF");
    assert_rejected("\\", ErrorKind::UnexpectedEof, 1, "Unexpected EOF");
    assert_rejected("\\n\\", ErrorKind::UnexpectedEof, 3, "Unexpected EOF");
}

#[test]
fn unicode_escape_cut_short() {
    assert_rejected("\\u", ErrorKind::UnexpectedEof, 1, "Unexpected EOF");
    assert_rejected("\\u0", ErrorKind::UnexpectedEof, 1, "Unexpected EOF");
    assert_rejected("\\u00", ErrorKind::UnexpectedEof, 1, "Unexpected EOF");
    assert_rejected("\\u004", ErrorKind::UnexpectedEof, 1, "Unexpected EOF");
    assert_rejected("ab\\u004", ErrorKind::UnexpectedEof, 3, "Unexpected EOF");
    assert_rejected("\\u{", ErrorKind::UnexpectedEof, 1, "Unexpected EOF");
    assert_rejected("\\u{1", ErrorKind::UnexpectedEof, 1, "Unexpected EOF");
    assert_rejected("\\u{12", ErrorKind::UnexpectedEof, 1, "Unexpected EOF");
    assert_rejected("\\u{123456", ErrorKind::UnexpectedEof, 1, "Unexpected EOF");
}

#[test]
fn character_that_is_no_hex_digit() {
    assert_rejected("\\uZZZZ", ErrorKind::InvalidHexDigit, 2, "Invalid hex digit");
    assert_rejected("\\u00G1", ErrorKind::InvalidHexDigit, 4, "Invalid hex digit");
    assert_rejected("\\u004g", ErrorKind::InvalidHexDigit, 5, "Invalid hex digit");
    assert_rejected("ab\\u0 41", ErrorKind::InvalidHexDigit, 5, "Invalid hex digit");
    assert_rejected("\\u+041", ErrorKind::InvalidHexDigit, 2, "Invalid hex digit");
    assert_rejected("\\u-041", ErrorKind::InvalidHexDigit, 2, "Invalid hex digit");
    assert_rejected("\\u004}", ErrorKind::InvalidHexDigit, 5, "Invalid hex digit");
}

#[test]
fn character_that_is_no_hex_digit_in_braces() {
    assert_rejected("\\u{G}", ErrorKind::InvalidHexDigit, 3, "Invalid hex digit");
    assert_rejected("\\u{12G}", ErrorKind::InvalidHexDigit, 5, "Invalid hex digit");
    assert_rejected("\\u{+41}", ErrorKind::InvalidHexDigit, 3, "Invalid hex digit");
    assert_rejected("\\u{1G34567}", ErrorKind::InvalidHexDigit, 4, "Invalid hex digit");
    assert_rejected("\\u{ 41}", ErrorKind::InvalidHexDigit, 3, "Invalid hex digit");
    assert_rejected("\\u{{41}", ErrorKind::InvalidHexDigit, 3, "Invalid hex digit");
}

#[test]
fn digits_are_read_one_by_one() {
    assert_rejected("\\uZ", ErrorKind::InvalidHexDigit, 2, "Invalid hex digit");
    assert_rejected("\\u0Z", ErrorKind::InvalidHexDigit, 3, "Invalid hex digit");
    assert_rejected("\\u{1G", ErrorKind::InvalidHexDigit, 4, "Invalid hex digit");
}

#[test]
fn hex_digit_that_is_not_ascii() {
    assert_rejected("\\u00\u{e9}1", ErrorKind::InvalidHexDigit, 4, "Invalid hex digit");
    assert_rejected("\\u\u{6b64}", ErrorKind::InvalidHexDigit, 2, "Invalid hex digit");
    assert_rejected("\\u{4\u{1F600}}", ErrorKind::InvalidHexDigit, 4, "Invalid hex digit");
    assert_rejected("\\u\u{ff10}041", ErrorKind::InvalidHexDigit, 2, "Invalid hex digit");
}

#[test]
fn surrogate_is_no_codepoint() {
    assert_rejected("\\uD800", ErrorKind::InvalidCodepoint, 1, "Invalid Unicode codepoint");
    assert_rejected("\\uDFFF", ErrorKind::InvalidCodepoint, 1, "Invalid Unicode codepoint");
    assert_rejected("\\udbff", ErrorKind::InvalidCodepoint, 1, "Invalid Unicode codepoint");
    assert_rejected("\\u{D800}", ErrorKind::InvalidCodepoint, 1, "Invalid Unicode codepoint");
    assert_rejected("\\u{00dfff}", ErrorKind::InvalidCodepoint, 1, "Invalid Unicode codepoint");
}

#[test]
fn number_above_the_last_codepoint() {
    assert_rejected("\\u{110000}", ErrorKind::InvalidCodepoint, 1, "Invalid Unicode codepoint");
    assert_rejected("\\u{FFFFFF}", ErrorKind::InvalidCodepoint, 1, "Invalid Unicode codepoint");
    assert_rejected("xy\\u{ffffff}", ErrorKind::InvalidCodepoint, 3, "Invalid Unicode codepoint");
}

#[test]
fn first_failure_decides() {
    assert_rejected("a\\n\\q\\u{}", ErrorKind::InvalidEscapeCharacter, 4, "Invalid escape character 'q'");
    assert_rejected("\\u{}\\q", ErrorKind::TooFewHexDigits, 1, "Unicode escape must have at least 1 hex digit");
    assert_rejected("\\u0041\\uD800\\", ErrorKind::InvalidCodepoint, 7, "Invalid Unicode codepoint");
}

#[test]
fn offsets_count_bytes() {
    assert_rejected("\u{e9}\\q", ErrorKind::InvalidEscapeCharacter, 3, "Invalid escape character 'q'");
    assert_rejected("\u{1F600}\u{6b64}\\uZ", ErrorKind::InvalidHexDigit, 9, "Invalid hex digit");
    assert_rejected("\\u{1F600}\\", ErrorKind::UnexpectedEof, 10, "Unexpected EOF");
    assert_rejected("\u{1F600}\\u{1F600}\\u{}", ErrorKind::TooFewHexDigits, 14, "Unicode escape must have at least 1 hex digit");
}

#[test]
fn decoded_leaf_holds_a_line_feed() {
    let errors: Errors = Vec::new();
    let body: FuncBody<()> = match unescape("line1\\nline2") {
        Ok(text) => FuncBody::Native(text.into_owned()),
        Err(error) => panic!("{:?}", error),
    };
    let func = FuncDef { ident: String::from("f"), ret_type: None, body };
    match &func.body {
        FuncBody::Native(name) => {
            assert_eq!(name, "line1\nline2");
            assert!(name.contains('\n'));
            assert_eq!(name.len(), 11);
        }
        FuncBody::Block(_) => unreachable!(),
    }
    assert_eq!(func.ident, "f");
    assert!(func.ret_type.is_none());
    assert!(errors.is_empty());
}

#[test]
fn kinds_have_their_texts() {
    assert_eq!(ErrorKind::UnexpectedEof.describe(), "Unexpected EOF");
    assert_eq!(ErrorKind::InvalidEscapeCharacter.describe(), "Invalid escape character");
    assert_eq!(ErrorKind::InvalidHexDigit.describe(), "Invalid hex digit");
    assert_eq!(
        ErrorKind::TooFewHexDigits.describe(),
        "Unicode escape must have at least 1 hex digit"
    );
    assert_eq!(
        ErrorKind::TooManyHexDigits.describe(),
        "Unicode escape must have at most 6 hex digits"
    );
    assert_eq!(ErrorKind::InvalidCodepoint.describe(), "Invalid Unicode codepoint");
    assert_eq!(ErrorKind::ParserSyntaxError.describe(), "Syntax error");
}

#[test]
fn every_ascii_marker() {
    for code in 0u8..0x80 {
        let marker = code as char;
        let input: String = ['x', '\\', marker, 'y'].iter().collect();
        let expected = match marker {
            '"' => Some('"'),
            '\'' => Some('\''),
            '\\' => Some('\\'),
            'n' => Some('\n'),
            'r' => Some('\r'),
            't' => Some('\t'),
            _ => None,
        };
        match (marker, expected) {
            ('u', _) => assert_rejected(&input, ErrorKind::InvalidHexDigit, 3, "Invalid hex digit"),
            (_, Some(c)) => {
                let output: String = ['x', c, 'y'].iter().collect();
                assert_eq!(decoded(&input), output);
            }
            (_, None) => assert_rejected(
                &input,
                ErrorKind::InvalidEscapeCharacter,
                2,
                &format!("Invalid escape character '{}'", marker),
            ),
        }
    }
}

#[test]
fn every_four_digit_number() {
    for value in 0u32..=0xFFFF {
        let input = format!("\\u{:04x}", value);
        let upper = format!("\\u{:04X}", value);
        let braced = format!("\\u{{{:x}}}", value);
        match char::from_u32(value) {
            Some(c) => {
                assert_eq!(decoded(&input), c.to_string());
                assert_eq!(decoded(&upper), c.to_string());
                assert_eq!(decoded(&braced), c.to_string());
            }
            None => {
                assert_eq!(rejected(&input).value.kind, ErrorKind::InvalidCodepoint);
                assert_eq!(rejected(&upper).value.kind, ErrorKind::InvalidCodepoint);
                assert_eq!(rejected(&braced).value.kind, ErrorKind::InvalidCodepoint);
            }
        }
    }
}

#[test]
fn long_text_with_many_escapes() {
    let mut input = String::new();
    let mut output = String::new();
    for round in 0..2000 {
        input.push_str("word \u{e9}\u{6b64}");
        output.push_str("word \u{e9}\u{6b64}");
        match round % 4 {
            0 => {
                input.push_str("\\n");
                output.push('\n');
            }
            1 => {
                input.push_str("\\u{1F600}");
                output.push('\u{1F600}');
            }
            2 => {
                input.push_str("\\\\\\\"");
                output.push_str("\\\"");
            }
            _ => {
                input.push_str("\\u00e9");
                output.push('\u{e9}');
            }
        }
    }
    assert_eq!(decoded(&input), output);
    input.push_str("\\u{}");
    let error = rejected(&input);
    assert_eq!(error.value.kind, ErrorKind::TooFewHexDigits);
    assert_eq!(error.span.start, input.len() - 3);
}
