//! Unit tests for the error model, its rendering, the source buffer and the
//! string-building helpers.

use roninc::buffer::Buffer;
use roninc::error::{Context, ErrorFormatting, LexicalError, RoninError, SyntaxError};
use roninc::text::{chars_to_string, decimal_string};
use roninc::token::{LnCol, Span};

#[test]
fn lexical_error_codes_are_ordinal_and_zero_padded() {
    assert_eq!(LexicalError::IllegalCharacter.error_code(), "error[LE01]");
    assert_eq!(LexicalError::ExceedingLengthIdentifier.error_code(), "error[LE02]");
    assert_eq!(LexicalError::IncorrectSpelling.error_code(), "error[LE03]");
    assert_eq!(LexicalError::ExceedingLengthNumber.error_code(), "error[LE04]");
    assert_eq!(LexicalError::StringMissingTrailingSign.error_code(), "error[LE05]");
    assert_eq!(LexicalError::CharacterMissingTrailingSign.error_code(), "error[LE06]");
}

#[test]
fn lexical_error_messages_are_fixed() {
    assert_eq!(LexicalError::IllegalCharacter.error_verbose(), "illegal character");
    assert_eq!(
        LexicalError::ExceedingLengthIdentifier.error_verbose(),
        "exceeding length of identifier"
    );
    assert_eq!(LexicalError::IncorrectSpelling.error_verbose(), "incorrect spelling");
    assert_eq!(
        LexicalError::ExceedingLengthNumber.error_verbose(),
        "exceeding length of number"
    );
    assert_eq!(
        LexicalError::StringMissingTrailingSign.error_verbose(),
        "string literal is missing a trailing sign `\"`"
    );
    assert_eq!(
        LexicalError::CharacterMissingTrailingSign.error_verbose(),
        "character literal is missing a trailing sign `'`"
    );
}

#[test]
fn syntax_error_codes_and_messages() {
    assert_eq!(SyntaxError::TypeMismatch.error_code(), "error[SE01]");
    assert_eq!(SyntaxError::SemiMissing.error_code(), "error[SE02]");
    assert_eq!(SyntaxError::SemiOmitted.error_code(), "error[SE03]");
    assert_eq!(SyntaxError::TypeMismatch.error_verbose(), "type mismatch");
    assert_eq!(SyntaxError::SemiMissing.error_verbose(), "character `;` missing");
    assert_eq!(SyntaxError::SemiOmitted.error_verbose(), "character `;` omitted");
}

#[test]
fn render_without_context_has_no_line_prefix() {
    let e = RoninError::generate(LexicalError::IllegalCharacter);
    assert_eq!(e.render(), "error[LE01] :: illegal character");
}

#[test]
fn render_with_context_prefixes_the_start_line() {
    let span = Span::new(LnCol::new(12, 3), LnCol::new(12, 40));
    let e = RoninError::generate(LexicalError::ExceedingLengthIdentifier).attach(
        "main.rn".to_string(),
        "let averyveryverylongname = 1;".to_string(),
        span,
    );
    assert_eq!(e.render(), "12 | error[LE02] :: exceeding length of identifier");
}

#[test]
fn context_new_keeps_the_start_line() {
    let span = Span::new(LnCol::new(7, 1), LnCol::new(7, 4));
    let ctx = Context::new("f.rn", "abcd".to_string(), span);
    assert_eq!(ctx.start_line(), 7);
}

#[test]
fn decimal_rendering() {
    assert_eq!(decimal_string(0), "0");
    assert_eq!(decimal_string(7), "7");
    assert_eq!(decimal_string(42), "42");
    assert_eq!(decimal_string(100), "100");
    assert_eq!(decimal_string(987654), "987654");
}

#[test]
fn chars_to_string_collects_all_characters() {
    assert_eq!(chars_to_string(&vec![]), "");
    assert_eq!(chars_to_string(&vec!['a', 'b', 'c']), "abc");
    assert_eq!(chars_to_string(&vec!['\\', 'n']), "\\n");
}

#[test]
fn buffer_next_and_peek_walk_the_text() {
    let mut b = Buffer::new("f.rn".to_string(), "ab".chars().collect());
    assert_eq!(b.peek(), Some('a'));
    assert_eq!(b.next(), Some('a'));
    assert_eq!(b.peek(), Some('b'));
    assert_eq!(b.next(), Some('b'));
    assert_eq!(b.peek(), None);
    assert_eq!(b.next(), None);
    assert_eq!(b.cursor, 2);
}

#[test]
fn buffer_get_line_slices_to_the_newline() {
    let mut b = Buffer::new("f.rn".to_string(), "ab\ncd\ne".chars().collect());
    assert_eq!(b.get_line(0), "ab");
    // Consume through the first newline and record the next line's start.
    b.next();
    b.next();
    b.next();
    b.notfify_new_line();
    assert_eq!(b.get_line(1), "cd");
    // An unrecorded line index yields the empty text.
    assert_eq!(b.get_line(9), "");
}
