//! Whole-pass scenarios: identifiers, keywords, numbers, strings, characters,
//! operators, comments, permission fusion and error tolerance.

use roninc::buffer::Buffer;
use roninc::error::LexicalError;
use roninc::lexer::emit_tokens;
use roninc::token::{Delimiter, LitKind, LnCol, PermKind, Token, TokenKind};

fn lex(text: &str) -> Result<Vec<Token>, Vec<roninc::error::RoninError<LexicalError>>> {
    emit_tokens(Buffer::new("test.rn".to_string(), text.chars().collect()))
}

fn tok(kind: TokenKind, ln: usize, col: usize) -> Token {
    Token::new(kind, LnCol::new(ln, col))
}

#[test]
fn plain_identifier_yields_one_token() {
    let toks = lex("abc").unwrap();
    assert_eq!(
        toks,
        vec![
            tok(TokenKind::Ident("abc".to_string()), 1, 1),
            tok(TokenKind::EOF, 1, 4),
        ]
    );
}

#[test]
fn identifier_with_digits_and_underscore() {
    let toks = lex("_x9_y").unwrap();
    assert_eq!(
        toks,
        vec![
            tok(TokenKind::Ident("_x9_y".to_string()), 1, 1),
            tok(TokenKind::EOF, 1, 6),
        ]
    );
}

#[test]
fn identifier_of_exactly_thirty_is_accepted() {
    let name = "a".repeat(30);
    let toks = lex(&name).unwrap();
    assert_eq!(toks.len(), 2);
    assert_eq!(toks[0].kind, TokenKind::Ident(name));
}

#[test]
fn identifier_over_thirty_is_one_error_and_no_token() {
    let name = "a".repeat(31);
    let errs = lex(&name).unwrap_err();
    assert_eq!(errs.len(), 1);
    assert!(matches!(errs[0].kind, LexicalError::ExceedingLengthIdentifier));
    assert_eq!(
        errs[0].render(),
        "1 | error[LE02] :: exceeding length of identifier"
    );
}

#[test]
fn keywords_map_to_fixed_tokens() {
    let toks = lex("fn if return main true false i32 u32 isize usize f32 char").unwrap();
    let kinds: Vec<&TokenKind> = toks.iter().map(|t| &t.kind).collect();
    assert!(matches!(kinds[0], TokenKind::Fn));
    assert!(matches!(kinds[1], TokenKind::If));
    assert!(matches!(kinds[2], TokenKind::Return));
    assert!(matches!(kinds[3], TokenKind::Main));
    assert!(matches!(kinds[4], TokenKind::True));
    assert!(matches!(kinds[5], TokenKind::False));
    assert!(matches!(kinds[6], TokenKind::I32));
    assert!(matches!(kinds[7], TokenKind::U32));
    assert!(matches!(kinds[8], TokenKind::Isize));
    assert!(matches!(kinds[9], TokenKind::Usize));
    assert!(matches!(kinds[10], TokenKind::F32));
    assert!(matches!(kinds[11], TokenKind::AsciiChar));
    assert!(matches!(kinds[12], TokenKind::EOF));
}

#[test]
fn permission_fuses_onto_preceding_slash() {
    let toks = lex("/r").unwrap();
    assert_eq!(
        toks,
        vec![
            tok(TokenKind::Permission(PermKind::R), 1, 1),
            tok(TokenKind::EOF, 1, 2),
        ]
    );
    let toks = lex("/rw").unwrap();
    assert_eq!(
        toks,
        vec![
            tok(TokenKind::Permission(PermKind::RW), 1, 1),
            tok(TokenKind::EOF, 1, 2),
        ]
    );
}

#[test]
fn permission_lexeme_alone_is_plain_identifier() {
    let toks = lex("r").unwrap();
    assert_eq!(
        toks,
        vec![
            tok(TokenKind::Ident("r".to_string()), 1, 1),
            tok(TokenKind::EOF, 1, 2),
        ]
    );
    let toks = lex("rw").unwrap();
    assert_eq!(toks[0].kind, TokenKind::Ident("rw".to_string()));
}

#[test]
fn permission_after_whitespace_is_plain_identifier() {
    let toks = lex("/ r").unwrap();
    assert_eq!(
        toks,
        vec![
            tok(TokenKind::Div, 1, 1),
            tok(TokenKind::Ident("r".to_string()), 1, 3),
            tok(TokenKind::EOF, 1, 4),
        ]
    );
}

#[test]
fn integer_literal_keeps_raw_digits() {
    let toks = lex("42").unwrap();
    assert_eq!(
        toks,
        vec![
            tok(TokenKind::Literal(LitKind::Integer("42".to_string())), 1, 1),
            tok(TokenKind::EOF, 1, 3),
        ]
    );
}

#[test]
fn float_literal_keeps_raw_digits_and_dot() {
    let toks = lex("3.14").unwrap();
    assert_eq!(
        toks,
        vec![
            tok(TokenKind::Literal(LitKind::Float("3.14".to_string())), 1, 1),
            tok(TokenKind::EOF, 1, 5),
        ]
    );
}

#[test]
fn second_dot_ends_the_numeric_literal() {
    // The numeric routine stops silently at the first character that cannot
    // extend the run: `1.2.3` is a float, a dot, and an integer.
    let toks = lex("1.2.3").unwrap();
    assert_eq!(
        toks,
        vec![
            tok(TokenKind::Literal(LitKind::Float("1.2".to_string())), 1, 1),
            tok(TokenKind::Dot, 1, 4),
            tok(TokenKind::Literal(LitKind::Integer("3".to_string())), 1, 5),
            tok(TokenKind::EOF, 1, 6),
        ]
    );
}

#[test]
fn number_over_thirty_digits_is_one_error() {
    let digits = "1".repeat(31);
    let errs = lex(&digits).unwrap_err();
    assert_eq!(errs.len(), 1);
    assert!(matches!(errs[0].kind, LexicalError::ExceedingLengthNumber));
    assert_eq!(errs[0].render(), "1 | error[LE04] :: exceeding length of number");
}

#[test]
fn string_payload_normalizes_embedded_newline() {
    // A raw newline inside a string decodes to the two characters `\` `n`,
    // and the token's span delta counts exactly one line.
    let toks = lex("\"hello\nworld\"").unwrap();
    assert_eq!(
        toks,
        vec![
            tok(
                TokenKind::Literal(LitKind::Str("hello\\nworld".to_string())),
                1,
                1
            ),
            tok(TokenKind::EOF, 2, 8),
        ]
    );
}

#[test]
fn string_payload_normalizes_tab_to_four_spaces() {
    let toks = lex("\"a\tb\"").unwrap();
    assert_eq!(
        toks[0].kind,
        TokenKind::Literal(LitKind::Str("a    b".to_string()))
    );
}

#[test]
fn string_keeps_escape_sequences_as_written() {
    let toks = lex("\"a\\\"b\\\\c\"").unwrap();
    assert_eq!(
        toks[0].kind,
        TokenKind::Literal(LitKind::Str("a\\\"b\\\\c".to_string()))
    );
}

#[test]
fn unterminated_string_is_one_error_and_no_string_token() {
    let errs = lex("\"hello").unwrap_err();
    assert_eq!(errs.len(), 1);
    assert!(matches!(errs[0].kind, LexicalError::StringMissingTrailingSign));
    assert_eq!(
        errs[0].render(),
        "error[LE05] :: string literal is missing a trailing sign `\"`"
    );
}

#[test]
fn char_literal_single_character() {
    let toks = lex("'a'").unwrap();
    assert_eq!(
        toks,
        vec![
            tok(TokenKind::Literal(LitKind::Char("a".to_string())), 1, 1),
            tok(TokenKind::EOF, 1, 4),
        ]
    );
}

#[test]
fn char_literal_escape_keeps_both_characters() {
    let toks = lex("'\\n'").unwrap();
    assert_eq!(
        toks,
        vec![
            tok(TokenKind::Literal(LitKind::Char("\\n".to_string())), 1, 1),
            tok(TokenKind::EOF, 1, 5),
        ]
    );
}

#[test]
fn empty_char_literal_is_a_diagnostic() {
    let errs = lex("''").unwrap_err();
    assert_eq!(errs.len(), 1);
    assert!(matches!(errs[0].kind, LexicalError::IncorrectSpelling));
}

#[test]
fn unclosed_char_literal_is_a_diagnostic() {
    let errs = lex("'ab").unwrap_err();
    assert_eq!(errs.len(), 1);
    assert!(matches!(errs[0].kind, LexicalError::CharacterMissingTrailingSign));
}

#[test]
fn operator_fusion_pairs() {
    let cases: Vec<(&str, TokenKind)> = vec![
        (">=", TokenKind::GtEq),
        ("<=", TokenKind::LtEq),
        ("==", TokenKind::EqEq),
        ("!=", TokenKind::NotEq),
        ("->", TokenKind::RArrow),
        ("&&", TokenKind::AndAnd),
        ("||", TokenKind::OrOr),
        ("::", TokenKind::ColonColon),
        ("-=", TokenKind::MinusEq),
        ("+=", TokenKind::PlusEq),
    ];
    for (text, kind) in cases {
        let toks = lex(text).unwrap();
        assert_eq!(
            toks,
            vec![tok(kind, 1, 1), tok(TokenKind::EOF, 1, 3)],
            "fusing {:?}",
            text
        );
    }
}

#[test]
fn unrelated_pair_stays_two_tokens() {
    let toks = lex("=;").unwrap();
    assert_eq!(
        toks,
        vec![
            tok(TokenKind::Eq, 1, 1),
            tok(TokenKind::Semi, 1, 2),
            tok(TokenKind::EOF, 1, 3),
        ]
    );
    let toks = lex(">;").unwrap();
    assert_eq!(toks[0].kind, TokenKind::Gt);
    assert_eq!(toks[1].kind, TokenKind::Semi);
}

#[test]
fn empty_file_yields_exactly_end_of_stream() {
    let toks = lex("").unwrap();
    assert_eq!(toks, vec![tok(TokenKind::EOF, 1, 1)]);
}

#[test]
fn two_passes_yield_identical_streams() {
    let text = "fn main() { return 3.14; } # trailing note";
    let first = lex(text).unwrap();
    let second = lex(text).unwrap();
    assert_eq!(first, second);
}

#[test]
fn illegal_character_is_an_error_and_scanning_continues() {
    let errs = lex("$ $").unwrap_err();
    assert_eq!(errs.len(), 2);
    assert!(matches!(errs[0].kind, LexicalError::IllegalCharacter));
    assert!(matches!(errs[1].kind, LexicalError::IllegalCharacter));
    assert_eq!(errs[0].render(), "error[LE01] :: illegal character");
}

#[test]
fn comment_runs_to_end_of_line() {
    let toks = lex("# note\nx").unwrap();
    assert_eq!(
        toks,
        vec![
            tok(TokenKind::Ident("x".to_string()), 2, 1),
            tok(TokenKind::EOF, 2, 2),
        ]
    );
}

#[test]
fn delimiters_and_positions_across_lines() {
    let toks = lex("fn main() {\n    return 42;\n}").unwrap();
    assert_eq!(
        toks,
        vec![
            tok(TokenKind::Fn, 1, 1),
            tok(TokenKind::Main, 1, 4),
            tok(TokenKind::OpenDelim(Delimiter::Paren), 1, 8),
            tok(TokenKind::CloseDelim(Delimiter::Paren), 1, 9),
            tok(TokenKind::OpenDelim(Delimiter::Brace), 1, 11),
            tok(TokenKind::Return, 2, 5),
            tok(TokenKind::Literal(LitKind::Integer("42".to_string())), 2, 12),
            tok(TokenKind::Semi, 2, 14),
            tok(TokenKind::CloseDelim(Delimiter::Brace), 3, 1),
            tok(TokenKind::EOF, 3, 2),
        ]
    );
}

#[test]
fn errors_do_not_stop_the_pass() {
    // One pass collects every lexical error.
    let name = "b".repeat(31);
    let errs = lex(&format!("$ {} 'x", name)).unwrap_err();
    assert_eq!(errs.len(), 3);
    assert!(matches!(errs[0].kind, LexicalError::IllegalCharacter));
    assert!(matches!(errs[1].kind, LexicalError::ExceedingLengthIdentifier));
    assert!(matches!(errs[2].kind, LexicalError::CharacterMissingTrailingSign));
}

#[test]
fn comment_at_end_of_input_still_counts_one_line() {
    let toks = lex("x # trailing").unwrap();
    assert_eq!(
        toks,
        vec![
            tok(TokenKind::Ident("x".to_string()), 1, 1),
            tok(TokenKind::EOF, 2, 1),
        ]
    );
}

#[test]
fn carriage_return_is_whitespace() {
    let toks = lex("a\r\nb").unwrap();
    assert_eq!(
        toks,
        vec![
            tok(TokenKind::Ident("a".to_string()), 1, 1),
            tok(TokenKind::Ident("b".to_string()), 2, 1),
            tok(TokenKind::EOF, 2, 2),
        ]
    );
}

#[test]
fn lone_operator_at_end_of_input() {
    let toks = lex("=").unwrap();
    assert_eq!(
        toks,
        vec![tok(TokenKind::Eq, 1, 1), tok(TokenKind::EOF, 1, 2)]
    );
}

#[test]
fn permission_fuses_inside_a_larger_program() {
    let toks = lex("x /rw").unwrap();
    assert_eq!(toks[0].kind, TokenKind::Ident("x".to_string()));
    assert_eq!(toks[1], tok(TokenKind::Permission(PermKind::RW), 1, 3));
    assert!(matches!(toks[2].kind, TokenKind::EOF));
}

#[test]
fn brackets_lex_as_delimiters() {
    let toks = lex("[](){}").unwrap();
    let kinds: Vec<&TokenKind> = toks.iter().map(|t| &t.kind).collect();
    assert!(matches!(kinds[0], TokenKind::OpenDelim(Delimiter::Bracket)));
    assert!(matches!(kinds[1], TokenKind::CloseDelim(Delimiter::Bracket)));
    assert!(matches!(kinds[2], TokenKind::OpenDelim(Delimiter::Paren)));
    assert!(matches!(kinds[3], TokenKind::CloseDelim(Delimiter::Paren)));
    assert!(matches!(kinds[4], TokenKind::OpenDelim(Delimiter::Brace)));
    assert!(matches!(kinds[5], TokenKind::CloseDelim(Delimiter::Brace)));
}
