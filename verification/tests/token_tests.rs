//! Unit tests for the token data model: positions, spans, the fixed tables
//! and the display text.

use roninc::token::{Delimiter, LitKind, LnCol, PermKind, Span, Token, TokenKind};

#[test]
fn lncol_update_returns_snapshot_and_advances() {
    let mut pos = LnCol::new(1, 1);
    let before = pos.update(0, 3);
    assert_eq!(before, LnCol::new(1, 1));
    assert_eq!(pos, LnCol::new(1, 4));
    let before = pos.update(2, 5);
    assert_eq!(before, LnCol::new(1, 4));
    assert_eq!(pos, LnCol::new(3, 9));
}

#[test]
fn lncol_add_shifts_without_mutating() {
    let pos = LnCol::new(2, 7);
    assert_eq!(pos.add(0, 4), LnCol::new(2, 11));
    assert_eq!(pos, LnCol::new(2, 7));
}

#[test]
fn span_keeps_endpoints() {
    let span = Span::new(LnCol::new(1, 2), LnCol::new(1, 9));
    assert_eq!(span.start, LnCol::new(1, 2));
    assert_eq!(span.end, LnCol::new(1, 9));
}

#[test]
fn token_new_keeps_kind_and_position() {
    let t = Token::new(TokenKind::Semi, LnCol::new(4, 2));
    assert_eq!(t.kind, TokenKind::Semi);
    assert_eq!(t.pos, LnCol::new(4, 2));
}

#[test]
fn match_keyword_hits_every_table_entry() {
    let cases: Vec<(&str, TokenKind)> = vec![
        ("i32", TokenKind::I32),
        ("u32", TokenKind::U32),
        ("char", TokenKind::AsciiChar),
        ("if", TokenKind::If),
        ("fn", TokenKind::Fn),
        ("return", TokenKind::Return),
        ("isize", TokenKind::Isize),
        ("usize", TokenKind::Usize),
        ("f32", TokenKind::F32),
        ("main", TokenKind::Main),
        ("true", TokenKind::True),
        ("false", TokenKind::False),
        ("r", TokenKind::Permission(PermKind::R)),
        ("rw", TokenKind::Permission(PermKind::RW)),
    ];
    for (lexeme, kind) in cases {
        let chars: Vec<char> = lexeme.chars().collect();
        assert_eq!(TokenKind::match_keyword(&chars), Some(kind), "keyword {:?}", lexeme);
    }
}

#[test]
fn match_keyword_misses_non_keywords() {
    for lexeme in ["", "x", "iff", "returns", "Main", "R", "rws", "i64"] {
        let chars: Vec<char> = lexeme.chars().collect();
        assert_eq!(TokenKind::match_keyword(&chars), None, "not a keyword {:?}", lexeme);
    }
}

#[test]
fn match_punctuation_hits_every_table_entry() {
    let cases: Vec<(char, TokenKind)> = vec![
        (';', TokenKind::Semi),
        (':', TokenKind::Colon),
        ('{', TokenKind::OpenDelim(Delimiter::Brace)),
        ('(', TokenKind::OpenDelim(Delimiter::Paren)),
        (')', TokenKind::CloseDelim(Delimiter::Paren)),
        ('}', TokenKind::CloseDelim(Delimiter::Brace)),
        ('[', TokenKind::OpenDelim(Delimiter::Bracket)),
        (']', TokenKind::CloseDelim(Delimiter::Bracket)),
        ('=', TokenKind::Eq),
        ('-', TokenKind::Minus),
        ('+', TokenKind::Plus),
        ('/', TokenKind::Div),
        ('*', TokenKind::Star),
        ('.', TokenKind::Dot),
        (',', TokenKind::Comma),
        ('\'', TokenKind::SingleQuote),
        ('"', TokenKind::DoubleQuote),
        ('!', TokenKind::Not),
        ('&', TokenKind::And),
        ('|', TokenKind::Or),
        ('>', TokenKind::Gt),
        ('<', TokenKind::Lt),
        ('#', TokenKind::Hashtag),
        ('%', TokenKind::Percent),
        ('\\', TokenKind::BSlash),
        ('@', TokenKind::At),
    ];
    for (ch, kind) in cases {
        assert_eq!(TokenKind::match_punctuation(&ch), Some(kind), "punctuation {:?}", ch);
    }
}

#[test]
fn match_punctuation_misses_other_characters() {
    for ch in ['a', '0', ' ', '\n', '$', '~', '^', '?'] {
        assert_eq!(TokenKind::match_punctuation(&ch), None, "not punctuation {:?}", ch);
    }
}

#[test]
fn combo_table_fuses_exactly_the_listed_pairs() {
    assert_eq!(TokenKind::Colon.get_combo(&':'), Some(TokenKind::ColonColon));
    assert_eq!(TokenKind::Gt.get_combo(&'='), Some(TokenKind::GtEq));
    assert_eq!(TokenKind::Lt.get_combo(&'='), Some(TokenKind::LtEq));
    assert_eq!(TokenKind::Eq.get_combo(&'='), Some(TokenKind::EqEq));
    assert_eq!(TokenKind::Not.get_combo(&'='), Some(TokenKind::NotEq));
    assert_eq!(TokenKind::Minus.get_combo(&'='), Some(TokenKind::MinusEq));
    assert_eq!(TokenKind::Plus.get_combo(&'='), Some(TokenKind::PlusEq));
    assert_eq!(TokenKind::Minus.get_combo(&'>'), Some(TokenKind::RArrow));
    assert_eq!(TokenKind::And.get_combo(&'&'), Some(TokenKind::AndAnd));
    assert_eq!(TokenKind::Or.get_combo(&'|'), Some(TokenKind::OrOr));
    assert_eq!(TokenKind::Eq.get_combo(&';'), None);
    assert_eq!(TokenKind::Plus.get_combo(&'+'), None);
    assert_eq!(TokenKind::Semi.get_combo(&';'), None);
    assert_eq!(TokenKind::Gt.get_combo(&'a'), None);
}

#[test]
fn is_permission_only_on_permission_markers() {
    assert!(TokenKind::Permission(PermKind::R).is_permission());
    assert!(TokenKind::Permission(PermKind::RW).is_permission());
    assert!(!TokenKind::Div.is_permission());
    assert!(!TokenKind::Ident("r".to_string()).is_permission());
}

#[test]
fn display_string_shows_payloads_and_names() {
    assert_eq!(TokenKind::Ident("abc".to_string()).display_string(), "abc");
    assert_eq!(
        TokenKind::Literal(LitKind::Char("a".to_string())).display_string(),
        "'a'"
    );
    assert_eq!(
        TokenKind::Literal(LitKind::Integer("42".to_string())).display_string(),
        "42"
    );
    assert_eq!(
        TokenKind::Literal(LitKind::Float("3.14".to_string())).display_string(),
        "3.14"
    );
    assert_eq!(
        TokenKind::Literal(LitKind::Str("hi".to_string())).display_string(),
        "\"hi\""
    );
    assert_eq!(TokenKind::Permission(PermKind::R).display_string(), "R");
    assert_eq!(TokenKind::Permission(PermKind::RW).display_string(), "RW");
    assert_eq!(TokenKind::ColonColon.display_string(), "ColonColon");
    assert_eq!(TokenKind::RArrow.display_string(), "RArrow");
    assert_eq!(TokenKind::OpenDelim(Delimiter::Bracket).display_string(), "Bracket");
    assert_eq!(TokenKind::CloseDelim(Delimiter::Paren).display_string(), "Paren");
    assert_eq!(TokenKind::AsciiChar.display_string(), "AsciiChar");
    assert_eq!(TokenKind::EOF.display_string(), "EOF");
}
