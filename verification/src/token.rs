//! Token data model: source positions, spans, token kinds, and the fixed
//! keyword / punctuation / combination tables the scanner classifies with.
//!
//! Each executable type has a spec-level mirror (payloads as `Seq<char>`,
//! positions as `int`) reached through `View` / `DeepView`, so that contracts
//! can speak about whole token streams mathematically.

use vstd::prelude::*;
use vstd::string::{StrSliceExecFns, StringExecFns};

verus! {

// ---------------------------------------------------------------- positions

/// Spec-level source position; lines and columns are 1-based.
pub struct SpecPos {
    pub line: int,
    pub col: int,
}

/// A 1-based line/column pair, mutated in place as characters are consumed.
#[derive(Clone, Copy, Debug, PartialEq, Eq, Structural)]
pub struct LnCol {
    pub ln: usize,
    pub col: usize,
}

impl View for LnCol {
    type V = SpecPos;

    open spec fn view(&self) -> SpecPos {
        SpecPos { line: self.ln as int, col: self.col as int }
    }
}

impl DeepView for LnCol {
    type V = SpecPos;

    open spec fn deep_view(&self) -> SpecPos {
        self.view()
    }
}

impl LnCol {
    /// Creates a new position.
    pub fn new(ln: usize, col: usize) -> (r: LnCol)
        ensures
            r.ln == ln,
            r.col == col,
    {
        LnCol { ln, col }
    }

    /// Advance-and-snapshot: applies a `(line, column)` delta and returns the
    /// position as it was before the delta, so a token records its start.
    pub fn update(&mut self, ln: usize, col: usize) -> (r: LnCol)
        requires
            old(self).ln + ln <= usize::MAX,
            old(self).col + col <= usize::MAX,
        ensures
            r == *old(self),
            final(self).ln == old(self).ln + ln,
            final(self).col == old(self).col + col,
    {
        let lc = *self;
        self.ln = self.ln + ln;
        self.col = self.col + col;
        lc
    }

    /// Returns this position shifted by a `(line, column)` delta.
    pub fn add(&self, ln: usize, col: usize) -> (r: LnCol)
        requires
            self.ln + ln <= usize::MAX,
            self.col + col <= usize::MAX,
        ensures
            r.ln == self.ln + ln,
            r.col == self.col + col,
    {
        LnCol { ln: self.ln + ln, col: self.col + col }
    }
}

// -------------------------------------------------------------------- spans

/// Spec-level start/end position pair.
pub struct SpecSpan {
    pub start: SpecPos,
    pub end: SpecPos,
}

/// A start/end position pair; used to scope a diagnostic.
#[derive(Clone, Copy, Debug, PartialEq, Eq, Structural)]
pub struct Span {
    pub start: LnCol,
    pub end: LnCol,
}

impl View for Span {
    type V = SpecSpan;

    open spec fn view(&self) -> SpecSpan {
        SpecSpan { start: self.start@, end: self.end@ }
    }
}

impl DeepView for Span {
    type V = SpecSpan;

    open spec fn deep_view(&self) -> SpecSpan {
        self.view()
    }
}

impl Span {
    /// Creates a new span.
    pub fn new(start: LnCol, end: LnCol) -> (r: Span)
        ensures
            r.start == start,
            r.end == end,
    {
        Span { start, end }
    }
}

// -------------------------------------------------------------- token kinds

/// Spec-level literal payloads.
pub enum SpecLitKind {
    Char(Seq<char>),
    Integer(Seq<char>),
    Float(Seq<char>),
    Str(Seq<char>),
}

/// The payload of a literal token: its raw (or decoded) text.
#[derive(Debug, PartialEq, Eq)]
pub enum LitKind {
    Char(String),
    Integer(String),
    Float(String),
    Str(String),
}

impl DeepView for LitKind {
    type V = SpecLitKind;

    open spec fn deep_view(&self) -> SpecLitKind {
        match self {
            LitKind::Char(s) => SpecLitKind::Char(s@),
            LitKind::Integer(s) => SpecLitKind::Integer(s@),
            LitKind::Float(s) => SpecLitKind::Float(s@),
            LitKind::Str(s) => SpecLitKind::Str(s@),
        }
    }
}

/// Permission markers, recognized only fused onto a preceding `/`.
#[derive(Clone, Copy, Debug, PartialEq, Eq, Structural)]
pub enum PermKind {
    R,
    RW,
}

/// Bracketing delimiters.
#[derive(Clone, Copy, Debug, PartialEq, Eq, Structural)]
pub enum Delimiter {
    Paren,
    Brace,
    Bracket,
}

/// Spec-level mirror of `TokenKind`, with payloads as character sequences.
pub enum SpecTokenKind {
    Ident(Seq<char>),
    Literal(SpecLitKind),
    Permission(PermKind),
    ColonColon,
    GtEq,
    LtEq,
    EqEq,
    NotEq,
    MinusEq,
    PlusEq,
    RArrow,
    AndAnd,
    OrOr,
    At,
    Div,
    BSlash,
    Not,
    Hashtag,
    Percent,
    And,
    Or,
    Star,
    SingleQuote,
    DoubleQuote,
    Semi,
    Colon,
    Gt,
    Lt,
    Eq,
    Minus,
    Plus,
    Dot,
    Comma,
    OpenDelim(Delimiter),
    CloseDelim(Delimiter),
    Main,
    Return,
    If,
    Fn,
    I32,
    Isize,
    U32,
    Usize,
    F32,
    AsciiChar,
    True,
    False,
    EOF,
}

/// The closed set of token classifications.
#[derive(Debug, PartialEq, Eq)]
pub enum TokenKind {
    Ident(String),
    Literal(LitKind),
    Permission(PermKind),
    ColonColon,
    GtEq,
    LtEq,
    EqEq,
    NotEq,
    MinusEq,
    PlusEq,
    RArrow,
    AndAnd,
    OrOr,
    At,
    Div,
    BSlash,
    Not,
    Hashtag,
    Percent,
    And,
    Or,
    Star,
    SingleQuote,
    DoubleQuote,
    Semi,
    Colon,
    Gt,
    Lt,
    Eq,
    Minus,
    Plus,
    Dot,
    Comma,
    OpenDelim(Delimiter),
    CloseDelim(Delimiter),
    Main,
    Return,
    If,
    Fn,
    I32,
    Isize,
    U32,
    Usize,
    F32,
    AsciiChar,
    True,
    False,
    EOF,
}

impl DeepView for TokenKind {
    type V = SpecTokenKind;

    open spec fn deep_view(&self) -> SpecTokenKind {
        match self {
            TokenKind::Ident(s) => SpecTokenKind::Ident(s@),
            TokenKind::Literal(l) => SpecTokenKind::Literal(l.deep_view()),
            TokenKind::Permission(p) => SpecTokenKind::Permission(*p),
            TokenKind::ColonColon => SpecTokenKind::ColonColon,
            TokenKind::GtEq => SpecTokenKind::GtEq,
            TokenKind::LtEq => SpecTokenKind::LtEq,
            TokenKind::EqEq => SpecTokenKind::EqEq,
            TokenKind::NotEq => SpecTokenKind::NotEq,
            TokenKind::MinusEq => SpecTokenKind::MinusEq,
            TokenKind::PlusEq => SpecTokenKind::PlusEq,
            TokenKind::RArrow => SpecTokenKind::RArrow,
            TokenKind::AndAnd => SpecTokenKind::AndAnd,
            TokenKind::OrOr => SpecTokenKind::OrOr,
            TokenKind::At => SpecTokenKind::At,
            TokenKind::Div => SpecTokenKind::Div,
            TokenKind::BSlash => SpecTokenKind::BSlash,
            TokenKind::Not => SpecTokenKind::Not,
            TokenKind::Hashtag => SpecTokenKind::Hashtag,
            TokenKind::Percent => SpecTokenKind::Percent,
            TokenKind::And => SpecTokenKind::And,
            TokenKind::Or => SpecTokenKind::Or,
            TokenKind::Star => SpecTokenKind::Star,
            TokenKind::SingleQuote => SpecTokenKind::SingleQuote,
            TokenKind::DoubleQuote => SpecTokenKind::DoubleQuote,
            TokenKind::Semi => SpecTokenKind::Semi,
            TokenKind::Colon => SpecTokenKind::Colon,
            TokenKind::Gt => SpecTokenKind::Gt,
            TokenKind::Lt => SpecTokenKind::Lt,
            TokenKind::Eq => SpecTokenKind::Eq,
            TokenKind::Minus => SpecTokenKind::Minus,
            TokenKind::Plus => SpecTokenKind::Plus,
            TokenKind::Dot => SpecTokenKind::Dot,
            TokenKind::Comma => SpecTokenKind::Comma,
            TokenKind::OpenDelim(d) => SpecTokenKind::OpenDelim(*d),
            TokenKind::CloseDelim(d) => SpecTokenKind::CloseDelim(*d),
            TokenKind::Main => SpecTokenKind::Main,
            TokenKind::Return => SpecTokenKind::Return,
            TokenKind::If => SpecTokenKind::If,
            TokenKind::Fn => SpecTokenKind::Fn,
            TokenKind::I32 => SpecTokenKind::I32,
            TokenKind::Isize => SpecTokenKind::Isize,
            TokenKind::U32 => SpecTokenKind::U32,
            TokenKind::Usize => SpecTokenKind::Usize,
            TokenKind::F32 => SpecTokenKind::F32,
            TokenKind::AsciiChar => SpecTokenKind::AsciiChar,
            TokenKind::True => SpecTokenKind::True,
            TokenKind::False => SpecTokenKind::False,
            TokenKind::EOF => SpecTokenKind::EOF,
        }
    }
}

// ------------------------------------------------------------------- tokens

/// Spec-level token: a classification and the start position it was read at.
pub struct SpecToken {
    pub kind: SpecTokenKind,
    pub pos: SpecPos,
}

/// A classified, position-tagged unit of lexical output.
#[derive(Debug, PartialEq, Eq)]
pub struct Token {
    pub kind: TokenKind,
    pub pos: LnCol,
}

impl DeepView for Token {
    type V = SpecToken;

    open spec fn deep_view(&self) -> SpecToken {
        SpecToken { kind: self.kind.deep_view(), pos: self.pos@ }
    }
}

impl Token {
    /// Creates a new token.
    pub fn new(kind: TokenKind, pos: LnCol) -> (r: Token)
        ensures
            r.kind == kind,
            r.pos == pos,
    {
        Token { kind, pos }
    }
}

// ------------------------------------------------------------ fixed tables

/// The keyword table: reserved lexemes and the fixed-payload kinds they map
/// to. `r` and `rw` map to permission markers, which the scanner treats
/// specially (they are reserved only directly after a `/`).
pub open spec fn spec_keyword(s: Seq<char>) -> Option<SpecTokenKind> {
    if s == seq!['i', '3', '2'] {
        Some(SpecTokenKind::I32)
    } else if s == seq!['u', '3', '2'] {
        Some(SpecTokenKind::U32)
    } else if s == seq!['c', 'h', 'a', 'r'] {
        Some(SpecTokenKind::AsciiChar)
    } else if s == seq!['i', 'f'] {
        Some(SpecTokenKind::If)
    } else if s == seq!['f', 'n'] {
        Some(SpecTokenKind::Fn)
    } else if s == seq!['r', 'e', 't', 'u', 'r', 'n'] {
        Some(SpecTokenKind::Return)
    } else if s == seq!['i', 's', 'i', 'z', 'e'] {
        Some(SpecTokenKind::Isize)
    } else if s == seq!['u', 's', 'i', 'z', 'e'] {
        Some(SpecTokenKind::Usize)
    } else if s == seq!['f', '3', '2'] {
        Some(SpecTokenKind::F32)
    } else if s == seq!['m', 'a', 'i', 'n'] {
        Some(SpecTokenKind::Main)
    } else if s == seq!['t', 'r', 'u', 'e'] {
        Some(SpecTokenKind::True)
    } else if s == seq!['f', 'a', 'l', 's', 'e'] {
        Some(SpecTokenKind::False)
    } else if s == seq!['r'] {
        Some(SpecTokenKind::Permission(PermKind::R))
    } else if s == seq!['r', 'w'] {
        Some(SpecTokenKind::Permission(PermKind::RW))
    } else {
        None
    }
}

/// The single-character punctuation/operator table.
pub open spec fn spec_punct(c: char) -> Option<SpecTokenKind> {
    if c == ';' {
        Some(SpecTokenKind::Semi)
    } else if c == ':' {
        Some(SpecTokenKind::Colon)
    } else if c == '{' {
        Some(SpecTokenKind::OpenDelim(Delimiter::Brace))
    } else if c == '(' {
        Some(SpecTokenKind::OpenDelim(Delimiter::Paren))
    } else if c == ')' {
        Some(SpecTokenKind::CloseDelim(Delimiter::Paren))
    } else if c == '}' {
        Some(SpecTokenKind::CloseDelim(Delimiter::Brace))
    } else if c == '[' {
        Some(SpecTokenKind::OpenDelim(Delimiter::Bracket))
    } else if c == ']' {
        Some(SpecTokenKind::CloseDelim(Delimiter::Bracket))
    } else if c == '=' {
        Some(SpecTokenKind::Eq)
    } else if c == '-' {
        Some(SpecTokenKind::Minus)
    } else if c == '+' {
        Some(SpecTokenKind::Plus)
    } else if c == '/' {
        Some(SpecTokenKind::Div)
    } else if c == '*' {
        Some(SpecTokenKind::Star)
    } else if c == '.' {
        Some(SpecTokenKind::Dot)
    } else if c == ',' {
        Some(SpecTokenKind::Comma)
    } else if c == '\'' {
        Some(SpecTokenKind::SingleQuote)
    } else if c == '"' {
        Some(SpecTokenKind::DoubleQuote)
    } else if c == '!' {
        Some(SpecTokenKind::Not)
    } else if c == '&' {
        Some(SpecTokenKind::And)
    } else if c == '|' {
        Some(SpecTokenKind::Or)
    } else if c == '>' {
        Some(SpecTokenKind::Gt)
    } else if c == '<' {
        Some(SpecTokenKind::Lt)
    } else if c == '#' {
        Some(SpecTokenKind::Hashtag)
    } else if c == '%' {
        Some(SpecTokenKind::Percent)
    } else if c == '\\' {
        Some(SpecTokenKind::BSlash)
    } else if c == '@' {
        Some(SpecTokenKind::At)
    } else {
        None
    }
}

/// The combination table: exactly these pairs of single-character kinds fuse
/// into one two-character kind.
pub open spec fn spec_combo(a: SpecTokenKind, b: SpecTokenKind) -> Option<SpecTokenKind> {
    match (a, b) {
        (SpecTokenKind::Colon, SpecTokenKind::Colon) => Some(SpecTokenKind::ColonColon),
        (SpecTokenKind::Gt, SpecTokenKind::Eq) => Some(SpecTokenKind::GtEq),
        (SpecTokenKind::Lt, SpecTokenKind::Eq) => Some(SpecTokenKind::LtEq),
        (SpecTokenKind::Eq, SpecTokenKind::Eq) => Some(SpecTokenKind::EqEq),
        (SpecTokenKind::Not, SpecTokenKind::Eq) => Some(SpecTokenKind::NotEq),
        (SpecTokenKind::Minus, SpecTokenKind::Eq) => Some(SpecTokenKind::MinusEq),
        (SpecTokenKind::Plus, SpecTokenKind::Eq) => Some(SpecTokenKind::PlusEq),
        (SpecTokenKind::Minus, SpecTokenKind::Gt) => Some(SpecTokenKind::RArrow),
        (SpecTokenKind::And, SpecTokenKind::And) => Some(SpecTokenKind::AndAnd),
        (SpecTokenKind::Or, SpecTokenKind::Or) => Some(SpecTokenKind::OrOr),
        _ => None,
    }
}


/// The display text of a token kind: the payload for identifiers and
/// literals (char and string literals quoted), `R`/`RW` for permission
/// markers, and the fixed variant name otherwise.
pub open spec fn spec_display(k: SpecTokenKind) -> Seq<char> {
    match k {
        SpecTokenKind::Ident(s) => s,
        SpecTokenKind::Literal(l) => match l {
            SpecLitKind::Char(s) => "'"@ + s + "'"@,
            SpecLitKind::Integer(s) => s,
            SpecLitKind::Float(s) => s,
            SpecLitKind::Str(s) => "\""@ + s + "\""@,
        },
        SpecTokenKind::Permission(p) => match p {
            PermKind::R => "R"@,
            PermKind::RW => "RW"@,
        },
        SpecTokenKind::ColonColon => "ColonColon"@,
        SpecTokenKind::GtEq => "GtEq"@,
        SpecTokenKind::LtEq => "LtEq"@,
        SpecTokenKind::EqEq => "EqEq"@,
        SpecTokenKind::NotEq => "NotEq"@,
        SpecTokenKind::MinusEq => "MinusEq"@,
        SpecTokenKind::PlusEq => "PlusEq"@,
        SpecTokenKind::RArrow => "RArrow"@,
        SpecTokenKind::AndAnd => "AndAnd"@,
        SpecTokenKind::OrOr => "OrOr"@,
        SpecTokenKind::At => "At"@,
        SpecTokenKind::Div => "Div"@,
        SpecTokenKind::BSlash => "BSlash"@,
        SpecTokenKind::Not => "Not"@,
        SpecTokenKind::Hashtag => "Hashtag"@,
        SpecTokenKind::Percent => "Percent"@,
        SpecTokenKind::And => "And"@,
        SpecTokenKind::Or => "Or"@,
        SpecTokenKind::Star => "Star"@,
        SpecTokenKind::SingleQuote => "SingleQuote"@,
        SpecTokenKind::DoubleQuote => "DoubleQuote"@,
        SpecTokenKind::Semi => "Semi"@,
        SpecTokenKind::Colon => "Colon"@,
        SpecTokenKind::Gt => "Gt"@,
        SpecTokenKind::Lt => "Lt"@,
        SpecTokenKind::Eq => "Eq"@,
        SpecTokenKind::Minus => "Minus"@,
        SpecTokenKind::Plus => "Plus"@,
        SpecTokenKind::Dot => "Dot"@,
        SpecTokenKind::Comma => "Comma"@,
        SpecTokenKind::OpenDelim(d) => match d {
            Delimiter::Paren => "Paren"@,
            Delimiter::Brace => "Brace"@,
            Delimiter::Bracket => "Bracket"@,
        },
        SpecTokenKind::CloseDelim(d) => match d {
            Delimiter::Paren => "Paren"@,
            Delimiter::Brace => "Brace"@,
            Delimiter::Bracket => "Bracket"@,
        },
        SpecTokenKind::Main => "Main"@,
        SpecTokenKind::Return => "Return"@,
        SpecTokenKind::If => "If"@,
        SpecTokenKind::Fn => "Fn"@,
        SpecTokenKind::I32 => "I32"@,
        SpecTokenKind::Isize => "Isize"@,
        SpecTokenKind::U32 => "U32"@,
        SpecTokenKind::Usize => "Usize"@,
        SpecTokenKind::F32 => "F32"@,
        SpecTokenKind::AsciiChar => "AsciiChar"@,
        SpecTokenKind::True => "True"@,
        SpecTokenKind::False => "False"@,
        SpecTokenKind::EOF => "EOF"@,
    }
}

impl TokenKind {
    /// The display text of this kind.
    pub fn display_string(&self) -> (r: String)
        ensures
            r@ == spec_display(self.deep_view()),
    {
        match self {
            TokenKind::Ident(val) => val.clone(),
            TokenKind::Literal(kind) => match kind {
                LitKind::Char(val) => String::from_str("'").concat(val.as_str()).concat("'"),
                LitKind::Integer(val) => val.clone(),
                LitKind::Float(val) => val.clone(),
                LitKind::Str(val) => String::from_str("\"").concat(val.as_str()).concat("\""),
            },
            TokenKind::Permission(PermKind::R) => String::from_str("R"),
            TokenKind::Permission(PermKind::RW) => String::from_str("RW"),
            TokenKind::ColonColon => String::from_str("ColonColon"),
            TokenKind::GtEq => String::from_str("GtEq"),
            TokenKind::LtEq => String::from_str("LtEq"),
            TokenKind::EqEq => String::from_str("EqEq"),
            TokenKind::NotEq => String::from_str("NotEq"),
            TokenKind::MinusEq => String::from_str("MinusEq"),
            TokenKind::PlusEq => String::from_str("PlusEq"),
            TokenKind::RArrow => String::from_str("RArrow"),
            TokenKind::AndAnd => String::from_str("AndAnd"),
            TokenKind::OrOr => String::from_str("OrOr"),
            TokenKind::At => String::from_str("At"),
            TokenKind::Div => String::from_str("Div"),
            TokenKind::BSlash => String::from_str("BSlash"),
            TokenKind::Not => String::from_str("Not"),
            TokenKind::Hashtag => String::from_str("Hashtag"),
            TokenKind::Percent => String::from_str("Percent"),
            TokenKind::And => String::from_str("And"),
            TokenKind::Or => String::from_str("Or"),
            TokenKind::Star => String::from_str("Star"),
            TokenKind::SingleQuote => String::from_str("SingleQuote"),
            TokenKind::DoubleQuote => String::from_str("DoubleQuote"),
            TokenKind::Semi => String::from_str("Semi"),
            TokenKind::Colon => String::from_str("Colon"),
            TokenKind::Gt => String::from_str("Gt"),
            TokenKind::Lt => String::from_str("Lt"),
            TokenKind::Eq => String::from_str("Eq"),
            TokenKind::Minus => String::from_str("Minus"),
            TokenKind::Plus => String::from_str("Plus"),
            TokenKind::Dot => String::from_str("Dot"),
            TokenKind::Comma => String::from_str("Comma"),
            TokenKind::OpenDelim(Delimiter::Paren) => String::from_str("Paren"),
            TokenKind::OpenDelim(Delimiter::Brace) => String::from_str("Brace"),
            TokenKind::OpenDelim(Delimiter::Bracket) => String::from_str("Bracket"),
            TokenKind::CloseDelim(Delimiter::Paren) => String::from_str("Paren"),
            TokenKind::CloseDelim(Delimiter::Brace) => String::from_str("Brace"),
            TokenKind::CloseDelim(Delimiter::Bracket) => String::from_str("Bracket"),
            TokenKind::Main => String::from_str("Main"),
            TokenKind::Return => String::from_str("Return"),
            TokenKind::If => String::from_str("If"),
            TokenKind::Fn => String::from_str("Fn"),
            TokenKind::I32 => String::from_str("I32"),
            TokenKind::Isize => String::from_str("Isize"),
            TokenKind::U32 => String::from_str("U32"),
            TokenKind::Usize => String::from_str("Usize"),
            TokenKind::F32 => String::from_str("F32"),
            TokenKind::AsciiChar => String::from_str("AsciiChar"),
            TokenKind::True => String::from_str("True"),
            TokenKind::False => String::from_str("False"),
            TokenKind::EOF => String::from_str("EOF"),
        }
    }

    /// True exactly when this kind is a permission marker.
    pub fn is_permission(&self) -> (r: bool)
        ensures
            r == (self.deep_view() is Permission),
    {
        match self {
            TokenKind::Permission(_) => true,
            _ => false,
        }
    }

    /// Looks a lexeme up in the fixed keyword table.
    pub fn match_keyword(lxm: &Vec<char>) -> (r: Option<TokenKind>)
        ensures
            r.deep_view() == spec_keyword(lxm@),
    {
        let n = lxm.len();
        if n == 3 && lxm[0] == 'i' && lxm[1] == '3' && lxm[2] == '2' {
            proof { assert(lxm@ =~= seq!['i', '3', '2']); }
            Some(TokenKind::I32)
        } else if n == 3 && lxm[0] == 'u' && lxm[1] == '3' && lxm[2] == '2' {
            proof { assert(lxm@ =~= seq!['u', '3', '2']); }
            Some(TokenKind::U32)
        } else if n == 4 && lxm[0] == 'c' && lxm[1] == 'h' && lxm[2] == 'a' && lxm[3] == 'r' {
            proof { assert(lxm@ =~= seq!['c', 'h', 'a', 'r']); }
            Some(TokenKind::AsciiChar)
        } else if n == 2 && lxm[0] == 'i' && lxm[1] == 'f' {
            proof { assert(lxm@ =~= seq!['i', 'f']); }
            Some(TokenKind::If)
        } else if n == 2 && lxm[0] == 'f' && lxm[1] == 'n' {
            proof { assert(lxm@ =~= seq!['f', 'n']); }
            Some(TokenKind::Fn)
        } else if n == 6 && lxm[0] == 'r' && lxm[1] == 'e' && lxm[2] == 't' && lxm[3] == 'u'
            && lxm[4] == 'r' && lxm[5] == 'n' {
            proof { assert(lxm@ =~= seq!['r', 'e', 't', 'u', 'r', 'n']); }
            Some(TokenKind::Return)
        } else if n == 5 && lxm[0] == 'i' && lxm[1] == 's' && lxm[2] == 'i' && lxm[3] == 'z'
            && lxm[4] == 'e' {
            proof { assert(lxm@ =~= seq!['i', 's', 'i', 'z', 'e']); }
            Some(TokenKind::Isize)
        } else if n == 5 && lxm[0] == 'u' && lxm[1] == 's' && lxm[2] == 'i' && lxm[3] == 'z'
            && lxm[4] == 'e' {
            proof { assert(lxm@ =~= seq!['u', 's', 'i', 'z', 'e']); }
            Some(TokenKind::Usize)
        } else if n == 3 && lxm[0] == 'f' && lxm[1] == '3' && lxm[2] == '2' {
            proof { assert(lxm@ =~= seq!['f', '3', '2']); }
            Some(TokenKind::F32)
        } else if n == 4 && lxm[0] == 'm' && lxm[1] == 'a' && lxm[2] == 'i' && lxm[3] == 'n' {
            proof { assert(lxm@ =~= seq!['m', 'a', 'i', 'n']); }
            Some(TokenKind::Main)
        } else if n == 4 && lxm[0] == 't' && lxm[1] == 'r' && lxm[2] == 'u' && lxm[3] == 'e' {
            proof { assert(lxm@ =~= seq!['t', 'r', 'u', 'e']); }
            Some(TokenKind::True)
        } else if n == 5 && lxm[0] == 'f' && lxm[1] == 'a' && lxm[2] == 'l' && lxm[3] == 's'
            && lxm[4] == 'e' {
            proof { assert(lxm@ =~= seq!['f', 'a', 'l', 's', 'e']); }
            Some(TokenKind::False)
        } else if n == 1 && lxm[0] == 'r' {
            proof { assert(lxm@ =~= seq!['r']); }
            Some(TokenKind::Permission(PermKind::R))
        } else if n == 2 && lxm[0] == 'r' && lxm[1] == 'w' {
            proof { assert(lxm@ =~= seq!['r', 'w']); }
            Some(TokenKind::Permission(PermKind::RW))
        } else {
            None
        }
    }

    /// Maps a single character through the punctuation/operator table.
    pub fn match_punctuation(ch: &char) -> (r: Option<TokenKind>)
        ensures
            r.deep_view() == spec_punct(*ch),
    {
        match *ch {
            ';' => Some(TokenKind::Semi),
            ':' => Some(TokenKind::Colon),
            '{' => Some(TokenKind::OpenDelim(Delimiter::Brace)),
            '(' => Some(TokenKind::OpenDelim(Delimiter::Paren)),
            ')' => Some(TokenKind::CloseDelim(Delimiter::Paren)),
            '}' => Some(TokenKind::CloseDelim(Delimiter::Brace)),
            '[' => Some(TokenKind::OpenDelim(Delimiter::Bracket)),
            ']' => Some(TokenKind::CloseDelim(Delimiter::Bracket)),
            '=' => Some(TokenKind::Eq),
            '-' => Some(TokenKind::Minus),
            '+' => Some(TokenKind::Plus),
            '/' => Some(TokenKind::Div),
            '*' => Some(TokenKind::Star),
            '.' => Some(TokenKind::Dot),
            ',' => Some(TokenKind::Comma),
            '\'' => Some(TokenKind::SingleQuote),
            '"' => Some(TokenKind::DoubleQuote),
            '!' => Some(TokenKind::Not),
            '&' => Some(TokenKind::And),
            '|' => Some(TokenKind::Or),
            '>' => Some(TokenKind::Gt),
            '<' => Some(TokenKind::Lt),
            '#' => Some(TokenKind::Hashtag),
            '%' => Some(TokenKind::Percent),
            '\\' => Some(TokenKind::BSlash),
            '@' => Some(TokenKind::At),
            _ => None,
        }
    }

    /// Checks whether this kind fuses with the (peeked) next character into a
    /// two-character kind.
    pub fn get_combo(&self, ch: &char) -> (r: Option<TokenKind>)
        ensures
            r.deep_view() == (match spec_punct(*ch) {
                Some(b) => spec_combo(self.deep_view(), b),
                None => None,
            }),
    {
        let kind = match Self::match_punctuation(ch) {
            Some(kind) => kind,
            None => {
                return None;
            },
        };
        match (self, &kind) {
            (TokenKind::Colon, TokenKind::Colon) => Some(TokenKind::ColonColon),
            (TokenKind::Gt, TokenKind::Eq) => Some(TokenKind::GtEq),
            (TokenKind::Lt, TokenKind::Eq) => Some(TokenKind::LtEq),
            (TokenKind::Eq, TokenKind::Eq) => Some(TokenKind::EqEq),
            (TokenKind::Not, TokenKind::Eq) => Some(TokenKind::NotEq),
            (TokenKind::Minus, TokenKind::Eq) => Some(TokenKind::MinusEq),
            (TokenKind::Plus, TokenKind::Eq) => Some(TokenKind::PlusEq),
            (TokenKind::Minus, TokenKind::Gt) => Some(TokenKind::RArrow),
            (TokenKind::And, TokenKind::And) => Some(TokenKind::AndAnd),
            (TokenKind::Or, TokenKind::Or) => Some(TokenKind::OrOr),
            (_, _) => None,
        }
    }
}

} // verus!
