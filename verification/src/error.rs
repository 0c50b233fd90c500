//! Error model: typed lexical (and syntactic) error kinds, a generic error
//! wrapper, and the optional diagnostic context — filename, offending source
//! line and span — attached lazily at the error site.
//!
//! A rendered error reads `<line> | error[<code>] :: <message>`, where
//! `<line>` is the 1-based start line of the attached span and `<code>` is the
//! kind's 1-based ordinal, zero-padded to two digits; an error without context
//! is rendered without the leading `<line> | `.

use vstd::prelude::*;
use vstd::string::StringExecFns;

use crate::text::{decimal_string, spec_decimal};
use crate::token::{Span, SpecSpan};

verus! {

/// Rendering of an error kind: its stable code and its human-readable
/// message.
pub trait ErrorFormatting {
    /// The code text, `error[..]`.
    spec fn spec_code(&self) -> Seq<char>;

    /// The message text.
    spec fn spec_verbose(&self) -> Seq<char>;

    /// Returns the stable error code of this kind.
    fn error_code(&self) -> (r: String)
        ensures
            r@ == self.spec_code(),
    ;

    /// Returns the human-readable message of this kind.
    fn error_verbose(&self) -> (r: String)
        ensures
            r@ == self.spec_verbose(),
    ;
}

// ---------------------------------------------------------- lexical errors

/// The closed set of lexical-error kinds.
#[derive(Clone, Copy, Debug, PartialEq, Eq, Structural)]
pub enum LexicalError {
    IllegalCharacter,
    ExceedingLengthIdentifier,
    IncorrectSpelling,
    ExceedingLengthNumber,
    StringMissingTrailingSign,
    CharacterMissingTrailingSign,
}

impl ErrorFormatting for LexicalError {
    open spec fn spec_code(&self) -> Seq<char> {
        match self {
            LexicalError::IllegalCharacter => "error[LE01]"@,
            LexicalError::ExceedingLengthIdentifier => "error[LE02]"@,
            LexicalError::IncorrectSpelling => "error[LE03]"@,
            LexicalError::ExceedingLengthNumber => "error[LE04]"@,
            LexicalError::StringMissingTrailingSign => "error[LE05]"@,
            LexicalError::CharacterMissingTrailingSign => "error[LE06]"@,
        }
    }

    open spec fn spec_verbose(&self) -> Seq<char> {
        match self {
            LexicalError::IllegalCharacter => "illegal character"@,
            LexicalError::ExceedingLengthIdentifier => "exceeding length of identifier"@,
            LexicalError::IncorrectSpelling => "incorrect spelling"@,
            LexicalError::ExceedingLengthNumber => "exceeding length of number"@,
            LexicalError::StringMissingTrailingSign => "string literal is missing a trailing sign `\"`"@,
            LexicalError::CharacterMissingTrailingSign => "character literal is missing a trailing sign `'`"@,
        }
    }

    fn error_code(&self) -> (r: String) {
        match self {
            LexicalError::IllegalCharacter => String::from_str("error[LE01]"),
            LexicalError::ExceedingLengthIdentifier => String::from_str("error[LE02]"),
            LexicalError::IncorrectSpelling => String::from_str("error[LE03]"),
            LexicalError::ExceedingLengthNumber => String::from_str("error[LE04]"),
            LexicalError::StringMissingTrailingSign => String::from_str("error[LE05]"),
            LexicalError::CharacterMissingTrailingSign => String::from_str("error[LE06]"),
        }
    }

    fn error_verbose(&self) -> (r: String) {
        match self {
            LexicalError::IllegalCharacter => String::from_str("illegal character"),
            LexicalError::ExceedingLengthIdentifier => String::from_str(
                "exceeding length of identifier",
            ),
            LexicalError::IncorrectSpelling => String::from_str("incorrect spelling"),
            LexicalError::ExceedingLengthNumber => String::from_str("exceeding length of number"),
            LexicalError::StringMissingTrailingSign => String::from_str(
                "string literal is missing a trailing sign `\"`",
            ),
            LexicalError::CharacterMissingTrailingSign => String::from_str(
                "character literal is missing a trailing sign `'`",
            ),
        }
    }
}

// --------------------------------------------------------- syntactic errors

/// The closed set of syntax-error kinds; the parser collaborator's taxonomy,
/// kept beside the lexical one.
#[derive(Clone, Copy, Debug, PartialEq, Eq, Structural)]
pub enum SyntaxError {
    TypeMismatch,
    SemiMissing,
    SemiOmitted,
}

impl ErrorFormatting for SyntaxError {
    open spec fn spec_code(&self) -> Seq<char> {
        match self {
            SyntaxError::TypeMismatch => "error[SE01]"@,
            SyntaxError::SemiMissing => "error[SE02]"@,
            SyntaxError::SemiOmitted => "error[SE03]"@,
        }
    }

    open spec fn spec_verbose(&self) -> Seq<char> {
        match self {
            SyntaxError::TypeMismatch => "type mismatch"@,
            SyntaxError::SemiMissing => "character `;` missing"@,
            SyntaxError::SemiOmitted => "character `;` omitted"@,
        }
    }

    fn error_code(&self) -> (r: String) {
        match self {
            SyntaxError::TypeMismatch => String::from_str("error[SE01]"),
            SyntaxError::SemiMissing => String::from_str("error[SE02]"),
            SyntaxError::SemiOmitted => String::from_str("error[SE03]"),
        }
    }

    fn error_verbose(&self) -> (r: String) {
        match self {
            SyntaxError::TypeMismatch => String::from_str("type mismatch"),
            SyntaxError::SemiMissing => String::from_str("character `;` missing"),
            SyntaxError::SemiOmitted => String::from_str("character `;` omitted"),
        }
    }
}

// -------------------------------------------------------------------- context

/// Spec-level diagnostic context.
pub struct SpecContext {
    pub filename: Seq<char>,
    pub text: Seq<char>,
    pub span: SpecSpan,
}

/// Diagnostic context attached to an error: the file it came from, the
/// offending source line and the span the error covers.
#[derive(Debug, PartialEq, Eq)]
pub struct Context {
    filename: String,
    text: String,
    span: Span,
}

impl DeepView for Context {
    type V = SpecContext;

    closed spec fn deep_view(&self) -> SpecContext {
        SpecContext { filename: self.filename@, text: self.text@, span: self.span@ }
    }
}

impl Context {
    /// Creates a new diagnostic context.
    pub fn new(filename: &str, text: String, span: Span) -> (r: Context)
        ensures
            r.deep_view() == (SpecContext { filename: filename@, text: text@, span: span@ }),
    {
        Context { filename: filename.to_owned(), text, span }
    }

    /// The start line of the attached span.
    pub fn start_line(&self) -> (r: usize)
        ensures
            r as int == self.deep_view().span.start.line,
    {
        self.span.start.ln
    }
}

// ------------------------------------------------------------ error wrapper

/// Spec-level error value: a kind and the optional context.
pub struct SpecError<ErrKind> {
    pub kind: ErrKind,
    pub context: Option<SpecContext>,
}

/// An ordered accumulation of errors collected across one pass.
pub type RoninErrors<ErrKind> = Vec<RoninError<ErrKind>>;

/// An error of some kind, optionally enriched with a diagnostic context.
#[derive(Debug, PartialEq, Eq)]
pub struct RoninError<ErrKind> {
    pub kind: ErrKind,
    pub context: Option<Context>,
}

impl<ErrKind> DeepView for RoninError<ErrKind> {
    type V = SpecError<ErrKind>;

    open spec fn deep_view(&self) -> SpecError<ErrKind> {
        SpecError {
            kind: self.kind,
            context: match self.context {
                Some(c) => Some(c.deep_view()),
                None => None,
            },
        }
    }
}

impl<ErrKind> RoninError<ErrKind> {
    /// Creates a context-free error of the given kind.
    pub fn generate(kind: ErrKind) -> (r: RoninError<ErrKind>)
        ensures
            r.deep_view() == (SpecError { kind, context: None::<SpecContext> }),
    {
        RoninError { kind, context: None }
    }

    /// Enriches this error with a diagnostic context.
    pub fn attach(self, filename: String, text: String, span: Span) -> (r: RoninError<ErrKind>)
        ensures
            r.deep_view() == (SpecError {
                kind: self.kind,
                context: Some(SpecContext { filename: filename@, text: text@, span: span@ }),
            }),
    {
        RoninError { kind: self.kind, context: Some(Context { filename, text, span }) }
    }
}

impl<ErrKind: ErrorFormatting> RoninError<ErrKind> {
    /// The rendered diagnostic text of this error.
    pub open spec fn spec_render(&self) -> Seq<char> {
        match self.deep_view().context {
            Some(ctx) => spec_decimal(ctx.span.start.line) + " | "@ + self.kind.spec_code()
                + " :: "@ + self.kind.spec_verbose(),
            None => self.kind.spec_code() + " :: "@ + self.kind.spec_verbose(),
        }
    }

    /// Renders this error for the user, never failing and never ending the
    /// pass.
    pub fn render(&self) -> (r: String)
        ensures
            r@ == self.spec_render(),
    {
        let code = self.kind.error_code();
        let verbose = self.kind.error_verbose();
        match &self.context {
            Some(ctx) => {
                let mut s = decimal_string(ctx.start_line());
                s.append(" | ");
                s.append(code.as_str());
                s.append(" :: ");
                s.append(verbose.as_str());
                s
            },
            None => {
                let mut s = code;
                s.append(" :: ");
                s.append(verbose.as_str());
                s
            },
        }
    }
}

} // verus!
