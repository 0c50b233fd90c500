//! Lexical front end for a small language: a source buffer, a scanner that
//! turns raw text into classified, position-tagged tokens, and a structured
//! lexical-error model with source-context attachment.

pub mod buffer;
pub mod error;
pub mod laws;
pub mod lexer;
pub mod model;
pub mod text;
pub mod token;

pub use buffer::Buffer;
pub use error::{Context, ErrorFormatting, LexicalError, RoninError, RoninErrors, SyntaxError};
pub use lexer::{emit_tokens, Lexer};
pub use token::{Delimiter, LitKind, LnCol, PermKind, Span, Token, TokenKind};
