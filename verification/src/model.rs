//! The mathematical model of one lexing pass.
//!
//! `lex_spec` maps the source text (a `Seq<char>`) to the exact token stream
//! and error sequence of a pass. It is defined by a step function per
//! scanning routine — whitespace, comment, string literal, character literal,
//! identifier/keyword, numeric literal, punctuation/operator — over a small
//! state record; the executable scanner is proved to compute exactly this
//! function.

use vstd::prelude::*;

use crate::buffer::{line_stop, spec_line_text};
use crate::error::{LexicalError, SpecContext, SpecError};
use crate::token::{
    spec_combo, spec_keyword, spec_punct, SpecLitKind, SpecPos, SpecSpan, SpecToken, SpecTokenKind,
};

verus! {

/// Longest accepted identifier; a longer one is a lexical error.
pub const MAX_NAME_LEN: usize = 30;

/// Longest accepted numeric literal; a longer one is a lexical error,
/// mirroring the identifier cap.
pub const MAX_NUMBER_LEN: usize = 30;

// ---------------------------------------------------------- char classes

/// Whitespace, in the ASCII range.
pub open spec fn is_space(c: char) -> bool {
    c == ' ' || c == '\t' || c == '\n' || c == '\r' || c == '\u{b}' || c == '\u{c}'
}

/// A character that may start an identifier: `[A-Za-z_]`.
pub open spec fn is_id_start(c: char) -> bool {
    c == '_' || ('a' as u32 <= c as u32 && c as u32 <= 'z' as u32) || ('A' as u32 <= c as u32
        && c as u32 <= 'Z' as u32)
}

/// A decimal digit.
pub open spec fn is_digit(c: char) -> bool {
    '0' as u32 <= c as u32 && c as u32 <= '9' as u32
}

/// A character that may continue an identifier: `[A-Za-z0-9_]`.
pub open spec fn is_id_char(c: char) -> bool {
    is_id_start(c) || is_digit(c)
}

// ------------------------------------------------------------- pass state

/// The state of a pass between two dispatch steps: the read position `i`
/// into the text, the current line/column, the recorded line-start offsets,
/// and the tokens and errors produced so far.
#[verifier::ext_equal]
pub struct LexState {
    pub i: int,
    pub line: int,
    pub col: int,
    pub starts: Seq<int>,
    pub toks: Seq<SpecToken>,
    pub errs: Seq<SpecError<LexicalError>>,
}

/// The state at the beginning of a pass.
pub open spec fn init_state() -> LexState {
    LexState {
        i: 0,
        line: 1,
        col: 1,
        starts: seq![0],
        toks: Seq::empty(),
        errs: Seq::empty(),
    }
}

/// The current position of a state.
pub open spec fn st_pos(st: LexState) -> SpecPos {
    SpecPos { line: st.line, col: st.col }
}

/// An error without diagnostic context.
pub open spec fn plain_err(kind: LexicalError) -> SpecError<LexicalError> {
    SpecError { kind, context: None }
}

/// An over-length error (identifier or number), carrying the filename, the
/// text of the current line and the span of the offending lexeme.
pub open spec fn length_err(
    kind: LexicalError,
    input: Seq<char>,
    fname: Seq<char>,
    st: LexState,
    n: int,
) -> SpecError<LexicalError> {
    SpecError {
        kind,
        context: Some(
            SpecContext {
                filename: fname,
                text: spec_line_text(input, st.starts, st.line - 1),
                span: SpecSpan {
                    start: st_pos(st),
                    end: SpecPos { line: st.line, col: st.col + n },
                },
            },
        ),
    }
}

/// The state after appending one token at the current position and advancing
/// the position by `(dl, dc)` and the read position to `i2`.
pub open spec fn with_token(st: LexState, kind: SpecTokenKind, dl: int, dc: int, i2: int) -> LexState {
    LexState {
        i: i2,
        line: st.line + dl,
        col: st.col + dc,
        toks: st.toks.push(SpecToken { kind, pos: st_pos(st) }),
        ..st
    }
}

// ------------------------------------------------------------- whitespace

/// End of the maximal whitespace run beginning at `i`.
pub open spec fn ws_end(input: Seq<char>, i: int) -> int
    recommends
        0 <= i <= input.len(),
    decreases input.len() - i,
{
    if i < input.len() && is_space(input[i]) {
        ws_end(input, i + 1)
    } else {
        i
    }
}

/// Position and line starts after consuming the whitespace `input[i..j)`:
/// a newline moves to the start of the next line and records its offset;
/// any other character advances the column.
pub open spec fn ws_adv(
    input: Seq<char>,
    i: int,
    j: int,
    line: int,
    col: int,
    starts: Seq<int>,
) -> (int, int, Seq<int>)
    recommends
        0 <= i <= j <= input.len(),
    decreases j - i,
{
    if j <= i {
        (line, col, starts)
    } else {
        let prev = ws_adv(input, i, j - 1, line, col, starts);
        if input[j - 1] == '\n' {
            (prev.0 + 1, 1, prev.2.push(j))
        } else {
            (prev.0, prev.1 + 1, prev.2)
        }
    }
}

/// One dispatch step on whitespace: skip the maximal run.
pub open spec fn step_ws(input: Seq<char>, st: LexState) -> LexState {
    let j = ws_end(input, st.i);
    let a = ws_adv(input, st.i, j, st.line, st.col, st.starts);
    LexState { i: j, line: a.0, col: a.1, starts: a.2, ..st }
}

// --------------------------------------------------------------- comments

/// One dispatch step on `#`: consume through the end of the line (or of the
/// input), count exactly one line increment and reset the column.
pub open spec fn step_comment(input: Seq<char>, st: LexState) -> LexState {
    let stop = line_stop(input, st.i);
    if stop < input.len() {
        LexState {
            i: stop + 1,
            line: st.line + 1,
            col: 1,
            starts: st.starts.push(stop + 1),
            ..st
        }
    } else {
        LexState { i: input.len() as int, line: st.line + 1, col: 1, ..st }
    }
}

// ---------------------------------------------------------- string literals

/// Index of the unescaped closing quote of a string body starting at `i`
/// with escape-pending flag `esc`, or `None` when the input ends first.
pub open spec fn str_scan_end(input: Seq<char>, i: int, esc: bool) -> Option<int>
    recommends
        0 <= i <= input.len(),
    decreases input.len() - i,
{
    if i >= input.len() {
        None
    } else if input[i] == '"' && !esc {
        Some(i)
    } else {
        str_scan_end(input, i + 1, input[i] == '\\' && !esc)
    }
}

/// Payload normalization: a raw newline becomes the two characters `\` `n`,
/// a raw tab becomes four spaces, anything else stays itself, so the decoded
/// payload never contains raw control characters.
pub open spec fn norm_char(c: char) -> Seq<char> {
    if c == '\n' {
        seq!['\\', 'n']
    } else if c == '\t' {
        seq![' ', ' ', ' ', ' ']
    } else {
        seq![c]
    }
}

/// The decoded payload of a string literal whose raw body is `input[i..j)`.
pub open spec fn str_payload(input: Seq<char>, i: int, j: int) -> Seq<char>
    recommends
        0 <= i <= j <= input.len(),
    decreases j - i,
{
    if j <= i {
        Seq::empty()
    } else {
        str_payload(input, i, j - 1) + norm_char(input[j - 1])
    }
}

/// The `(line, column)` delta spanned by consuming `input[i..j)` inside a
/// string literal: each character advances the column by one, a newline
/// moves to column 1 of the next line, a tab counts four extra columns.
pub open spec fn str_adv(input: Seq<char>, i: int, j: int, line: int, col: int) -> (int, int)
    recommends
        0 <= i <= j <= input.len(),
    decreases j - i,
{
    if j <= i {
        (line, col)
    } else {
        let prev = str_adv(input, i, j - 1, line, col);
        let c = input[j - 1];
        if c == '\n' {
            (prev.0 + 1, 1)
        } else if c == '\t' {
            (prev.0, prev.1 + 5)
        } else {
            (prev.0, prev.1 + 1)
        }
    }
}

/// One dispatch step on `"`: scan to the unescaped closing quote and emit one
/// string-literal token with the decoded payload, or record exactly one
/// `StringMissingTrailingSign` error when the input ends first.
pub open spec fn step_string(input: Seq<char>, st: LexState) -> LexState {
    match str_scan_end(input, st.i + 1, false) {
        Some(j) => {
            let payload = str_payload(input, st.i + 1, j);
            let a = str_adv(input, st.i + 1, j + 1, 0, 1);
            LexState {
                i: j + 1,
                line: st.line + a.0,
                col: st.col + a.1,
                toks: st.toks.push(
                    SpecToken {
                        kind: SpecTokenKind::Literal(SpecLitKind::Str(payload)),
                        pos: st_pos(st),
                    },
                ),
                ..st
            }
        },
        None => LexState {
            i: input.len() as int,
            errs: st.errs.push(plain_err(LexicalError::StringMissingTrailingSign)),
            ..st
        },
    }
}

// ------------------------------------------------------- character literals

/// Index just past the next single quote at or after `i`, or the input's
/// length: where scanning resynchronizes after a malformed character literal.
pub open spec fn resync_end(input: Seq<char>, i: int) -> int
    recommends
        0 <= i <= input.len(),
    decreases input.len() - i,
{
    if i >= input.len() {
        input.len() as int
    } else if input[i] == '\'' {
        i + 1
    } else {
        resync_end(input, i + 1)
    }
}

/// One dispatch step on `'`: read one logical character (a backslash takes
/// the next raw character with it), then expect the closing quote. An empty
/// literal is an `IncorrectSpelling` error; a missing closing quote (or end
/// of input anywhere) is a `CharacterMissingTrailingSign` error, consuming
/// through the next quote to resynchronize.
pub open spec fn step_char(input: Seq<char>, st: LexState) -> LexState {
    let len = input.len() as int;
    let p = st.i + 1;
    if p >= len {
        LexState {
            i: len,
            errs: st.errs.push(plain_err(LexicalError::CharacterMissingTrailingSign)),
            ..st
        }
    } else if input[p] == '\'' {
        LexState { i: p + 1, errs: st.errs.push(plain_err(LexicalError::IncorrectSpelling)), ..st }
    } else if input[p] == '\\' && p + 1 >= len {
        LexState {
            i: len,
            errs: st.errs.push(plain_err(LexicalError::CharacterMissingTrailingSign)),
            ..st
        }
    } else {
        let payload = if input[p] == '\\' {
            seq![input[p], input[p + 1]]
        } else {
            seq![input[p]]
        };
        let q = if input[p] == '\\' {
            p + 2
        } else {
            p + 1
        };
        if q >= len {
            LexState {
                i: len,
                errs: st.errs.push(plain_err(LexicalError::CharacterMissingTrailingSign)),
                ..st
            }
        } else if input[q] == '\'' {
            with_token(
                st,
                SpecTokenKind::Literal(SpecLitKind::Char(payload)),
                0,
                payload.len() as int + 2,
                q + 1,
            )
        } else {
            LexState {
                i: resync_end(input, q),
                errs: st.errs.push(plain_err(LexicalError::CharacterMissingTrailingSign)),
                ..st
            }
        }
    }
}

// ---------------------------------------------------- identifiers/keywords

/// End of the maximal identifier run beginning at `i`.
pub open spec fn id_end(input: Seq<char>, i: int) -> int
    recommends
        0 <= i <= input.len(),
    decreases input.len() - i,
{
    if i < input.len() && is_id_char(input[i]) {
        id_end(input, i + 1)
    } else {
        i
    }
}

/// One dispatch step on an identifier-start character: take the maximal
/// `[A-Za-z0-9_]` run. Over `MAX_NAME_LEN` characters is an
/// `ExceedingLengthIdentifier` error (the lexeme is still consumed). A
/// keyword maps through the keyword table; a permission keyword directly
/// after a `/` token (column-contiguous) rewrites that token's kind in place
/// and anywhere else is a plain identifier.
pub open spec fn step_id(input: Seq<char>, fname: Seq<char>, st: LexState) -> LexState {
    let j = id_end(input, st.i);
    let n = j - st.i;
    let lexeme = input.subrange(st.i, j);
    if n > MAX_NAME_LEN {
        LexState {
            i: j,
            errs: st.errs.push(
                length_err(LexicalError::ExceedingLengthIdentifier, input, fname, st, n),
            ),
            ..st
        }
    } else {
        match spec_keyword(lexeme) {
            Some(k) => {
                if k is Permission {
                    if st.toks.len() > 0 && st.toks.last().kind is Div && st.toks.last().pos.col
                        == st.col - 1 {
                        LexState {
                            i: j,
                            toks: st.toks.update(
                                st.toks.len() - 1,
                                SpecToken { kind: k, pos: st.toks.last().pos },
                            ),
                            ..st
                        }
                    } else {
                        with_token(st, SpecTokenKind::Ident(lexeme), 0, n, j)
                    }
                } else {
                    with_token(st, k, 0, n, j)
                }
            },
            None => with_token(st, SpecTokenKind::Ident(lexeme), 0, n, j),
        }
    }
}

// --------------------------------------------------------- numeric literals

/// End of the numeric run beginning at `i`: digits, with at most one dot
/// (`dot` says whether one was already seen); anything else stops the run.
pub open spec fn num_end(input: Seq<char>, i: int, dot: bool) -> int
    recommends
        0 <= i <= input.len(),
    decreases input.len() - i,
{
    if i < input.len() && is_digit(input[i]) {
        num_end(input, i + 1, dot)
    } else if i < input.len() && input[i] == '.' && !dot {
        num_end(input, i + 1, true)
    } else {
        i
    }
}

/// Whether the numeric run beginning at `i` contains a dot.
pub open spec fn num_dot(input: Seq<char>, i: int, dot: bool) -> bool
    recommends
        0 <= i <= input.len(),
    decreases input.len() - i,
{
    if i < input.len() && is_digit(input[i]) {
        num_dot(input, i + 1, dot)
    } else if i < input.len() && input[i] == '.' && !dot {
        num_dot(input, i + 1, true)
    } else {
        dot
    }
}

/// One dispatch step on a digit: take the numeric run (stopping silently at
/// the first character that cannot extend it). Over `MAX_NUMBER_LEN`
/// characters is an `ExceedingLengthNumber` error; otherwise the raw lexeme
/// is a float literal when it contains a dot and an integer literal else.
pub open spec fn step_num(input: Seq<char>, fname: Seq<char>, st: LexState) -> LexState {
    let j = num_end(input, st.i, false);
    let n = j - st.i;
    let lexeme = input.subrange(st.i, j);
    if n > MAX_NUMBER_LEN {
        LexState {
            i: j,
            errs: st.errs.push(
                length_err(LexicalError::ExceedingLengthNumber, input, fname, st, n),
            ),
            ..st
        }
    } else if num_dot(input, st.i, false) {
        with_token(st, SpecTokenKind::Literal(SpecLitKind::Float(lexeme)), 0, n, j)
    } else {
        with_token(st, SpecTokenKind::Literal(SpecLitKind::Integer(lexeme)), 0, n, j)
    }
}

// --------------------------------------------------- punctuation/operators

/// One dispatch step on any other character: map it through the
/// single-character table (an unmapped character is an `IllegalCharacter`
/// error), then fuse with the next character when the combination table has
/// the pair.
pub open spec fn step_punct(input: Seq<char>, st: LexState) -> LexState {
    let len = input.len() as int;
    match spec_punct(input[st.i]) {
        None => LexState {
            i: st.i + 1,
            errs: st.errs.push(plain_err(LexicalError::IllegalCharacter)),
            ..st
        },
        Some(k) => {
            if st.i + 1 < len {
                match spec_punct(input[st.i + 1]) {
                    Some(k2) => match spec_combo(k, k2) {
                        Some(kc) => with_token(st, kc, 0, 2, st.i + 2),
                        None => with_token(st, k, 0, 1, st.i + 1),
                    },
                    None => with_token(st, k, 0, 1, st.i + 1),
                }
            } else {
                with_token(st, k, 0, 1, st.i + 1)
            }
        },
    }
}

// ------------------------------------------------------------ whole passes

/// Runs the rest of a pass from state `st`: dispatch on the character class
/// under the read position until the input is exhausted, then append exactly
/// one end-of-stream token at the current position.
pub open spec fn lex_from(input: Seq<char>, fname: Seq<char>, st: LexState) -> LexState
    decreases input.len() - st.i
        when 0 <= st.i <= input.len()
{
    if st.i >= input.len() {
        LexState {
            col: st.col + 1,
            toks: st.toks.push(SpecToken { kind: SpecTokenKind::EOF, pos: st_pos(st) }),
            ..st
        }
    } else {
        let c = input[st.i];
        proof {
            lemma_step_progress(input, fname, st);
        }
        if is_space(c) {
            lex_from(input, fname, step_ws(input, st))
        } else if c == '#' {
            lex_from(input, fname, step_comment(input, st))
        } else if c == '"' {
            lex_from(input, fname, step_string(input, st))
        } else if c == '\'' {
            lex_from(input, fname, step_char(input, st))
        } else if is_id_start(c) {
            lex_from(input, fname, step_id(input, fname, st))
        } else if is_digit(c) {
            lex_from(input, fname, step_num(input, fname, st))
        } else {
            lex_from(input, fname, step_punct(input, st))
        }
    }
}

/// One whole pass over `input`: the final token stream and error sequence.
pub open spec fn lex_spec(input: Seq<char>, fname: Seq<char>) -> LexState {
    lex_from(input, fname, init_state())
}

// ------------------------------------------------------------ progress facts

/// The maximal whitespace run ends inside the text, after `i`.
pub proof fn lemma_ws_end_bounds(input: Seq<char>, i: int)
    requires
        0 <= i <= input.len(),
    ensures
        i <= ws_end(input, i) <= input.len(),
    decreases input.len() - i,
{
    if i < input.len() && is_space(input[i]) {
        lemma_ws_end_bounds(input, i + 1);
    }
}

/// The maximal identifier run ends inside the text, after `i`.
pub proof fn lemma_id_end_bounds(input: Seq<char>, i: int)
    requires
        0 <= i <= input.len(),
    ensures
        i <= id_end(input, i) <= input.len(),
    decreases input.len() - i,
{
    if i < input.len() && is_id_char(input[i]) {
        lemma_id_end_bounds(input, i + 1);
    }
}

/// The numeric run ends inside the text, after `i`.
pub proof fn lemma_num_end_bounds(input: Seq<char>, i: int, dot: bool)
    requires
        0 <= i <= input.len(),
    ensures
        i <= num_end(input, i, dot) <= input.len(),
    decreases input.len() - i,
{
    if i < input.len() && is_digit(input[i]) {
        lemma_num_end_bounds(input, i + 1, dot);
    } else if i < input.len() && input[i] == '.' && !dot {
        lemma_num_end_bounds(input, i + 1, true);
    }
}

/// The next line stop lies inside the text, at or after `i`, and is a
/// newline unless it is the text's end.
pub proof fn lemma_line_stop_bounds(input: Seq<char>, i: int)
    requires
        0 <= i <= input.len(),
    ensures
        i <= line_stop(input, i) <= input.len(),
        line_stop(input, i) < input.len() ==> input[line_stop(input, i)] == '\n',
    decreases input.len() - i,
{
    if i < input.len() && input[i] != '\n' {
        lemma_line_stop_bounds(input, i + 1);
    }
}

/// A found closing quote lies inside the text, at or after `i`.
pub proof fn lemma_str_scan_bounds(input: Seq<char>, i: int, esc: bool)
    requires
        0 <= i <= input.len(),
    ensures
        match str_scan_end(input, i, esc) {
            Some(j) => i <= j < input.len() && input[j] == '"',
            None => true,
        },
    decreases input.len() - i,
{
    if i < input.len() && !(input[i] == '"' && !esc) {
        lemma_str_scan_bounds(input, i + 1, input[i] == '\\' && !esc);
    }
}

/// Resynchronization ends inside the text and makes progress.
pub proof fn lemma_resync_bounds(input: Seq<char>, i: int)
    requires
        0 <= i <= input.len(),
    ensures
        i <= resync_end(input, i) <= input.len(),
        i < input.len() ==> i + 1 <= resync_end(input, i),
    decreases input.len() - i,
{
    if i < input.len() && input[i] != '\'' {
        lemma_resync_bounds(input, i + 1);
    }
}

/// Every dispatch step advances the read position and keeps it inside the
/// text; this is what makes a pass terminate.
pub proof fn lemma_step_progress(input: Seq<char>, fname: Seq<char>, st: LexState)
    requires
        0 <= st.i < input.len(),
    ensures
        is_space(input[st.i]) ==> st.i < step_ws(input, st).i <= input.len(),
        input[st.i] == '#' ==> st.i < step_comment(input, st).i <= input.len(),
        input[st.i] == '"' ==> st.i < step_string(input, st).i <= input.len(),
        input[st.i] == '\'' ==> st.i < step_char(input, st).i <= input.len(),
        is_id_start(input[st.i]) ==> st.i < step_id(input, fname, st).i <= input.len(),
        is_digit(input[st.i]) ==> st.i < step_num(input, fname, st).i <= input.len(),
        st.i < step_punct(input, st).i <= input.len(),
{
    let i = st.i;
    let len = input.len() as int;
    if is_space(input[i]) {
        lemma_ws_end_bounds(input, i + 1);
        assert(ws_end(input, i) == ws_end(input, i + 1));
    }
    lemma_line_stop_bounds(input, i);
    lemma_str_scan_bounds(input, i + 1, false);
    if is_id_start(input[i]) {
        lemma_id_end_bounds(input, i + 1);
        assert(id_end(input, i) == id_end(input, i + 1));
    }
    if is_digit(input[i]) {
        lemma_num_end_bounds(input, i + 1, false);
        assert(num_end(input, i, false) == num_end(input, i + 1, false));
    }
    if input[i] == '\'' {
        let p = i + 1;
        if p < len && input[p] != '\'' {
            let q = if input[p] == '\\' {
                p + 2
            } else {
                p + 1
            };
            if q < len && input[q] != '\'' {
                lemma_resync_bounds(input, q);
            }
        }
    }
}

/// One unfolding of `lex_from` at a state with input remaining: the rest of
/// the pass is the rest of the pass from the dispatched step's state.
pub proof fn lemma_lex_from_step(input: Seq<char>, fname: Seq<char>, st: LexState)
    requires
        0 <= st.i < input.len(),
    ensures
        ({
            let c = input[st.i];
            &&& is_space(c) ==> lex_from(input, fname, st) == lex_from(
                input,
                fname,
                step_ws(input, st),
            )
            &&& !is_space(c) && c == '#' ==> lex_from(input, fname, st) == lex_from(
                input,
                fname,
                step_comment(input, st),
            )
            &&& !is_space(c) && c != '#' && c == '"' ==> lex_from(input, fname, st) == lex_from(
                input,
                fname,
                step_string(input, st),
            )
            &&& !is_space(c) && c != '#' && c != '"' && c == '\'' ==> lex_from(input, fname, st)
                == lex_from(input, fname, step_char(input, st))
            &&& !is_space(c) && c != '#' && c != '"' && c != '\'' && is_id_start(c) ==> lex_from(
                input,
                fname,
                st,
            ) == lex_from(input, fname, step_id(input, fname, st))
            &&& !is_space(c) && c != '#' && c != '"' && c != '\'' && !is_id_start(c) && is_digit(
                c,
            ) ==> lex_from(input, fname, st) == lex_from(input, fname, step_num(input, fname, st))
            &&& !is_space(c) && c != '#' && c != '"' && c != '\'' && !is_id_start(c) && !is_digit(
                c,
            ) ==> lex_from(input, fname, st) == lex_from(input, fname, step_punct(input, st))
        }),
{
    lemma_step_progress(input, fname, st);
}

/// One unfolding of `lex_from` at end of input: exactly one end-of-stream
/// token is appended at the current position.
pub proof fn lemma_lex_from_end(input: Seq<char>, fname: Seq<char>, st: LexState)
    requires
        0 <= st.i,
        st.i == input.len(),
    ensures
        lex_from(input, fname, st) == (LexState {
            col: st.col + 1,
            toks: st.toks.push(SpecToken { kind: SpecTokenKind::EOF, pos: st_pos(st) }),
            ..st
        }),
{
}

} // verus!
