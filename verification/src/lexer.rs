//! The scanner: drives the source buffer character by character, classifies,
//! and appends to the token stream, recording a lexical error for each
//! malformed lexeme and always continuing — one pass collects every error.
//!
//! Every routine is proved to compute exactly the corresponding step function
//! of the pass model in `model`, so `emit_tokens` returns precisely
//! `lex_spec` of the buffer's text.

use vstd::prelude::*;

use crate::buffer::{line_stop, Buffer, MAX_SOURCE_LEN};
use crate::error::{LexicalError, RoninError, RoninErrors, SpecError};
use crate::model::{
    id_end, init_state, is_digit, is_id_char, is_id_start, is_space, lemma_lex_from_end,
    lemma_lex_from_step, length_err, lex_from, lex_spec, norm_char, num_dot, num_end, resync_end,
    step_char, step_comment, step_id, step_num, step_punct, step_string, step_ws, str_adv,
    str_payload, str_scan_end, ws_adv, ws_end, LexState, MAX_NAME_LEN, MAX_NUMBER_LEN,
};
use crate::text::chars_to_string;
use crate::token::{LitKind, LnCol, Span, SpecToken, SpecTokenKind, Token, TokenKind};

verus! {

// ----------------------------------------------------- character classes

/// Whitespace test (ASCII range).
pub fn is_space_char(c: char) -> (r: bool)
    ensures
        r == is_space(c),
{
    c == ' ' || c == '\t' || c == '\n' || c == '\r' || c == '\u{b}' || c == '\u{c}'
}

/// Identifier-start test: `[A-Za-z_]`.
pub fn is_id_start_char(c: char) -> (r: bool)
    ensures
        r == is_id_start(c),
{
    c == '_' || (c as u32 >= 'a' as u32 && c as u32 <= 'z' as u32) || (c as u32 >= 'A' as u32
        && c as u32 <= 'Z' as u32)
}

/// Decimal-digit test.
pub fn is_digit_char(c: char) -> (r: bool)
    ensures
        r == is_digit(c),
{
    c as u32 >= '0' as u32 && c as u32 <= '9' as u32
}

/// Identifier-continuation test: `[A-Za-z0-9_]`.
pub fn is_id_part_char(c: char) -> (r: bool)
    ensures
        r == is_id_char(c),
{
    is_id_start_char(c) || is_digit_char(c)
}

// -------------------------------------------------------------- the scanner

/// The tokenizer proper: exclusive owner of the source buffer, the growing
/// token stream and the position tracker for the duration of one pass.
pub struct Lexer {
    pub tokens: Vec<Token>,
    pub buffer: Buffer,
    pub pos: LnCol,
}

impl Lexer {
    /// The source text being scanned.
    pub open spec fn input(&self) -> Seq<char> {
        self.buffer.symbols@
    }

    /// The name of the file being scanned.
    pub open spec fn fname(&self) -> Seq<char> {
        self.buffer.filename@
    }

    /// Well-formedness through a pass: the buffer is well-formed and the
    /// tracked position stays small relative to the characters consumed (a
    /// consumed character moves the column by at most five), which keeps all
    /// position arithmetic inside `usize`.
    pub open spec fn wf(&self) -> bool {
        &&& self.buffer.wf()
        &&& 1 <= self.pos.ln as int <= self.buffer.cursor + 1
        &&& 1 <= self.pos.col as int <= 5 * self.buffer.cursor + 1
    }

    /// The scanner and the text it has not changed.
    pub open spec fn same_source(&self, other: &Lexer) -> bool {
        &&& self.buffer.symbols == other.buffer.symbols
        &&& self.buffer.filename == other.buffer.filename
    }

    /// The pass-model state this scanner is in, given the errors recorded so
    /// far (the error accumulator lives with the caller).
    pub open spec fn st(&self, errs: Seq<SpecError<LexicalError>>) -> LexState {
        LexState {
            i: self.buffer.cursor as int,
            line: self.pos.ln as int,
            col: self.pos.col as int,
            starts: self.buffer.starts_view(),
            toks: self.tokens.deep_view(),
            errs,
        }
    }

    /// Creates a scanner over a buffer, positioned at line 1, column 1.
    pub fn new(buffer: Buffer) -> (r: Lexer)
        requires
            buffer.wf(),
        ensures
            r.buffer == buffer,
            r.pos.ln == 1,
            r.pos.col == 1,
            r.tokens.deep_view() == Seq::<SpecToken>::empty(),
            r.wf(),
    {
        let r = Lexer { buffer, tokens: Vec::new(), pos: LnCol::new(1, 1) };
        proof {
            assert(r.tokens.deep_view() =~= Seq::<SpecToken>::empty());
        }
        r
    }

    /// Appends one token of the given kind at the current position, then
    /// advances the position by the `(ln, col)` delta of the lexeme.
    pub fn t_push(&mut self, tk: TokenKind, ln: usize, col: usize)
        requires
            old(self).pos.ln + ln <= usize::MAX,
            old(self).pos.col + col <= usize::MAX,
        ensures
            final(self).tokens.deep_view() == old(self).tokens.deep_view().push(
                SpecToken { kind: tk.deep_view(), pos: old(self).pos@ },
            ),
            final(self).pos.ln == old(self).pos.ln + ln,
            final(self).pos.col == old(self).pos.col + col,
            final(self).buffer == old(self).buffer,
    {
        let pos = self.pos.update(ln, col);
        self.tokens.push(Token::new(tk, pos));
        proof {
            assert(self.tokens.deep_view() =~= old(self).tokens.deep_view().push(
                SpecToken { kind: tk.deep_view(), pos: old(self).pos@ },
            ));
        }
    }

    /// Appends the end-of-stream token at the current position.
    pub fn push_eof(&mut self)
        requires
            old(self).pos.ln < usize::MAX,
            old(self).pos.col < usize::MAX,
        ensures
            final(self).tokens.deep_view() == old(self).tokens.deep_view().push(
                SpecToken { kind: SpecTokenKind::EOF, pos: old(self).pos@ },
            ),
            final(self).pos.ln == old(self).pos.ln,
            final(self).pos.col == old(self).pos.col + 1,
            final(self).buffer == old(self).buffer,
    {
        self.t_push(TokenKind::EOF, 0, 1)
    }

    /// Consumes the maximal whitespace run under the cursor, advancing the
    /// position per character and recording each newline's line start.
    pub fn skip_whitespace(&mut self)
        requires
            old(self).wf(),
            old(self).buffer.cursor < old(self).input().len(),
            is_space(old(self).input()[old(self).buffer.cursor as int]),
        ensures
            final(self).wf(),
            final(self).same_source(old(self)),
            old(self).buffer.cursor < final(self).buffer.cursor,
            forall|errs: Seq<SpecError<LexicalError>>|
                #![trigger old(self).st(errs)]
                final(self).st(errs) == step_ws(old(self).input(), old(self).st(errs)),
    {
        let ghost input = self.input();
        let ghost i0 = self.buffer.cursor as int;
        let ghost l0 = *self;
        while self.buffer.cursor < self.buffer.symbols.len() && is_space_char(
            self.buffer.symbols[self.buffer.cursor],
        )
            invariant
                self.wf(),
                self.buffer.symbols == l0.buffer.symbols,
                self.buffer.symbols@ == input,
                self.buffer.filename == l0.buffer.filename,
                self.tokens == l0.tokens,
                i0 <= self.buffer.cursor as int <= input.len(),
                input.len() <= MAX_SOURCE_LEN,
                ws_end(input, self.buffer.cursor as int) == ws_end(input, i0),
                ws_adv(
                    input,
                    i0,
                    self.buffer.cursor as int,
                    l0.pos.ln as int,
                    l0.pos.col as int,
                    l0.buffer.starts_view(),
                ) == (self.pos.ln as int, self.pos.col as int, self.buffer.starts_view()),
            decreases input.len() - self.buffer.cursor,
        {
            let ghost starts_before = self.buffer.starts_view();
            let c = self.buffer.symbols[self.buffer.cursor];
            self.buffer.next();
            if c == '\n' {
                self.buffer.notfify_new_line();
                self.pos.ln = self.pos.ln + 1;
                self.pos.col = 1;
                proof {
                    assert(self.buffer.starts_view() =~= starts_before.push(
                        self.buffer.cursor as int,
                    ));
                }
            } else {
                self.pos.col = self.pos.col + 1;
            }
        }
        proof {
            assert(ws_end(input, self.buffer.cursor as int) == self.buffer.cursor as int);
            assert forall|errs: Seq<SpecError<LexicalError>>|
                self.st(errs) == #[trigger] step_ws(input, old(self).st(errs)) by {
                assert(self.st(errs) =~= step_ws(input, old(self).st(errs)));
            }
        }
    }

    /// Consumes a `#` comment through the end of the line (or of the input),
    /// counting exactly one line increment and resetting the column.
    pub fn skip_comments(&mut self)
        requires
            old(self).wf(),
            old(self).buffer.cursor < old(self).input().len(),
        ensures
            final(self).wf(),
            final(self).same_source(old(self)),
            old(self).buffer.cursor < final(self).buffer.cursor,
            forall|errs: Seq<SpecError<LexicalError>>|
                #![trigger old(self).st(errs)]
                final(self).st(errs) == step_comment(old(self).input(), old(self).st(errs)),
    {
        let ghost input = self.input();
        let ghost i0 = self.buffer.cursor as int;
        let ghost l0 = *self;
        while self.buffer.cursor < self.buffer.symbols.len() && self.buffer.symbols[self.buffer.cursor]
            != '\n'
            invariant
                self.wf(),
                self.buffer.symbols == l0.buffer.symbols,
                self.buffer.symbols@ == input,
                self.buffer.filename == l0.buffer.filename,
                self.tokens == l0.tokens,
                self.pos == l0.pos,
                self.buffer.line_start == l0.buffer.line_start,
                i0 <= self.buffer.cursor as int <= input.len(),
                line_stop(input, self.buffer.cursor as int) == line_stop(input, i0),
            decreases input.len() - self.buffer.cursor,
        {
            self.buffer.next();
        }
        proof {
            assert(line_stop(input, self.buffer.cursor as int) == self.buffer.cursor as int);
        }
        let ghost starts_before = self.buffer.starts_view();
        if self.buffer.cursor < self.buffer.symbols.len() {
            self.buffer.next();
            self.buffer.notfify_new_line();
            proof {
                assert(self.buffer.starts_view() =~= starts_before.push(
                    self.buffer.cursor as int,
                ));
            }
        }
        self.pos.ln = self.pos.ln + 1;
        self.pos.col = 1;
        proof {
            assert forall|errs: Seq<SpecError<LexicalError>>|
                self.st(errs) == #[trigger] step_comment(input, old(self).st(errs)) by {
                assert(self.st(errs) =~= step_comment(input, old(self).st(errs)));
            }
        }
    }

    /// Scans a string literal: consumes the opening quote, then characters
    /// through the unescaped closing quote, decoding the payload (a raw
    /// newline becomes `\` `n`, a raw tab four spaces) and tracking the
    /// spanned line/column delta. Input that ends first is a
    /// `StringMissingTrailingSign` error and the literal is abandoned.
    /// Escape handling is permissive: after a backslash, any character is
    /// accepted and kept as written.
    pub fn get_string(&mut self) -> (r: Result<(), RoninError<LexicalError>>)
        requires
            old(self).wf(),
            old(self).buffer.cursor < old(self).input().len(),
            old(self).input()[old(self).buffer.cursor as int] == '"',
        ensures
            final(self).wf(),
            final(self).same_source(old(self)),
            old(self).buffer.cursor < final(self).buffer.cursor,
            forall|errs: Seq<SpecError<LexicalError>>|
                #![trigger old(self).st(errs)]
                step_string(old(self).input(), old(self).st(errs)) == (match r {
                    Ok(_) => final(self).st(errs),
                    Err(e) => final(self).st(errs.push(e.deep_view())),
                }),
    {
        let ghost input = self.input();
        let ghost l0 = *self;
        let start = self.buffer.cursor;
        let ghost i0 = start as int;
        self.buffer.next();  // the opening quote

        // Consume through the unescaped closing quote, if there is one.
        let mut esc = false;
        let mut closed = false;
        while !closed && self.buffer.cursor < self.buffer.symbols.len()
            invariant
                self.wf(),
                self.buffer.symbols == l0.buffer.symbols,
                self.buffer.symbols@ == input,
                self.buffer.filename == l0.buffer.filename,
                self.buffer.line_start == l0.buffer.line_start,
                self.tokens == l0.tokens,
                self.pos == l0.pos,
                i0 + 1 <= self.buffer.cursor as int <= input.len(),
                !closed ==> str_scan_end(input, self.buffer.cursor as int, esc) == str_scan_end(
                    input,
                    i0 + 1,
                    false,
                ),
                closed ==> {
                    &&& i0 + 2 <= self.buffer.cursor as int
                    &&& str_scan_end(input, i0 + 1, false) == Some(self.buffer.cursor as int - 1)
                    &&& input[self.buffer.cursor as int - 1] == '"'
                },
            decreases input.len() - self.buffer.cursor,
        {
            let c = self.buffer.symbols[self.buffer.cursor];
            self.buffer.next();
            if c == '"' && !esc {
                closed = true;
            } else {
                esc = c == '\\' && !esc;
            }
        }

        if !closed {
            // End of input before a closing quote: the literal is abandoned.
            let e = RoninError::generate(LexicalError::StringMissingTrailingSign);
            proof {
                assert forall|errs: Seq<SpecError<LexicalError>>|
                    #[trigger] step_string(input, old(self).st(errs)) == self.st(
                        errs.push(
                            SpecError { kind: LexicalError::StringMissingTrailingSign, context: None },
                        ),
                    ) by {
                    assert(step_string(input, old(self).st(errs)) =~= self.st(
                        errs.push(
                            SpecError { kind: LexicalError::StringMissingTrailingSign, context: None },
                        ),
                    ));
                }
            }
            return Err(e);
        }

        // Decode the payload and accumulate the spanned (line, column) delta;
        // the initial column 1 accounts for the opening quote.
        let close = self.buffer.cursor - 1;  // index of the closing quote
        let ghost j = close as int;
        let ghost l1 = *self;
        let mut lxm: Vec<char> = Vec::new();
        let mut ln_d: usize = 0;
        let mut col_d: usize = 1;
        let mut m = start + 1;
        while m < close
            invariant
                *self == l1,
                self.buffer.symbols@ == input,
                input.len() <= MAX_SOURCE_LEN,
                0 <= i0,
                i0 + 1 <= m as int <= j,
                j == close as int,
                j < input.len(),
                lxm@ == str_payload(input, i0 + 1, m as int),
                str_adv(input, i0 + 1, m as int, 0, 1) == (ln_d as int, col_d as int),
                ln_d as int <= m - (i0 + 1),
                col_d as int <= 1 + 5 * (m - (i0 + 1)),
            decreases j - m,
        {
            let c = self.buffer.symbols[m];
            let ghost lxm0 = lxm@;
            col_d = col_d + 1;
            if c == '\n' {
                ln_d = ln_d + 1;
                col_d = 1;
                lxm.push('\\');
                lxm.push('n');
            } else if c == '\t' {
                col_d = col_d + 4;
                lxm.push(' ');
                lxm.push(' ');
                lxm.push(' ');
                lxm.push(' ');
            } else {
                lxm.push(c);
            }
            proof {
                assert(lxm@ =~= lxm0 + norm_char(input[m as int]));
            }
            m = m + 1;
        }
        // The closing quote spans one more column.
        col_d = col_d + 1;
        proof {
            assert(str_adv(input, i0 + 1, j + 1, 0, 1) == (ln_d as int, col_d as int));
        }
        let payload = chars_to_string(&lxm);
        self.t_push(TokenKind::Literal(LitKind::Str(payload)), ln_d, col_d);
        proof {
            assert forall|errs: Seq<SpecError<LexicalError>>|
                #[trigger] step_string(input, old(self).st(errs)) == self.st(errs) by {
                assert(step_string(input, old(self).st(errs)) =~= self.st(errs));
            }
        }
        Ok(())
    }

    /// Scans a character literal: consumes the opening quote, reads one
    /// logical character (a backslash takes the next raw character with it),
    /// then expects the closing quote. An empty literal (`''`) is an
    /// `IncorrectSpelling` error; a missing closing quote or end of input is
    /// a `CharacterMissingTrailingSign` error, consuming through the next
    /// quote to resynchronize.
    pub fn get_char(&mut self) -> (r: Result<(), RoninError<LexicalError>>)
        requires
            old(self).wf(),
            old(self).buffer.cursor < old(self).input().len(),
            old(self).input()[old(self).buffer.cursor as int] == '\'',
        ensures
            final(self).wf(),
            final(self).same_source(old(self)),
            old(self).buffer.cursor < final(self).buffer.cursor,
            forall|errs: Seq<SpecError<LexicalError>>|
                #![trigger old(self).st(errs)]
                step_char(old(self).input(), old(self).st(errs)) == (match r {
                    Ok(_) => final(self).st(errs),
                    Err(e) => final(self).st(errs.push(e.deep_view())),
                }),
    {
        let ghost input = self.input();
        let ghost i0 = self.buffer.cursor as int;
        self.buffer.next();  // the opening quote
        let c1 = match self.buffer.next() {
            Some(c) => c,
            None => {
                // End of input right after the opening quote.
                proof {
                    assert forall|errs: Seq<SpecError<LexicalError>>|
                        #[trigger] step_char(input, old(self).st(errs)) == self.st(
                            errs.push(
                                SpecError { kind: LexicalError::CharacterMissingTrailingSign, context: None },
                            ),
                        ) by {
                        assert(step_char(input, old(self).st(errs)) =~= self.st(
                            errs.push(
                                SpecError { kind: LexicalError::CharacterMissingTrailingSign, context: None },
                            ),
                        ));
                    }
                }
                return Err(RoninError::generate(LexicalError::CharacterMissingTrailingSign));
            },
        };
        if c1 == '\'' {
            // Empty literal.
            proof {
                assert forall|errs: Seq<SpecError<LexicalError>>|
                    #[trigger] step_char(input, old(self).st(errs)) == self.st(
                        errs.push(
                            SpecError { kind: LexicalError::IncorrectSpelling, context: None },
                        ),
                    ) by {
                    assert(step_char(input, old(self).st(errs)) =~= self.st(
                        errs.push(
                            SpecError { kind: LexicalError::IncorrectSpelling, context: None },
                        ),
                    ));
                }
            }
            return Err(RoninError::generate(LexicalError::IncorrectSpelling));
        }
        let mut lxm: Vec<char> = Vec::new();
        lxm.push(c1);
        if c1 == '\\' {
            match self.buffer.next() {
                Some(c2) => {
                    lxm.push(c2);
                },
                None => {
                    // A backslash and then end of input.
                    proof {
                        assert forall|errs: Seq<SpecError<LexicalError>>|
                            #[trigger] step_char(input, old(self).st(errs)) == self.st(
                                errs.push(
                                    SpecError { kind: LexicalError::CharacterMissingTrailingSign, context: None },
                                ),
                            ) by {
                            assert(step_char(input, old(self).st(errs)) =~= self.st(
                                errs.push(
                                    SpecError { kind: LexicalError::CharacterMissingTrailingSign, context: None },
                                ),
                            ));
                        }
                    }
                    return Err(RoninError::generate(LexicalError::CharacterMissingTrailingSign));
                },
            }
        }
        // The very next character must close the literal.
        match self.buffer.next() {
            None => {
                proof {
                    assert forall|errs: Seq<SpecError<LexicalError>>|
                        #[trigger] step_char(input, old(self).st(errs)) == self.st(
                            errs.push(
                                SpecError { kind: LexicalError::CharacterMissingTrailingSign, context: None },
                            ),
                        ) by {
                        assert(step_char(input, old(self).st(errs)) =~= self.st(
                            errs.push(
                                SpecError { kind: LexicalError::CharacterMissingTrailingSign, context: None },
                            ),
                        ));
                    }
                }
                Err(RoninError::generate(LexicalError::CharacterMissingTrailingSign))
            },
            Some(cq) => {
                if cq == '\'' {
                    proof {
                        if input[i0 + 1] == '\\' {
                            assert(lxm@ =~= seq![input[i0 + 1], input[i0 + 2]]);
                        } else {
                            assert(lxm@ =~= seq![input[i0 + 1]]);
                        }
                    }
                    let payload_len = lxm.len();
                    let payload = chars_to_string(&lxm);
                    self.t_push(TokenKind::Literal(LitKind::Char(payload)), 0, payload_len + 2);
                    proof {
                        assert forall|errs: Seq<SpecError<LexicalError>>|
                            #[trigger] step_char(input, old(self).st(errs)) == self.st(errs) by {
                            assert(step_char(input, old(self).st(errs)) =~= self.st(errs));
                        }
                    }
                    Ok(())
                } else {
                    // Resynchronize: consume through the next quote.
                    let ghost q0 = self.buffer.cursor as int;
                    let ghost l1 = *self;
                    while self.buffer.cursor < self.buffer.symbols.len()
                        && self.buffer.symbols[self.buffer.cursor] != '\''
                        invariant
                            self.buffer.symbols@ == input,
                            self.buffer.symbols == l1.buffer.symbols,
                            self.buffer.filename == l1.buffer.filename,
                            self.buffer.line_start == l1.buffer.line_start,
                            self.tokens == l1.tokens,
                            self.pos == l1.pos,
                            q0 <= self.buffer.cursor as int <= input.len(),
                            self.wf(),
                            resync_end(input, self.buffer.cursor as int) == resync_end(input, q0),
                        decreases input.len() - self.buffer.cursor,
                    {
                        self.buffer.next();
                    }
                    if self.buffer.cursor < self.buffer.symbols.len() {
                        self.buffer.next();
                    }
                    proof {
                        assert forall|errs: Seq<SpecError<LexicalError>>|
                            #[trigger] step_char(input, old(self).st(errs)) == self.st(
                                errs.push(
                                    SpecError { kind: LexicalError::CharacterMissingTrailingSign, context: None },
                                ),
                            ) by {
                            assert(step_char(input, old(self).st(errs)) =~= self.st(
                                errs.push(
                                    SpecError { kind: LexicalError::CharacterMissingTrailingSign, context: None },
                                ),
                            ));
                        }
                    }
                    Err(RoninError::generate(LexicalError::CharacterMissingTrailingSign))
                }
            },
        }
    }

    /// Scans an identifier or keyword: takes the maximal `[A-Za-z0-9_]` run.
    /// A run longer than `MAX_NAME_LEN` is an `ExceedingLengthIdentifier`
    /// error with the enclosing source line and the lexeme's span attached
    /// (the lexeme is still consumed so scanning continues past it);
    /// otherwise the lexeme is looked up in the keyword table and handed on.
    pub fn get_id(&mut self) -> (r: Result<(), RoninError<LexicalError>>)
        requires
            old(self).wf(),
            old(self).buffer.cursor < old(self).input().len(),
            is_id_start(old(self).input()[old(self).buffer.cursor as int]),
        ensures
            final(self).wf(),
            final(self).same_source(old(self)),
            old(self).buffer.cursor < final(self).buffer.cursor,
            forall|errs: Seq<SpecError<LexicalError>>|
                #![trigger old(self).st(errs)]
                step_id(old(self).input(), old(self).fname(), old(self).st(errs)) == (match r {
                    Ok(_) => final(self).st(errs),
                    Err(e) => final(self).st(errs.push(e.deep_view())),
                }),
    {
        let ghost input = self.input();
        let ghost fname = self.fname();
        let ghost i0 = self.buffer.cursor as int;
        let ghost l0 = *self;
        let mut lxm: Vec<char> = Vec::new();
        while self.buffer.cursor < self.buffer.symbols.len() && is_id_part_char(
            self.buffer.symbols[self.buffer.cursor],
        )
            invariant
                self.wf(),
                self.buffer.symbols == l0.buffer.symbols,
                self.buffer.symbols@ == input,
                self.buffer.filename == l0.buffer.filename,
                self.buffer.line_start == l0.buffer.line_start,
                self.tokens == l0.tokens,
                self.pos == l0.pos,
                0 <= i0 <= self.buffer.cursor as int <= input.len(),
                lxm@ == input.subrange(i0, self.buffer.cursor as int),
                id_end(input, self.buffer.cursor as int) == id_end(input, i0),
            decreases input.len() - self.buffer.cursor,
        {
            let c = self.buffer.symbols[self.buffer.cursor];
            lxm.push(c);
            self.buffer.next();
            proof {
                assert(input.subrange(i0, self.buffer.cursor as int) =~= input.subrange(
                    i0,
                    self.buffer.cursor - 1,
                ).push(input[self.buffer.cursor - 1]));
            }
        }
        proof {
            assert(id_end(input, self.buffer.cursor as int) == self.buffer.cursor as int);
        }
        let n = lxm.len();
        if n > MAX_NAME_LEN {
            let text = self.buffer.get_line(self.pos.ln - 1);
            let span = Span::new(self.pos, self.pos.add(0, n));
            let e = RoninError::generate(LexicalError::ExceedingLengthIdentifier).attach(
                self.buffer.filename.clone(),
                text,
                span,
            );
            proof {
                assert forall|errs: Seq<SpecError<LexicalError>>|
                    #[trigger] step_id(input, fname, old(self).st(errs)) == self.st(
                        errs.push(
                            length_err(
                                LexicalError::ExceedingLengthIdentifier,
                                input,
                                fname,
                                old(self).st(errs),
                                n as int,
                            ),
                        ),
                    ) by {
                    assert(step_id(input, fname, old(self).st(errs)) =~= self.st(
                        errs.push(
                            length_err(
                                LexicalError::ExceedingLengthIdentifier,
                                input,
                                fname,
                                old(self).st(errs),
                                n as int,
                            ),
                        ),
                    ));
                }
            }
            return Err(e);
        }
        let res = match TokenKind::match_keyword(&lxm) {
            Some(tk) => self.handle_permission(tk, &lxm),
            None => {
                self.t_push(TokenKind::Ident(chars_to_string(&lxm)), 0, n);
                Ok(())
            },
        };
        proof {
            assert forall|errs: Seq<SpecError<LexicalError>>|
                #[trigger] step_id(input, fname, old(self).st(errs)) == self.st(errs) by {
                assert(step_id(input, fname, old(self).st(errs)) =~= self.st(errs));
            }
        }
        res
    }

    /// Applies a matched keyword kind. A permission marker directly after a
    /// `/` token with no intervening whitespace (checked by column
    /// contiguity) rewrites that token's kind in place; anywhere else the
    /// lexeme is a plain identifier. Any other keyword is emitted as its
    /// fixed-payload token.
    pub fn handle_permission(&mut self, token_kind: TokenKind, lxm: &Vec<char>) -> (r: Result<
        (),
        RoninError<LexicalError>,
    >)
        requires
            old(self).wf(),
            old(self).pos.col + lxm@.len() <= usize::MAX,
        ensures
            r is Ok,
            final(self).buffer == old(self).buffer,
            ({
                let k = token_kind.deep_view();
                let toks = old(self).tokens.deep_view();
                if k is Permission && toks.len() > 0 && toks.last().kind is Div
                    && toks.last().pos.col == old(self).pos.col - 1 {
                    &&& final(self).tokens.deep_view() == toks.update(
                        toks.len() - 1,
                        SpecToken { kind: k, pos: toks.last().pos },
                    )
                    &&& final(self).pos == old(self).pos
                } else {
                    &&& final(self).tokens.deep_view() == toks.push(
                        SpecToken {
                            kind: if k is Permission {
                                SpecTokenKind::Ident(lxm@)
                            } else {
                                k
                            },
                            pos: old(self).pos@,
                        },
                    )
                    &&& final(self).pos.ln == old(self).pos.ln
                    &&& final(self).pos.col == old(self).pos.col + lxm@.len()
                }
            }),
    {
        let n = lxm.len();
        if token_kind.is_permission() {
            let tlen = self.tokens.len();
            if tlen > 0 && matches!(self.tokens[tlen - 1].kind, TokenKind::Div)
                && self.tokens[tlen - 1].pos.col == self.pos.col - 1 {
                let prev_pos = self.tokens[tlen - 1].pos;
                self.tokens[tlen - 1] = Token::new(token_kind, prev_pos);
                proof {
                    assert(self.tokens.deep_view() =~= old(self).tokens.deep_view().update(
                        tlen - 1,
                        SpecToken {
                            kind: token_kind.deep_view(),
                            pos: old(self).tokens.deep_view().last().pos,
                        },
                    ));
                }
                Ok(())
            } else {
                self.t_push(TokenKind::Ident(chars_to_string(lxm)), 0, n);
                Ok(())
            }
        } else {
            self.t_push(token_kind, 0, n);
            Ok(())
        }
    }

    /// Scans a numeric literal: digits with at most one dot, stopping
    /// silently at the first character that cannot extend the run. A run
    /// longer than `MAX_NUMBER_LEN` is an `ExceedingLengthNumber` error with
    /// context attached; otherwise the raw lexeme is emitted as a float
    /// literal when it contains a dot and as an integer literal else.
    pub fn get_nums(&mut self) -> (r: Result<(), RoninError<LexicalError>>)
        requires
            old(self).wf(),
            old(self).buffer.cursor < old(self).input().len(),
            is_digit(old(self).input()[old(self).buffer.cursor as int]),
        ensures
            final(self).wf(),
            final(self).same_source(old(self)),
            old(self).buffer.cursor < final(self).buffer.cursor,
            forall|errs: Seq<SpecError<LexicalError>>|
                #![trigger old(self).st(errs)]
                step_num(old(self).input(), old(self).fname(), old(self).st(errs)) == (match r {
                    Ok(_) => final(self).st(errs),
                    Err(e) => final(self).st(errs.push(e.deep_view())),
                }),
    {
        let ghost input = self.input();
        let ghost fname = self.fname();
        let ghost i0 = self.buffer.cursor as int;
        let ghost l0 = *self;
        let mut dot = false;
        let mut lxm: Vec<char> = Vec::new();
        while self.buffer.cursor < self.buffer.symbols.len() && (is_digit_char(
            self.buffer.symbols[self.buffer.cursor],
        ) || (self.buffer.symbols[self.buffer.cursor] == '.' && !dot))
            invariant
                self.wf(),
                self.buffer.symbols == l0.buffer.symbols,
                self.buffer.symbols@ == input,
                self.buffer.filename == l0.buffer.filename,
                self.buffer.line_start == l0.buffer.line_start,
                self.tokens == l0.tokens,
                self.pos == l0.pos,
                0 <= i0 <= self.buffer.cursor as int <= input.len(),
                lxm@ == input.subrange(i0, self.buffer.cursor as int),
                num_end(input, self.buffer.cursor as int, dot) == num_end(input, i0, false),
                num_dot(input, self.buffer.cursor as int, dot) == num_dot(input, i0, false),
            decreases input.len() - self.buffer.cursor,
        {
            let c = self.buffer.symbols[self.buffer.cursor];
            if c == '.' {
                dot = true;
            }
            lxm.push(c);
            self.buffer.next();
            proof {
                assert(input.subrange(i0, self.buffer.cursor as int) =~= input.subrange(
                    i0,
                    self.buffer.cursor - 1,
                ).push(input[self.buffer.cursor - 1]));
            }
        }
        proof {
            assert(num_end(input, self.buffer.cursor as int, dot) == self.buffer.cursor as int);
            assert(num_dot(input, self.buffer.cursor as int, dot) == dot);
        }
        let n = lxm.len();
        if n > MAX_NUMBER_LEN {
            let text = self.buffer.get_line(self.pos.ln - 1);
            let span = Span::new(self.pos, self.pos.add(0, n));
            let e = RoninError::generate(LexicalError::ExceedingLengthNumber).attach(
                self.buffer.filename.clone(),
                text,
                span,
            );
            proof {
                assert forall|errs: Seq<SpecError<LexicalError>>|
                    #[trigger] step_num(input, fname, old(self).st(errs)) == self.st(
                        errs.push(
                            length_err(
                                LexicalError::ExceedingLengthNumber,
                                input,
                                fname,
                                old(self).st(errs),
                                n as int,
                            ),
                        ),
                    ) by {
                    assert(step_num(input, fname, old(self).st(errs)) =~= self.st(
                        errs.push(
                            length_err(
                                LexicalError::ExceedingLengthNumber,
                                input,
                                fname,
                                old(self).st(errs),
                                n as int,
                            ),
                        ),
                    ));
                }
            }
            return Err(e);
        }
        if dot {
            self.t_push(TokenKind::Literal(LitKind::Float(chars_to_string(&lxm))), 0, n);
        } else {
            self.t_push(TokenKind::Literal(LitKind::Integer(chars_to_string(&lxm))), 0, n);
        }
        proof {
            assert forall|errs: Seq<SpecError<LexicalError>>|
                #[trigger] step_num(input, fname, old(self).st(errs)) == self.st(errs) by {
                assert(step_num(input, fname, old(self).st(errs)) =~= self.st(errs));
            }
        }
        Ok(())
    }

    /// Scans punctuation: consumes one character and maps it through the
    /// single-character table (an unmapped character is an `IllegalCharacter`
    /// error), then peeks one further character and fuses the pair through
    /// the combination table when it matches, consuming the second character.
    pub fn get_punctuation(&mut self) -> (r: Result<(), RoninError<LexicalError>>)
        requires
            old(self).wf(),
            old(self).buffer.cursor < old(self).input().len(),
        ensures
            final(self).wf(),
            final(self).same_source(old(self)),
            old(self).buffer.cursor < final(self).buffer.cursor,
            forall|errs: Seq<SpecError<LexicalError>>|
                #![trigger old(self).st(errs)]
                step_punct(old(self).input(), old(self).st(errs)) == (match r {
                    Ok(_) => final(self).st(errs),
                    Err(e) => final(self).st(errs.push(e.deep_view())),
                }),
    {
        let ghost input = self.input();
        let c = self.buffer.next().unwrap();
        let kind = match TokenKind::match_punctuation(&c) {
            Some(res) => res,
            None => {
                let e = RoninError::generate(LexicalError::IllegalCharacter);
                proof {
                    assert forall|errs: Seq<SpecError<LexicalError>>|
                        #[trigger] step_punct(input, old(self).st(errs)) == self.st(
                            errs.push(
                                SpecError { kind: LexicalError::IllegalCharacter, context: None },
                            ),
                        ) by {
                        assert(step_punct(input, old(self).st(errs)) =~= self.st(
                            errs.push(
                                SpecError { kind: LexicalError::IllegalCharacter, context: None },
                            ),
                        ));
                    }
                }
                return Err(e);
            },
        };
        let next = match self.buffer.peek() {
            Some(ch) => ch,
            None => {
                self.t_push(kind, 0, 1);
                proof {
                    assert forall|errs: Seq<SpecError<LexicalError>>|
                        #[trigger] step_punct(input, old(self).st(errs)) == self.st(errs) by {
                        assert(step_punct(input, old(self).st(errs)) =~= self.st(errs));
                    }
                }
                return Ok(());
            },
        };
        match kind.get_combo(&next) {
            Some(res) => {
                self.t_push(res, 0, 2);
                self.buffer.next();
            },
            None => {
                self.t_push(kind, 0, 1);
            },
        }
        proof {
            assert forall|errs: Seq<SpecError<LexicalError>>|
                #[trigger] step_punct(input, old(self).st(errs)) == self.st(errs) by {
                assert(step_punct(input, old(self).st(errs)) =~= self.st(errs));
            }
        }
        Ok(())
    }

    /// Dispatches on the first character's class: identifier/keyword,
    /// numeric literal, or punctuation/operator. Does nothing at end of
    /// input.
    pub fn get_tokens(&mut self) -> (r: Result<(), RoninError<LexicalError>>)
        requires
            old(self).wf(),
        ensures
            final(self).wf(),
            final(self).same_source(old(self)),
            old(self).buffer.cursor >= old(self).input().len() ==> r is Ok && *final(self)
                == *old(self),
            old(self).buffer.cursor < old(self).input().len() ==> old(self).buffer.cursor
                < final(self).buffer.cursor,
            old(self).buffer.cursor < old(self).input().len() && is_id_start(
                old(self).input()[old(self).buffer.cursor as int],
            ) ==> forall|errs: Seq<SpecError<LexicalError>>|
                #![trigger old(self).st(errs)]
                step_id(old(self).input(), old(self).fname(), old(self).st(errs)) == (match r {
                    Ok(_) => final(self).st(errs),
                    Err(e) => final(self).st(errs.push(e.deep_view())),
                }),
            old(self).buffer.cursor < old(self).input().len() && is_digit(
                old(self).input()[old(self).buffer.cursor as int],
            ) ==> forall|errs: Seq<SpecError<LexicalError>>|
                #![trigger old(self).st(errs)]
                step_num(old(self).input(), old(self).fname(), old(self).st(errs)) == (match r {
                    Ok(_) => final(self).st(errs),
                    Err(e) => final(self).st(errs.push(e.deep_view())),
                }),
            old(self).buffer.cursor < old(self).input().len() && !is_id_start(
                old(self).input()[old(self).buffer.cursor as int],
            ) && !is_digit(old(self).input()[old(self).buffer.cursor as int]) ==> forall|
                errs: Seq<SpecError<LexicalError>>,
            |
                #![trigger old(self).st(errs)]
                step_punct(old(self).input(), old(self).st(errs)) == (match r {
                    Ok(_) => final(self).st(errs),
                    Err(e) => final(self).st(errs.push(e.deep_view())),
                }),
    {
        if self.buffer.cursor < self.buffer.symbols.len() {
            let c = self.buffer.symbols[self.buffer.cursor];
            if is_id_start_char(c) {
                self.get_id()
            } else if is_digit_char(c) {
                self.get_nums()
            } else {
                self.get_punctuation()
            }
        } else {
            Ok(())
        }
    }
}

/// Lexes the whole buffer: one error-tolerant pass from the first character
/// to end of input, then exactly one end-of-stream token. Returns the token
/// stream when the pass recorded no error, and the non-empty error
/// accumulator otherwise — never both.
pub fn emit_tokens(buffer: Buffer) -> (r: Result<Vec<Token>, RoninErrors<LexicalError>>)
    requires
        buffer.fresh(),
    ensures
        ({
            let fin = lex_spec(buffer.symbols@, buffer.filename@);
            match r {
                Ok(toks) => fin.errs.len() == 0 && toks.deep_view() == fin.toks,
                Err(errs) => errs.deep_view() == fin.errs && errs@.len() > 0,
            }
        }),
{
    let ghost input = buffer.symbols@;
    let ghost fname = buffer.filename@;
    let mut lxr_err: RoninErrors<LexicalError> = Vec::new();
    let mut lexer = Lexer::new(buffer);
    proof {
        assert(lexer.st(lxr_err.deep_view()) =~= init_state());
    }
    while lexer.buffer.cursor < lexer.buffer.symbols.len()
        invariant
            lexer.wf(),
            lexer.buffer.symbols@ == input,
            lexer.buffer.filename@ == fname,
            input.len() <= MAX_SOURCE_LEN,
            lex_from(input, fname, lexer.st(lxr_err.deep_view())) == lex_spec(input, fname),
        decreases input.len() - lexer.buffer.cursor,
    {
        let ghost st0 = lexer.st(lxr_err.deep_view());
        let ghost errs0 = lxr_err.deep_view();
        let c = lexer.buffer.symbols[lexer.buffer.cursor];
        if is_space_char(c) {
            lexer.skip_whitespace();
            proof {
                lemma_lex_from_step(input, fname, st0);
                assert(lexer.st(lxr_err.deep_view()) == step_ws(input, st0));
            }
        } else if c == '#' {
            lexer.skip_comments();
            proof {
                lemma_lex_from_step(input, fname, st0);
                assert(lexer.st(lxr_err.deep_view()) == step_comment(input, st0));
            }
        } else if c == '"' {
            match lexer.get_string() {
                Ok(_) => {},
                Err(e) => {
                    lxr_err.push(e);
                    proof {
                        assert(lxr_err.deep_view() =~= errs0.push(e.deep_view()));
                    }
                },
            }
            proof {
                lemma_lex_from_step(input, fname, st0);
                assert(lexer.st(lxr_err.deep_view()) == step_string(input, st0));
            }
        } else if c == '\'' {
            match lexer.get_char() {
                Ok(_) => {},
                Err(e) => {
                    lxr_err.push(e);
                    proof {
                        assert(lxr_err.deep_view() =~= errs0.push(e.deep_view()));
                    }
                },
            }
            proof {
                lemma_lex_from_step(input, fname, st0);
                assert(lexer.st(lxr_err.deep_view()) == step_char(input, st0));
            }
        } else {
            match lexer.get_tokens() {
                Ok(_) => {},
                Err(e) => {
                    lxr_err.push(e);
                    proof {
                        assert(lxr_err.deep_view() =~= errs0.push(e.deep_view()));
                    }
                },
            }
            proof {
                lemma_lex_from_step(input, fname, st0);
                if is_id_start(input[st0.i]) {
                    assert(lexer.st(lxr_err.deep_view()) == step_id(input, fname, st0));
                } else if is_digit(input[st0.i]) {
                    assert(lexer.st(lxr_err.deep_view()) == step_num(input, fname, st0));
                } else {
                    assert(lexer.st(lxr_err.deep_view()) == step_punct(input, st0));
                }
            }
        }
    }
    let ghost st_end = lexer.st(lxr_err.deep_view());
    lexer.push_eof();
    proof {
        lemma_lex_from_end(input, fname, st_end);
        assert(lexer.st(lxr_err.deep_view()) =~= lex_spec(input, fname));
    }
    if lxr_err.len() == 0 {
        Ok(lexer.tokens)
    } else {
        Err(lxr_err)
    }
}

} // verus!
