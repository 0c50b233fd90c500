//! Laws of the lexer, stated over the pass model and proved once and for
//! all: stream termination, determinism, and the behaviour of whole passes
//! over identifiers, unterminated strings, operators and empty input.

use vstd::prelude::*;

use crate::error::{LexicalError, SpecError};
use crate::model::{
    id_end, init_state, is_digit, is_id_char, is_id_start, is_space, lemma_lex_from_end,
    lemma_lex_from_step, lemma_step_progress, length_err, lex_from, lex_spec, norm_char,
    plain_err, step_char, step_comment, step_id, step_num, step_punct, step_string, step_ws,
    str_payload, str_scan_end, with_token, LexState, MAX_NAME_LEN,
};
use crate::token::{spec_combo, spec_keyword, spec_punct, SpecPos, SpecToken, SpecTokenKind};

verus! {

/// The identifier run from `i` covers the whole rest of the text when every
/// remaining character can continue an identifier.
proof fn lemma_id_end_full(input: Seq<char>, i: int)
    requires
        0 <= i <= input.len(),
        forall|k: int| i <= k < input.len() ==> is_id_char(#[trigger] input[k]),
    ensures
        id_end(input, i) == input.len(),
    decreases input.len() - i,
{
    if i < input.len() {
        lemma_id_end_full(input, i + 1);
    }
}

/// Law (stream termination, general form): from any reachable state whose
/// stream holds no end-of-stream token yet, the rest of the pass appends
/// tokens and ends the stream with exactly one end-of-stream token.
pub proof fn lemma_lex_from_terminated(input: Seq<char>, fname: Seq<char>, st: LexState)
    requires
        0 <= st.i <= input.len(),
        forall|k: int| 0 <= k < st.toks.len() ==> !(#[trigger] st.toks[k].kind is EOF),
    ensures
        ({
            let fin = lex_from(input, fname, st);
            &&& fin.toks.len() > st.toks.len()
            &&& fin.toks.last().kind is EOF
            &&& forall|k: int|
                0 <= k < fin.toks.len() - 1 ==> !(#[trigger] fin.toks[k].kind is EOF)
        }),
    decreases input.len() - st.i,
{
    if st.i == input.len() {
        lemma_lex_from_end(input, fname, st);
    } else {
        let c = input[st.i];
        lemma_lex_from_step(input, fname, st);
        lemma_step_progress(input, fname, st);
        let st2 = if is_space(c) {
            step_ws(input, st)
        } else if c == '#' {
            step_comment(input, st)
        } else if c == '"' {
            step_string(input, st)
        } else if c == '\'' {
            step_char(input, st)
        } else if is_id_start(c) {
            step_id(input, fname, st)
        } else if is_digit(c) {
            step_num(input, fname, st)
        } else {
            step_punct(input, st)
        };
        assert forall|k: int| 0 <= k < st2.toks.len() implies !(#[trigger] st2.toks[k].kind
            is EOF) by {
            if k < st.toks.len() {
                assert(!(st.toks[k].kind is EOF));
            }
        }
        assert(st2.toks.len() >= st.toks.len());
        lemma_lex_from_terminated(input, fname, st2);
    }
}

/// Law (stream termination): the token stream of a whole pass is never empty,
/// ends with the end-of-stream token, and holds it exactly once.
pub proof fn lemma_stream_terminated(input: Seq<char>, fname: Seq<char>)
    ensures
        ({
            let fin = lex_spec(input, fname);
            &&& fin.toks.len() >= 1
            &&& fin.toks.last().kind is EOF
            &&& forall|k: int|
                0 <= k < fin.toks.len() - 1 ==> !(#[trigger] fin.toks[k].kind is EOF)
        }),
{
    lemma_lex_from_terminated(input, fname, init_state());
}

/// Law (determinism): the outcome of a pass is a function of the source text
/// and filename alone — two passes over equal texts, in any order and with no
/// state carried over, give structurally identical token streams and errors.
pub proof fn lemma_pass_deterministic(
    input1: Seq<char>,
    fname1: Seq<char>,
    input2: Seq<char>,
    fname2: Seq<char>,
)
    requires
        input1 == input2,
        fname1 == fname2,
    ensures
        lex_spec(input1, fname1) == lex_spec(input2, fname2),
{
}

/// Law: a source text that is exactly one valid identifier — length at most
/// 30, shaped `[A-Za-z_][A-Za-z0-9_]*`, not a keyword — lexes without error
/// to exactly one identifier token carrying the lexeme, then end-of-stream.
pub proof fn lemma_plain_identifier(input: Seq<char>, fname: Seq<char>)
    requires
        1 <= input.len() <= MAX_NAME_LEN,
        is_id_start(input[0]),
        forall|k: int| 0 <= k < input.len() ==> is_id_char(#[trigger] input[k]),
        spec_keyword(input) is None,
    ensures
        lex_spec(input, fname).errs == Seq::<SpecError<LexicalError>>::empty(),
        lex_spec(input, fname).toks == seq![
            SpecToken { kind: SpecTokenKind::Ident(input), pos: SpecPos { line: 1, col: 1 } },
            SpecToken {
                kind: SpecTokenKind::EOF,
                pos: SpecPos { line: 1, col: 1 + input.len() as int },
            },
        ],
{
    let st0 = init_state();
    lemma_id_end_full(input, 0);
    lemma_lex_from_step(input, fname, st0);
    assert(input.subrange(0, input.len() as int) =~= input);
    let st1 = step_id(input, fname, st0);
    lemma_lex_from_end(input, fname, st1);
    assert(lex_spec(input, fname).toks =~= seq![
        SpecToken { kind: SpecTokenKind::Ident(input), pos: SpecPos { line: 1, col: 1 } },
        SpecToken { kind: SpecTokenKind::EOF, pos: SpecPos { line: 1, col: 1 + input.len() as int } },
    ]);
    assert(lex_spec(input, fname).errs =~= Seq::<SpecError<LexicalError>>::empty());
}

/// Law: a source text that is exactly one identifier of length over 30 lexes
/// to exactly one `ExceedingLengthIdentifier` error — with the line text and
/// the lexeme's span attached — and no token for the lexeme (the stream holds
/// only the end-of-stream token).
pub proof fn lemma_overlong_identifier(input: Seq<char>, fname: Seq<char>)
    requires
        input.len() > MAX_NAME_LEN,
        is_id_start(input[0]),
        forall|k: int| 0 <= k < input.len() ==> is_id_char(#[trigger] input[k]),
    ensures
        lex_spec(input, fname).errs == seq![
            length_err(
                LexicalError::ExceedingLengthIdentifier,
                input,
                fname,
                init_state(),
                input.len() as int,
            ),
        ],
        lex_spec(input, fname).errs[0].kind == LexicalError::ExceedingLengthIdentifier,
        lex_spec(input, fname).toks == seq![
            SpecToken { kind: SpecTokenKind::EOF, pos: SpecPos { line: 1, col: 1 } },
        ],
{
    let st0 = init_state();
    lemma_id_end_full(input, 0);
    lemma_lex_from_step(input, fname, st0);
    let st1 = step_id(input, fname, st0);
    lemma_lex_from_end(input, fname, st1);
    assert(lex_spec(input, fname).errs =~= seq![
        length_err(
            LexicalError::ExceedingLengthIdentifier,
            input,
            fname,
            init_state(),
            input.len() as int,
        ),
    ]);
    assert(lex_spec(input, fname).toks =~= seq![
        SpecToken { kind: SpecTokenKind::EOF, pos: SpecPos { line: 1, col: 1 } },
    ]);
}

/// Law (permission fusion): when the lexeme under the read position is a
/// permission keyword (`r` or `rw`), and the last token produced is a `/`
/// token in the directly preceding column, the identifier step rewrites that
/// token's kind into the permission marker in place and emits nothing else;
/// at any other state the same lexeme becomes a plain identifier token.
pub proof fn lemma_permission_fusion(input: Seq<char>, fname: Seq<char>, st: LexState)
    requires
        0 <= st.i < input.len(),
        is_id_start(input[st.i]),
        id_end(input, st.i) - st.i <= MAX_NAME_LEN,
        spec_keyword(input.subrange(st.i, id_end(input, st.i))) matches Some(k) && k is Permission,
    ensures
        (st.toks.len() > 0 && st.toks.last().kind is Div && st.toks.last().pos.col == st.col - 1)
            ==> step_id(input, fname, st) == (LexState {
            i: id_end(input, st.i),
            toks: st.toks.update(
                st.toks.len() - 1,
                SpecToken {
                    kind: spec_keyword(input.subrange(st.i, id_end(input, st.i)))->Some_0,
                    pos: st.toks.last().pos,
                },
            ),
            ..st
        }),
        !(st.toks.len() > 0 && st.toks.last().kind is Div && st.toks.last().pos.col == st.col - 1)
            ==> step_id(input, fname, st) == with_token(
            st,
            SpecTokenKind::Ident(input.subrange(st.i, id_end(input, st.i))),
            0,
            id_end(input, st.i) - st.i,
            id_end(input, st.i),
        ),
{
}

/// Law: a text that opens a string literal which never closes — no unescaped
/// quote before end of input — lexes to exactly one
/// `StringMissingTrailingSign` error and no token but end-of-stream.
pub proof fn lemma_unterminated_string(input: Seq<char>, fname: Seq<char>)
    requires
        input.len() >= 1,
        input[0] == '"',
        str_scan_end(input, 1, false) is None,
    ensures
        lex_spec(input, fname).errs == seq![
            plain_err(LexicalError::StringMissingTrailingSign),
        ],
        lex_spec(input, fname).toks == seq![
            SpecToken { kind: SpecTokenKind::EOF, pos: SpecPos { line: 1, col: 1 } },
        ],
{
    let st0 = init_state();
    lemma_lex_from_step(input, fname, st0);
    let st1 = step_string(input, st0);
    lemma_lex_from_end(input, fname, st1);
    assert(lex_spec(input, fname).errs =~= seq![
        plain_err(LexicalError::StringMissingTrailingSign),
    ]);
    assert(lex_spec(input, fname).toks =~= seq![
        SpecToken { kind: SpecTokenKind::EOF, pos: SpecPos { line: 1, col: 1 } },
    ]);
}

/// Law: a decoded string payload never contains a raw newline or a raw tab —
/// normalization replaces them with `\` `n` and four spaces.
pub proof fn lemma_payload_normalized(input: Seq<char>, i: int, j: int)
    requires
        0 <= i <= j <= input.len(),
    ensures
        forall|k: int|
            0 <= k < str_payload(input, i, j).len() ==> #[trigger] str_payload(input, i, j)[k]
                != '\n' && str_payload(input, i, j)[k] != '\t',
    decreases j - i,
{
    if j > i {
        lemma_payload_normalized(input, i, j - 1);
        assert forall|k: int| 0 <= k < str_payload(input, i, j).len() implies #[trigger] str_payload(
            input,
            i,
            j,
        )[k] != '\n' && str_payload(input, i, j)[k] != '\t' by {
            if k >= str_payload(input, i, j - 1).len() {
                assert(str_payload(input, i, j)[k] == norm_char(input[j - 1])[k - str_payload(
                    input,
                    i,
                    j - 1,
                ).len()]);
            }
        }
    }
}

/// Law (operator fusion): a two-character text of punctuation characters
/// (none of `#`, `"`, `'`) fuses into exactly one two-column token when the
/// combination table maps the pair, and into two one-column tokens when it
/// does not; either way the pass has no error.
pub proof fn lemma_operator_fusion(c1: char, c2: char, fname: Seq<char>)
    requires
        spec_punct(c1) is Some,
        spec_punct(c2) is Some,
        c1 != '#' && c1 != '"' && c1 != '\'',
        c2 != '#' && c2 != '"' && c2 != '\'',
    ensures
        ({
            let fin = lex_spec(seq![c1, c2], fname);
            let k1 = spec_punct(c1)->Some_0;
            let k2 = spec_punct(c2)->Some_0;
            &&& fin.errs == Seq::<SpecError<LexicalError>>::empty()
            &&& (spec_combo(k1, k2) matches Some(kc) ==> fin.toks == seq![
                SpecToken { kind: kc, pos: SpecPos { line: 1, col: 1 } },
                SpecToken { kind: SpecTokenKind::EOF, pos: SpecPos { line: 1, col: 3 } },
            ])
            &&& (spec_combo(k1, k2) is None ==> fin.toks == seq![
                SpecToken { kind: k1, pos: SpecPos { line: 1, col: 1 } },
                SpecToken { kind: k2, pos: SpecPos { line: 1, col: 2 } },
                SpecToken { kind: SpecTokenKind::EOF, pos: SpecPos { line: 1, col: 3 } },
            ])
        }),
{
    let input = seq![c1, c2];
    let st0 = init_state();
    assert(input[0] == c1 && input[1] == c2);
    lemma_lex_from_step(input, fname, st0);
    let st1 = step_punct(input, st0);
    match spec_combo(spec_punct(c1)->Some_0, spec_punct(c2)->Some_0) {
        Some(kc) => {
            lemma_lex_from_end(input, fname, st1);
            assert(lex_spec(input, fname).toks =~= seq![
                SpecToken { kind: kc, pos: SpecPos { line: 1, col: 1 } },
                SpecToken { kind: SpecTokenKind::EOF, pos: SpecPos { line: 1, col: 3 } },
            ]);
            assert(lex_spec(input, fname).errs =~= Seq::<SpecError<LexicalError>>::empty());
        },
        None => {
            lemma_lex_from_step(input, fname, st1);
            let st2 = step_punct(input, st1);
            lemma_lex_from_end(input, fname, st2);
            assert(lex_spec(input, fname).toks =~= seq![
                SpecToken { kind: spec_punct(c1)->Some_0, pos: SpecPos { line: 1, col: 1 } },
                SpecToken { kind: spec_punct(c2)->Some_0, pos: SpecPos { line: 1, col: 2 } },
                SpecToken { kind: SpecTokenKind::EOF, pos: SpecPos { line: 1, col: 3 } },
            ]);
            assert(lex_spec(input, fname).errs =~= Seq::<SpecError<LexicalError>>::empty());
        },
    }
}

/// Law: lexing an empty text yields a stream holding exactly the
/// end-of-stream token at line 1, column 1, and no error.
pub proof fn lemma_empty_input(fname: Seq<char>)
    ensures
        lex_spec(Seq::empty(), fname).toks == seq![
            SpecToken { kind: SpecTokenKind::EOF, pos: SpecPos { line: 1, col: 1 } },
        ],
        lex_spec(Seq::empty(), fname).errs == Seq::<SpecError<LexicalError>>::empty(),
{
    lemma_lex_from_end(Seq::empty(), fname, init_state());
    assert(lex_spec(Seq::empty(), fname).toks =~= seq![
        SpecToken { kind: SpecTokenKind::EOF, pos: SpecPos { line: 1, col: 1 } },
    ]);
    assert(lex_spec(Seq::empty(), fname).errs =~= Seq::<SpecError<LexicalError>>::empty());
}

} // verus!

