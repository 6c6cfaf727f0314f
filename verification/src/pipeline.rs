//! The pipeline: lex, tokenize, evaluate, link. An `import` found while
//! tokenizing is handed back to the caller, who reads and lexes the imported
//! file and resumes; type checking and interpretation are separate passes
//! over the linked result.

use vstd::prelude::*;

use crate::diag::{Diag, DiagV};
use crate::evaluator::{eval_spec, evaluate_tokens};
use crate::lexer::{lex_spec, parse_lines_into_words, Word, WordV};
use crate::linker::{link_spec, link_tokens, LinkerContext, LinkerContextV};
use crate::tokenizer::{
    parse_words_into_tokens, resume_tokenize, tok_from, tok_matches, tok_spec, ParserContextV,
    TokenizeOutcome, TokenizeState, TokOutcomeV,
};

verus! {

/// What one pipeline run yields: a linked program, a pending `import`, or
/// the first diagnostic.
pub ghost enum ParseResV {
    Program(LinkerContextV),
    Import { ctx: ParserContextV, rest: Seq<WordV>, word: WordV, path: Seq<char> },
    Fail(DiagV),
}

/// The stages after tokenizing: evaluate, then link.
pub open spec fn after_tokens(t: TokOutcomeV) -> ParseResV {
    match t {
        TokOutcomeV::Fail(d) => ParseResV::Fail(d),
        TokOutcomeV::Import { ctx, rest, word, path } => ParseResV::Import {
            ctx,
            rest,
            word,
            path,
        },
        TokOutcomeV::Done(pc) => match eval_spec(pc) {
            Err(d) => ParseResV::Fail(d),
            Ok(pc2) => match link_spec(pc2) {
                Err(d) => ParseResV::Fail(d),
                Ok(lc) => ParseResV::Program(lc),
            },
        },
    }
}

/// What the whole pipeline yields on a file's lines.
pub open spec fn parse_program_spec(file: Seq<char>, lines: Seq<Seq<char>>) -> ParseResV {
    match lex_spec(file, lines) {
        Err(d) => ParseResV::Fail(d),
        Ok(ws) => after_tokens(tok_spec(ws)),
    }
}

/// The result of one pipeline run.
pub enum ParseOutcome {
    /// The linked program.
    Program(LinkerContext),
    /// An `import` was found: the state to resume from, the path's word,
    /// and the path. Lex the imported file and resume with
    /// [`resume_program`].
    Import(TokenizeState, Word, String),
    /// A diagnostic.
    Fail(Diag),
}

/// Relates an executable outcome to the specification's.
pub open spec fn parse_matches(r: ParseOutcome, s: ParseResV) -> bool {
    match r {
        ParseOutcome::Program(lc) => s == ParseResV::Program(lc.deep_view()),
        ParseOutcome::Import(st, w, p) => s == (ParseResV::Import {
            ctx: st.ctx.deep_view(),
            rest: st.pending.deep_view(),
            word: w.deep_view(),
            path: p@,
        }),
        ParseOutcome::Fail(d) => s == ParseResV::Fail(d.deep_view()),
    }
}

/// Runs the stages after tokenizing.
fn tokens_onward(t: TokenizeOutcome, Ghost(sv): Ghost<TokOutcomeV>) -> (r: ParseOutcome)
    requires
        tok_matches(t, sv),
    ensures
        parse_matches(r, after_tokens(sv)),
{
    match t {
        TokenizeOutcome::Fail(d) => ParseOutcome::Fail(d),
        TokenizeOutcome::Import(st, w, p) => ParseOutcome::Import(st, w, p),
        TokenizeOutcome::Done(pc) => {
            let mut pc = pc;
            match evaluate_tokens(&mut pc) {
                Err(d) => ParseOutcome::Fail(d),
                Ok(_) => match link_tokens(pc) {
                    Err(d) => ParseOutcome::Fail(d),
                    Ok(lc) => ParseOutcome::Program(lc),
                },
            }
        },
    }
}

/// Runs the pipeline on a file's lines: lex, tokenize, evaluate, link.
pub fn parse_program(file: String, lines: Vec<String>) -> (r: ParseOutcome)
    requires
        lines@.len() <= u32::MAX as int,
        forall|i: int| 0 <= i < lines@.len() ==> (#[trigger] lines@[i])@.len() <= u32::MAX as int,
    ensures
        parse_matches(r, parse_program_spec(file@, lines.deep_view())),
{
    let ghost filev = file@;
    let ghost linesv = lines.deep_view();
    match parse_lines_into_words(file, lines) {
        Err(d) => ParseOutcome::Fail(d),
        Ok(words) => {
            let ghost sv = tok_spec(lex_spec(filev, linesv)->Ok_0);
            let t = parse_words_into_tokens(words);
            tokens_onward(t, Ghost(sv))
        },
    }
}

/// Resumes the pipeline after an `import`: the imported file's words are
/// spliced in front of the words that followed the import.
pub fn resume_program(state: TokenizeState, imported: Vec<Word>) -> (r: ParseOutcome)
    ensures
        parse_matches(
            r,
            after_tokens(
                tok_from(
                    state.ctx.deep_view(),
                    imported.deep_view() + state.pending.deep_view(),
                    0,
                ),
            ),
        ),
{
    let ghost sv = tok_from(
        state.ctx.deep_view(),
        imported.deep_view() + state.pending.deep_view(),
        0,
    );
    let t = resume_tokenize(state, imported);
    tokens_onward(t, Ghost(sv))
}

} // verus!
