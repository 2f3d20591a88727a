//! The pipeline: source text through lexer, parser and evaluator.

use crate::evaluator::{sp_eval_program, spec_default_fuel, Evaluator, SpecState};
use crate::lexer::{spec_lex, Lexer};
use crate::object::{Object, SpecObject};
use crate::parser::{sp_parse, Parser};
use crate::token::Tokens;
use vstd::prelude::*;

verus! {

/// The outcome of running one piece of source text.
pub enum RunOutcome {
    LexFailure,
    ParseFailure,
    Value(Object),
}

/// The model of an outcome.
pub enum SpecRunOutcome {
    LexFailure,
    ParseFailure,
    Value(SpecObject),
}

impl View for RunOutcome {
    type V = SpecRunOutcome;

    open spec fn view(&self) -> SpecRunOutcome {
        match self {
            RunOutcome::LexFailure => SpecRunOutcome::LexFailure,
            RunOutcome::ParseFailure => SpecRunOutcome::ParseFailure,
            RunOutcome::Value(o) => SpecRunOutcome::Value(o@),
        }
    }
}

/// The model of the pipeline: lexing and parsing are all-or-nothing, and
/// a parsed program runs against the evaluator's top-level frame.
pub open spec fn sp_run(src: Seq<char>, st: SpecState) -> (SpecRunOutcome, SpecState) {
    match spec_lex(src, 0) {
        None => (SpecRunOutcome::LexFailure, st),
        Some(toks) => match sp_parse(toks) {
            None => (SpecRunOutcome::ParseFailure, st),
            Some(prog) => {
                let (v, st2) = sp_eval_program(prog, st, 0, spec_default_fuel());
                (SpecRunOutcome::Value(v), st2)
            },
        },
    }
}

/// Runs one piece of source text against the evaluator: exactly what
/// `sp_run` says, so a run is deterministic from the source and the
/// evaluator state.  The lines `print` produced accumulate in the
/// evaluator's output log.
pub fn run_source(ev: &mut Evaluator, source: &str) -> (r: RunOutcome)
    requires
        old(ev).inv(),
    ensures
        r@ == sp_run(source@, old(ev).st()).0,
        final(ev).st() == sp_run(source@, old(ev).st()).1,
        final(ev).inv(),
{
    match Lexer::lex_tokens(source) {
        None => RunOutcome::LexFailure,
        Some(toks) => {
            match Parser::parse_tokens(Tokens::new(toks)) {
                None => RunOutcome::ParseFailure,
                Some(prog) => RunOutcome::Value(ev.eval_program(prog)),
            }
        },
    }
}

} // verus!
