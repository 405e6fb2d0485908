//! The whole front end in one call: text to stack program, or the first
//! error of the first failing stage. Lexing failures prevent parsing, and
//! parsing failures prevent resolution; no stage yields a partial result.

use vstd::prelude::*;

use crate::ast::ParseError;
use crate::compile::{compile, instrs_view, spec_compile, EvalErr, EvalError, Instr, InstrS};
use crate::lexer::{lex, spec_lex, LexErr, LexError};
use crate::parser::{parse, sp_parse};

verus! {

/// A failure of any stage of the pipeline.
#[derive(Debug, Clone, PartialEq)]
pub enum CalcError {
    Lex(LexError),
    Parse(ParseError),
    Eval(EvalError),
}

/// Spec-level image of a [`CalcError`].
pub enum CalcErr {
    Lex(LexErr),
    Parse(ParseError),
    Eval(EvalErr),
}

impl View for CalcError {
    type V = CalcErr;

    open spec fn view(&self) -> CalcErr {
        match self {
            CalcError::Lex(e) => CalcErr::Lex(e@),
            CalcError::Parse(e) => CalcErr::Parse(*e),
            CalcError::Eval(e) => CalcErr::Eval(e@),
        }
    }
}

/// The stack program of an input text: lexing, then parsing, then resolution
/// and code generation, each stage short-circuiting on its first error.
pub open spec fn spec_analyze(s: Seq<char>) -> Result<Seq<InstrS>, CalcErr> {
    match spec_lex(s) {
        Err(e) => Err(CalcErr::Lex(e)),
        Ok(ts) => match sp_parse(ts) {
            Err(e) => Err(CalcErr::Parse(e)),
            Ok(ast) => match spec_compile(ast) {
                Err(e) => Err(CalcErr::Eval(e)),
                Ok(p) => Ok(p),
            },
        },
    }
}

/// Turn an input text into a stack program. Returns exactly what
/// [`spec_analyze`] says of the text — the same program on the same input, or
/// the same error — so two calls on equal inputs return equal results.
pub fn analyze(s: &str) -> (r: Result<Vec<Instr>, CalcError>)
    ensures
        match r {
            Ok(p) => spec_analyze(s@) == Ok::<Seq<InstrS>, CalcErr>(instrs_view(p@)),
            Err(e) => spec_analyze(s@) == Err::<Seq<InstrS>, CalcErr>(e@),
        },
{
    let toks = match lex(s) {
        Err(e) => {
            return Err(CalcError::Lex(e));
        },
        Ok(t) => t,
    };
    let ast = match parse(&toks) {
        Err(e) => {
            return Err(CalcError::Parse(e));
        },
        Ok(a) => a,
    };
    match compile(&ast) {
        Err(e) => Err(CalcError::Eval(e)),
        Ok(p) => Ok(p),
    }
}

} // verus!
