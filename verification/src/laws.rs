//! Laws of the compiled programs.
//!
//! [`lemma_compile_correct`] is the central statement: a program that
//! [`spec_compile`] emits, run by the symbolic stack machine on any starting
//! stack, pushes exactly the resolved term of the source expression. Any
//! interpreter that treats the instructions compositionally therefore
//! computes the expression itself, bottom-up — the order and grouping the
//! parser chose are preserved instruction by instruction. And compilation
//! succeeds exactly where resolution against the built-in table does.
//!
//! [`lemma_literal_program`] is the front end's round trip for literals: a
//! well-formed numeric literal compiles to the single instruction that pushes
//! that literal, unchanged.

use vstd::prelude::*;

use crate::ast::{ArgsS, BinOp, ExprS, ParseError};
use crate::compile::{
    args_count, arity, const_code, func_code, spec_compile, spec_compile_args, ConstName, EvalErr,
    Func, InstrS,
};
use crate::lexer::{bump, is_number_literal, spec_lex, spec_lex_from, Tok};
use crate::parser::{
    sp_expr, sp_expr_rest, sp_parse, sp_power, sp_primary, sp_term, sp_term_rest, sp_unary,
    DEPTH_LIMIT,
};
use crate::pipeline::{spec_analyze, CalcErr};

verus! {

/// An expression whose names are resolved against the built-in table.
pub enum TermS {
    Number(Seq<char>),
    Constant(ConstName),
    Neg(Box<TermS>),
    Bin(BinOp, Box<TermS>, Box<TermS>),
    App(Func, Box<TermS>),
}

/// What an expression means over the built-in table: its resolved term, or
/// the first evaluation error, arguments before the name of the call around
/// them.
pub open spec fn resolve(e: ExprS) -> Result<TermS, EvalErr>
    decreases e,
{
    match e {
        ExprS::Number(t) => Ok(TermS::Number(t)),
        ExprS::Constant(name) => match const_code(name) {
            Some(c) => Ok(TermS::Constant(c)),
            None => Err(EvalErr::UnknownIdentifier(name)),
        },
        ExprS::Neg(c) => match resolve(*c) {
            Err(er) => Err(er),
            Ok(t) => Ok(TermS::Neg(Box::new(t))),
        },
        ExprS::Bin(op, l, r) => match resolve(*l) {
            Err(er) => Err(er),
            Ok(tl) => match resolve(*r) {
                Err(er) => Err(er),
                Ok(tr) => Ok(TermS::Bin(op, Box::new(tl), Box::new(tr))),
            },
        },
        ExprS::Call(name, args) => match resolve_args(*args) {
            Err(er) => Err(er),
            Ok(ts) => match func_code(name) {
                None => Err(EvalErr::UnknownIdentifier(name)),
                Some(f) => if args_count(*args) == arity(f) {
                    Ok(TermS::App(f, Box::new(ts[0])))
                } else {
                    Err(EvalErr::ArityMismatch(name, arity(f), args_count(*args)))
                },
            },
        },
    }
}

/// The resolved terms of an argument list, in order.
pub open spec fn resolve_args(a: ArgsS) -> Result<Seq<TermS>, EvalErr>
    decreases a,
{
    match a {
        ArgsS::Nil => Ok(Seq::<TermS>::empty()),
        ArgsS::Cons(e, rest) => match resolve(*e) {
            Err(er) => Err(er),
            Ok(t) => match resolve_args(*rest) {
                Err(er) => Err(er),
                Ok(ts) => Ok(seq![t] + ts),
            },
        },
    }
}

/// One instruction of the symbolic stack machine: pushes push the matching
/// leaf term; the rest pop their operands and push the term built of them.
/// `None` marks stack underflow.
pub open spec fn step_symbolic(i: InstrS, st: Seq<TermS>) -> Option<Seq<TermS>> {
    match i {
        InstrS::PushNumber(t) => Some(st.push(TermS::Number(t))),
        InstrS::PushConstant(c) => Some(st.push(TermS::Constant(c))),
        InstrS::Neg => if st.len() >= 1 {
            Some(st.take(st.len() - 1).push(TermS::Neg(Box::new(st.last()))))
        } else {
            None
        },
        InstrS::Bin(op) => if st.len() >= 2 {
            Some(
                st.take(st.len() - 2).push(
                    TermS::Bin(op, Box::new(st[st.len() - 2]), Box::new(st.last())),
                ),
            )
        } else {
            None
        },
        InstrS::Call(f) => if st.len() >= 1 {
            Some(st.take(st.len() - 1).push(TermS::App(f, Box::new(st.last()))))
        } else {
            None
        },
    }
}

/// The symbolic stack machine, run over a whole program.
pub open spec fn run_symbolic(p: Seq<InstrS>, st: Seq<TermS>) -> Option<Seq<TermS>>
    decreases p.len(),
{
    if p.len() == 0 {
        Some(st)
    } else {
        match step_symbolic(p[0], st) {
            None => None,
            Some(st2) => run_symbolic(p.skip(1), st2),
        }
    }
}

/// Running a concatenation runs the parts in order.
pub proof fn lemma_run_append(p1: Seq<InstrS>, p2: Seq<InstrS>, st: Seq<TermS>)
    ensures
        run_symbolic(p1 + p2, st) == (match run_symbolic(p1, st) {
            None => None::<Seq<TermS>>,
            Some(m) => run_symbolic(p2, m),
        }),
    decreases p1.len(),
{
    if p1.len() == 0 {
        assert(p1 + p2 =~= p2);
    } else {
        assert((p1 + p2)[0] == p1[0]);
        match step_symbolic(p1[0], st) {
            None => {
                assert((p1 + p2).len() > 0);
            },
            Some(st2) => {
                assert((p1 + p2).skip(1) =~= p1.skip(1) + p2);
                lemma_run_append(p1.skip(1), p2, st2);
            },
        }
    }
}

/// Running a single instruction is one step of the machine.
proof fn lemma_run_one(i: InstrS, st: Seq<TermS>)
    ensures
        run_symbolic(seq![i], st) == step_symbolic(i, st),
{
    assert(seq![i].len() == 1);
    assert(seq![i][0] == i);
    assert(seq![i].skip(1) =~= Seq::<InstrS>::empty());
    match step_symbolic(i, st) {
        None => {},
        Some(st2) => {
            assert(run_symbolic(seq![i].skip(1), st2) == Some(st2));
        },
    }
}

/// Law: compilation succeeds exactly where resolution does, with the same
/// error where both fail; and the compiled program, run on any stack, pushes
/// exactly the resolved term of the expression.
pub proof fn lemma_compile_correct(e: ExprS, st: Seq<TermS>)
    ensures
        match spec_compile(e) {
            Ok(p) => resolve(e) is Ok && run_symbolic(p, st) == Some(
                st.push(resolve(e)->Ok_0),
            ),
            Err(er) => resolve(e) == Err::<TermS, EvalErr>(er),
        },
    decreases e,
{
    match e {
        ExprS::Number(t) => {
            lemma_run_one(InstrS::PushNumber(t), st);
        },
        ExprS::Constant(name) => {
            match const_code(name) {
                Some(c) => {
                    lemma_run_one(InstrS::PushConstant(c), st);
                },
                None => {},
            }
        },
        ExprS::Neg(c) => {
            lemma_compile_correct(*c, st);
            match spec_compile(*c) {
                Err(_) => {},
                Ok(pc) => {
                    let tc = resolve(*c)->Ok_0;
                    lemma_run_append(pc, seq![InstrS::Neg], st);
                    lemma_run_one(InstrS::Neg, st.push(tc));
                    let m = st.push(tc);
                    assert(m.take(m.len() - 1) =~= st);
                    assert(m.last() == tc);
                },
            }
        },
        ExprS::Bin(op, l, r) => {
            lemma_compile_correct(*l, st);
            match spec_compile(*l) {
                Err(_) => {},
                Ok(pl) => {
                    let tl = resolve(*l)->Ok_0;
                    lemma_compile_correct(*r, st.push(tl));
                    match spec_compile(*r) {
                        Err(_) => {},
                        Ok(pr) => {
                            let tr = resolve(*r)->Ok_0;
                            lemma_run_append(pl + pr, seq![InstrS::Bin(op)], st);
                            lemma_run_append(pl, pr, st);
                            let m = st.push(tl).push(tr);
                            lemma_run_one(InstrS::Bin(op), m);
                            assert(m.take(m.len() - 2) =~= st);
                            assert(m[m.len() - 2] == tl);
                            assert(m.last() == tr);
                        },
                    }
                },
            }
        },
        ExprS::Call(name, args) => {
            lemma_compile_args_correct(*args, st);
            match spec_compile_args(*args) {
                Err(_) => {},
                Ok(pa) => {
                    match func_code(name) {
                        None => {},
                        Some(f) => {
                            if args_count(*args) == arity(f) {
                                let ts = resolve_args(*args)->Ok_0;
                                assert(ts.len() == 1);
                                lemma_run_append(pa, seq![InstrS::Call(f)], st);
                                let m = st + ts;
                                lemma_run_one(InstrS::Call(f), m);
                                assert(m.take(m.len() - 1) =~= st);
                                assert(m.last() == ts[0]);
                                assert(st.push(TermS::App(f, Box::new(ts[0]))) =~= m.take(
                                    m.len() - 1,
                                ).push(TermS::App(f, Box::new(m.last()))));
                            }
                        },
                    }
                },
            }
        },
    }
}

/// Law, for argument lists: the concatenated argument programs, run on any
/// stack, push exactly the resolved terms of the arguments, in order; and the
/// resolved list is as long as the argument list wherever the count does not
/// saturate.
pub proof fn lemma_compile_args_correct(a: ArgsS, st: Seq<TermS>)
    ensures
        match spec_compile_args(a) {
            Ok(pa) => resolve_args(a) is Ok && (args_count(a) < usize::MAX
                ==> resolve_args(a)->Ok_0.len() == args_count(a)) && run_symbolic(pa, st)
                == Some(st + resolve_args(a)->Ok_0),
            Err(er) => resolve_args(a) == Err::<Seq<TermS>, EvalErr>(er),
        },
    decreases a,
{
    match a {
        ArgsS::Nil => {
            assert(st + Seq::<TermS>::empty() =~= st);
        },
        ArgsS::Cons(e, rest) => {
            lemma_compile_correct(*e, st);
            match spec_compile(*e) {
                Err(_) => {},
                Ok(pe) => {
                    let te = resolve(*e)->Ok_0;
                    lemma_compile_args_correct(*rest, st.push(te));
                    match spec_compile_args(*rest) {
                        Err(_) => {},
                        Ok(pr) => {
                            let ts = resolve_args(*rest)->Ok_0;
                            lemma_run_append(pe, pr, st);
                            assert(st.push(te) + ts =~= st + (seq![te] + ts));
                        },
                    }
                },
            }
        },
    }
}

/// Law: every program the pipeline emits runs to completion on the symbolic
/// machine from an empty stack and leaves exactly one term on it — no
/// instruction underflows, and exactly one result stands at the end. An
/// interpreter of the instructions can therefore pop unconditionally and
/// return the one value that remains.
pub proof fn lemma_analyzed_program_is_balanced(s: Seq<char>)
    ensures
        match spec_analyze(s) {
            Ok(p) => exists|t: TermS| run_symbolic(p, Seq::empty()) == Some(seq![t]),
            Err(_) => true,
        },
{
    match spec_lex(s) {
        Err(_) => {},
        Ok(ts) => match sp_parse(ts) {
            Err(_) => {},
            Ok(ast) => match spec_compile(ast) {
                Err(_) => {},
                Ok(p) => {
                    lemma_compile_correct(ast, Seq::empty());
                    let t = resolve(ast)->Ok_0;
                    assert(Seq::<TermS>::empty().push(t) =~= seq![t]);
                    assert(run_symbolic(p, Seq::empty()) == Some(seq![t]));
                },
            },
        },
    }
}

/// Law: a well-formed numeric literal passes the whole front end unchanged —
/// its program is the single instruction that pushes the literal itself, so
/// an interpreter of the program returns exactly the value the literal's own
/// characters denote.
pub proof fn lemma_literal_program(s: Seq<char>)
    requires
        is_number_literal(s),
    ensures
        spec_analyze(s) == Ok::<Seq<InstrS>, CalcErr>(seq![InstrS::PushNumber(s)]),
{
    let len = s.len() as int;
    reveal_with_fuel(spec_lex_from, 2);
    assert(bump(0, len, len) == len);
    assert(spec_lex_from(s, len) == Ok::<Seq<Tok>, crate::lexer::LexErr>(seq![Tok::EndOfInput]));
    assert(s.subrange(0, len) =~= s);
    let ts = seq![Tok::Number(s), Tok::EndOfInput];
    assert(seq![Tok::Number(s.subrange(0, len))] + seq![Tok::EndOfInput] =~= ts);
    assert(spec_lex(s) == Ok::<Seq<Tok>, crate::lexer::LexErr>(ts));
    let d = DEPTH_LIMIT as int;
    assert(ts.len() == 2);
    assert(ts[0] == Tok::Number(s));
    assert(ts[1] == Tok::EndOfInput);
    assert(sp_primary(ts, 0, d - 2) == Ok::<(ExprS, int), ParseError>((ExprS::Number(s), 1)));
    assert(sp_power(ts, 0, d - 2) == Ok::<(ExprS, int), ParseError>((ExprS::Number(s), 1)));
    assert(sp_unary(ts, 0, d - 1) == Ok::<(ExprS, int), ParseError>((ExprS::Number(s), 1)));
    assert(bump(0, 1, 2) == 1);
    assert(sp_term_rest(ts, 1, ExprS::Number(s), d - 1) == Ok::<(ExprS, int), ParseError>(
        (ExprS::Number(s), 1),
    ));
    assert(sp_term(ts, 0, d - 1) == Ok::<(ExprS, int), ParseError>((ExprS::Number(s), 1)));
    assert(sp_expr_rest(ts, 1, ExprS::Number(s), d - 1) == Ok::<(ExprS, int), ParseError>(
        (ExprS::Number(s), 1),
    ));
    assert(sp_expr(ts, 0, d) == Ok::<(ExprS, int), ParseError>((ExprS::Number(s), 1)));
    assert(sp_parse(ts) == Ok::<ExprS, ParseError>(ExprS::Number(s)));
    assert(spec_compile(ExprS::Number(s)) == Ok::<Seq<InstrS>, EvalErr>(
        seq![InstrS::PushNumber(s)],
    ));
}

} // verus!
