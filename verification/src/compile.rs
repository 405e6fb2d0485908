//! Name resolution and code generation: an expression tree becomes a stack
//! program in post order, or fails with an evaluation error.
//!
//! The built-in table is fixed: the one-argument functions `sin, cos, tan,
//! sqrt, abs, ln, log, exp, floor, ceil, round` and the constants `pi` and
//! `e`. A constant reference or a call under any other name fails with
//! [`EvalError::UnknownIdentifier`]; a call of a known function with any other
//! number of arguments fails with [`EvalError::ArityMismatch`]. Arguments are
//! resolved bottom-up, before the name of the call around them.

use vstd::prelude::*;

use crate::ast::{args_view, expr_view, Args, ArgsS, BinOp, Expr, ExprS};
use crate::lexer::copy_chars;

verus! {

/// A built-in function; each takes exactly one argument.
#[derive(Debug, Clone, Copy, PartialEq, Eq, Structural)]
pub enum Func {
    Sin,
    Cos,
    Tan,
    Sqrt,
    Abs,
    Ln,
    Log,
    Exp,
    Floor,
    Ceil,
    Round,
}

/// A built-in constant.
#[derive(Debug, Clone, Copy, PartialEq, Eq, Structural)]
pub enum ConstName {
    Pi,
    E,
}

/// One instruction of a stack program. The pushes put a value on the stack;
/// [`Instr::Neg`] and [`Instr::Call`] replace the top value; [`Instr::Bin`]
/// replaces the top two values (the right operand uppermost) with one.
#[derive(Debug, Clone, PartialEq)]
pub enum Instr {
    /// Push the value of a numeric literal, carried as its source characters.
    PushNumber(Vec<char>),
    /// Push a built-in constant.
    PushConstant(ConstName),
    /// Negate the top of the stack.
    Neg,
    /// Apply a binary operator to the top two stack values.
    Bin(BinOp),
    /// Apply a built-in function to the top of the stack.
    Call(Func),
}

/// Spec-level image of an [`Instr`].
pub enum InstrS {
    PushNumber(Seq<char>),
    PushConstant(ConstName),
    Neg,
    Bin(BinOp),
    Call(Func),
}

impl View for Instr {
    type V = InstrS;

    open spec fn view(&self) -> InstrS {
        match self {
            Instr::PushNumber(t) => InstrS::PushNumber(t@),
            Instr::PushConstant(c) => InstrS::PushConstant(*c),
            Instr::Neg => InstrS::Neg,
            Instr::Bin(op) => InstrS::Bin(*op),
            Instr::Call(f) => InstrS::Call(*f),
        }
    }
}

/// The image of an instruction sequence under [`Instr::view`].
pub open spec fn instrs_view(v: Seq<Instr>) -> Seq<InstrS> {
    v.map_values(|i: Instr| i@)
}

/// An evaluation failure, found while resolving names against the built-in
/// table.
#[derive(Debug, Clone, PartialEq)]
pub enum EvalError {
    /// A constant reference or a call under a name the table does not hold.
    UnknownIdentifier(Vec<char>),
    /// A call of a known function under the wrong argument count: the name,
    /// the expected count and the count found.
    ArityMismatch(Vec<char>, usize, usize),
}

/// Spec-level image of an [`EvalError`].
pub enum EvalErr {
    UnknownIdentifier(Seq<char>),
    ArityMismatch(Seq<char>, int, int),
}

impl View for EvalError {
    type V = EvalErr;

    open spec fn view(&self) -> EvalErr {
        match self {
            EvalError::UnknownIdentifier(n) => EvalErr::UnknownIdentifier(n@),
            EvalError::ArityMismatch(n, e, g) => EvalErr::ArityMismatch(n@, *e as int, *g as int),
        }
    }
}

// ---------- the built-in table ----------

/// The built-in function a name stands for, if any.
pub open spec fn func_code(name: Seq<char>) -> Option<Func> {
    if name == "sin"@ {
        Some(Func::Sin)
    } else if name == "cos"@ {
        Some(Func::Cos)
    } else if name == "tan"@ {
        Some(Func::Tan)
    } else if name == "sqrt"@ {
        Some(Func::Sqrt)
    } else if name == "abs"@ {
        Some(Func::Abs)
    } else if name == "ln"@ {
        Some(Func::Ln)
    } else if name == "log"@ {
        Some(Func::Log)
    } else if name == "exp"@ {
        Some(Func::Exp)
    } else if name == "floor"@ {
        Some(Func::Floor)
    } else if name == "ceil"@ {
        Some(Func::Ceil)
    } else if name == "round"@ {
        Some(Func::Round)
    } else {
        None
    }
}

/// The built-in constant a name stands for, if any.
pub open spec fn const_code(name: Seq<char>) -> Option<ConstName> {
    if name == "pi"@ {
        Some(ConstName::Pi)
    } else if name == "e"@ {
        Some(ConstName::E)
    } else {
        None
    }
}

/// How many arguments a built-in function takes: every one takes one.
pub open spec fn arity(f: Func) -> int {
    1
}

/// The length of an argument list, saturating at `usize::MAX` so that the
/// count an error report carries always fits the machine.
pub open spec fn args_count(a: ArgsS) -> int
    decreases a,
{
    match a {
        ArgsS::Nil => 0,
        ArgsS::Cons(_, rest) => if args_count(*rest) >= usize::MAX {
            usize::MAX as int
        } else {
            args_count(*rest) + 1
        },
    }
}

/// The stack program an expression resolves and compiles to: its post-order
/// traversal over the built-in table, or the first evaluation error, children
/// before parents, a call's arguments before its name.
pub open spec fn spec_compile(e: ExprS) -> Result<Seq<InstrS>, EvalErr>
    decreases e,
{
    match e {
        ExprS::Number(t) => Ok(seq![InstrS::PushNumber(t)]),
        ExprS::Constant(name) => match const_code(name) {
            Some(c) => Ok(seq![InstrS::PushConstant(c)]),
            None => Err(EvalErr::UnknownIdentifier(name)),
        },
        ExprS::Neg(c) => match spec_compile(*c) {
            Err(er) => Err(er),
            Ok(p) => Ok(p + seq![InstrS::Neg]),
        },
        ExprS::Bin(op, l, r) => match spec_compile(*l) {
            Err(er) => Err(er),
            Ok(pl) => match spec_compile(*r) {
                Err(er) => Err(er),
                Ok(pr) => Ok(pl + pr + seq![InstrS::Bin(op)]),
            },
        },
        ExprS::Call(name, args) => match spec_compile_args(*args) {
            Err(er) => Err(er),
            Ok(pa) => match func_code(name) {
                None => Err(EvalErr::UnknownIdentifier(name)),
                Some(f) => if args_count(*args) == arity(f) {
                    Ok(pa + seq![InstrS::Call(f)])
                } else {
                    Err(EvalErr::ArityMismatch(name, arity(f), args_count(*args)))
                },
            },
        },
    }
}

/// The concatenated programs of an argument list, in order.
pub open spec fn spec_compile_args(a: ArgsS) -> Result<Seq<InstrS>, EvalErr>
    decreases a,
{
    match a {
        ArgsS::Nil => Ok(Seq::<InstrS>::empty()),
        ArgsS::Cons(e, rest) => match spec_compile(*e) {
            Err(er) => Err(er),
            Ok(pe) => match spec_compile_args(*rest) {
                Err(er) => Err(er),
                Ok(pr) => Ok(pe + pr),
            },
        },
    }
}

// ---------- executable resolution ----------

/// Whether a character vector holds exactly the characters of `s`.
fn chars_eq(v: &Vec<char>, s: &str) -> (b: bool)
    ensures
        b == (v@ == s@),
{
    let n = s.unicode_len();
    if v.len() != n {
        return false;
    }
    let mut i: usize = 0;
    while i < n
        invariant
            i <= n,
            n == s@.len(),
            v@.len() == n,
            forall|j: int| 0 <= j < i ==> v@[j] == s@[j],
        decreases n - i,
    {
        if v[i] != s.get_char(i) {
            return false;
        }
        i = i + 1;
    }
    proof {
        assert(v@ =~= s@);
    }
    true
}

fn lookup_func(name: &Vec<char>) -> (r: Option<Func>)
    ensures
        r == func_code(name@),
{
    if chars_eq(name, "sin") {
        Some(Func::Sin)
    } else if chars_eq(name, "cos") {
        Some(Func::Cos)
    } else if chars_eq(name, "tan") {
        Some(Func::Tan)
    } else if chars_eq(name, "sqrt") {
        Some(Func::Sqrt)
    } else if chars_eq(name, "abs") {
        Some(Func::Abs)
    } else if chars_eq(name, "ln") {
        Some(Func::Ln)
    } else if chars_eq(name, "log") {
        Some(Func::Log)
    } else if chars_eq(name, "exp") {
        Some(Func::Exp)
    } else if chars_eq(name, "floor") {
        Some(Func::Floor)
    } else if chars_eq(name, "ceil") {
        Some(Func::Ceil)
    } else if chars_eq(name, "round") {
        Some(Func::Round)
    } else {
        None
    }
}

fn lookup_const(name: &Vec<char>) -> (r: Option<ConstName>)
    ensures
        r == const_code(name@),
{
    if chars_eq(name, "pi") {
        Some(ConstName::Pi)
    } else if chars_eq(name, "e") {
        Some(ConstName::E)
    } else {
        None
    }
}

fn count_args(a: &Args) -> (n: usize)
    ensures
        n as int == args_count(a@),
    decreases *a,
{
    match a {
        Args::Nil => 0,
        Args::Cons(_, rest) => {
            let m = count_args(rest);
            if m == usize::MAX {
                m
            } else {
                m + 1
            }
        },
    }
}

/// Resolve and compile a whole expression tree. Returns exactly what
/// [`spec_compile`] says of the tree: the same program, or the same first
/// error, case by case.
pub fn compile(e: &Expr) -> (r: Result<Vec<Instr>, EvalError>)
    ensures
        match r {
            Ok(p) => spec_compile(e@) == Ok::<Seq<InstrS>, EvalErr>(instrs_view(p@)),
            Err(er) => spec_compile(e@) == Err::<Seq<InstrS>, EvalErr>(er@),
        },
    decreases *e,
{
    match e {
        Expr::Number(t) => {
            let mut p: Vec<Instr> = Vec::new();
            p.push(Instr::PushNumber(copy_chars(t)));
            proof {
                assert(instrs_view(p@) =~= seq![InstrS::PushNumber(t@)]);
            }
            Ok(p)
        },
        Expr::Constant(name) => match lookup_const(name) {
            Some(c) => {
                let mut p: Vec<Instr> = Vec::new();
                p.push(Instr::PushConstant(c));
                proof {
                    assert(instrs_view(p@) =~= seq![InstrS::PushConstant(c)]);
                }
                Ok(p)
            },
            None => Err(EvalError::UnknownIdentifier(copy_chars(name))),
        },
        Expr::Neg(c) => match compile(c) {
            Err(er) => Err(er),
            Ok(mut p) => {
                let ghost base = instrs_view(p@);
                p.push(Instr::Neg);
                proof {
                    assert(instrs_view(p@) =~= base + seq![InstrS::Neg]);
                }
                Ok(p)
            },
        },
        Expr::Bin(op, l, r) => match compile(l) {
            Err(er) => Err(er),
            Ok(mut pl) => match compile(r) {
                Err(er) => Err(er),
                Ok(mut pr) => {
                    let ghost bl = instrs_view(pl@);
                    let ghost br = instrs_view(pr@);
                    pl.append(&mut pr);
                    pl.push(Instr::Bin(*op));
                    proof {
                        assert(instrs_view(pl@) =~= bl + br + seq![InstrS::Bin(*op)]);
                    }
                    Ok(pl)
                },
            },
        },
        Expr::Call(name, args) => match compile_args(args) {
            Err(er) => Err(er),
            Ok(mut pa) => match lookup_func(name) {
                None => Err(EvalError::UnknownIdentifier(copy_chars(name))),
                Some(f) => {
                    let cnt = count_args(args);
                    if cnt == 1 {
                        let ghost base = instrs_view(pa@);
                        pa.push(Instr::Call(f));
                        proof {
                            assert(instrs_view(pa@) =~= base + seq![InstrS::Call(f)]);
                        }
                        Ok(pa)
                    } else {
                        Err(EvalError::ArityMismatch(copy_chars(name), 1, cnt))
                    }
                },
            },
        },
    }
}

fn compile_args(a: &Args) -> (r: Result<Vec<Instr>, EvalError>)
    ensures
        match r {
            Ok(p) => spec_compile_args(a@) == Ok::<Seq<InstrS>, EvalErr>(instrs_view(p@)),
            Err(er) => spec_compile_args(a@) == Err::<Seq<InstrS>, EvalErr>(er@),
        },
    decreases *a,
{
    match a {
        Args::Nil => {
            let p: Vec<Instr> = Vec::new();
            proof {
                assert(instrs_view(p@) =~= Seq::<InstrS>::empty());
            }
            Ok(p)
        },
        Args::Cons(e, rest) => match compile(e) {
            Err(er) => Err(er),
            Ok(mut pe) => match compile_args(rest) {
                Err(er) => Err(er),
                Ok(mut pr) => {
                    let ghost be = instrs_view(pe@);
                    let ghost br = instrs_view(pr@);
                    pe.append(&mut pr);
                    proof {
                        assert(instrs_view(pe@) =~= be + br);
                    }
                    Ok(pe)
                },
            },
        },
    }
}

} // verus!
