//! The expression tree a parse produces, and the parse error taxonomy.

use vstd::prelude::*;

verus! {

/// A binary operator of the expression grammar.
#[derive(Debug, Clone, Copy, PartialEq, Eq, Structural)]
pub enum BinOp {
    Add,
    Sub,
    Mul,
    Div,
    Pow,
}

/// An expression tree. No node is shared or mutated after construction.
#[derive(Debug, PartialEq)]
pub enum Expr {
    /// A numeric literal, carried as its source characters.
    Number(Vec<char>),
    /// An identifier not followed by `(`: a named constant reference.
    Constant(Vec<char>),
    /// Unary minus.
    Neg(Box<Expr>),
    /// A binary operation.
    Bin(BinOp, Box<Expr>, Box<Expr>),
    /// A function call with its ordered argument list.
    Call(Vec<char>, Args),
}

/// An ordered list of call arguments.
#[derive(Debug, PartialEq)]
pub enum Args {
    Nil,
    Cons(Box<Expr>, Box<Args>),
}

/// Spec-level image of an [`Expr`].
pub enum ExprS {
    Number(Seq<char>),
    Constant(Seq<char>),
    Neg(Box<ExprS>),
    Bin(BinOp, Box<ExprS>, Box<ExprS>),
    Call(Seq<char>, Box<ArgsS>),
}

/// Spec-level image of an [`Args`] list.
pub enum ArgsS {
    Nil,
    Cons(Box<ExprS>, Box<ArgsS>),
}

pub open spec fn expr_view(e: Expr) -> ExprS
    decreases e,
{
    match e {
        Expr::Number(t) => ExprS::Number(t@),
        Expr::Constant(t) => ExprS::Constant(t@),
        Expr::Neg(c) => ExprS::Neg(Box::new(expr_view(*c))),
        Expr::Bin(op, l, r) => ExprS::Bin(op, Box::new(expr_view(*l)), Box::new(expr_view(*r))),
        Expr::Call(name, args) => ExprS::Call(name@, Box::new(args_view(args))),
    }
}

pub open spec fn args_view(a: Args) -> ArgsS
    decreases a,
{
    match a {
        Args::Nil => ArgsS::Nil,
        Args::Cons(e, rest) => ArgsS::Cons(Box::new(expr_view(*e)), Box::new(args_view(*rest))),
    }
}

impl View for Expr {
    type V = ExprS;

    open spec fn view(&self) -> ExprS {
        expr_view(*self)
    }
}

impl View for Args {
    type V = ArgsS;

    open spec fn view(&self) -> ArgsS {
        args_view(*self)
    }
}

/// A parse failure.
#[derive(Debug, Clone, Copy, PartialEq, Eq, Structural)]
pub enum ParseError {
    /// An operand was expected and none can follow (end of input, or a token
    /// that cannot begin an operand).
    UnexpectedEnd,
    /// A group or argument list was opened and its closing parenthesis is
    /// missing.
    UnbalancedParens,
    /// Two operands stand side by side with no operator between them.
    ExpectedOperator,
    /// The expression ended but further tokens follow.
    TrailingInput,
    /// The expression nests deeper than the parser's fixed depth bound.
    TooDeep,
}

} // verus!
