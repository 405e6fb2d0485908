//! Recursive-descent parsing of the token sequence into one expression tree.
//!
//! Grammar, precedence low to high:
//! addition/subtraction, multiplication/division, unary minus, exponentiation
//! (right-associative), primary (number, constant, function call, or a
//! parenthesized expression). Unary minus binds tighter than the additive
//! operators but looser than `^`.
//!
//! Each executable parsing function is pinned exactly to a spec-level parsing
//! function of the tokens; the public entry point [`parse`] returns exactly
//! what [`sp_parse`] says.

use vstd::prelude::*;

use crate::ast::{Args, ArgsS, BinOp, Expr, ExprS, ParseError};
use crate::lexer::{bump, copy_chars, toks_view, Tok, Token};

verus! {

/// How deep the grammar may nest. Entering an additive expression or a unary
/// operand consumes one unit of this budget, so at least 256 nested
/// parenthesis or operator levels are accepted; an expression that exhausts
/// the budget is rejected with [`ParseError::TooDeep`] instead of overflowing
/// the call stack.
pub const DEPTH_LIMIT: u32 = 1024;

/// Whether a token can begin an operand. Two operands side by side (such as
/// `3 4`) are reported as [`ParseError::ExpectedOperator`].
pub open spec fn is_operand_start(t: Tok) -> bool {
    match t {
        Tok::Number(_) => true,
        Tok::Identifier(_) => true,
        Tok::LeftParen => true,
        _ => false,
    }
}

/// What follows a parsed group once its inner expression ends at `p`:
/// the closing parenthesis, or the error that stands in its place.
pub open spec fn sp_close_group(ts: Seq<Tok>, p: int, e: ExprS) -> Result<
    (ExprS, int),
    ParseError,
> {
    if 0 <= p && p < ts.len() {
        match ts[p] {
            Tok::RightParen => Ok((e, p + 1)),
            Tok::EndOfInput => Err(ParseError::UnbalancedParens),
            t => if is_operand_start(t) {
                Err(ParseError::ExpectedOperator)
            } else {
                Err(ParseError::UnbalancedParens)
            },
        }
    } else {
        Err(ParseError::UnbalancedParens)
    }
}

/// What follows a parsed argument list once it ends at `p`: the closing
/// parenthesis of the call, or the error that stands in its place.
pub open spec fn sp_close_call(ts: Seq<Tok>, p: int, name: Seq<char>, args: ArgsS) -> Result<
    (ExprS, int),
    ParseError,
> {
    if 0 <= p && p < ts.len() {
        match ts[p] {
            Tok::RightParen => Ok((ExprS::Call(name, Box::new(args)), p + 1)),
            Tok::EndOfInput => Err(ParseError::UnbalancedParens),
            t => if is_operand_start(t) {
                Err(ParseError::ExpectedOperator)
            } else {
                Err(ParseError::UnbalancedParens)
            },
        }
    } else {
        Err(ParseError::UnbalancedParens)
    }
}

/// Primary: a number, an identifier (a call when `(` follows, a constant
/// otherwise), or a parenthesized expression.
pub open spec fn sp_primary(ts: Seq<Tok>, pos: int, depth: int) -> Result<(ExprS, int), ParseError>
    decreases ts.len() - pos, 0int,
{
    if !(0 <= pos && pos < ts.len()) {
        Err(ParseError::UnexpectedEnd)
    } else {
        match ts[pos] {
            Tok::Number(t) => Ok((ExprS::Number(t), pos + 1)),
            Tok::Identifier(name) => {
                if pos + 1 < ts.len() && ts[pos + 1] is LeftParen {
                    if pos + 2 < ts.len() && ts[pos + 2] is RightParen {
                        Ok((ExprS::Call(name, Box::new(ArgsS::Nil)), pos + 3))
                    } else {
                        match sp_args(ts, pos + 2, depth) {
                            Err(e) => Err(e),
                            Ok((args, p)) => sp_close_call(ts, p, name, args),
                        }
                    }
                } else {
                    Ok((ExprS::Constant(name), pos + 1))
                }
            },
            Tok::LeftParen => match sp_expr(ts, pos + 1, depth) {
                Err(e) => Err(e),
                Ok((e, p)) => sp_close_group(ts, p, e),
            },
            _ => Err(ParseError::UnexpectedEnd),
        }
    }
}

/// Exponentiation, right-associative: `primary ^ unary`, so `2^3^2` is
/// `2^(3^2)` and `2^-3` is accepted.
pub open spec fn sp_power(ts: Seq<Tok>, pos: int, depth: int) -> Result<(ExprS, int), ParseError>
    decreases ts.len() - pos, 1int,
{
    if !(0 <= pos && pos < ts.len()) {
        Err(ParseError::UnexpectedEnd)
    } else {
        match sp_primary(ts, pos, depth) {
            Err(e) => Err(e),
            Ok((base, p)) => {
                if 0 <= p && p < ts.len() && ts[p] is Caret {
                    match sp_unary(ts, bump(pos, p + 1, ts.len() as int), depth) {
                        Err(e) => Err(e),
                        Ok((rhs, p2)) => Ok(
                            (ExprS::Bin(BinOp::Pow, Box::new(base), Box::new(rhs)), p2),
                        ),
                    }
                } else {
                    Ok((base, p))
                }
            },
        }
    }
}

/// Unary minus: `- unary`, or a power. Binds looser than `^`, so `-2^2` is
/// `-(2^2)`.
pub open spec fn sp_unary(ts: Seq<Tok>, pos: int, depth: int) -> Result<(ExprS, int), ParseError>
    decreases ts.len() - pos, 2int,
{
    if !(0 <= pos && pos < ts.len()) {
        Err(ParseError::UnexpectedEnd)
    } else if depth <= 0 {
        Err(ParseError::TooDeep)
    } else if ts[pos] is Minus {
        match sp_unary(ts, pos + 1, depth - 1) {
            Err(e) => Err(e),
            Ok((e, p)) => Ok((ExprS::Neg(Box::new(e)), p)),
        }
    } else {
        sp_power(ts, pos, depth - 1)
    }
}

/// The multiplicative operators that may continue a term at `pos`,
/// left-associatively, with `acc` the tree parsed so far.
pub open spec fn sp_term_rest(ts: Seq<Tok>, pos: int, acc: ExprS, depth: int) -> Result<
    (ExprS, int),
    ParseError,
>
    decreases ts.len() - pos, 0int,
{
    if !(0 <= pos && pos < ts.len()) {
        Ok((acc, pos))
    } else if ts[pos] is Star {
        match sp_unary(ts, pos + 1, depth) {
            Err(e) => Err(e),
            Ok((e2, p2)) => sp_term_rest(
                ts,
                bump(pos, p2, ts.len() as int),
                ExprS::Bin(BinOp::Mul, Box::new(acc), Box::new(e2)),
                depth,
            ),
        }
    } else if ts[pos] is Slash {
        match sp_unary(ts, pos + 1, depth) {
            Err(e) => Err(e),
            Ok((e2, p2)) => sp_term_rest(
                ts,
                bump(pos, p2, ts.len() as int),
                ExprS::Bin(BinOp::Div, Box::new(acc), Box::new(e2)),
                depth,
            ),
        }
    } else {
        Ok((acc, pos))
    }
}

/// Term: unary operands joined by `*` and `/`, left-associative.
pub open spec fn sp_term(ts: Seq<Tok>, pos: int, depth: int) -> Result<(ExprS, int), ParseError>
    decreases ts.len() - pos, 3int,
{
    if !(0 <= pos && pos < ts.len()) {
        Err(ParseError::UnexpectedEnd)
    } else {
        match sp_unary(ts, pos, depth) {
            Err(e) => Err(e),
            Ok((e1, p1)) => sp_term_rest(ts, bump(pos, p1, ts.len() as int), e1, depth),
        }
    }
}

/// The additive operators that may continue an expression at `pos`,
/// left-associatively, with `acc` the tree parsed so far.
pub open spec fn sp_expr_rest(ts: Seq<Tok>, pos: int, acc: ExprS, depth: int) -> Result<
    (ExprS, int),
    ParseError,
>
    decreases ts.len() - pos, 0int,
{
    if !(0 <= pos && pos < ts.len()) {
        Ok((acc, pos))
    } else if ts[pos] is Plus {
        match sp_term(ts, pos + 1, depth) {
            Err(e) => Err(e),
            Ok((e2, p2)) => sp_expr_rest(
                ts,
                bump(pos, p2, ts.len() as int),
                ExprS::Bin(BinOp::Add, Box::new(acc), Box::new(e2)),
                depth,
            ),
        }
    } else if ts[pos] is Minus {
        match sp_term(ts, pos + 1, depth) {
            Err(e) => Err(e),
            Ok((e2, p2)) => sp_expr_rest(
                ts,
                bump(pos, p2, ts.len() as int),
                ExprS::Bin(BinOp::Sub, Box::new(acc), Box::new(e2)),
                depth,
            ),
        }
    } else {
        Ok((acc, pos))
    }
}

/// Expression: terms joined by `+` and `-`, left-associative. Consumes one
/// unit of the depth budget.
pub open spec fn sp_expr(ts: Seq<Tok>, pos: int, depth: int) -> Result<(ExprS, int), ParseError>
    decreases ts.len() - pos, 4int,
{
    if !(0 <= pos && pos < ts.len()) {
        Err(ParseError::UnexpectedEnd)
    } else if depth <= 0 {
        Err(ParseError::TooDeep)
    } else {
        match sp_term(ts, pos, depth - 1) {
            Err(e) => Err(e),
            Ok((e1, p1)) => sp_expr_rest(ts, bump(pos, p1, ts.len() as int), e1, depth - 1),
        }
    }
}

/// A non-empty, comma-separated argument list.
pub open spec fn sp_args(ts: Seq<Tok>, pos: int, depth: int) -> Result<(ArgsS, int), ParseError>
    decreases ts.len() - pos, 5int,
{
    if !(0 <= pos && pos < ts.len()) {
        Err(ParseError::UnexpectedEnd)
    } else {
        match sp_expr(ts, pos, depth) {
            Err(e) => Err(e),
            Ok((e, p)) => {
                if 0 <= p && p < ts.len() && ts[p] is Comma {
                    match sp_args(ts, bump(pos, p + 1, ts.len() as int), depth) {
                        Err(e2) => Err(e2),
                        Ok((rest, p2)) => Ok((ArgsS::Cons(Box::new(e), Box::new(rest)), p2)),
                    }
                } else {
                    Ok((ArgsS::Cons(Box::new(e), Box::new(ArgsS::Nil)), p))
                }
            },
        }
    }
}

/// The whole token sequence as one expression: after the top-level expression
/// the parser must stand exactly at the end-of-input token.
pub open spec fn sp_parse(ts: Seq<Tok>) -> Result<ExprS, ParseError> {
    match sp_expr(ts, 0, DEPTH_LIMIT as int) {
        Err(e) => Err(e),
        Ok((e, p)) => {
            if 0 <= p && p < ts.len() {
                match ts[p] {
                    Tok::EndOfInput => Ok(e),
                    t => if is_operand_start(t) {
                        Err(ParseError::ExpectedOperator)
                    } else {
                        Err(ParseError::TrailingInput)
                    },
                }
            } else {
                Ok(e)
            }
        },
    }
}

// ---------- executable parser ----------

fn operand_start(t: &Token) -> (b: bool)
    ensures
        b == is_operand_start(t@),
{
    match t {
        Token::Number(_) => true,
        Token::Identifier(_) => true,
        Token::LeftParen => true,
        _ => false,
    }
}

fn parse_primary(ts: &Vec<Token>, pos: usize, depth: u32) -> (r: Result<(Expr, usize), ParseError>)
    requires
        pos <= ts@.len(),
    ensures
        match r {
            Ok((e, p)) => sp_primary(toks_view(ts@), pos as int, depth as int) == Ok::<
                (ExprS, int),
                ParseError,
            >((e@, p as int)) && pos < p <= ts@.len(),
            Err(er) => sp_primary(toks_view(ts@), pos as int, depth as int) == Err::<
                (ExprS, int),
                ParseError,
            >(er),
        },
    decreases ts@.len() - pos, 0int,
{
    let n = ts.len();
    if pos >= n {
        return Err(ParseError::UnexpectedEnd);
    }
    proof {
        reveal_with_fuel(crate::ast::expr_view, 2);
        reveal_with_fuel(crate::ast::args_view, 2);
        assert(toks_view(ts@)[pos as int] == ts@[pos as int]@);
    }
    match &ts[pos] {
        Token::Number(t) => Ok((Expr::Number(copy_chars(t)), pos + 1)),
        Token::Identifier(name) => {
            proof {
                if pos + 1 < n {
                    assert(toks_view(ts@)[pos as int + 1] == ts@[pos as int + 1]@);
                }
            }
            let lparen_next = pos + 1 < n && (match &ts[pos + 1] {
                Token::LeftParen => true,
                _ => false,
            });
            if lparen_next {
                proof {
                    if pos + 2 < n {
                        assert(toks_view(ts@)[pos as int + 2] == ts@[pos as int + 2]@);
                    }
                }
                let empty_args = pos + 2 < n && (match &ts[pos + 2] {
                    Token::RightParen => true,
                    _ => false,
                });
                if empty_args {
                    Ok((Expr::Call(copy_chars(name), Args::Nil), pos + 3))
                } else {
                    match parse_args(ts, pos + 2, depth) {
                        Err(e) => Err(e),
                        Ok((args, p)) => {
                            proof {
                                if p < n {
                                    assert(toks_view(ts@)[p as int] == ts@[p as int]@);
                                }
                            }
                            if p < n {
                                match &ts[p] {
                                    Token::RightParen => Ok(
                                        (Expr::Call(copy_chars(name), args), p + 1),
                                    ),
                                    Token::EndOfInput => Err(ParseError::UnbalancedParens),
                                    t => if operand_start(t) {
                                        Err(ParseError::ExpectedOperator)
                                    } else {
                                        Err(ParseError::UnbalancedParens)
                                    },
                                }
                            } else {
                                Err(ParseError::UnbalancedParens)
                            }
                        },
                    }
                }
            } else {
                Ok((Expr::Constant(copy_chars(name)), pos + 1))
            }
        },
        Token::LeftParen => {
            match parse_expr(ts, pos + 1, depth) {
                Err(e) => Err(e),
                Ok((e, p)) => {
                    proof {
                        if p < n {
                            assert(toks_view(ts@)[p as int] == ts@[p as int]@);
                        }
                    }
                    if p < n {
                        match &ts[p] {
                            Token::RightParen => Ok((e, p + 1)),
                            Token::EndOfInput => Err(ParseError::UnbalancedParens),
                            t => if operand_start(t) {
                                Err(ParseError::ExpectedOperator)
                            } else {
                                Err(ParseError::UnbalancedParens)
                            },
                        }
                    } else {
                        Err(ParseError::UnbalancedParens)
                    }
                },
            }
        },
        _ => Err(ParseError::UnexpectedEnd),
    }
}

fn parse_power(ts: &Vec<Token>, pos: usize, depth: u32) -> (r: Result<(Expr, usize), ParseError>)
    requires
        pos <= ts@.len(),
    ensures
        match r {
            Ok((e, p)) => sp_power(toks_view(ts@), pos as int, depth as int) == Ok::<
                (ExprS, int),
                ParseError,
            >((e@, p as int)) && pos < p <= ts@.len(),
            Err(er) => sp_power(toks_view(ts@), pos as int, depth as int) == Err::<
                (ExprS, int),
                ParseError,
            >(er),
        },
    decreases ts@.len() - pos, 1int,
{
    let n = ts.len();
    if pos >= n {
        return Err(ParseError::UnexpectedEnd);
    }
    match parse_primary(ts, pos, depth) {
        Err(e) => Err(e),
        Ok((base, p)) => {
            proof {
                if p < n {
                    assert(toks_view(ts@)[p as int] == ts@[p as int]@);
                }
            }
            let caret = p < n && (match &ts[p] {
                Token::Caret => true,
                _ => false,
            });
            if caret {
                proof {
                    assert(bump(pos as int, p as int + 1, ts@.len() as int) == p as int + 1);
                }
                match parse_unary(ts, p + 1, depth) {
                    Err(e) => Err(e),
                    Ok((rhs, p2)) => Ok(
                        (Expr::Bin(BinOp::Pow, Box::new(base), Box::new(rhs)), p2),
                    ),
                }
            } else {
                Ok((base, p))
            }
        },
    }
}

fn parse_unary(ts: &Vec<Token>, pos: usize, depth: u32) -> (r: Result<(Expr, usize), ParseError>)
    requires
        pos <= ts@.len(),
    ensures
        match r {
            Ok((e, p)) => sp_unary(toks_view(ts@), pos as int, depth as int) == Ok::<
                (ExprS, int),
                ParseError,
            >((e@, p as int)) && pos < p <= ts@.len(),
            Err(er) => sp_unary(toks_view(ts@), pos as int, depth as int) == Err::<
                (ExprS, int),
                ParseError,
            >(er),
        },
    decreases ts@.len() - pos, 2int,
{
    let n = ts.len();
    if pos >= n {
        return Err(ParseError::UnexpectedEnd);
    }
    if depth == 0 {
        return Err(ParseError::TooDeep);
    }
    proof {
        assert(toks_view(ts@)[pos as int] == ts@[pos as int]@);
    }
    let minus = match &ts[pos] {
        Token::Minus => true,
        _ => false,
    };
    if minus {
        match parse_unary(ts, pos + 1, depth - 1) {
            Err(e) => Err(e),
            Ok((e, p)) => Ok((Expr::Neg(Box::new(e)), p)),
        }
    } else {
        parse_power(ts, pos, depth - 1)
    }
}

fn parse_term(ts: &Vec<Token>, pos: usize, depth: u32) -> (r: Result<(Expr, usize), ParseError>)
    requires
        pos <= ts@.len(),
    ensures
        match r {
            Ok((e, p)) => sp_term(toks_view(ts@), pos as int, depth as int) == Ok::<
                (ExprS, int),
                ParseError,
            >((e@, p as int)) && pos < p <= ts@.len(),
            Err(er) => sp_term(toks_view(ts@), pos as int, depth as int) == Err::<
                (ExprS, int),
                ParseError,
            >(er),
        },
    decreases ts@.len() - pos, 3int,
{
    let n = ts.len();
    if pos >= n {
        return Err(ParseError::UnexpectedEnd);
    }
    let first = parse_unary(ts, pos, depth);
    let (mut e, mut p) = match first {
        Err(er) => {
            return Err(er);
        },
        Ok(x) => x,
    };
    proof {
        assert(bump(pos as int, p as int, ts@.len() as int) == p as int);
    }
    loop
        invariant
            pos < p <= ts@.len(),
            n == ts@.len(),
            sp_term_rest(toks_view(ts@), p as int, e@, depth as int) == sp_term(
                toks_view(ts@),
                pos as int,
                depth as int,
            ),
        decreases ts@.len() - p,
    {
        if p >= n {
            return Ok((e, p));
        }
        proof {
            assert(toks_view(ts@)[p as int] == ts@[p as int]@);
        }
        let op: Option<BinOp> = match &ts[p] {
            Token::Star => Some(BinOp::Mul),
            Token::Slash => Some(BinOp::Div),
            _ => None,
        };
        match op {
            None => {
                return Ok((e, p));
            },
            Some(op) => {
                match parse_unary(ts, p + 1, depth) {
                    Err(er) => {
                        return Err(er);
                    },
                    Ok((e2, p2)) => {
                        proof {
                            assert(bump(p as int, p2 as int, ts@.len() as int) == p2 as int);
                        }
                        e = Expr::Bin(op, Box::new(e), Box::new(e2));
                        p = p2;
                    },
                }
            },
        }
    }
}

fn parse_expr(ts: &Vec<Token>, pos: usize, depth: u32) -> (r: Result<(Expr, usize), ParseError>)
    requires
        pos <= ts@.len(),
    ensures
        match r {
            Ok((e, p)) => sp_expr(toks_view(ts@), pos as int, depth as int) == Ok::<
                (ExprS, int),
                ParseError,
            >((e@, p as int)) && pos < p <= ts@.len(),
            Err(er) => sp_expr(toks_view(ts@), pos as int, depth as int) == Err::<
                (ExprS, int),
                ParseError,
            >(er),
        },
    decreases ts@.len() - pos, 4int,
{
    let n = ts.len();
    if pos >= n {
        return Err(ParseError::UnexpectedEnd);
    }
    if depth == 0 {
        return Err(ParseError::TooDeep);
    }
    let d = depth - 1;
    let first = parse_term(ts, pos, d);
    let (mut e, mut p) = match first {
        Err(er) => {
            return Err(er);
        },
        Ok(x) => x,
    };
    proof {
        assert(bump(pos as int, p as int, ts@.len() as int) == p as int);
    }
    loop
        invariant
            pos < p <= ts@.len(),
            n == ts@.len(),
            d == depth - 1,
            sp_expr_rest(toks_view(ts@), p as int, e@, d as int) == sp_expr(
                toks_view(ts@),
                pos as int,
                depth as int,
            ),
        decreases ts@.len() - p,
    {
        if p >= n {
            return Ok((e, p));
        }
        proof {
            assert(toks_view(ts@)[p as int] == ts@[p as int]@);
        }
        let op: Option<BinOp> = match &ts[p] {
            Token::Plus => Some(BinOp::Add),
            Token::Minus => Some(BinOp::Sub),
            _ => None,
        };
        match op {
            None => {
                return Ok((e, p));
            },
            Some(op) => {
                match parse_term(ts, p + 1, d) {
                    Err(er) => {
                        return Err(er);
                    },
                    Ok((e2, p2)) => {
                        proof {
                            assert(bump(p as int, p2 as int, ts@.len() as int) == p2 as int);
                        }
                        e = Expr::Bin(op, Box::new(e), Box::new(e2));
                        p = p2;
                    },
                }
            },
        }
    }
}

fn parse_args(ts: &Vec<Token>, pos: usize, depth: u32) -> (r: Result<(Args, usize), ParseError>)
    requires
        pos <= ts@.len(),
    ensures
        match r {
            Ok((args, p)) => sp_args(toks_view(ts@), pos as int, depth as int) == Ok::<
                (ArgsS, int),
                ParseError,
            >((args@, p as int)) && pos < p <= ts@.len(),
            Err(er) => sp_args(toks_view(ts@), pos as int, depth as int) == Err::<
                (ArgsS, int),
                ParseError,
            >(er),
        },
    decreases ts@.len() - pos, 5int,
{
    let n = ts.len();
    if pos >= n {
        return Err(ParseError::UnexpectedEnd);
    }
    proof {
        reveal_with_fuel(crate::ast::args_view, 2);
        reveal_with_fuel(crate::ast::expr_view, 2);
    }
    match parse_expr(ts, pos, depth) {
        Err(e) => Err(e),
        Ok((e, p)) => {
            proof {
                if p < n {
                    assert(toks_view(ts@)[p as int] == ts@[p as int]@);
                }
            }
            let comma = p < n && (match &ts[p] {
                Token::Comma => true,
                _ => false,
            });
            if comma {
                proof {
                    assert(bump(pos as int, p as int + 1, ts@.len() as int) == p as int + 1);
                }
                match parse_args(ts, p + 1, depth) {
                    Err(e2) => Err(e2),
                    Ok((rest, p2)) => Ok((Args::Cons(Box::new(e), Box::new(rest)), p2)),
                }
            } else {
                Ok((Args::Cons(Box::new(e), Box::new(Args::Nil)), p))
            }
        },
    }
}

/// Parse the full token sequence into exactly one expression tree. Returns
/// exactly what [`sp_parse`] says of the tokens: the same tree, or the same
/// error, case by case.
pub fn parse(toks: &Vec<Token>) -> (r: Result<Expr, ParseError>)
    ensures
        match r {
            Ok(e) => sp_parse(toks_view(toks@)) == Ok::<ExprS, ParseError>(e@),
            Err(er) => sp_parse(toks_view(toks@)) == Err::<ExprS, ParseError>(er),
        },
{
    let n = toks.len();
    match parse_expr(toks, 0, DEPTH_LIMIT) {
        Err(e) => Err(e),
        Ok((e, p)) => {
            proof {
                if p < n {
                    assert(toks_view(toks@)[p as int] == toks@[p as int]@);
                }
            }
            if p < n {
                match &toks[p] {
                    Token::EndOfInput => Ok(e),
                    t => if operand_start(t) {
                        Err(ParseError::ExpectedOperator)
                    } else {
                        Err(ParseError::TrailingInput)
                    },
                }
            } else {
                Ok(e)
            }
        },
    }
}

} // verus!
