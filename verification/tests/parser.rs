//! Tree shapes and error kinds of the parser.

use rust_calc::ast::{Args, BinOp, Expr, ParseError};
use rust_calc::lexer::lex;
use rust_calc::parser::parse;

fn parse_str(src: &str) -> Result<Expr, ParseError> {
    parse(&lex(src).expect("input lexes"))
}

fn num(s: &str) -> Expr {
    Expr::Number(s.chars().collect())
}

fn bin(op: BinOp, l: Expr, r: Expr) -> Expr {
    Expr::Bin(op, Box::new(l), Box::new(r))
}

fn args1(e: Expr) -> Args {
    Args::Cons(Box::new(e), Box::new(Args::Nil))
}

#[test]
fn multiplication_groups_before_addition() {
    assert_eq!(
        parse_str("2 + 3 * 4"),
        Ok(bin(BinOp::Add, num("2"), bin(BinOp::Mul, num("3"), num("4"))))
    );
}

#[test]
fn power_groups_to_the_right() {
    assert_eq!(
        parse_str("2 ^ 3 ^ 2"),
        Ok(bin(BinOp::Pow, num("2"), bin(BinOp::Pow, num("3"), num("2"))))
    );
}

#[test]
fn unary_minus_wraps_the_power() {
    assert_eq!(
        parse_str("-2 ^ 2"),
        Ok(Expr::Neg(Box::new(bin(BinOp::Pow, num("2"), num("2")))))
    );
}

#[test]
fn additive_operators_group_to_the_left() {
    assert_eq!(
        parse_str("9 - 3 - 2"),
        Ok(bin(BinOp::Sub, bin(BinOp::Sub, num("9"), num("3")), num("2")))
    );
}

#[test]
fn parentheses_group_explicitly() {
    assert_eq!(
        parse_str("(2 + 3) * 4"),
        Ok(bin(BinOp::Mul, bin(BinOp::Add, num("2"), num("3")), num("4")))
    );
}

#[test]
fn calls_take_comma_separated_arguments() {
    assert_eq!(
        parse_str("f(1, 2)"),
        Ok(Expr::Call(
            "f".chars().collect(),
            Args::Cons(Box::new(num("1")), Box::new(args1(num("2"))))
        ))
    );
    assert_eq!(parse_str("g()"), Ok(Expr::Call("g".chars().collect(), Args::Nil)));
}

#[test]
fn bare_identifiers_are_constant_references() {
    assert_eq!(parse_str("pi"), Ok(Expr::Constant("pi".chars().collect())));
}

#[test]
fn missing_operand_is_unexpected_end() {
    assert_eq!(parse_str("3 +"), Err(ParseError::UnexpectedEnd));
    assert_eq!(parse_str(""), Err(ParseError::UnexpectedEnd));
    assert_eq!(parse_str("3 + *"), Err(ParseError::UnexpectedEnd));
}

#[test]
fn missing_closing_parenthesis_is_unbalanced() {
    assert_eq!(parse_str("(1 + 2"), Err(ParseError::UnbalancedParens));
    assert_eq!(parse_str("sin(1"), Err(ParseError::UnbalancedParens));
}

#[test]
fn adjacent_operands_expect_an_operator() {
    assert_eq!(parse_str("3 4"), Err(ParseError::ExpectedOperator));
    assert_eq!(parse_str("(1 2)"), Err(ParseError::ExpectedOperator));
}

#[test]
fn trailing_tokens_are_rejected() {
    assert_eq!(parse_str("1)"), Err(ParseError::TrailingInput));
}
