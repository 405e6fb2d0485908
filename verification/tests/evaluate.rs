//! End-to-end evaluation: the verified front end compiles the text to a stack
//! program, and a small IEEE-754 interpreter here runs it.

use rust_calc::ast::{BinOp, ParseError};
use rust_calc::compile::{ConstName, EvalError, Func, Instr};
use rust_calc::lexer::LexError;
use rust_calc::pipeline::{analyze, CalcError};

fn run_program(prog: &[Instr]) -> f64 {
    let mut stack: Vec<f64> = Vec::new();
    for ins in prog {
        match ins {
            Instr::PushNumber(text) => {
                let lit: String = text.iter().collect();
                stack.push(lit.parse::<f64>().expect("compiled literals are well-formed"));
            }
            Instr::PushConstant(ConstName::Pi) => stack.push(std::f64::consts::PI),
            Instr::PushConstant(ConstName::E) => stack.push(std::f64::consts::E),
            Instr::Neg => {
                let x = stack.pop().expect("compiled programs are balanced");
                stack.push(-x);
            }
            Instr::Bin(op) => {
                let b = stack.pop().expect("compiled programs are balanced");
                let a = stack.pop().expect("compiled programs are balanced");
                stack.push(match op {
                    BinOp::Add => a + b,
                    BinOp::Sub => a - b,
                    BinOp::Mul => a * b,
                    BinOp::Div => a / b,
                    BinOp::Pow => a.powf(b),
                });
            }
            Instr::Call(f) => {
                let x = stack.pop().expect("compiled programs are balanced");
                stack.push(match f {
                    Func::Sin => x.sin(),
                    Func::Cos => x.cos(),
                    Func::Tan => x.tan(),
                    Func::Sqrt => x.sqrt(),
                    Func::Abs => x.abs(),
                    Func::Ln => x.ln(),
                    Func::Log => x.log10(),
                    Func::Exp => x.exp(),
                    Func::Floor => x.floor(),
                    Func::Ceil => x.ceil(),
                    Func::Round => x.round(),
                });
            }
        }
    }
    assert_eq!(stack.len(), 1);
    stack[0]
}

fn evaluate(src: &str) -> Result<f64, CalcError> {
    analyze(src).map(|p| run_program(&p))
}

fn chars(s: &str) -> Vec<char> {
    s.chars().collect()
}

#[test]
fn literals_evaluate_to_themselves() {
    assert_eq!(evaluate("3.14"), Ok(3.14));
    assert_eq!(evaluate("1e10"), Ok(1e10));
    assert_eq!(evaluate("0"), Ok(0.0));
    assert_eq!(evaluate("1.5e-3"), Ok(1.5e-3));
    assert_eq!(evaluate("42"), Ok(42.0));
}

#[test]
fn multiplication_binds_before_addition() {
    assert_eq!(evaluate("2 + 3 * 4"), Ok(14.0));
}

#[test]
fn exponentiation_is_right_associative() {
    assert_eq!(evaluate("2 ^ 3 ^ 2"), Ok(512.0));
}

#[test]
fn unary_minus_binds_looser_than_power() {
    assert_eq!(evaluate("-2 ^ 2"), Ok(-4.0));
}

#[test]
fn parentheses_override_precedence() {
    assert_eq!(evaluate("(2 + 3) * 4"), Ok(20.0));
}

#[test]
fn division_by_zero_follows_ieee_754() {
    assert_eq!(evaluate("1 / 0"), Ok(f64::INFINITY));
    assert_eq!(evaluate("-1 / 0"), Ok(f64::NEG_INFINITY));
    assert!(evaluate("0 / 0").unwrap().is_nan());
}

#[test]
fn sqrt_of_negative_is_nan_not_an_error() {
    assert_eq!(evaluate("sqrt(16)"), Ok(4.0));
    assert!(evaluate("sqrt(-1)").unwrap().is_nan());
}

#[test]
fn unknown_identifier_is_an_error() {
    assert_eq!(
        evaluate("unknown_fn(1)"),
        Err(CalcError::Eval(EvalError::UnknownIdentifier(chars("unknown_fn"))))
    );
}

#[test]
fn parse_failures_report_their_kind() {
    assert_eq!(evaluate("3 +"), Err(CalcError::Parse(ParseError::UnexpectedEnd)));
    assert_eq!(evaluate("(1 + 2"), Err(CalcError::Parse(ParseError::UnbalancedParens)));
    assert_eq!(evaluate("3 4"), Err(CalcError::Parse(ParseError::ExpectedOperator)));
}

#[test]
fn evaluation_is_idempotent() {
    let first = evaluate("2 + sin(1) * pi").unwrap();
    let second = evaluate("2 + sin(1) * pi").unwrap();
    assert_eq!(first.to_bits(), second.to_bits());
}

#[test]
fn subtraction_and_division_are_left_associative() {
    assert_eq!(evaluate("9 - 3 - 2"), Ok(4.0));
    assert_eq!(evaluate("16 / 4 / 2"), Ok(2.0));
}

#[test]
fn constants_resolve() {
    assert_eq!(evaluate("pi"), Ok(std::f64::consts::PI));
    assert_eq!(evaluate("e"), Ok(std::f64::consts::E));
    assert_eq!(evaluate("2 * pi"), Ok(2.0 * std::f64::consts::PI));
}

#[test]
fn builtin_functions_evaluate() {
    assert_eq!(evaluate("sin(0)"), Ok(0.0));
    assert_eq!(evaluate("cos(0)"), Ok(1.0));
    assert_eq!(evaluate("tan(0)"), Ok(0.0));
    assert_eq!(evaluate("abs(-3)"), Ok(3.0));
    assert_eq!(evaluate("exp(0)"), Ok(1.0));
    assert_eq!(evaluate("floor(2.7)"), Ok(2.0));
    assert_eq!(evaluate("ceil(2.1)"), Ok(3.0));
    assert_eq!(evaluate("round(2.5)"), Ok(3.0));
    assert!((evaluate("ln(e)").unwrap() - 1.0).abs() < 1e-12);
    assert!((evaluate("log(100)").unwrap() - 2.0).abs() < 1e-12);
}

#[test]
fn negative_exponent_is_accepted() {
    assert_eq!(evaluate("2 ^ -1"), Ok(0.5));
}

#[test]
fn fractional_power_of_negative_base_is_nan() {
    assert!(evaluate("(-2) ^ 0.5").unwrap().is_nan());
}

#[test]
fn lexical_failures_stop_evaluation() {
    assert_eq!(evaluate("1.2.3"), Err(CalcError::Lex(LexError::InvalidNumber)));
    assert_eq!(
        evaluate("1 + $"),
        Err(CalcError::Lex(LexError::UnexpectedCharacter('$', 4)))
    );
}

#[test]
fn nesting_up_to_the_guarantee_succeeds() {
    let mut src = String::new();
    for _ in 0..256 {
        src.push('(');
    }
    src.push('7');
    for _ in 0..256 {
        src.push(')');
    }
    assert_eq!(evaluate(&src), Ok(7.0));
}

#[test]
fn nesting_past_the_budget_fails_gracefully() {
    let mut src = String::new();
    for _ in 0..2000 {
        src.push('(');
    }
    src.push('7');
    for _ in 0..2000 {
        src.push(')');
    }
    assert_eq!(evaluate(&src), Err(CalcError::Parse(ParseError::TooDeep)));
}
