//! Programs and resolution errors of the compilation stage.

use rust_calc::ast::BinOp;
use rust_calc::compile::{ConstName, EvalError, Func, Instr};
use rust_calc::pipeline::{analyze, CalcError};

fn chars(s: &str) -> Vec<char> {
    s.chars().collect()
}

#[test]
fn division_compiles_unconditionally() {
    assert_eq!(
        analyze("1 / 0"),
        Ok(vec![
            Instr::PushNumber(chars("1")),
            Instr::PushNumber(chars("0")),
            Instr::Bin(BinOp::Div),
        ])
    );
}

#[test]
fn a_literal_compiles_to_its_own_push() {
    assert_eq!(analyze("3.14"), Ok(vec![Instr::PushNumber(chars("3.14"))]));
}

#[test]
fn constants_compile_to_their_table_entry() {
    assert_eq!(analyze("pi"), Ok(vec![Instr::PushConstant(ConstName::Pi)]));
    assert_eq!(
        analyze("2 * e"),
        Ok(vec![
            Instr::PushNumber(chars("2")),
            Instr::PushConstant(ConstName::E),
            Instr::Bin(BinOp::Mul),
        ])
    );
}

#[test]
fn calls_compile_arguments_before_the_function() {
    assert_eq!(
        analyze("sqrt(16)"),
        Ok(vec![Instr::PushNumber(chars("16")), Instr::Call(Func::Sqrt)])
    );
}

#[test]
fn negation_compiles_after_its_operand() {
    assert_eq!(
        analyze("-7"),
        Ok(vec![Instr::PushNumber(chars("7")), Instr::Neg])
    );
}

#[test]
fn unknown_names_are_reported() {
    assert_eq!(
        analyze("bogus"),
        Err(CalcError::Eval(EvalError::UnknownIdentifier(chars("bogus"))))
    );
    assert_eq!(
        analyze("unknown_fn(1)"),
        Err(CalcError::Eval(EvalError::UnknownIdentifier(chars("unknown_fn"))))
    );
}

#[test]
fn the_table_is_case_sensitive() {
    assert_eq!(
        analyze("Sin(1)"),
        Err(CalcError::Eval(EvalError::UnknownIdentifier(chars("Sin"))))
    );
}

#[test]
fn wrong_argument_counts_are_reported() {
    assert_eq!(
        analyze("sin(1, 2)"),
        Err(CalcError::Eval(EvalError::ArityMismatch(chars("sin"), 1, 2)))
    );
    assert_eq!(
        analyze("sin()"),
        Err(CalcError::Eval(EvalError::ArityMismatch(chars("sin"), 1, 0)))
    );
}

#[test]
fn argument_errors_come_bottom_up() {
    assert_eq!(
        analyze("unknown_fn(bogus(1))"),
        Err(CalcError::Eval(EvalError::UnknownIdentifier(chars("bogus"))))
    );
}
