//! Token-level behavior of the lexer.

use rust_calc::lexer::{lex, LexError, Token};

fn chars(s: &str) -> Vec<char> {
    s.chars().collect()
}

#[test]
fn tokens_come_in_order_and_end_with_the_marker() {
    assert_eq!(
        lex("1.5e-3 + foo"),
        Ok(vec![
            Token::Number(chars("1.5e-3")),
            Token::Plus,
            Token::Identifier(chars("foo")),
            Token::EndOfInput,
        ])
    );
}

#[test]
fn empty_input_is_just_the_end_marker() {
    assert_eq!(lex(""), Ok(vec![Token::EndOfInput]));
    assert_eq!(lex("   \t\n"), Ok(vec![Token::EndOfInput]));
}

#[test]
fn every_symbol_lexes() {
    assert_eq!(
        lex("+-*/^(),"),
        Ok(vec![
            Token::Plus,
            Token::Minus,
            Token::Star,
            Token::Slash,
            Token::Caret,
            Token::LeftParen,
            Token::RightParen,
            Token::Comma,
            Token::EndOfInput,
        ])
    );
}

#[test]
fn numbers_take_fractions_and_exponents() {
    assert_eq!(lex("1.25"), Ok(vec![Token::Number(chars("1.25")), Token::EndOfInput]));
    assert_eq!(lex("2."), Ok(vec![Token::Number(chars("2.")), Token::EndOfInput]));
    assert_eq!(lex("3e8"), Ok(vec![Token::Number(chars("3e8")), Token::EndOfInput]));
    assert_eq!(lex("3E+8"), Ok(vec![Token::Number(chars("3E+8")), Token::EndOfInput]));
}

#[test]
fn two_decimal_points_are_invalid() {
    assert_eq!(lex("1.2.3"), Err(LexError::InvalidNumber));
    assert_eq!(lex("1..2"), Err(LexError::InvalidNumber));
}

#[test]
fn malformed_exponents_are_invalid() {
    assert_eq!(lex("1e"), Err(LexError::InvalidNumber));
    assert_eq!(lex("1e+"), Err(LexError::InvalidNumber));
    assert_eq!(lex("2epsilon"), Err(LexError::InvalidNumber));
}

#[test]
fn unexpected_characters_carry_their_position() {
    assert_eq!(lex("@"), Err(LexError::UnexpectedCharacter('@', 0)));
    assert_eq!(lex("1 + #2"), Err(LexError::UnexpectedCharacter('#', 4)));
}

#[test]
fn identifiers_take_letters_digits_and_underscores() {
    assert_eq!(
        lex("log10_x"),
        Ok(vec![Token::Identifier(chars("log10_x")), Token::EndOfInput])
    );
    assert_eq!(
        lex("2 e"),
        Ok(vec![
            Token::Number(chars("2")),
            Token::Identifier(chars("e")),
            Token::EndOfInput,
        ])
    );
}
