//! Lexical analysis: the input text, read left to right, becomes a sequence
//! of tokens ending in an explicit end-of-input marker.
//!
//! The executable lexer [`lex`] is pinned exactly to the spec-level lexer
//! [`spec_lex`]: it returns the same tokens on the same inputs and the same
//! error on the same inputs.

use vstd::prelude::*;

verus! {

/// A classified lexical unit, produced in left-to-right order.
#[derive(Debug, Clone, PartialEq)]
pub enum Token {
    /// A numeric literal, carried as its source characters.
    Number(Vec<char>),
    /// A letter or underscore followed by letters, digits or underscores.
    Identifier(Vec<char>),
    Plus,
    Minus,
    Star,
    Slash,
    Caret,
    LeftParen,
    RightParen,
    Comma,
    /// The explicit terminal marker; always the last token of a lex result.
    EndOfInput,
}

/// Spec-level image of a [`Token`].
pub enum Tok {
    Number(Seq<char>),
    Identifier(Seq<char>),
    Plus,
    Minus,
    Star,
    Slash,
    Caret,
    LeftParen,
    RightParen,
    Comma,
    EndOfInput,
}

impl View for Token {
    type V = Tok;

    open spec fn view(&self) -> Tok {
        match self {
            Token::Number(t) => Tok::Number(t@),
            Token::Identifier(t) => Tok::Identifier(t@),
            Token::Plus => Tok::Plus,
            Token::Minus => Tok::Minus,
            Token::Star => Tok::Star,
            Token::Slash => Tok::Slash,
            Token::Caret => Tok::Caret,
            Token::LeftParen => Tok::LeftParen,
            Token::RightParen => Tok::RightParen,
            Token::Comma => Tok::Comma,
            Token::EndOfInput => Tok::EndOfInput,
        }
    }
}

/// The image of a token sequence under [`Token::view`].
pub open spec fn toks_view(ts: Seq<Token>) -> Seq<Tok> {
    ts.map_values(|t: Token| t@)
}

/// A lexical failure.
#[derive(Debug, Clone, PartialEq)]
pub enum LexError {
    /// A numeric literal with a second decimal point or a malformed exponent.
    InvalidNumber,
    /// A character no token can start with, and its 0-based character offset.
    UnexpectedCharacter(char, usize),
}

/// Spec-level image of a [`LexError`].
pub enum LexErr {
    InvalidNumber,
    UnexpectedCharacter(char, int),
}

impl View for LexError {
    type V = LexErr;

    open spec fn view(&self) -> LexErr {
        match self {
            LexError::InvalidNumber => LexErr::InvalidNumber,
            LexError::UnexpectedCharacter(c, p) => LexErr::UnexpectedCharacter(*c, *p as int),
        }
    }
}

// ---------- character classes ----------

pub open spec fn is_digit(c: char) -> bool {
    48 <= c as u32 && c as u32 <= 57
}

pub open spec fn is_ident_start(c: char) -> bool {
    (65 <= c as u32 && c as u32 <= 90) || (97 <= c as u32 && c as u32 <= 122) || c as u32 == 95
}

pub open spec fn is_ident_continue(c: char) -> bool {
    is_ident_start(c) || is_digit(c)
}

pub open spec fn is_space(c: char) -> bool {
    c as u32 == 32 || c as u32 == 9 || c as u32 == 10 || c as u32 == 13
}

pub open spec fn is_exp_mark(c: char) -> bool {
    c == 'e' || c == 'E'
}

pub open spec fn is_sign(c: char) -> bool {
    c == '+' || c == '-'
}

fn digit(c: char) -> (b: bool)
    ensures
        b == is_digit(c),
{
    let u = c as u32;
    48 <= u && u <= 57
}

fn ident_start(c: char) -> (b: bool)
    ensures
        b == is_ident_start(c),
{
    let u = c as u32;
    (65 <= u && u <= 90) || (97 <= u && u <= 122) || u == 95
}

fn ident_continue(c: char) -> (b: bool)
    ensures
        b == is_ident_continue(c),
{
    ident_start(c) || digit(c)
}

fn space(c: char) -> (b: bool)
    ensures
        b == is_space(c),
{
    let u = c as u32;
    u == 32 || u == 9 || u == 10 || u == 13
}

fn exp_mark(c: char) -> (b: bool)
    ensures
        b == is_exp_mark(c),
{
    c == 'e' || c == 'E'
}

fn sign(c: char) -> (b: bool)
    ensures
        b == is_sign(c),
{
    c == '+' || c == '-'
}

/// The token a single symbol character stands for, if any.
pub open spec fn symbol_tok(c: char) -> Option<Tok> {
    if c == '+' {
        Some(Tok::Plus)
    } else if c == '-' {
        Some(Tok::Minus)
    } else if c == '*' {
        Some(Tok::Star)
    } else if c == '/' {
        Some(Tok::Slash)
    } else if c == '^' {
        Some(Tok::Caret)
    } else if c == '(' {
        Some(Tok::LeftParen)
    } else if c == ')' {
        Some(Tok::RightParen)
    } else if c == ',' {
        Some(Tok::Comma)
    } else {
        None
    }
}

// ---------- spec-level scanning ----------

/// First position at or after `pos` that does not hold a digit.
pub open spec fn scan_digits(s: Seq<char>, pos: int) -> int
    decreases s.len() - pos,
{
    if 0 <= pos && pos < s.len() && is_digit(s[pos]) {
        scan_digits(s, pos + 1)
    } else {
        pos
    }
}

/// First position at or after `pos` that does not hold an identifier character.
pub open spec fn scan_ident(s: Seq<char>, pos: int) -> int
    decreases s.len() - pos,
{
    if 0 <= pos && pos < s.len() && is_ident_continue(s[pos]) {
        scan_ident(s, pos + 1)
    } else {
        pos
    }
}

/// Where a numeric literal that begins with the digit at `pos` ends:
/// digits, an optional fraction (a single point and further digits), and an
/// optional exponent (`e` or `E`, an optional sign, then at least one digit).
/// `None` marks a malformed literal: an empty exponent, or a second decimal
/// point immediately following the literal.
pub open spec fn scan_number(s: Seq<char>, pos: int) -> Option<int> {
    let d = scan_digits(s, pos + 1);
    let f = if d < s.len() && s[d] == '.' {
        scan_digits(s, d + 1)
    } else {
        d
    };
    if f < s.len() && is_exp_mark(s[f]) {
        let g = if f + 1 < s.len() && is_sign(s[f + 1]) {
            f + 2
        } else {
            f + 1
        };
        let h = scan_digits(s, g);
        if h == g {
            None
        } else if h < s.len() && s[h] == '.' {
            None
        } else {
            Some(h)
        }
    } else if f < s.len() && s[f] == '.' {
        None
    } else {
        Some(f)
    }
}

/// A well-formed numeric literal: text that begins with a digit and that the
/// number scanner consumes whole.
pub open spec fn is_number_literal(s: Seq<char>) -> bool {
    s.len() > 0 && is_digit(s[0]) && scan_number(s, 0) == Some(s.len() as int)
}

/// Clamp of a scan result into `(pos, len]`, so that the recursion of
/// [`spec_lex_from`] visibly advances. The scanners in fact always land in
/// that range, so the clamp never changes a value the lexer computes.
pub open spec fn bump(pos: int, next: int, len: int) -> int {
    if next <= pos {
        pos + 1
    } else if next > len {
        len
    } else {
        next
    }
}

/// The spec-level lexer: the tokens of `s` from position `pos` on, ending in
/// [`Tok::EndOfInput`], or the first lexical error.
pub open spec fn spec_lex_from(s: Seq<char>, pos: int) -> Result<Seq<Tok>, LexErr>
    decreases s.len() - pos,
{
    if !(0 <= pos && pos < s.len()) {
        Ok(seq![Tok::EndOfInput])
    } else {
        let c = s[pos];
        if is_space(c) {
            spec_lex_from(s, pos + 1)
        } else if is_digit(c) {
            match scan_number(s, pos) {
                None => Err(LexErr::InvalidNumber),
                Some(end) => {
                    let e = bump(pos, end, s.len() as int);
                    match spec_lex_from(s, e) {
                        Ok(rest) => Ok(seq![Tok::Number(s.subrange(pos, e))] + rest),
                        Err(er) => Err(er),
                    }
                },
            }
        } else if is_ident_start(c) {
            let e = bump(pos, scan_ident(s, pos + 1), s.len() as int);
            match spec_lex_from(s, e) {
                Ok(rest) => Ok(seq![Tok::Identifier(s.subrange(pos, e))] + rest),
                Err(er) => Err(er),
            }
        } else {
            match symbol_tok(c) {
                Some(t) => match spec_lex_from(s, pos + 1) {
                    Ok(rest) => Ok(seq![t] + rest),
                    Err(er) => Err(er),
                },
                None => Err(LexErr::UnexpectedCharacter(c, pos)),
            }
        }
    }
}

/// The tokens of the whole input, or its first lexical error.
pub open spec fn spec_lex(s: Seq<char>) -> Result<Seq<Tok>, LexErr> {
    spec_lex_from(s, 0)
}

/// Law: every token sequence the lexer accepts ends with the explicit
/// end-of-input marker, and holds the marker nowhere else — a consumer can
/// rely on the marker instead of length checks.
pub proof fn lemma_lex_ends_with_marker(s: Seq<char>, pos: int)
    ensures
        match spec_lex_from(s, pos) {
            Ok(ts) => ts.len() >= 1 && ts.last() == Tok::EndOfInput && forall|i: int|
                0 <= i < ts.len() - 1 ==> ts[i] != Tok::EndOfInput,
            Err(_) => true,
        },
    decreases s.len() - pos,
{
    if !(0 <= pos && pos < s.len()) {
    } else {
        let c = s[pos];
        if is_space(c) {
            lemma_lex_ends_with_marker(s, pos + 1);
        } else if is_digit(c) {
            match scan_number(s, pos) {
                None => {},
                Some(end) => {
                    let e = bump(pos, end, s.len() as int);
                    lemma_lex_ends_with_marker(s, e);
                },
            }
        } else if is_ident_start(c) {
            let e = bump(pos, scan_ident(s, pos + 1), s.len() as int);
            lemma_lex_ends_with_marker(s, e);
        } else {
            match symbol_tok(c) {
                Some(_) => {
                    lemma_lex_ends_with_marker(s, pos + 1);
                },
                None => {},
            }
        }
    }
}

// ---------- executable scanning ----------

fn scan_digits_exec(s: &str, start: usize) -> (end: usize)
    requires
        start <= s@.len(),
    ensures
        end as int == scan_digits(s@, start as int),
        start <= end <= s@.len(),
{
    let n = s.unicode_len();
    let mut p = start;
    while p < n && digit(s.get_char(p))
        invariant
            start <= p <= n,
            n == s@.len(),
            scan_digits(s@, start as int) == scan_digits(s@, p as int),
        decreases n - p,
    {
        p = p + 1;
    }
    p
}

fn scan_ident_exec(s: &str, start: usize) -> (end: usize)
    requires
        start <= s@.len(),
    ensures
        end as int == scan_ident(s@, start as int),
        start <= end <= s@.len(),
{
    let n = s.unicode_len();
    let mut p = start;
    while p < n && ident_continue(s.get_char(p))
        invariant
            start <= p <= n,
            n == s@.len(),
            scan_ident(s@, start as int) == scan_ident(s@, p as int),
        decreases n - p,
    {
        p = p + 1;
    }
    p
}

fn scan_number_exec(s: &str, pos: usize) -> (r: Option<usize>)
    requires
        pos < s@.len(),
        is_digit(s@[pos as int]),
    ensures
        match r {
            Some(end) => scan_number(s@, pos as int) == Some(end as int) && pos < end <= s@.len(),
            None => scan_number(s@, pos as int) is None,
        },
{
    let n = s.unicode_len();
    let d = scan_digits_exec(s, pos + 1);
    let f = if d < n && s.get_char(d) == '.' {
        scan_digits_exec(s, d + 1)
    } else {
        d
    };
    if f < n && exp_mark(s.get_char(f)) {
        let g = if f + 1 < n && sign(s.get_char(f + 1)) {
            f + 2
        } else {
            f + 1
        };
        let h = scan_digits_exec(s, g);
        if h == g {
            None
        } else if h < n && s.get_char(h) == '.' {
            None
        } else {
            Some(h)
        }
    } else if f < n && s.get_char(f) == '.' {
        None
    } else {
        Some(f)
    }
}

/// The characters of `s` from `from` (inclusive) to `to` (exclusive).
fn collect_range(s: &str, from: usize, to: usize) -> (v: Vec<char>)
    requires
        from <= to <= s@.len(),
    ensures
        v@ == s@.subrange(from as int, to as int),
{
    let mut v: Vec<char> = Vec::new();
    proof {
        assert(v@ =~= s@.subrange(from as int, from as int));
    }
    let mut i = from;
    while i < to
        invariant
            from <= i <= to <= s@.len(),
            v@ == s@.subrange(from as int, i as int),
        decreases to - i,
    {
        v.push(s.get_char(i));
        i = i + 1;
        proof {
            assert(v@ =~= s@.subrange(from as int, i as int));
        }
    }
    v
}

/// A fresh copy of a character vector (characters are plain values).
pub(crate) fn copy_chars(v: &Vec<char>) -> (r: Vec<char>)
    ensures
        r@ == v@,
{
    let mut r: Vec<char> = Vec::new();
    let mut i: usize = 0;
    proof {
        assert(r@ =~= v@.subrange(0, 0));
    }
    while i < v.len()
        invariant
            i <= v@.len(),
            r@ == v@.subrange(0, i as int),
        decreases v@.len() - i,
    {
        r.push(v[i]);
        i = i + 1;
        proof {
            assert(r@ =~= v@.subrange(0, i as int));
        }
    }
    proof {
        assert(r@ =~= v@);
    }
    r
}

proof fn lemma_toks_view_push(ts: Seq<Token>, t: Token)
    ensures
        toks_view(ts.push(t)) =~= toks_view(ts).push(t@),
{
}

// ---------- the lexer ----------

/// Lexical analysis of the whole input. Skips whitespace between tokens,
/// recognizes numeric literals, identifiers and the single-character symbols
/// `+ - * / ^ ( ) ,`, and always ends the token list with
/// [`Token::EndOfInput`]. Returns exactly what [`spec_lex`] says: the same
/// tokens on the same inputs, or the same first error.
pub fn lex(s: &str) -> (r: Result<Vec<Token>, LexError>)
    ensures
        match r {
            Ok(toks) => spec_lex(s@) == Ok::<Seq<Tok>, LexErr>(toks_view(toks@)),
            Err(e) => spec_lex(s@) == Err::<Seq<Tok>, LexErr>(e@),
        },
{
    let n = s.unicode_len();
    let mut toks: Vec<Token> = Vec::new();
    let mut pos: usize = 0;
    proof {
        assert(toks_view(toks@) =~= Seq::<Tok>::empty());
    }
    loop
        invariant
            pos <= n,
            n == s@.len(),
            match spec_lex_from(s@, pos as int) {
                Ok(rest) => spec_lex(s@) == Ok::<Seq<Tok>, LexErr>(toks_view(toks@) + rest),
                Err(e) => spec_lex(s@) == Err::<Seq<Tok>, LexErr>(e),
            },
        decreases n - pos,
    {
        let ghost prev = toks@;
        if pos >= n {
            toks.push(Token::EndOfInput);
            proof {
                lemma_toks_view_push(prev, Token::EndOfInput);
                assert(toks_view(prev) + seq![Tok::EndOfInput] =~= toks_view(toks@));
            }
            return Ok(toks);
        }
        let c = s.get_char(pos);
        if space(c) {
            pos = pos + 1;
        } else if digit(c) {
            match scan_number_exec(s, pos) {
                None => {
                    return Err(LexError::InvalidNumber);
                },
                Some(end) => {
                    let lit = collect_range(s, pos, end);
                    proof {
                        assert(bump(pos as int, end as int, s@.len() as int) == end as int);
                    }
                    toks.push(Token::Number(lit));
                    proof {
                        lemma_toks_view_push(prev, Token::Number(lit));
                        match spec_lex_from(s@, end as int) {
                            Ok(rest) => {
                                assert(toks_view(prev) + (seq![Tok::Number(s@.subrange(
                                    pos as int,
                                    end as int,
                                ))] + rest) =~= toks_view(toks@) + rest);
                            },
                            Err(_) => {},
                        }
                    }
                    pos = end;
                },
            }
        } else if ident_start(c) {
            let end = scan_ident_exec(s, pos + 1);
            let name = collect_range(s, pos, end);
            proof {
                assert(bump(pos as int, scan_ident(s@, pos as int + 1), s@.len() as int)
                    == end as int);
            }
            toks.push(Token::Identifier(name));
            proof {
                lemma_toks_view_push(prev, Token::Identifier(name));
                match spec_lex_from(s@, end as int) {
                    Ok(rest) => {
                        assert(toks_view(prev) + (seq![Tok::Identifier(s@.subrange(
                            pos as int,
                            end as int,
                        ))] + rest) =~= toks_view(toks@) + rest);
                    },
                    Err(_) => {},
                }
            }
            pos = end;
        } else {
            let sym: Option<Token> = if c == '+' {
                Some(Token::Plus)
            } else if c == '-' {
                Some(Token::Minus)
            } else if c == '*' {
                Some(Token::Star)
            } else if c == '/' {
                Some(Token::Slash)
            } else if c == '^' {
                Some(Token::Caret)
            } else if c == '(' {
                Some(Token::LeftParen)
            } else if c == ')' {
                Some(Token::RightParen)
            } else if c == ',' {
                Some(Token::Comma)
            } else {
                None
            };
            match sym {
                Some(tk) => {
                    let ghost tv = tk@;
                    toks.push(tk);
                    proof {
                        lemma_toks_view_push(prev, toks@[toks@.len() - 1]);
                        match spec_lex_from(s@, pos as int + 1) {
                            Ok(rest) => {
                                assert(toks_view(prev) + (seq![tv] + rest) =~= toks_view(toks@)
                                    + rest);
                            },
                            Err(_) => {},
                        }
                    }
                    pos = pos + 1;
                },
                None => {
                    return Err(LexError::UnexpectedCharacter(c, pos));
                },
            }
        }
    }
}

} // verus!
