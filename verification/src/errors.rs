//! Front-end error values: invalid input characters found while
//! tokenizing, and unexpected tokens found while parsing.

use vstd::prelude::*;
use crate::lex::{push_char, token_name_spec, token_line_spec, Token};

verus! {

/// A character the tokenizer's state machine accepts nowhere.
#[derive(Clone, Copy, PartialEq, Eq, Structural, Debug)]
pub enum TokenError {
    InvalidCharacter(char),
}

/// A token the parse table has no action for, with a hint message and
/// the position in the token stream where parsing stopped.
#[derive(Debug)]
pub enum ParseError {
    UnexpectedToken(Token, String, usize),
}

/// The hint attached to a parse error at this token.
pub open spec fn err_message_spec(t: Token) -> Seq<char> {
    match t {
        Token::EndOfFile(_) =>
            ": Potential problem: statement has unneeded semicolon at end of program or for-loop"@,
        Token::RightCurl(_) =>
            ": Potential problem: empty For-block not allowed or unneeded semicolon"@,
        Token::ID(val, _) => val@,
        Token::Num(val, _) => val@,
        _ => ""@,
    }
}

/// An owned copy of a token, field for field.
pub fn clone_token(t: &Token) -> (r: Token)
    ensures
        r == *t,
{
    match t {
        Token::ID(val, line) => Token::ID(val.clone(), *line),
        Token::Print(line) => Token::Print(*line),
        Token::Num(val, line) => Token::Num(val.clone(), *line),
        Token::Semicolon(line) => Token::Semicolon(*line),
        Token::Assign(line) => Token::Assign(*line),
        Token::RightParen(line) => Token::RightParen(*line),
        Token::LeftParen(line) => Token::LeftParen(*line),
        Token::RightCurl(line) => Token::RightCurl(*line),
        Token::LeftCurl(line) => Token::LeftCurl(*line),
        Token::Comma(line) => Token::Comma(*line),
        Token::Add(line) => Token::Add(*line),
        Token::Subtract(line) => Token::Subtract(*line),
        Token::Multiply(line) => Token::Multiply(*line),
        Token::Divide(line) => Token::Divide(*line),
        Token::EndOfFile(line) => Token::EndOfFile(*line),
        Token::For(line) => Token::For(*line),
        Token::LessThan(line) => Token::LessThan(*line),
        Token::GreaterThan(line) => Token::GreaterThan(*line),
    }
}

/// Build the parse error for an unexpected token at stream position
/// `pos`, with the hint the token's kind calls for.
pub fn throw_err(curr_tok: &Token, pos: &usize) -> (r: ParseError)
    ensures
        r matches ParseError::UnexpectedToken(t, m, p) && t == *curr_tok && p == *pos && m@
            == err_message_spec(*curr_tok),
{
    let err_message: String = match curr_tok {
        Token::EndOfFile(_) => String::from_str(
            ": Potential problem: statement has unneeded semicolon at end of program or for-loop",
        ),
        Token::RightCurl(_) => String::from_str(
            ": Potential problem: empty For-block not allowed or unneeded semicolon",
        ),
        Token::ID(val, _) => val.clone(),
        Token::Num(val, _) => val.clone(),
        _ => String::from_str(""),
    };
    ParseError::UnexpectedToken(clone_token(curr_tok), err_message, *pos)
}

/// The decimal digits of `n`, most significant first.
pub open spec fn dec_digits(n: nat) -> Seq<char>
    decreases n,
{
    if n < 10 {
        seq![((48 + n) as u8) as char]
    } else {
        dec_digits(n / 10).push(((48 + n % 10) as u8) as char)
    }
}

/// A number as decimal text.
pub fn usize_to_string(n: usize) -> (s: String)
    ensures
        s@ == dec_digits(n as nat),
    decreases n,
{
    if n < 10 {
        let mut s = String::new();
        push_char(&mut s, ((48 + n) as u8) as char);
        proof {
            assert(s@ =~= dec_digits(n as nat));
        }
        s
    } else {
        let mut s = usize_to_string(n / 10);
        push_char(&mut s, ((48 + n % 10) as u8) as char);
        s
    }
}

impl TokenError {
    /// The diagnostic text of this error.
    pub fn message(&self) -> (r: String)
        ensures
            (*self) matches TokenError::InvalidCharacter(c) ==> r@ == "Invalid input found: "@.push(
                c,
            ),
    {
        match self {
            TokenError::InvalidCharacter(c) => {
                let mut s = String::from_str("Invalid input found: ");
                push_char(&mut s, *c);
                s
            },
        }
    }
}

impl ParseError {
    /// The diagnostic text of this error: the line, the position in the
    /// token stream, the token's kind and the hint.
    pub fn message(&self) -> (r: String)
        ensures
            (*self) matches ParseError::UnexpectedToken(tok, m, pos) ==> r@
                == "Unexpected token at line "@ + dec_digits(token_line_spec(tok) as nat)
                + ", pos in token stream: "@ + dec_digits(pos as nat) + ": "@ + token_name_spec(
                tok,
            ) + " "@ + m@,
    {
        match self {
            ParseError::UnexpectedToken(tok, m, pos) => {
                let mut s = String::from_str("Unexpected token at line ");
                let line_text = usize_to_string(tok.line());
                s.append(line_text.as_str());
                s.append(", pos in token stream: ");
                let pos_text = usize_to_string(*pos);
                s.append(pos_text.as_str());
                s.append(": ");
                s.append(tok.name());
                s.append(" ");
                s.append(m.as_str());
                s
            },
        }
    }
}

} // verus!
