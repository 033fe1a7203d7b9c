//! The table-driven shift-reduce parser: a fixed action/goto table over
//! the grammar's 18 terminals and 9 nonterminals, and the driver that
//! runs it over a token stream, building the tree through the
//! reduction actions.
//!
//! The table and the driver are executable logic verified free of
//! panics; what tree a given stream yields is pinned down by the
//! reduction actions' contracts (`gen_line`) and by tests.

use vstd::prelude::*;
use crate::ast::Stm;
use crate::errors::{throw_err, ParseError};
use crate::ir_code_gen::{gen_line, AstItem, StackItem};
use crate::lex::Token;

verus! {

/// One cell of the parse table: what the automaton does in a state on a
/// terminal (shift, reduce, accept), where it goes on a nonterminal, or
/// a rejection.
#[derive(Clone, Copy, PartialEq, Eq, Structural, Debug)]
pub enum Action {
    Shift(usize),
    Reduce(usize),
    Goto(usize),
    Accept,
    Error,
}

/// The action/goto table of the automaton: read-only static data, one
/// arm per populated cell. Columns 0..=17 are the terminals in token
/// order, 18..=26 the nonterminals.
pub fn table_action(state: usize, sym: usize) -> Action {
    match state {
        0 => if sym == 0 { Action::Shift(1) } else if sym == 1 { Action::Shift(2) } else if sym == 14 { Action::Shift(10) } else if sym == 15 { Action::Shift(3) } else if sym == 18 { Action::Goto(4) } else if sym == 19 { Action::Goto(5) } else if sym == 20 { Action::Goto(6) } else { Action::Error },
        1 => if sym == 4 { Action::Shift(7) } else { Action::Error },
        2 => if sym == 6 { Action::Shift(8) } else { Action::Error },
        3 => if sym == 6 { Action::Shift(9) } else { Action::Error },
        4 => if sym == 14 { Action::Shift(10) } else { Action::Error },
        5 => if sym == 3 { Action::Shift(11) } else if sym <= 17 { Action::Reduce(1) } else { Action::Error },
        6 => if sym <= 17 { Action::Reduce(3) } else { Action::Error },
        7 => if sym == 0 { Action::Shift(12) } else if sym == 2 { Action::Shift(13) } else if sym == 6 { Action::Shift(14) } else if sym == 22 { Action::Goto(15) } else if sym == 24 { Action::Goto(16) } else if sym == 25 { Action::Goto(17) } else { Action::Error },
        8 => if sym == 0 { Action::Shift(12) } else if sym == 2 { Action::Shift(13) } else if sym == 6 { Action::Shift(14) } else if sym == 21 { Action::Goto(18) } else if sym == 22 { Action::Goto(19) } else if sym == 24 { Action::Goto(16) } else if sym == 25 { Action::Goto(17) } else { Action::Error },
        9 => if sym == 0 { Action::Shift(1) } else if sym == 20 { Action::Goto(20) } else { Action::Error },
        10 => if sym <= 17 { Action::Accept } else { Action::Error },
        11 => if sym == 0 { Action::Shift(1) } else if sym == 1 { Action::Shift(2) } else if sym == 15 { Action::Shift(3) } else if sym == 19 { Action::Goto(21) } else if sym == 20 { Action::Goto(6) } else { Action::Error },
        12 => if sym == 10 { Action::Shift(22) } else if sym == 11 { Action::Shift(23) } else if sym == 12 { Action::Shift(24) } else if sym == 13 { Action::Shift(25) } else if sym <= 17 { Action::Reduce(9) } else if sym == 26 { Action::Goto(26) } else { Action::Error },
        13 => if sym == 10 { Action::Shift(22) } else if sym == 11 { Action::Shift(23) } else if sym == 12 { Action::Shift(24) } else if sym == 13 { Action::Shift(25) } else if sym <= 17 { Action::Reduce(10) } else if sym == 26 { Action::Goto(27) } else { Action::Error },
        14 => if sym == 0 { Action::Shift(1) } else if sym == 1 { Action::Shift(2) } else if sym == 15 { Action::Shift(3) } else if sym == 19 { Action::Goto(28) } else if sym == 20 { Action::Goto(6) } else { Action::Error },
        15 => if sym <= 17 { Action::Reduce(6) } else { Action::Error },
        16 => if sym <= 17 { Action::Reduce(11) } else { Action::Error },
        17 => if sym <= 17 { Action::Reduce(12) } else { Action::Error },
        18 => if sym == 5 { Action::Shift(29) } else { Action::Error },
        19 => if sym == 9 { Action::Shift(30) } else if sym <= 17 { Action::Reduce(8) } else { Action::Error },
        20 => if sym == 3 { Action::Shift(31) } else { Action::Error },
        21 => if sym <= 17 { Action::Reduce(2) } else { Action::Error },
        22 => if sym <= 17 { Action::Reduce(18) } else { Action::Error },
        23 => if sym <= 17 { Action::Reduce(19) } else { Action::Error },
        24 => if sym <= 17 { Action::Reduce(20) } else { Action::Error },
        25 => if sym <= 17 { Action::Reduce(21) } else { Action::Error },
        26 => if sym == 0 { Action::Shift(12) } else if sym == 2 { Action::Shift(13) } else if sym == 6 { Action::Shift(14) } else if sym == 22 { Action::Goto(32) } else if sym == 24 { Action::Goto(16) } else if sym == 25 { Action::Goto(17) } else { Action::Error },
        27 => if sym == 0 { Action::Shift(12) } else if sym == 2 { Action::Shift(13) } else if sym == 6 { Action::Shift(14) } else if sym == 22 { Action::Goto(33) } else if sym == 24 { Action::Goto(16) } else if sym == 25 { Action::Goto(17) } else { Action::Error },
        28 => if sym == 3 { Action::Shift(11) } else if sym == 9 { Action::Shift(34) } else { Action::Error },
        29 => if sym <= 17 { Action::Reduce(4) } else { Action::Error },
        30 => if sym == 0 { Action::Shift(12) } else if sym == 2 { Action::Shift(13) } else if sym == 6 { Action::Shift(14) } else if sym == 21 { Action::Goto(35) } else if sym == 22 { Action::Goto(19) } else if sym == 24 { Action::Goto(16) } else if sym == 25 { Action::Goto(17) } else { Action::Error },
        31 => if sym == 0 { Action::Shift(12) } else if sym == 2 { Action::Shift(13) } else if sym == 6 { Action::Shift(14) } else if sym == 22 { Action::Goto(36) } else if sym == 23 { Action::Goto(37) } else if sym == 24 { Action::Goto(16) } else if sym == 25 { Action::Goto(17) } else { Action::Error },
        32 => if sym <= 17 { Action::Reduce(15) } else { Action::Error },
        33 => if sym <= 17 { Action::Reduce(16) } else { Action::Error },
        34 => if sym == 0 { Action::Shift(12) } else if sym == 2 { Action::Shift(13) } else if sym == 6 { Action::Shift(14) } else if sym == 22 { Action::Goto(38) } else if sym == 24 { Action::Goto(16) } else if sym == 25 { Action::Goto(17) } else { Action::Error },
        35 => if sym <= 17 { Action::Reduce(7) } else { Action::Error },
        36 => if sym == 16 { Action::Shift(39) } else if sym == 17 { Action::Shift(40) } else { Action::Error },
        37 => if sym == 3 { Action::Shift(41) } else { Action::Error },
        38 => if sym == 5 { Action::Shift(42) } else { Action::Error },
        39 => if sym == 0 { Action::Shift(12) } else if sym == 2 { Action::Shift(13) } else if sym == 6 { Action::Shift(14) } else if sym == 22 { Action::Goto(43) } else if sym == 24 { Action::Goto(16) } else if sym == 25 { Action::Goto(17) } else { Action::Error },
        40 => if sym == 0 { Action::Shift(12) } else if sym == 2 { Action::Shift(13) } else if sym == 6 { Action::Shift(14) } else if sym == 22 { Action::Goto(44) } else if sym == 24 { Action::Goto(16) } else if sym == 25 { Action::Goto(17) } else { Action::Error },
        41 => if sym == 0 { Action::Shift(1) } else if sym == 20 { Action::Goto(45) } else { Action::Error },
        42 => if sym <= 17 { Action::Reduce(17) } else { Action::Error },
        43 => if sym <= 17 { Action::Reduce(13) } else { Action::Error },
        44 => if sym <= 17 { Action::Reduce(14) } else { Action::Error },
        45 => if sym == 5 { Action::Shift(46) } else { Action::Error },
        46 => if sym == 8 { Action::Shift(47) } else { Action::Error },
        47 => if sym == 0 { Action::Shift(1) } else if sym == 1 { Action::Shift(2) } else if sym == 15 { Action::Shift(3) } else if sym == 18 { Action::Goto(48) } else if sym == 19 { Action::Goto(5) } else if sym == 20 { Action::Goto(6) } else { Action::Error },
        48 => if sym == 7 { Action::Shift(49) } else { Action::Error },
        49 => if sym <= 17 { Action::Reduce(5) } else { Action::Error },
        _ => Action::Error,
    }
}

/// The table column of a terminal token.
pub fn token_index(t: &Token) -> (i: usize)
    ensures
        i <= 17,
{
    match t {
        Token::ID(_, _) => 0,
        Token::Print(_) => 1,
        Token::Num(_, _) => 2,
        Token::Semicolon(_) => 3,
        Token::Assign(_) => 4,
        Token::RightParen(_) => 5,
        Token::LeftParen(_) => 6,
        Token::RightCurl(_) => 7,
        Token::LeftCurl(_) => 8,
        Token::Comma(_) => 9,
        Token::Add(_) => 10,
        Token::Subtract(_) => 11,
        Token::Multiply(_) => 12,
        Token::Divide(_) => 13,
        Token::EndOfFile(_) => 14,
        Token::For(_) => 15,
        Token::LessThan(_) => 16,
        Token::GreaterThan(_) => 17,
    }
}

/// The table column of a production's left-hand nonterminal, and the
/// length of its right-hand side.
pub fn prod_info(prod: usize) -> (r: (usize, usize))
    ensures
        r.1 <= 11,
{
    match prod {
        1 => (18, 1),
        2 => (19, 3),
        3 => (19, 1),
        4 => (19, 4),
        5 => (19, 11),
        6 => (20, 3),
        7 => (21, 3),
        8 => (21, 1),
        9 => (22, 1),
        10 => (22, 1),
        11 => (22, 1),
        12 => (22, 1),
        13 => (23, 3),
        14 => (23, 3),
        15 => (24, 3),
        16 => (24, 3),
        17 => (25, 5),
        18 => (26, 1),
        19 => (26, 1),
        20 => (26, 1),
        21 => (26, 1),
        _ => (18, 0),
    }
}

/// The name of the nonterminal in a goto column, as it is pushed onto
/// the parse stack after a reduction.
pub fn nonterminal_value(col: usize) -> String {
    if col == 18 {
        String::from_str("prog")
    } else if col == 19 {
        String::from_str("stm")
    } else if col == 20 {
        String::from_str("assignstm")
    } else if col == 21 {
        String::from_str("explist")
    } else if col == 22 {
        String::from_str("exp")
    } else if col == 23 {
        String::from_str("compexp")
    } else if col == 24 {
        String::from_str("opexp")
    } else if col == 25 {
        String::from_str("eseqexp")
    } else if col == 26 {
        String::from_str("binop")
    } else {
        String::new()
    }
}

/// Run the automaton over the token stream and build the program's
/// statement through the reduction actions.
///
/// Returns the parse error of the token the automaton rejects, or of
/// the position where an internal invariant broke (a malformed stack).
/// The step budget of thirty-two automaton steps per token exceeds any
/// derivation this grammar has, so it never cuts a valid parse short.
pub fn parse(tokens: &Vec<Token>) -> (r: Result<Stm, ParseError>)
    requires
        tokens@.len() >= 1,
{
    let n = tokens.len();
    let mut tok_index: usize = 0;
    let mut parse_stack: Vec<StackItem> = Vec::new();
    parse_stack.push(StackItem::State(0));
    let mut icg_stack: Vec<AstItem> = Vec::new();
    let mut fuel: usize = if n < 0x0100_0000 {
        32 * n + 64
    } else {
        usize::MAX
    };
    while fuel > 0
        invariant
            n == tokens@.len(),
            n >= 1,
        decreases fuel,
    {
        fuel -= 1;
        let ti = if tok_index < n {
            tok_index
        } else {
            n - 1
        };
        let state = match parse_stack.last() {
            Some(StackItem::State(s)) => *s,
            _ => {
                return Err(throw_err(&tokens[ti], &tok_index));
            },
        };
        let action = table_action(state, token_index(&tokens[ti]));
        match action {
            Action::Shift(next_state) => {
                parse_stack.push(StackItem::Value(tokens[ti].val()));
                parse_stack.push(StackItem::State(next_state));
                if tok_index < usize::MAX {
                    tok_index += 1;
                }
            },
            Action::Reduce(prod) => {
                let (result_col, prod_len) = prod_info(prod);
                let pop_amount = 2 * prod_len;
                if parse_stack.len() < pop_amount {
                    return Err(throw_err(&tokens[ti], &tok_index));
                }
                let mut s = StackItem::Value(String::new());
                let mut p: usize = 0;
                let ghost len0 = parse_stack@.len();
                while p < pop_amount
                    invariant
                        p <= pop_amount,
                        parse_stack@.len() == len0 - p,
                        len0 >= pop_amount,
                    decreases pop_amount - p,
                {
                    s = parse_stack.pop().unwrap();
                    p += 1;
                }
                let state2 = match parse_stack.last() {
                    Some(StackItem::State(s2)) => *s2,
                    _ => {
                        return Err(throw_err(&tokens[ti], &tok_index));
                    },
                };
                let next_state = match table_action(state2, result_col) {
                    Action::Goto(g) => g,
                    _ => {
                        return Err(throw_err(&tokens[ti], &tok_index));
                    },
                };
                parse_stack.push(StackItem::Value(nonterminal_value(result_col)));
                parse_stack.push(StackItem::State(next_state));
                match gen_line(prod, &mut icg_stack, s) {
                    Ok(_) => {},
                    Err(_) => {
                        return Err(throw_err(&tokens[ti], &tok_index));
                    },
                }
            },
            Action::Accept => {
                return match icg_stack.pop() {
                    Some(AstItem::Stm(prog)) => Ok(prog),
                    _ => Err(throw_err(&tokens[ti], &tok_index)),
                };
            },
            _ => {
                return Err(throw_err(&tokens[ti], &tok_index));
            },
        }
    }
    let ti = if tok_index < n {
        tok_index
    } else {
        n - 1
    };
    Err(throw_err(&tokens[ti], &tok_index))
}

} // verus!
