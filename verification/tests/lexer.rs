use slp_compiler::errors::TokenError;
use slp_compiler::lex::{is_delimiter, make_delim_token, tokenize, Token};

#[test]
fn tokenize_assignment() {
    let toks = tokenize(String::from("x := 5 ;")).unwrap();
    assert_eq!(
        toks,
        vec![
            Token::ID(String::from("x"), 1),
            Token::Assign(1),
            Token::Num(String::from("5"), 1),
            Token::Semicolon(1),
            Token::EndOfFile(1),
        ]
    );
}

#[test]
fn tokenize_keywords_and_identifiers() {
    let toks = tokenize(String::from("print for forx print2")).unwrap();
    assert_eq!(
        toks,
        vec![
            Token::Print(1),
            Token::For(1),
            Token::ID(String::from("forx"), 1),
            Token::ID(String::from("print2"), 1),
            Token::EndOfFile(1),
        ]
    );
}

#[test]
fn tokenize_operators_and_brackets() {
    let toks = tokenize(String::from("( ) { } + - * / , < >")).unwrap();
    assert_eq!(
        toks,
        vec![
            Token::LeftParen(1),
            Token::RightParen(1),
            Token::LeftCurl(1),
            Token::RightCurl(1),
            Token::Add(1),
            Token::Subtract(1),
            Token::Multiply(1),
            Token::Divide(1),
            Token::Comma(1),
            Token::LessThan(1),
            Token::GreaterThan(1),
            Token::EndOfFile(1),
        ]
    );
}

#[test]
fn tokenize_counts_lines() {
    let toks = tokenize(String::from("a ;\nbb ;\nc ;")).unwrap();
    assert_eq!(
        toks,
        vec![
            Token::ID(String::from("a"), 1),
            Token::Semicolon(1),
            Token::ID(String::from("bb"), 2),
            Token::Semicolon(2),
            Token::ID(String::from("c"), 3),
            Token::Semicolon(3),
            Token::EndOfFile(3),
        ]
    );
}

#[test]
fn tokenize_stops_at_dollar() {
    // a `$` in the text is the end-of-input sentinel: the rest is ignored
    let toks = tokenize(String::from("ab $ cd")).unwrap();
    assert_eq!(
        toks,
        vec![Token::ID(String::from("ab"), 1), Token::EndOfFile(1)]
    );
}

#[test]
fn tokenize_number_with_dot() {
    // the tokenizer accepts one dot inside a number; rejecting such a
    // literal is the code generator's business
    let toks = tokenize(String::from("3.25 ;")).unwrap();
    assert_eq!(
        toks,
        vec![
            Token::Num(String::from("3.25"), 1),
            Token::Semicolon(1),
            Token::EndOfFile(1),
        ]
    );
}

#[test]
fn tokenize_invalid_character() {
    assert_eq!(
        tokenize(String::from("a ? b")),
        Err(TokenError::InvalidCharacter('?'))
    );
}

#[test]
fn tokenize_colon_needs_equals() {
    assert_eq!(
        tokenize(String::from("a : b")),
        Err(TokenError::InvalidCharacter(' '))
    );
}

#[test]
fn tokenize_empty_input() {
    let toks = tokenize(String::new()).unwrap();
    assert_eq!(toks, vec![Token::EndOfFile(1)]);
}

#[test]
fn delimiters_recognized() {
    for c in [' ', '(', ')', '}', '{', '/', '+', '-', '$', '*', ';', ',', '<', '>'] {
        assert!(is_delimiter(c));
    }
    assert!(!is_delimiter('a'));
    assert!(!is_delimiter('0'));
    assert!(!is_delimiter(':'));
    assert!(!is_delimiter('.'));
}

#[test]
fn delim_tokens() {
    assert_eq!(make_delim_token('(', 3), (Token::LeftParen(3), true));
    assert_eq!(make_delim_token(';', 7), (Token::Semicolon(7), true));
    assert_eq!(make_delim_token('<', 2), (Token::LessThan(2), true));
    // a space and the sentinel stand for no token
    assert_eq!(make_delim_token(' ', 1), (Token::EndOfFile(1), false));
    assert_eq!(make_delim_token('$', 4), (Token::EndOfFile(4), false));
}

#[test]
fn token_accessors() {
    let id = Token::ID(String::from("abc"), 12);
    assert_eq!(id.name(), "ID");
    assert_eq!(id.line(), 12);
    assert_eq!(id.val(), String::from("abc"));

    let num = Token::Num(String::from("42"), 3);
    assert_eq!(num.name(), "Num");
    assert_eq!(num.line(), 3);
    assert_eq!(num.val(), String::from("42"));

    let plus = Token::Add(9);
    assert_eq!(plus.name(), "Add");
    assert_eq!(plus.line(), 9);
    assert_eq!(plus.val(), String::new());

    assert_eq!(Token::For(1).name(), "For");
    assert_eq!(Token::EndOfFile(1).name(), "EndOfFile");
    assert_eq!(Token::GreaterThan(1).name(), "GreaterThan");
}
