//! The tokenizer: a small character-level state machine over the source
//! text. A `$` acts as an end-of-input sentinel: one is processed after
//! the last character, and one inside the text stops tokenizing there.

use vstd::prelude::*;

verus! {

/// A lexical token, carrying the source line it was found on.
#[derive(Clone, PartialEq, Eq, Debug)]
pub enum Token {
    ID(String, usize),
    Print(usize),
    Num(String, usize),
    Semicolon(usize),
    Assign(usize),
    RightParen(usize),
    LeftParen(usize),
    RightCurl(usize),
    LeftCurl(usize),
    Comma(usize),
    Add(usize),
    Subtract(usize),
    Multiply(usize),
    Divide(usize),
    EndOfFile(usize),
    For(usize),
    LessThan(usize),
    GreaterThan(usize),
}

/// The mathematical shape of a token: as `Token`, with the text of an
/// identifier or number literal as a character sequence.
pub enum TokenV {
    ID(Seq<char>, usize),
    Print(usize),
    Num(Seq<char>, usize),
    Semicolon(usize),
    Assign(usize),
    RightParen(usize),
    LeftParen(usize),
    RightCurl(usize),
    LeftCurl(usize),
    Comma(usize),
    Add(usize),
    Subtract(usize),
    Multiply(usize),
    Divide(usize),
    EndOfFile(usize),
    For(usize),
    LessThan(usize),
    GreaterThan(usize),
}

/// The shape of a token value.
pub open spec fn token_view(t: Token) -> TokenV {
    match t {
        Token::ID(s, l) => TokenV::ID(s@, l),
        Token::Print(l) => TokenV::Print(l),
        Token::Num(s, l) => TokenV::Num(s@, l),
        Token::Semicolon(l) => TokenV::Semicolon(l),
        Token::Assign(l) => TokenV::Assign(l),
        Token::RightParen(l) => TokenV::RightParen(l),
        Token::LeftParen(l) => TokenV::LeftParen(l),
        Token::RightCurl(l) => TokenV::RightCurl(l),
        Token::LeftCurl(l) => TokenV::LeftCurl(l),
        Token::Comma(l) => TokenV::Comma(l),
        Token::Add(l) => TokenV::Add(l),
        Token::Subtract(l) => TokenV::Subtract(l),
        Token::Multiply(l) => TokenV::Multiply(l),
        Token::Divide(l) => TokenV::Divide(l),
        Token::EndOfFile(l) => TokenV::EndOfFile(l),
        Token::For(l) => TokenV::For(l),
        Token::LessThan(l) => TokenV::LessThan(l),
        Token::GreaterThan(l) => TokenV::GreaterThan(l),
    }
}

/// The name of a token's kind, as the parse table knows it.
pub open spec fn token_name_spec(t: Token) -> Seq<char> {
    match t {
        Token::ID(_, _) => "ID"@,
        Token::Print(_) => "Print"@,
        Token::Num(_, _) => "Num"@,
        Token::Semicolon(_) => "Semicolon"@,
        Token::Assign(_) => "Assign"@,
        Token::RightParen(_) => "RightParen"@,
        Token::LeftParen(_) => "LeftParen"@,
        Token::RightCurl(_) => "RightCurl"@,
        Token::LeftCurl(_) => "LeftCurl"@,
        Token::Comma(_) => "Comma"@,
        Token::Add(_) => "Add"@,
        Token::Subtract(_) => "Subtract"@,
        Token::Multiply(_) => "Multiply"@,
        Token::Divide(_) => "Divide"@,
        Token::EndOfFile(_) => "EndOfFile"@,
        Token::For(_) => "For"@,
        Token::LessThan(_) => "LessThan"@,
        Token::GreaterThan(_) => "GreaterThan"@,
    }
}

/// The source line a token carries.
pub open spec fn token_line_spec(t: Token) -> usize {
    match t {
        Token::ID(_, line) => line,
        Token::Print(line) => line,
        Token::Num(_, line) => line,
        Token::Semicolon(line) => line,
        Token::Assign(line) => line,
        Token::RightParen(line) => line,
        Token::LeftParen(line) => line,
        Token::RightCurl(line) => line,
        Token::LeftCurl(line) => line,
        Token::Comma(line) => line,
        Token::Add(line) => line,
        Token::Subtract(line) => line,
        Token::Multiply(line) => line,
        Token::Divide(line) => line,
        Token::EndOfFile(line) => line,
        Token::For(line) => line,
        Token::LessThan(line) => line,
        Token::GreaterThan(line) => line,
    }
}

/// The text a token carries: an identifier's name or a literal's
/// digits; every other kind carries none.
pub open spec fn token_val_spec(t: Token) -> Seq<char> {
    match t {
        Token::ID(val, _) => val@,
        Token::Num(val, _) => val@,
        _ => Seq::empty(),
    }
}

impl Token {
    /// The name of this token's kind.
    pub fn name(&self) -> (r: &str)
        ensures
            r@ == token_name_spec(*self),
    {
        match self {
            Token::ID(_, _) => "ID",
            Token::Print(_) => "Print",
            Token::Num(_, _) => "Num",
            Token::Semicolon(_) => "Semicolon",
            Token::Assign(_) => "Assign",
            Token::RightParen(_) => "RightParen",
            Token::LeftParen(_) => "LeftParen",
            Token::RightCurl(_) => "RightCurl",
            Token::LeftCurl(_) => "LeftCurl",
            Token::Comma(_) => "Comma",
            Token::Add(_) => "Add",
            Token::Subtract(_) => "Subtract",
            Token::Multiply(_) => "Multiply",
            Token::Divide(_) => "Divide",
            Token::EndOfFile(_) => "EndOfFile",
            Token::For(_) => "For",
            Token::LessThan(_) => "LessThan",
            Token::GreaterThan(_) => "GreaterThan",
        }
    }

    /// The source line this token was found on.
    pub fn line(&self) -> (r: usize)
        ensures
            r == token_line_spec(*self),
    {
        match self {
            Token::ID(_, line) => *line,
            Token::Print(line) => *line,
            Token::Num(_, line) => *line,
            Token::Semicolon(line) => *line,
            Token::Assign(line) => *line,
            Token::RightParen(line) => *line,
            Token::LeftParen(line) => *line,
            Token::RightCurl(line) => *line,
            Token::LeftCurl(line) => *line,
            Token::Comma(line) => *line,
            Token::Add(line) => *line,
            Token::Subtract(line) => *line,
            Token::Multiply(line) => *line,
            Token::Divide(line) => *line,
            Token::EndOfFile(line) => *line,
            Token::For(line) => *line,
            Token::LessThan(line) => *line,
            Token::GreaterThan(line) => *line,
        }
    }

    /// The text this token carries, if its kind carries any.
    pub fn val(&self) -> (r: String)
        ensures
            r@ == token_val_spec(*self),
    {
        match self {
            Token::ID(val, _) => val.clone(),
            Token::Num(val, _) => val.clone(),
            _ => String::new(),
        }
    }
}

/// Token sequences of matching shape, element by element.
pub open spec fn views_match(ts: Seq<Token>, vs: Seq<TokenV>) -> bool {
    &&& ts.len() == vs.len()
    &&& forall|i: int| 0 <= i < ts.len() ==> token_view(#[trigger] ts[i]) == vs[i]
}

/// The characters that end a token: whitespace, the sentinel, and every
/// single-character operator or bracket of the language.
pub open spec fn is_delim(c: char) -> bool {
    c == ' ' || c == '(' || c == ')' || c == '}' || c == '{' || c == '/' || c == '+' || c == '-'
        || c == '$' || c == '*' || c == ';' || c == ',' || c == '<' || c == '>'
}

/// Is `chr` a delimiter character?
pub fn is_delimiter(chr: char) -> (r: bool)
    ensures
        r == is_delim(chr),
{
    chr == ' ' || chr == '(' || chr == ')' || chr == '}' || chr == '{' || chr == '/' || chr == '+'
        || chr == '-' || chr == '$' || chr == '*' || chr == ';' || chr == ',' || chr == '<' || chr
        == '>'
}

/// The token a delimiter stands for, if it stands for one: a space or
/// the `$` sentinel produce none.
pub open spec fn delim_token(c: char, line: usize) -> Seq<TokenV> {
    if c == '(' {
        seq![TokenV::LeftParen(line)]
    } else if c == ')' {
        seq![TokenV::RightParen(line)]
    } else if c == '{' {
        seq![TokenV::LeftCurl(line)]
    } else if c == '}' {
        seq![TokenV::RightCurl(line)]
    } else if c == '/' {
        seq![TokenV::Divide(line)]
    } else if c == '+' {
        seq![TokenV::Add(line)]
    } else if c == '-' {
        seq![TokenV::Subtract(line)]
    } else if c == '*' {
        seq![TokenV::Multiply(line)]
    } else if c == ';' {
        seq![TokenV::Semicolon(line)]
    } else if c == ',' {
        seq![TokenV::Comma(line)]
    } else if c == '<' {
        seq![TokenV::LessThan(line)]
    } else if c == '>' {
        seq![TokenV::GreaterThan(line)]
    } else {
        Seq::empty()
    }
}

/// The token a delimiter character stands for, and whether it stands
/// for one at all (a space or `$` does not; the token returned then is
/// a placeholder, not part of the stream).
pub fn make_delim_token(chr: char, line: usize) -> (r: (Token, bool))
    ensures
        delim_token(chr, line) == if r.1 {
            seq![token_view(r.0)]
        } else {
            Seq::<TokenV>::empty()
        },
        !r.1 ==> r.0 == Token::EndOfFile(line),
{
    match chr {
        '(' => (Token::LeftParen(line), true),
        ')' => (Token::RightParen(line), true),
        '{' => (Token::LeftCurl(line), true),
        '}' => (Token::RightCurl(line), true),
        '/' => (Token::Divide(line), true),
        '+' => (Token::Add(line), true),
        '-' => (Token::Subtract(line), true),
        '*' => (Token::Multiply(line), true),
        ';' => (Token::Semicolon(line), true),
        ',' => (Token::Comma(line), true),
        '<' => (Token::LessThan(line), true),
        '>' => (Token::GreaterThan(line), true),
        _ => (Token::EndOfFile(line), false),
    }
}

/// A letter of either case.
pub open spec fn is_letter(c: char) -> bool {
    ('a' <= c && c <= 'z') || ('A' <= c && c <= 'Z')
}

/// A decimal digit.
pub open spec fn is_digit(c: char) -> bool {
    '0' <= c && c <= '9'
}

/// The word flushed at the end of an identifier: the two keywords, or a
/// plain identifier.
pub open spec fn word_token(tok: Seq<char>, line: usize) -> TokenV {
    if tok == "print"@ {
        TokenV::Print(line)
    } else if tok == "for"@ {
        TokenV::For(line)
    } else {
        TokenV::ID(tok, line)
    }
}

/// The next source line number: advances at a line feed, and saturates
/// rather than wrap (no source has that many lines).
pub open spec fn next_line(line: usize) -> usize {
    if line == usize::MAX {
        line
    } else {
        (line + 1) as usize
    }
}

/// One step of the tokenizer's state machine: from the current state,
/// the pending token text and the line counter, on one character, to
/// the next state, text and line, and the tokens emitted — or the
/// invalid-character error.
///
/// States: 0 between tokens, 1 inside a word, 3 inside a number,
/// 4 inside a number after its dot, 5 after a `:`.
pub open spec fn lex_char(c: char, state: u8, tok: Seq<char>, line: usize) -> Result<
    (u8, Seq<char>, usize, Seq<TokenV>),
    crate::errors::TokenError,
> {
    if state == 0 {
        if is_letter(c) {
            Ok((1u8, tok.push(c), line, Seq::empty()))
        } else if is_digit(c) {
            Ok((3u8, tok.push(c), line, Seq::empty()))
        } else if is_delim(c) {
            Ok((0u8, tok, line, delim_token(c, line)))
        } else if c == ':' {
            Ok((5u8, tok.push(c), line, Seq::empty()))
        } else if c == '\r' {
            Ok((0u8, tok, line, Seq::empty()))
        } else if c == '\n' {
            Ok((0u8, tok, next_line(line), Seq::empty()))
        } else {
            Err(crate::errors::TokenError::InvalidCharacter(c))
        }
    } else if state == 1 {
        if is_letter(c) || is_digit(c) || c == '_' {
            Ok((1u8, tok.push(c), line, Seq::empty()))
        } else if is_delim(c) {
            Ok((0u8, Seq::empty(), line, seq![word_token(tok, line)] + delim_token(c, line)))
        } else if c == ':' {
            Ok((5u8, seq![':'], line, seq![word_token(tok, line)]))
        } else if c == '\r' || c == '\n' {
            Ok((1u8, tok, line, Seq::empty()))
        } else {
            Err(crate::errors::TokenError::InvalidCharacter(c))
        }
    } else if state == 3 {
        if is_digit(c) {
            Ok((3u8, tok.push(c), line, Seq::empty()))
        } else if c == '.' {
            Ok((4u8, tok.push(c), line, Seq::empty()))
        } else if is_delim(c) {
            Ok((0u8, Seq::empty(), line, seq![TokenV::Num(tok, line)] + delim_token(c, line)))
        } else if c == '\r' || c == '\n' {
            Ok((3u8, tok, line, Seq::empty()))
        } else {
            Err(crate::errors::TokenError::InvalidCharacter(c))
        }
    } else if state == 4 {
        if is_digit(c) {
            Ok((4u8, tok.push(c), line, Seq::empty()))
        } else if is_delim(c) {
            Ok((0u8, Seq::empty(), line, seq![TokenV::Num(tok, line)] + delim_token(c, line)))
        } else if c == '\r' || c == '\n' {
            Ok((4u8, tok, line, Seq::empty()))
        } else {
            Err(crate::errors::TokenError::InvalidCharacter(c))
        }
    } else if state == 5 {
        if c == '=' {
            Ok((0u8, Seq::empty(), line, seq![TokenV::Assign(line)]))
        } else {
            Err(crate::errors::TokenError::InvalidCharacter(c))
        }
    } else {
        Ok((state, tok, line, Seq::empty()))
    }
}

/// The whole tokenization, from the characters left to read and the
/// machine's current state: runs `lex_char` over the characters, stops
/// at a `$` (or, when the characters run out, at the implied `$`
/// sentinel), and ends the stream with an end-of-file token.
pub open spec fn spec_lex(
    cs: Seq<char>,
    state: u8,
    tok: Seq<char>,
    line: usize,
    acc: Seq<TokenV>,
) -> Result<Seq<TokenV>, crate::errors::TokenError>
    decreases cs.len(),
{
    if cs.len() == 0 {
        match lex_char('$', state, tok, line) {
            Ok(step) => Ok(acc + step.3 + seq![TokenV::EndOfFile(step.2)]),
            Err(e) => Err(e),
        }
    } else {
        match lex_char(cs[0], state, tok, line) {
            Ok(step) => {
                if cs[0] == '$' {
                    Ok(acc + step.3 + seq![TokenV::EndOfFile(step.2)])
                } else {
                    spec_lex(cs.drop_first(), step.0, step.1, step.2, acc + step.3)
                }
            },
            Err(e) => Err(e),
        }
    }
}

/// What `tokenize` computes over the view of its input.
pub open spec fn spec_tokenize(cs: Seq<char>) -> Result<
    Seq<TokenV>,
    crate::errors::TokenError,
> {
    spec_lex(cs, 0u8, Seq::empty(), 1, Seq::empty())
}

/// Relies on `String::push`: appends exactly the given character to the
/// string's characters.
#[verifier::external_body]
pub(crate) fn push_char(s: &mut String, c: char)
    ensures
        final(s)@ == old(s)@.push(c),
{
    s.push(c);
}

/// The token text collected so far, as an owned string.
fn chars_to_string(cs: &Vec<char>) -> (s: String)
    ensures
        s@ == cs@,
{
    let n = cs.len();
    let mut s = String::new();
    let mut i: usize = 0;
    while i < n
        invariant
            i <= n,
            n == cs@.len(),
            s@ == cs@.subrange(0, i as int),
        decreases n - i,
    {
        push_char(&mut s, cs[i]);
        assert(s@ =~= cs@.subrange(0, i + 1));
        i += 1;
    }
    assert(s@ =~= cs@);
    s
}

/// The keyword check at the end of a word, and the token it flushes.
fn flush_word(tok: &Vec<char>, line: usize) -> (r: Token)
    ensures
        token_view(r) == word_token(tok@, line),
{
    let s = chars_to_string(tok);
    if s == String::from_str("print") {
        Token::Print(line)
    } else if s == String::from_str("for") {
        Token::For(line)
    } else {
        Token::ID(s, line)
    }
}

/// Tokenize the source text, mirroring `spec_tokenize` over its
/// characters: the token stream of the text up to and including the
/// first `$` (or all of it, with `$` implied at its end), closed by an
/// end-of-file token — or the first invalid character.
pub fn tokenize(input: String) -> (r: Result<Vec<Token>, crate::errors::TokenError>)
    ensures
        match r {
            Ok(toks) => spec_tokenize(input@) matches Ok(tvs) && views_match(toks@, tvs),
            Err(e) => spec_tokenize(input@) == Err::<Seq<TokenV>, crate::errors::TokenError>(e),
        },
{
    let len = input.as_str().unicode_len();
    let mut tok_list: Vec<Token> = Vec::new();
    let mut state: u8 = 0;
    let mut tok: Vec<char> = Vec::new();
    let mut curr_line: usize = 1;
    let mut i: usize = 0;
    let ghost mut acc: Seq<TokenV> = Seq::empty();
    proof {
        assert(input@.subrange(0, len as int) =~= input@);
    }
    while i <= len
        invariant
            i <= len,
            len == input@.len(),
            views_match(tok_list@, acc),
            spec_tokenize(input@) == spec_lex(
                input@.subrange(i as int, len as int),
                state,
                tok@,
                curr_line,
                acc,
            ),
        decreases len - i + 1,
    {
        let chr = if i < len {
            input.as_str().get_char(i)
        } else {
            '$'
        };
        let ghost rest = input@.subrange(i as int, len as int);
        let ghost state_pre = state;
        let ghost tok_pre = tok@;
        let ghost line_pre = curr_line;
        let ghost acc_pre = acc;
        proof {
            if i < len {
                assert(rest[0] == input@[i as int]);
                assert(rest.drop_first() =~= input@.subrange(i + 1, len as int));
            }
        }
        // one machine step on chr, mirroring lex_char arm by arm
        let mut step_err = false;
        if state == 0 {
            if (chr >= 'a' && chr <= 'z') || (chr >= 'A' && chr <= 'Z') {
                state = 1;
                tok.push(chr);
            } else if chr >= '0' && chr <= '9' {
                state = 3;
                tok.push(chr);
            } else if is_delimiter(chr) {
                let (delim_tok, tokenable) = make_delim_token(chr, curr_line);
                if tokenable {
                    tok_list.push(delim_tok);
                }
                proof {
                    acc = acc + delim_token(chr, curr_line);
                }
            } else if chr == ':' {
                state = 5;
                tok.push(chr);
            } else if chr == '\r' {
            } else if chr == '\n' {
                if curr_line < usize::MAX {
                    curr_line += 1;
                }
            } else {
                step_err = true;
            }
        } else if state == 1 {
            if (chr >= 'a' && chr <= 'z') || (chr >= 'A' && chr <= 'Z') || (chr >= '0' && chr
                <= '9') || chr == '_' {
                tok.push(chr);
            } else if is_delimiter(chr) {
                let word = flush_word(&tok, curr_line);
                tok_list.push(word);
                tok.clear();
                let (delim_tok, tokenable) = make_delim_token(chr, curr_line);
                if tokenable {
                    tok_list.push(delim_tok);
                }
                proof {
                    acc = acc + seq![word_token(tok_pre, curr_line)] + delim_token(chr, curr_line);
                }
                state = 0;
            } else if chr == ':' {
                let word = flush_word(&tok, curr_line);
                tok_list.push(word);
                tok.clear();
                proof {
                    acc = acc + seq![word_token(tok_pre, curr_line)];
                }
                state = 5;
                tok.push(chr);
            } else if chr == '\r' || chr == '\n' {
            } else {
                step_err = true;
            }
        } else if state == 3 {
            if chr >= '0' && chr <= '9' {
                tok.push(chr);
            } else if chr == '.' {
                state = 4;
                tok.push(chr);
            } else if is_delimiter(chr) {
                let text = chars_to_string(&tok);
                tok_list.push(Token::Num(text, curr_line));
                tok.clear();
                let (delim_tok, tokenable) = make_delim_token(chr, curr_line);
                if tokenable {
                    tok_list.push(delim_tok);
                }
                proof {
                    acc = acc + seq![TokenV::Num(tok_pre, curr_line)] + delim_token(chr, curr_line);
                }
                state = 0;
            } else if chr == '\r' || chr == '\n' {
            } else {
                step_err = true;
            }
        } else if state == 4 {
            if chr >= '0' && chr <= '9' {
                tok.push(chr);
            } else if is_delimiter(chr) {
                let text = chars_to_string(&tok);
                tok_list.push(Token::Num(text, curr_line));
                tok.clear();
                let (delim_tok, tokenable) = make_delim_token(chr, curr_line);
                if tokenable {
                    tok_list.push(delim_tok);
                }
                proof {
                    acc = acc + seq![TokenV::Num(tok_pre, curr_line)] + delim_token(chr, curr_line);
                }
                state = 0;
            } else if chr == '\r' || chr == '\n' {
            } else {
                step_err = true;
            }
        } else if state == 5 {
            if chr == '=' {
                tok.clear();
                tok_list.push(Token::Assign(curr_line));
                proof {
                    acc = acc + seq![TokenV::Assign(curr_line)];
                }
                state = 0;
            } else {
                step_err = true;
            }
        }
        if step_err {
            proof {
                assert(lex_char(chr, state_pre, tok_pre, line_pre) == Err::<
                    (u8, Seq<char>, usize, Seq<TokenV>),
                    crate::errors::TokenError,
                >(crate::errors::TokenError::InvalidCharacter(chr)));
            }
            return Err(crate::errors::TokenError::InvalidCharacter(chr));
        }
        proof {
            let step = lex_char(chr, state_pre, tok_pre, line_pre);
            assert(step matches Ok(s) && s.0 == state && s.1 == tok@ && s.2 == curr_line && acc
                =~= acc_pre + s.3);
        }
        if chr == '$' {
            tok_list.push(Token::EndOfFile(curr_line));
            proof {
                let step = lex_char(chr, state_pre, tok_pre, line_pre);
                acc = acc + seq![TokenV::EndOfFile(curr_line)];
                assert(acc =~= acc_pre + step->Ok_0.3 + seq![TokenV::EndOfFile(step->Ok_0.2)]);
            }
            return Ok(tok_list);
        }
        i += 1;
    }
    proof {
        assert(false);
    }
    Err(crate::errors::TokenError::InvalidCharacter('$'))
}

} // verus!
