use slp_compiler::ast::{Exp, ExpList, Stm};
use slp_compiler::errors::{throw_err, usize_to_string, ParseError, TokenError};
use slp_compiler::instr::BinOp;
use slp_compiler::ir_code_gen::{gen_line, AstItem, BuildError, StackItem};
use slp_compiler::lex::{tokenize, Token};
use slp_compiler::parser::{parse, prod_info, table_action, token_index, Action};

#[test]
fn gen_line_builds_id_expression() {
    let mut stack: Vec<AstItem> = Vec::new();
    gen_line(9, &mut stack, StackItem::Value(String::from("x"))).unwrap();
    assert_eq!(stack.len(), 1);
    match &stack[0] {
        AstItem::Exp(Exp::Id(id)) => assert_eq!(id.id, String::from("x")),
        other => panic!("expected an identifier expression, got {:?}", other),
    }
}

#[test]
fn gen_line_builds_num_expression() {
    let mut stack: Vec<AstItem> = Vec::new();
    gen_line(10, &mut stack, StackItem::Value(String::from("17"))).unwrap();
    match &stack[0] {
        AstItem::Exp(Exp::Num(num)) => assert_eq!(num.num, String::from("17")),
        other => panic!("expected a number expression, got {:?}", other),
    }
}

#[test]
fn gen_line_builds_compound() {
    let mut stack: Vec<AstItem> = Vec::new();
    gen_line(9, &mut stack, StackItem::Value(String::from("a"))).unwrap();
    gen_line(6, &mut stack, StackItem::Value(String::from("a"))).unwrap();
    gen_line(9, &mut stack, StackItem::Value(String::from("b"))).unwrap();
    gen_line(6, &mut stack, StackItem::Value(String::from("b"))).unwrap();
    gen_line(2, &mut stack, StackItem::Value(String::new())).unwrap();
    assert_eq!(stack.len(), 1);
    match &stack[0] {
        AstItem::Stm(Stm::Compound(c)) => {
            assert!(matches!(&*c.stm1, Stm::Assign(_)));
            assert!(matches!(&*c.stm2, Stm::Assign(_)));
        },
        other => panic!("expected a compound statement, got {:?}", other),
    }
}

#[test]
fn gen_line_builds_operation() {
    let mut stack: Vec<AstItem> = Vec::new();
    gen_line(20, &mut stack, StackItem::Value(String::new())).unwrap();
    gen_line(9, &mut stack, StackItem::Value(String::from("y"))).unwrap();
    gen_line(15, &mut stack, StackItem::Value(String::from("x"))).unwrap();
    assert_eq!(stack.len(), 1);
    match &stack[0] {
        AstItem::Stm(_) | AstItem::ExpList(_) | AstItem::Op(_) => panic!("expected an expression"),
        AstItem::Exp(Exp::Op(op)) => {
            assert!(matches!(op.op, BinOp::Mul));
            assert!(matches!(&*op.left, Exp::Id(id) if id.id == "x"));
            assert!(matches!(&*op.right, Exp::Id(id) if id.id == "y"));
        },
        other => panic!("expected an operation, got {:?}", other),
    }
}

#[test]
fn gen_line_rejects_malformed_stack() {
    let mut stack: Vec<AstItem> = Vec::new();
    // a compound reduction needs two finished statements
    assert_eq!(
        gen_line(2, &mut stack, StackItem::Value(String::new())),
        Err(BuildError::MalformedStack)
    );
    assert_eq!(stack.len(), 0);
    // wrong kinds: two opcodes are not two statements
    gen_line(18, &mut stack, StackItem::Value(String::new())).unwrap();
    gen_line(18, &mut stack, StackItem::Value(String::new())).unwrap();
    assert_eq!(
        gen_line(2, &mut stack, StackItem::Value(String::new())),
        Err(BuildError::MalformedStack)
    );
    // and the stack is left exactly as it was
    assert_eq!(stack.len(), 2);
    assert!(matches!(stack[0], AstItem::Op(BinOp::Add)));
    assert!(matches!(stack[1], AstItem::Op(BinOp::Add)));
}

#[test]
fn gen_line_missing_value_is_fatal_for_id() {
    let mut stack: Vec<AstItem> = Vec::new();
    assert_eq!(
        gen_line(9, &mut stack, StackItem::State(3)),
        Err(BuildError::MalformedStack)
    );
}

#[test]
fn parse_assignment_program() {
    let toks = tokenize(String::from("x := 5")).unwrap();
    let prog = parse(&toks).unwrap();
    match prog {
        Stm::Assign(assign) => {
            assert!(matches!(&*assign.id, Exp::Id(id) if id.id == "x"));
            assert!(matches!(&*assign.exp, Exp::Num(num) if num.num == "5"));
        },
        other => panic!("expected an assignment, got {:?}", other),
    }
}

#[test]
fn parse_compound_and_print() {
    let toks = tokenize(String::from("x := 1 ; print ( x , 2 )")).unwrap();
    let prog = parse(&toks).unwrap();
    match prog {
        Stm::Compound(c) => {
            assert!(matches!(&*c.stm1, Stm::Assign(_)));
            match &*c.stm2 {
                Stm::Print(p) => match &*p.exps {
                    ExpList::Pair(pair) => {
                        assert!(matches!(&*pair.head, Exp::Id(id) if id.id == "x"));
                        assert!(matches!(&*pair.tail, ExpList::Last(_)));
                    },
                    other => panic!("expected a pair, got {:?}", other),
                },
                other => panic!("expected a print, got {:?}", other),
            }
        },
        other => panic!("expected a compound, got {:?}", other),
    }
}

#[test]
fn parse_for_loop() {
    let toks = tokenize(String::from(
        "for ( i := 0 ; i < 3 ; i := i + 1 ) { x := i }",
    ))
    .unwrap();
    let prog = parse(&toks).unwrap();
    match prog {
        Stm::For(f) => {
            assert!(matches!(&*f.iter, Stm::Assign(_)));
            assert!(matches!(&*f.comp, Exp::Comp(_)));
            assert!(matches!(&*f.inc, Stm::Assign(_)));
            assert!(matches!(&*f.body, Stm::Assign(_)));
        },
        other => panic!("expected a for loop, got {:?}", other),
    }
}

#[test]
fn parse_rejects_bad_program() {
    let toks = tokenize(String::from("x := ;")).unwrap();
    match parse(&toks) {
        Err(ParseError::UnexpectedToken(tok, _, pos)) => {
            assert_eq!(tok, Token::Semicolon(1));
            assert_eq!(pos, 2);
        },
        other => panic!("expected a parse error, got {:?}", other),
    }
}

#[test]
fn throw_err_messages() {
    let eof = Token::EndOfFile(4);
    match throw_err(&eof, &7) {
        ParseError::UnexpectedToken(tok, msg, pos) => {
            assert_eq!(tok, Token::EndOfFile(4));
            assert_eq!(pos, 7);
            assert_eq!(
                msg,
                String::from(
                    ": Potential problem: statement has unneeded semicolon at end of program or for-loop"
                )
            );
        },
    }
    let id = Token::ID(String::from("oops"), 2);
    match throw_err(&id, &1) {
        ParseError::UnexpectedToken(_, msg, _) => assert_eq!(msg, String::from("oops")),
    }
    let curl = Token::RightCurl(5);
    match throw_err(&curl, &0) {
        ParseError::UnexpectedToken(_, msg, _) => assert_eq!(
            msg,
            String::from(": Potential problem: empty For-block not allowed or unneeded semicolon")
        ),
    }
    let comma = Token::Comma(5);
    match throw_err(&comma, &0) {
        ParseError::UnexpectedToken(_, msg, _) => assert_eq!(msg, String::new()),
    }
}

#[test]
fn table_fixed_cells() {
    // state 0 shifts an identifier to state 1 and accepts nothing else odd
    assert_eq!(table_action(0, 0), Action::Shift(1));
    assert_eq!(table_action(0, 22), Action::Error);
    // state 10 accepts on every terminal
    assert_eq!(table_action(10, 14), Action::Accept);
    // state 5 reduces the single-statement program except before `;`
    assert_eq!(table_action(5, 3), Action::Shift(11));
    assert_eq!(table_action(5, 14), Action::Reduce(1));
    assert_eq!(prod_info(5), (19, 11));
    assert_eq!(prod_info(1), (18, 1));
    assert_eq!(token_index(&Token::EndOfFile(1)), 14);
    assert_eq!(token_index(&Token::ID(String::new(), 1)), 0);
}

#[test]
fn error_messages_render() {
    assert_eq!(usize_to_string(0), String::from("0"));
    assert_eq!(usize_to_string(7), String::from("7"));
    assert_eq!(usize_to_string(10), String::from("10"));
    assert_eq!(usize_to_string(90217), String::from("90217"));
    assert_eq!(
        TokenError::InvalidCharacter('?').message(),
        String::from("Invalid input found: ?")
    );
    let err = ParseError::UnexpectedToken(Token::Num(String::from("12"), 3), String::from("12"), 5);
    assert_eq!(
        err.message(),
        String::from("Unexpected token at line 3, pos in token stream: 5: Num 12")
    );
}
