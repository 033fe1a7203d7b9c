use slp_compiler::coloring::Color;
use slp_compiler::instr::{AllocError, BinOp, CmpOp, Instr, Operand, PhysReg};
use slp_compiler::regalloc::{compile, register_allocate, CompileError};

/// The classic spill scenario: a loop in which `a` and `b` are live at
/// the same time across the write of `b`, allocated with one register.
/// Variable ids: a = 0, b = 1; labels: loop head = 0, exit = 1.
fn loop_scenario() -> Vec<Instr> {
    vec![
        Instr::Li(PhysReg::T(0), 5),
        Instr::Store(PhysReg::T(0), 0),                                 // store a := 5
        Instr::Label(0),
        Instr::Arith(BinOp::Add, PhysReg::T(1), Operand::Var(0), Operand::Imm(1)),
        Instr::Store(PhysReg::T(1), 1),                                 // store b := a + 1
        Instr::Branch(CmpOp::Ge, Operand::Var(1), Operand::Imm(10), 1), // branch-if b >= 10 to exit
        Instr::Arith(BinOp::Add, PhysReg::T(2), Operand::Var(1), Operand::Imm(1)),
        Instr::Store(PhysReg::T(2), 1),                                 // store b := b + 1
        Instr::Jump(0),                                                 // jump back to the loop head
        Instr::Label(1),
        Instr::Move(PhysReg::A(0), Operand::Var(1)),                    // move $a0 := b
    ]
}

#[test]
fn loop_scenario_interferes_and_spills_with_one_register() {
    let code = loop_scenario();
    let a = register_allocate(&code, 2, 2, 1).unwrap();

    // the interference is exactly the two-element edge {a, b}
    assert!(a.graph.adj[0][1]);
    assert!(a.graph.adj[1][0]);
    assert!(!a.graph.adj[0][0]);
    assert!(!a.graph.adj[1][1]);

    // one of the two is colored, the other spilled
    assert_eq!(a.coloring, vec![Color::Spilled, Color::Colored(0)]);

    // exactly one reserved memory cell is emitted
    assert_eq!(a.cells, vec![0]);

    // the rewritten branch and arithmetic hold the assigned register or
    // a preceding load from the spill slot
    assert_eq!(
        a.code,
        vec![
            Instr::Li(PhysReg::T(0), 5),
            Instr::SlotStore(PhysReg::T(0), 0),
            Instr::Label(0),
            Instr::Load(PhysReg::T(8), 0),
            Instr::Arith(BinOp::Add, PhysReg::T(1), Operand::Reg(PhysReg::T(8)), Operand::Imm(1)),
            Instr::Move(PhysReg::S(0), Operand::Reg(PhysReg::T(1))),
            Instr::Branch(CmpOp::Ge, Operand::Reg(PhysReg::S(0)), Operand::Imm(10), 1),
            Instr::Arith(BinOp::Add, PhysReg::T(2), Operand::Reg(PhysReg::S(0)), Operand::Imm(1)),
            Instr::Move(PhysReg::S(0), Operand::Reg(PhysReg::T(2))),
            Instr::Jump(0),
            Instr::Label(1),
            Instr::Move(PhysReg::A(0), Operand::Reg(PhysReg::S(0))),
        ]
    );
}

#[test]
fn loop_scenario_live_sets() {
    let code = loop_scenario();
    let a = register_allocate(&code, 2, 2, 1).unwrap();
    // a is live from its store down to its read; b across the loop test
    // and beyond; whatever a point reads is in its live-in
    assert_eq!(a.live_in[3], vec![true, false]);
    assert_eq!(a.live_out[4], vec![true, true]);
    assert_eq!(a.live_in[5], vec![true, true]);
    assert_eq!(a.live_in[10], vec![false, true]);
    assert_eq!(a.live_out[10], vec![false, false]);
    assert_eq!(a.live_in[0], vec![false, false]);
}

#[test]
fn no_variable_lives_twice() {
    // no variable both holds a register and gets a memory cell, and the
    // rewritten code touches the cells of spilled variables only
    let code = loop_scenario();
    let a = register_allocate(&code, 2, 2, 1).unwrap();
    for v in 0..2 {
        let has_cell = a.cells.contains(&v);
        let colored = matches!(a.coloring[v], Color::Colored(_));
        assert!(colored != has_cell);
        if colored {
            for ins in &a.code {
                match ins {
                    Instr::Load(_, s) | Instr::SlotStore(_, s) => assert_ne!(*s, v),
                    _ => {},
                }
            }
        }
    }
}

#[test]
fn allocate_rejects_undefined_target() {
    let code = vec![Instr::Jump(1), Instr::Label(0)];
    assert!(matches!(
        register_allocate(&code, 0, 2, 1),
        Err(AllocError::UnresolvedLabel(1))
    ));
}

#[test]
fn allocate_rejects_duplicate_marker() {
    let code = vec![Instr::Label(0), Instr::Label(0)];
    assert!(matches!(
        register_allocate(&code, 0, 1, 1),
        Err(AllocError::DuplicateLabel(0))
    ));
}

#[test]
fn allocate_plenty_of_registers_spills_nothing() {
    let code = loop_scenario();
    let a = register_allocate(&code, 2, 2, 8).unwrap();
    assert_eq!(a.cells, Vec::<usize>::new());
    assert!(a.coloring.iter().all(|c| matches!(c, Color::Colored(_))));
}

#[test]
fn compile_straight_line_program() {
    let c = compile(String::from("x := 5 ; print ( x )"), 1).unwrap();
    assert_eq!(c.var_names, vec![String::from("x")]);
    assert_eq!(
        c.code,
        vec![
            Instr::Li(PhysReg::T(0), 5),
            Instr::Store(PhysReg::T(0), 0),
            Instr::Li(PhysReg::V(0), 1),
            Instr::Move(PhysReg::A(0), Operand::Var(0)),
            Instr::Syscall,
            Instr::Li(PhysReg::V(0), 4),
            Instr::La(PhysReg::A(0)),
            Instr::Syscall,
        ]
    );
    // x gets the one register; nothing is spilled
    assert_eq!(c.allocation.coloring, vec![Color::Colored(0)]);
    assert_eq!(c.allocation.cells, Vec::<usize>::new());
    assert_eq!(
        c.allocation.code,
        vec![
            Instr::Li(PhysReg::T(0), 5),
            Instr::Move(PhysReg::S(0), Operand::Reg(PhysReg::T(0))),
            Instr::Li(PhysReg::V(0), 1),
            Instr::Move(PhysReg::A(0), Operand::Reg(PhysReg::S(0))),
            Instr::Syscall,
            Instr::Li(PhysReg::V(0), 4),
            Instr::La(PhysReg::A(0)),
            Instr::Syscall,
        ]
    );
}

#[test]
fn compile_for_loop_program() {
    let src = String::from(
        "x := 1 ; for ( i := 0 ; i < 3 ; i := i + 1 ) { x := x + 2 } ; print ( x )",
    );
    let c = compile(src, 1).unwrap();
    assert_eq!(c.var_names, vec![String::from("x"), String::from("i")]);
    // with one register, x and i interfere across the loop, so one of
    // them ends in memory
    assert!(c.allocation.graph.adj[0][1]);
    assert_eq!(c.allocation.cells.len(), 1);
    let spilled = c.allocation.cells[0];
    assert!(matches!(c.allocation.coloring[spilled], Color::Spilled));
    assert!(matches!(c.allocation.coloring[1 - spilled], Color::Colored(0)));
    // and with the full palette both stay in registers
    let src2 = String::from(
        "x := 1 ; for ( i := 0 ; i < 3 ; i := i + 1 ) { x := x + 2 } ; print ( x )",
    );
    let c2 = compile(src2, 8).unwrap();
    assert_eq!(c2.allocation.cells, Vec::<usize>::new());
}

#[test]
fn compile_reports_token_error() {
    assert!(matches!(
        compile(String::from("x := #"), 1),
        Err(CompileError::Token(_))
    ));
}

#[test]
fn compile_reports_parse_error() {
    assert!(matches!(
        compile(String::from("x := ;"), 1),
        Err(CompileError::Parse(_))
    ));
}

#[test]
fn compile_reports_codegen_error() {
    assert!(matches!(
        compile(String::from("x := 4294967296"), 1),
        Err(CompileError::CodeGen(_))
    ));
}

#[test]
fn compile_statement_expression_and_division() {
    let c = compile(
        String::from("x := ( y := 2 , y + 3 ) ; print ( x / 2 )"),
        8,
    )
    .unwrap();
    assert_eq!(c.var_names, vec![String::from("x"), String::from("y")]);
    // the inner statement runs before the value is taken
    assert!(matches!(c.code[0], Instr::Li(PhysReg::T(0), 2)));
    assert!(matches!(c.code[1], Instr::Store(PhysReg::T(0), 1)));
    // both operators reach the lowered code
    assert!(c.code.iter().any(|i| matches!(i, Instr::Arith(BinOp::Add, _, _, _))));
    assert!(c.code.iter().any(|i| matches!(i, Instr::Arith(BinOp::Div, _, _, _))));
    // with the full palette nothing spills and no variable operand survives
    assert_eq!(c.allocation.cells, Vec::<usize>::new());
    for ins in &c.allocation.code {
        match ins {
            Instr::Move(_, Operand::Var(_)) => panic!("variable operand left after rewriting"),
            Instr::Arith(_, _, a, b) | Instr::Branch(_, a, b, _) => {
                assert!(!matches!(a, Operand::Var(_)));
                assert!(!matches!(b, Operand::Var(_)));
            },
            Instr::Store(_, _) => panic!("variable write-back left after rewriting"),
            _ => {},
        }
    }
}
