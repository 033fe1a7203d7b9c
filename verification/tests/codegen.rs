use slp_compiler::ast::{
    parse_num, AssignStm, CodeGenError, CodeGenerator, CompExp, Exp, ExpList, ForStm, IdExp,
    LastExpList, NumExp, OpExp, PairExpList, PrintStm, Stm, Visitor,
};
use slp_compiler::instr::{BinOp, CmpOp, Instr, Operand, PhysReg};

fn fresh_gen() -> CodeGenerator {
    CodeGenerator {
        generated_code: Vec::new(),
        temp_var_num: 0,
        var_num: 0,
        label_num: 0,
        var_set: Vec::new(),
    }
}

fn id(name: &str) -> Box<Exp> {
    Box::new(Exp::Id(IdExp { id: String::from(name) }))
}

fn num(text: &str) -> Box<Exp> {
    Box::new(Exp::Num(NumExp { num: String::from(text) }))
}

#[test]
fn parse_num_values() {
    assert_eq!(parse_num(&String::from("0")), Some(0));
    assert_eq!(parse_num(&String::from("42")), Some(42));
    assert_eq!(parse_num(&String::from("007")), Some(7));
    assert_eq!(parse_num(&String::from("4294967295")), Some(u32::MAX));
    assert_eq!(parse_num(&String::from("4294967296")), None);
    assert_eq!(parse_num(&String::from("")), None);
    assert_eq!(parse_num(&String::from("3.5")), None);
    assert_eq!(parse_num(&String::from("-1")), None);
    assert_eq!(parse_num(&String::from("1a")), None);
}

#[test]
fn lower_assign_constant() {
    let mut cg = fresh_gen();
    let stm = Stm::Assign(AssignStm { id: id("a"), exp: num("5") });
    cg.gen_stm(&stm).unwrap();
    assert_eq!(
        cg.generated_code,
        vec![
            Instr::Li(PhysReg::T(0), 5),
            Instr::Store(PhysReg::T(0), 0),
        ]
    );
    assert_eq!(cg.var_set, vec![String::from("a")]);
}

#[test]
fn lower_assign_variable_copy() {
    let mut cg = fresh_gen();
    let stm = Stm::Assign(AssignStm { id: id("a"), exp: id("b") });
    cg.gen_stm(&stm).unwrap();
    // a := b goes through a scratch register: the allocator later decides
    // where b lives
    assert_eq!(
        cg.generated_code,
        vec![
            Instr::Move(PhysReg::T(0), Operand::Var(1)),
            Instr::Store(PhysReg::T(0), 0),
        ]
    );
    assert_eq!(cg.var_set, vec![String::from("a"), String::from("b")]);
}

#[test]
fn lower_arithmetic() {
    let mut cg = fresh_gen();
    let stm = Stm::Assign(AssignStm {
        id: id("a"),
        exp: Box::new(Exp::Op(OpExp { left: id("b"), right: num("1"), op: BinOp::Add })),
    });
    cg.gen_stm(&stm).unwrap();
    // three scratch registers are taken per operation; the immediate is
    // loaded into the second, the variable read stays an operand
    assert_eq!(
        cg.generated_code,
        vec![
            Instr::Li(PhysReg::T(1), 1),
            Instr::Arith(BinOp::Add, PhysReg::T(2), Operand::Var(1), Operand::Reg(PhysReg::T(1))),
            Instr::Store(PhysReg::T(2), 0),
        ]
    );
    assert_eq!(cg.var_set, vec![String::from("a"), String::from("b")]);
}

#[test]
fn lower_print() {
    let mut cg = fresh_gen();
    let stm = Stm::Print(PrintStm {
        exps: Box::new(ExpList::Pair(PairExpList {
            head: id("x"),
            tail: Box::new(ExpList::Last(LastExpList { head: num("7") })),
        })),
    });
    cg.gen_stm(&stm).unwrap();
    assert_eq!(
        cg.generated_code,
        vec![
            // print x
            Instr::Li(PhysReg::V(0), 1),
            Instr::Move(PhysReg::A(0), Operand::Var(0)),
            Instr::Syscall,
            Instr::Li(PhysReg::V(0), 4),
            Instr::La(PhysReg::A(0)),
            Instr::Syscall,
            // print 7
            Instr::Li(PhysReg::T(0), 7),
            Instr::Li(PhysReg::V(0), 1),
            Instr::Move(PhysReg::A(0), Operand::Reg(PhysReg::T(0))),
            Instr::Syscall,
            Instr::Li(PhysReg::V(0), 4),
            Instr::La(PhysReg::A(0)),
            Instr::Syscall,
        ]
    );
}

#[test]
fn lower_for_loop() {
    let mut cg = fresh_gen();
    let stm = Stm::For(ForStm {
        iter: Box::new(Stm::Assign(AssignStm { id: id("i"), exp: num("0") })),
        comp: Box::new(Exp::Comp(CompExp { left: id("i"), right: num("3"), op: CmpOp::Ge })),
        inc: Box::new(Stm::Assign(AssignStm {
            id: id("i"),
            exp: Box::new(Exp::Op(OpExp { left: id("i"), right: num("1"), op: BinOp::Add })),
        })),
        body: Box::new(Stm::Assign(AssignStm { id: id("x"), exp: id("i") })),
    });
    cg.gen_stm(&stm).unwrap();
    assert_eq!(
        cg.generated_code,
        vec![
            // i := 0
            Instr::Li(PhysReg::T(0), 0),
            Instr::Store(PhysReg::T(0), 0),
            // loop head and exit test
            Instr::Label(0),
            Instr::Branch(CmpOp::Ge, Operand::Var(0), Operand::Imm(3), 1),
            // x := i
            Instr::Move(PhysReg::T(1), Operand::Var(0)),
            Instr::Store(PhysReg::T(1), 1),
            // i := i + 1
            Instr::Li(PhysReg::T(3), 1),
            Instr::Arith(BinOp::Add, PhysReg::T(4), Operand::Var(0), Operand::Reg(PhysReg::T(3))),
            Instr::Store(PhysReg::T(4), 0),
            // back edge and exit
            Instr::Jump(0),
            Instr::Label(1),
        ]
    );
    assert_eq!(cg.label_num, 2);
    assert_eq!(cg.var_set, vec![String::from("i"), String::from("x")]);
}

#[test]
fn scratch_registers_cycle() {
    let mut cg = fresh_gen();
    for expected in [0u8, 1, 2, 3, 4, 5, 6, 7, 0, 1] {
        assert_eq!(cg.get_temp(), PhysReg::T(expected));
    }
    for expected in [0u8, 1, 2, 3, 4, 5, 6, 7, 0] {
        assert_eq!(cg.get_var(), PhysReg::S(expected));
    }
}

#[test]
fn interning_reuses_ids() {
    let mut cg = fresh_gen();
    assert_eq!(cg.intern_var(&String::from("a")), 0);
    assert_eq!(cg.intern_var(&String::from("b")), 1);
    assert_eq!(cg.intern_var(&String::from("a")), 0);
    assert_eq!(cg.intern_var(&String::from("c")), 2);
    assert_eq!(cg.var_set, vec![String::from("a"), String::from("b"), String::from("c")]);
}

#[test]
fn helper_emitters() {
    let mut cg = fresh_gen();
    cg.load_print_instr();
    cg.syscall();
    cg.newline_instr();
    assert_eq!(
        cg.generated_code,
        vec![
            Instr::Li(PhysReg::V(0), 1),
            Instr::Syscall,
            Instr::Li(PhysReg::V(0), 4),
            Instr::La(PhysReg::A(0)),
            Instr::Syscall,
        ]
    );
    assert!(cg.is_numeric(&Operand::Imm(3)));
    assert!(!cg.is_numeric(&Operand::Var(0)));
    assert!(!cg.is_numeric(&Operand::Reg(PhysReg::T(0))));
}

#[test]
fn reject_bad_literal() {
    let mut cg = fresh_gen();
    let stm = Stm::Assign(AssignStm { id: id("a"), exp: num("3.5") });
    match cg.gen_stm(&stm) {
        Err(CodeGenError::InvalidLiteral(text)) => assert_eq!(text, String::from("3.5")),
        other => panic!("expected an invalid-literal error, got {:?}", other),
    }
}

#[test]
fn reject_bad_assign_target() {
    let mut cg = fresh_gen();
    let stm = Stm::Assign(AssignStm { id: num("3"), exp: num("5") });
    assert!(matches!(cg.gen_stm(&stm), Err(CodeGenError::InvalidAssignTarget)));
}

#[test]
fn reject_misplaced_comparison() {
    let mut cg = fresh_gen();
    let exp = Exp::Comp(CompExp { left: id("a"), right: id("b"), op: CmpOp::Le });
    assert!(matches!(cg.gen_exp(&exp), Err(CodeGenError::MisplacedComparison)));
    // and a for-loop whose condition is no comparison is rejected too
    let stm = Stm::For(ForStm {
        iter: Box::new(Stm::Assign(AssignStm { id: id("i"), exp: num("0") })),
        comp: num("1"),
        inc: Box::new(Stm::Assign(AssignStm { id: id("i"), exp: num("1") })),
        body: Box::new(Stm::Assign(AssignStm { id: id("x"), exp: num("2") })),
    });
    assert!(matches!(cg.gen_stm(&stm), Err(CodeGenError::MisplacedComparison)));
}

#[test]
fn visitor_dispatch_matches_direct_lowering() {
    let mut direct = fresh_gen();
    let mut via_visitor = fresh_gen();
    let stm = Stm::Assign(AssignStm { id: id("a"), exp: num("5") });
    direct.gen_stm(&stm).unwrap();
    stm.accept(&mut via_visitor).unwrap();
    assert_eq!(direct.generated_code, via_visitor.generated_code);

    let exp = Exp::Op(OpExp { left: num("1"), right: num("2"), op: BinOp::Sub });
    let a = direct.gen_exp(&exp).unwrap();
    let b = exp.accept(&mut via_visitor).unwrap();
    assert_eq!(a, b);

    let list = ExpList::Last(LastExpList { head: num("9") });
    let xs = direct.gen_exp_list(&list).unwrap();
    let ys = list.accept(&mut via_visitor).unwrap();
    assert_eq!(xs, ys);
}
