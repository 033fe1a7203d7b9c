use slp_compiler::cfg::{build_label_table, build_successors};
use slp_compiler::coloring::{graph_coloring, Color};
use slp_compiler::instr::{AllocError, BinOp, CmpOp, Instr, Operand, PhysReg};
use slp_compiler::interference::{build_interference, InterferenceGraph};
use slp_compiler::liveness::{build_gen_kill, in_out_list_equal, liveness, liveness_sweep};
use slp_compiler::rewrite::{get_spill_reg, is_numeric, is_register, rewrite, spilled_vars};

/// A symmetric adjacency matrix from an edge list over `n` nodes.
fn graph(n: usize, edges: &[(usize, usize)]) -> InterferenceGraph {
    let mut adj = vec![vec![false; n]; n];
    for &(u, v) in edges {
        adj[u][v] = true;
        adj[v][u] = true;
    }
    InterferenceGraph { n, adj }
}

fn row(n: usize, ones: &[usize]) -> Vec<bool> {
    let mut r = vec![false; n];
    for &v in ones {
        r[v] = true;
    }
    r
}

#[test]
fn label_table_maps_markers() {
    let code = vec![
        Instr::Label(1),
        Instr::Syscall,
        Instr::Label(0),
    ];
    let tab = build_label_table(&code, 2).unwrap();
    assert_eq!(tab, vec![Some(2), Some(0)]);
}

#[test]
fn label_table_rejects_duplicates() {
    let code = vec![Instr::Label(0), Instr::Syscall, Instr::Label(0)];
    assert_eq!(build_label_table(&code, 1), Err(AllocError::DuplicateLabel(0)));
}

#[test]
fn successors_follow_control_flow() {
    let code = vec![
        Instr::Syscall,                                            // 0: falls through
        Instr::Branch(CmpOp::Ge, Operand::Var(0), Operand::Imm(1), 0),  // 1: taken and not taken
        Instr::Jump(0),                                            // 2: a pure jump does not fall through
        Instr::Label(0),                                           // 3: a marker falls through
        Instr::Syscall,                                            // 4: the last point has no successor
    ];
    let tab = build_label_table(&code, 1).unwrap();
    let succ = build_successors(&code, &tab).unwrap();
    assert_eq!(succ, vec![vec![1], vec![3, 2], vec![3], vec![4], vec![]]);
}

#[test]
fn successors_reject_unresolved_label() {
    let code = vec![Instr::Jump(0)];
    let tab = build_label_table(&code, 1).unwrap();
    assert_eq!(tab, vec![None]);
    assert_eq!(build_successors(&code, &tab), Err(AllocError::UnresolvedLabel(0)));
}

#[test]
fn gen_kill_sets() {
    let code = vec![
        Instr::Arith(BinOp::Add, PhysReg::T(0), Operand::Var(0), Operand::Var(1)),
        Instr::Store(PhysReg::T(0), 1),
        Instr::Move(PhysReg::A(0), Operand::Var(0)),
        Instr::Branch(CmpOp::Le, Operand::Var(2), Operand::Imm(5), 0),
        Instr::Li(PhysReg::T(1), 7),
    ];
    let (genv, killv) = build_gen_kill(&code, 3);
    assert_eq!(
        genv,
        vec![
            row(3, &[0, 1]),
            row(3, &[]),
            row(3, &[0]),
            row(3, &[2]),
            row(3, &[]),
        ]
    );
    assert_eq!(
        killv,
        vec![
            row(3, &[]),
            row(3, &[1]),
            row(3, &[]),
            row(3, &[]),
            row(3, &[]),
        ]
    );
}

#[test]
fn liveness_straight_line() {
    // 0: t0 := a + b ; 1: b := t0 ; 2: print-move of b
    let code = vec![
        Instr::Arith(BinOp::Add, PhysReg::T(0), Operand::Var(0), Operand::Var(1)),
        Instr::Store(PhysReg::T(0), 1),
        Instr::Move(PhysReg::A(0), Operand::Var(1)),
    ];
    let tab = build_label_table(&code, 0).unwrap();
    let succ = build_successors(&code, &tab).unwrap();
    let (genv, killv) = build_gen_kill(&code, 2);
    let (in_l, out_l) = liveness(&succ, &genv, &killv, 2);
    assert_eq!(in_l, vec![row(2, &[0, 1]), row(2, &[]), row(2, &[1])]);
    assert_eq!(out_l, vec![row(2, &[]), row(2, &[1]), row(2, &[])]);
}

#[test]
fn liveness_ignores_unreachable_code() {
    // the instruction after the jump has no predecessor; it still gets
    // well-defined live sets and the fixpoint loop terminates
    let code = vec![
        Instr::Jump(0),
        Instr::Move(PhysReg::A(0), Operand::Var(0)),
        Instr::Label(0),
        Instr::Syscall,
    ];
    let tab = build_label_table(&code, 1).unwrap();
    let succ = build_successors(&code, &tab).unwrap();
    assert_eq!(succ, vec![vec![2], vec![2], vec![3], vec![]]);
    let (genv, killv) = build_gen_kill(&code, 1);
    let (in_l, out_l) = liveness(&succ, &genv, &killv, 1);
    // the unreachable read still shows in its own live-in
    assert_eq!(in_l, vec![row(1, &[]), row(1, &[0]), row(1, &[]), row(1, &[])]);
    assert_eq!(out_l, vec![row(1, &[]), row(1, &[]), row(1, &[]), row(1, &[])]);
}

#[test]
fn sweep_only_grows() {
    // one backward sweep grows the sets and never clears a bit
    let code = vec![
        Instr::Arith(BinOp::Add, PhysReg::T(0), Operand::Var(0), Operand::Imm(1)),
        Instr::Store(PhysReg::T(0), 0),
    ];
    let tab = build_label_table(&code, 0).unwrap();
    let succ = build_successors(&code, &tab).unwrap();
    let (genv, killv) = build_gen_kill(&code, 1);
    let mut in_l = vec![row(1, &[]), row(1, &[])];
    let mut out_l = vec![row(1, &[]), row(1, &[])];
    let changed = liveness_sweep(&succ, &genv, &killv, 1, &mut in_l, &mut out_l);
    assert!(changed);
    assert_eq!(in_l, vec![row(1, &[0]), row(1, &[])]);
    let snapshot_in = in_l.clone();
    let snapshot_out = out_l.clone();
    // every bit of the previous sweep survives the next one
    let changed_again = liveness_sweep(&succ, &genv, &killv, 1, &mut in_l, &mut out_l);
    assert!(!changed_again);
    assert!(in_out_list_equal(&in_l, &snapshot_in));
    assert!(in_out_list_equal(&out_l, &snapshot_out));
}

#[test]
fn in_out_list_equal_detects_growth() {
    let a = vec![row(2, &[0])];
    let b = vec![row(2, &[0, 1])];
    assert!(in_out_list_equal(&b, &a));
    assert!(!in_out_list_equal(&a, &b));
    assert!(in_out_list_equal(&a, &a));
}

#[test]
fn interference_is_symmetric_without_self_edges() {
    // b is written while a is live across it, twice over; the edge set
    // still holds the one undirected edge
    let code = vec![
        Instr::Store(PhysReg::T(0), 1),
        Instr::Store(PhysReg::T(1), 1),
        Instr::Arith(BinOp::Add, PhysReg::T(2), Operand::Var(0), Operand::Var(1)),
    ];
    let out_l = vec![row(2, &[0, 1]), row(2, &[0, 1]), row(2, &[])];
    let g = build_interference(&code, &out_l, 2);
    assert_eq!(g.n, 2);
    for u in 0..2 {
        for v in 0..2 {
            assert_eq!(g.adj[u][v], g.adj[v][u]);
        }
        assert!(!g.adj[u][u]);
    }
    assert!(g.adj[0][1]);
}

#[test]
fn coloring_path_graph_one_register() {
    // a–b, b–c with one register: b is pushed as a potential spill and
    // stays spilled; its two neighbours share the one class
    let g = graph(3, &[(0, 1), (1, 2)]);
    let colors = graph_coloring(&g, 1);
    assert_eq!(colors, vec![Color::Colored(0), Color::Spilled, Color::Colored(0)]);
}

#[test]
fn coloring_triangle_two_registers() {
    let g = graph(3, &[(0, 1), (0, 2), (1, 2)]);
    let colors = graph_coloring(&g, 2);
    assert_eq!(colors, vec![Color::Spilled, Color::Colored(1), Color::Colored(0)]);
    // the coloring is proper: the two colored neighbours differ
    for u in 0..3 {
        for v in 0..3 {
            if g.adj[u][v] {
                if let (Color::Colored(cu), Color::Colored(cv)) = (colors[u], colors[v]) {
                    assert_ne!(cu, cv);
                }
            }
        }
    }
}

#[test]
fn coloring_is_deterministic() {
    let g = graph(4, &[(0, 1), (1, 2), (2, 3), (3, 0)]);
    let once = graph_coloring(&g, 2);
    let twice = graph_coloring(&g, 2);
    assert_eq!(once, twice);
    assert_eq!(once, vec![
        Color::Colored(1),
        Color::Colored(0),
        Color::Colored(1),
        Color::Colored(0),
    ]);
}

#[test]
fn coloring_isolated_nodes() {
    let g = graph(3, &[]);
    assert_eq!(
        graph_coloring(&g, 1),
        vec![Color::Colored(0), Color::Colored(0), Color::Colored(0)]
    );
    // a zero-size palette spills everything
    assert_eq!(
        graph_coloring(&g, 0),
        vec![Color::Spilled, Color::Spilled, Color::Spilled]
    );
}

#[test]
fn rewrite_colored_reads_and_stores() {
    let code = vec![
        Instr::Arith(BinOp::Add, PhysReg::T(0), Operand::Var(0), Operand::Imm(1)),
        Instr::Store(PhysReg::T(0), 0),
    ];
    let out = rewrite(&code, &vec![Color::Colored(3)]).unwrap();
    assert_eq!(
        out,
        vec![
            Instr::Arith(BinOp::Add, PhysReg::T(0), Operand::Reg(PhysReg::S(3)), Operand::Imm(1)),
            Instr::Move(PhysReg::S(3), Operand::Reg(PhysReg::T(0))),
        ]
    );
}

#[test]
fn rewrite_alternates_spill_scratch_registers() {
    // two spilled reads in one instruction: the loads use $t8 then $t9,
    // so the second load cannot clobber the first
    let code = vec![
        Instr::Arith(BinOp::Sub, PhysReg::T(0), Operand::Var(0), Operand::Var(1)),
        Instr::Move(PhysReg::A(0), Operand::Var(0)),
    ];
    let coloring = vec![Color::Spilled, Color::Spilled];
    let out = rewrite(&code, &coloring).unwrap();
    assert_eq!(
        out,
        vec![
            Instr::Load(PhysReg::T(8), 0),
            Instr::Load(PhysReg::T(9), 1),
            Instr::Arith(
                BinOp::Sub,
                PhysReg::T(0),
                Operand::Reg(PhysReg::T(8)),
                Operand::Reg(PhysReg::T(9)),
            ),
            // the toggle carries across instructions: the next load is $t8
            Instr::Load(PhysReg::T(8), 0),
            Instr::Move(PhysReg::A(0), Operand::Reg(PhysReg::T(8))),
        ]
    );
}

#[test]
fn rewrite_spilled_store_keeps_memory_cell() {
    let code = vec![Instr::Store(PhysReg::T(2), 0)];
    let out = rewrite(&code, &vec![Color::Spilled]).unwrap();
    assert_eq!(out, vec![Instr::SlotStore(PhysReg::T(2), 0)]);
}

#[test]
fn rewrite_missing_variable_is_fatal() {
    let code = vec![Instr::Move(PhysReg::A(0), Operand::Var(5))];
    assert_eq!(rewrite(&code, &vec![Color::Colored(0)]), Err(AllocError::MissingVar(5)));
}

#[test]
fn rewrite_is_idempotent_on_its_output() {
    let code = vec![
        Instr::Arith(BinOp::Add, PhysReg::T(0), Operand::Var(0), Operand::Var(1)),
        Instr::Store(PhysReg::T(0), 0),
        Instr::Branch(CmpOp::Ge, Operand::Var(1), Operand::Imm(2), 0),
    ];
    let coloring = vec![Color::Spilled, Color::Colored(0)];
    let once = rewrite(&code, &coloring).unwrap();
    // the rewritten program has no variables left: rewriting it again,
    // even under an empty assignment, changes nothing
    let twice = rewrite(&once, &Vec::new()).unwrap();
    assert_eq!(once, twice);
    let thrice = rewrite(&once, &coloring).unwrap();
    assert_eq!(once, thrice);
}

#[test]
fn spilled_vars_lists_cells_in_order() {
    let coloring = vec![
        Color::Spilled,
        Color::Colored(0),
        Color::Spilled,
        Color::Colored(1),
    ];
    assert_eq!(spilled_vars(&coloring), vec![0, 2]);
    assert_eq!(spilled_vars(&Vec::new()), Vec::<usize>::new());
}

#[test]
fn operand_predicates_and_spill_registers() {
    assert!(is_register(&Operand::Reg(PhysReg::S(1))));
    assert!(!is_register(&Operand::Var(0)));
    assert!(!is_register(&Operand::Imm(3)));
    assert!(is_numeric(&Operand::Imm(3)));
    assert!(!is_numeric(&Operand::Var(0)));
    assert_eq!(get_spill_reg(true), PhysReg::T(8));
    assert_eq!(get_spill_reg(false), PhysReg::T(9));
}
