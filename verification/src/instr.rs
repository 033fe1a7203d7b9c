//! The pseudo-instruction sequence that the register allocator works on.
//!
//! Instructions are held in one ordered sequence; the position of an
//! instruction in that sequence is its program point. Symbolic variables
//! and labels are interned small ids, so that a variable operand, a
//! physical register and an immediate are distinguishable by tag alone.

use vstd::prelude::*;

verus! {

/// A physical register of the target machine, tagged by its class.
#[derive(Clone, Copy, PartialEq, Eq, Structural, Debug)]
pub enum PhysReg {
    /// `$t<n>`: scratch registers. The code generator cycles through
    /// `$t0`..`$t7`; the spill rewriter reserves `$t8` and `$t9`.
    T(u8),
    /// `$s<n>`: saved registers, the palette handed out by the allocator.
    S(u8),
    /// `$a<n>`: argument registers (`$a0` carries a printed value).
    A(u8),
    /// `$v<n>`: result registers (`$v0` selects a system call).
    V(u8),
}

/// An instruction operand: a physical register, a symbolic variable
/// (an interned id), or an immediate. Variables are never physical
/// registers; the two namespaces are disjoint by construction.
#[derive(Clone, Copy, PartialEq, Eq, Structural, Debug)]
pub enum Operand {
    Reg(PhysReg),
    Var(usize),
    Imm(u32),
}

/// An arithmetic opcode.
#[derive(Clone, Copy, PartialEq, Eq, Structural, Debug)]
pub enum BinOp {
    Add,
    Sub,
    Mul,
    Div,
}

/// A comparison opcode for conditional branches.
#[derive(Clone, Copy, PartialEq, Eq, Structural, Debug)]
pub enum CmpOp {
    /// branch if greater or equal
    Ge,
    /// branch if less or equal
    Le,
}

/// One pseudo-instruction.
///
/// Only `Store` writes a symbolic variable; arithmetic destinations are
/// always scratch registers. `Label` occupies a program point but defines
/// no value and branches nowhere itself. `SlotStore` and `Load` touch the
/// memory cell of a spilled variable and appear only in rewriter output:
/// a spill slot reference is not a variable operand.
#[derive(Clone, Copy, PartialEq, Eq, Structural, Debug)]
pub enum Instr {
    /// load an immediate into a register
    Li(PhysReg, u32),
    /// load the address of the newline data string
    La(PhysReg),
    /// copy the source operand into a register
    Move(PhysReg, Operand),
    /// arithmetic: opcode, destination register, two sources
    Arith(BinOp, PhysReg, Operand, Operand),
    /// write a register back into a symbolic variable
    Store(PhysReg, usize),
    /// store a register into the memory cell of a spilled variable
    SlotStore(PhysReg, usize),
    /// load the memory cell of a spilled variable into a register
    Load(PhysReg, usize),
    /// conditional branch: compare the two operands, branch to the label
    Branch(CmpOp, Operand, Operand, usize),
    /// unconditional jump to a label
    Jump(usize),
    /// label marker: a branch target, defines nothing
    Label(usize),
    /// system call, opaque to the allocator
    Syscall,
}

/// An unrecoverable failure of the allocation backend. All three indicate
/// a broken invariant of the backend-generated instruction stream, not a
/// user error; the pipeline aborts on them.
#[derive(Clone, Copy, PartialEq, Eq, Structural, Debug)]
pub enum AllocError {
    /// a branch or jump references a label with no defining marker
    UnresolvedLabel(usize),
    /// a label has more than one defining marker
    DuplicateLabel(usize),
    /// an instruction references a variable absent from the coloring
    MissingVar(usize),
}

/// Does operand `o` read variable `v`?
pub open spec fn operand_is_var(o: Operand, v: int) -> bool {
    o matches Operand::Var(x) && x == v
}

/// `gen`: does instruction `ins` read variable `v` as a plain variable
/// operand? (A value already in a physical register is not a read of `v`.)
pub open spec fn uses_var(ins: Instr, v: int) -> bool {
    match ins {
        Instr::Move(_, o) => operand_is_var(o, v),
        Instr::Arith(_, _, a, b) => operand_is_var(a, v) || operand_is_var(b, v),
        Instr::Branch(_, a, b, _) => operand_is_var(a, v) || operand_is_var(b, v),
        _ => false,
    }
}

/// `kill`: does instruction `ins` unconditionally overwrite variable `v`?
/// Only a variable write-back does; arithmetic destinations are scratch
/// registers, never variables.
pub open spec fn defs_var(ins: Instr, v: int) -> bool {
    ins matches Instr::Store(_, x) && x == v
}

/// Is every variable an operand mentions a valid id below `n_vars`?
pub open spec fn operand_vars_bound(o: Operand, n_vars: nat) -> bool {
    o matches Operand::Var(x) ==> x < n_vars
}

/// Is every variable the instruction mentions a valid id below `n_vars`?
pub open spec fn instr_vars_bound(ins: Instr, n_vars: nat) -> bool {
    match ins {
        Instr::Move(_, o) => operand_vars_bound(o, n_vars),
        Instr::Arith(_, _, a, b) => operand_vars_bound(a, n_vars) && operand_vars_bound(b, n_vars),
        Instr::Branch(_, a, b, _) => operand_vars_bound(a, n_vars) && operand_vars_bound(
            b,
            n_vars,
        ),
        Instr::Store(_, x) => x < n_vars,
        _ => true,
    }
}

/// Is every variable the code mentions a valid id below `n_vars`?
pub open spec fn code_vars_bound(code: Seq<Instr>, n_vars: nat) -> bool {
    forall|i: int| 0 <= i < code.len() ==> instr_vars_bound(#[trigger] code[i], n_vars)
}

/// Is every label the instruction defines or targets a valid id below
/// `n_labels`?
pub open spec fn instr_labels_bound(ins: Instr, n_labels: nat) -> bool {
    match ins {
        Instr::Branch(_, _, _, l) => l < n_labels,
        Instr::Jump(l) => l < n_labels,
        Instr::Label(l) => l < n_labels,
        _ => true,
    }
}

/// Is every label the code defines or targets a valid id below `n_labels`?
pub open spec fn code_labels_bound(code: Seq<Instr>, n_labels: nat) -> bool {
    forall|i: int| 0 <= i < code.len() ==> instr_labels_bound(#[trigger] code[i], n_labels)
}

} // verus!
