//! Spill-aware instruction rewriting: replace every variable operand by
//! its assigned register or by a just-in-time load through one of two
//! rotating scratch registers, and turn the write-back of a colored
//! variable into a plain register move.

use vstd::prelude::*;
use crate::coloring::{colors_in_palette, Color};
use crate::instr::{
    code_vars_bound, instr_vars_bound, operand_vars_bound, AllocError, Instr, Operand, PhysReg,
};

verus! {

/// The scratch register the next spilled read goes through. The rewriter
/// alternates between the two so that an instruction reading two
/// different spilled variables does not have one load clobber the other.
pub open spec fn spill_reg(first: bool) -> PhysReg {
    if first {
        PhysReg::T(8)
    } else {
        PhysReg::T(9)
    }
}

/// The dedicated spill scratch register selected by the toggle: `$t8`
/// when it is set, `$t9` otherwise. Neither is ever handed to the code
/// generator or the allocator.
pub fn get_spill_reg(b: bool) -> (r: PhysReg)
    ensures
        r == spill_reg(b),
{
    if b {
        PhysReg::T(8)
    } else {
        PhysReg::T(9)
    }
}

/// Is this operand a physical register?
pub fn is_register(o: &Operand) -> (r: bool)
    ensures
        r == (o matches Operand::Reg(_)),
{
    match o {
        Operand::Reg(_) => true,
        _ => false,
    }
}

/// Is this operand an immediate?
pub fn is_numeric(o: &Operand) -> (r: bool)
    ensures
        r == (o matches Operand::Imm(_)),
{
    match o {
        Operand::Imm(_) => true,
        _ => false,
    }
}

/// What a read of operand `o` becomes: the operand that replaces it, the
/// load emitted before the instruction (none, or one from a spill slot),
/// and the scratch toggle afterwards. Register and immediate operands
/// pass through untouched.
pub open spec fn resolve_spec(o: Operand, c: Seq<Color>, flip: bool) -> (Operand, Seq<Instr>, bool) {
    match o {
        Operand::Var(v) => match c[v as int] {
            Color::Colored(x) => (Operand::Reg(PhysReg::S(x as u8)), Seq::empty(), flip),
            Color::Spilled => (
                Operand::Reg(spill_reg(flip)),
                seq![Instr::Load(spill_reg(flip), v)],
                !flip,
            ),
        },
        _ => (o, Seq::empty(), flip),
    }
}

/// What one instruction becomes under the color assignment `c` with
/// scratch toggle `flip`: the replacement sequence (spill loads first)
/// and the toggle afterwards.
///
/// A write-back of a colored variable becomes a move into its register;
/// one of a spilled variable stays a store, now into the variable's
/// memory cell. Reads go through `resolve_spec`, left to right.
/// Everything else is untouched.
pub open spec fn rewrite_instr_spec(ins: Instr, c: Seq<Color>, flip: bool) -> (Seq<Instr>, bool) {
    match ins {
        Instr::Store(r, v) => match c[v as int] {
            Color::Colored(x) => (seq![Instr::Move(PhysReg::S(x as u8), Operand::Reg(r))], flip),
            Color::Spilled => (seq![Instr::SlotStore(r, v)], flip),
        },
        Instr::Move(d, o) => {
            let (o2, loads, f2) = resolve_spec(o, c, flip);
            (loads.push(Instr::Move(d, o2)), f2)
        },
        Instr::Arith(op, d, a, b) => {
            let (a2, la, f1) = resolve_spec(a, c, flip);
            let (b2, lb, f2) = resolve_spec(b, c, f1);
            (la + lb + seq![Instr::Arith(op, d, a2, b2)], f2)
        },
        Instr::Branch(cp, a, b, l) => {
            let (a2, la, f1) = resolve_spec(a, c, flip);
            let (b2, lb, f2) = resolve_spec(b, c, f1);
            (la + lb + seq![Instr::Branch(cp, a2, b2, l)], f2)
        },
        _ => (seq![ins], flip),
    }
}

/// The whole rewritten sequence and the final scratch toggle: the
/// per-instruction replacements, concatenated in order, threading the
/// toggle through from instruction to instruction.
pub open spec fn rewrite_spec(code: Seq<Instr>, c: Seq<Color>, flip: bool) -> (Seq<Instr>, bool)
    decreases code.len(),
{
    if code.len() == 0 {
        (Seq::empty(), flip)
    } else {
        let (first, f1) = rewrite_instr_spec(code[0], c, flip);
        let (rest, f2) = rewrite_spec(code.drop_first(), c, f1);
        (first + rest, f2)
    }
}

proof fn lemma_rewrite_spec_snoc(code: Seq<Instr>, x: Instr, c: Seq<Color>, flip: bool)
    ensures
        rewrite_spec(code.push(x), c, flip).0 == rewrite_spec(code, c, flip).0
            + rewrite_instr_spec(x, c, rewrite_spec(code, c, flip).1).0,
        rewrite_spec(code.push(x), c, flip).1 == rewrite_instr_spec(
            x,
            c,
            rewrite_spec(code, c, flip).1,
        ).1,
    decreases code.len(),
{
    if code.len() == 0 {
        let f1 = rewrite_instr_spec(x, c, flip).1;
        assert(code.push(x)[0] == x);
        assert(code.push(x).drop_first() =~= Seq::<Instr>::empty());
        assert(rewrite_spec(Seq::<Instr>::empty(), c, f1) == (Seq::<Instr>::empty(), f1));
        assert(rewrite_spec(code, c, flip) == (Seq::<Instr>::empty(), flip));
        assert(rewrite_spec(code.push(x), c, flip).0 =~= rewrite_spec(code, c, flip).0
            + rewrite_instr_spec(x, c, rewrite_spec(code, c, flip).1).0);
    } else {
        let f1 = rewrite_instr_spec(code[0], c, flip).1;
        lemma_rewrite_spec_snoc(code.drop_first(), x, c, f1);
        assert(code.push(x)[0] == code[0]);
        assert(code.push(x).drop_first() =~= code.drop_first().push(x));
        assert(rewrite_spec(code.push(x), c, flip).0 =~= rewrite_spec(code, c, flip).0
            + rewrite_instr_spec(x, c, rewrite_spec(code, c, flip).1).0);
    }
}

/// The shape rewriting leaves behind: no variable write-back and no
/// variable operand anywhere. Spill-slot stores and loads reference a
/// memory cell, not a variable operand, so they qualify.
pub open spec fn instr_rewritten(ins: Instr) -> bool {
    match ins {
        Instr::Store(_, _) => false,
        Instr::Move(_, o) => !(o matches Operand::Var(_)),
        Instr::Arith(_, _, a, b) => !(a matches Operand::Var(_)) && !(b matches Operand::Var(_)),
        Instr::Branch(_, a, b, _) => !(a matches Operand::Var(_)) && !(b matches Operand::Var(_)),
        _ => true,
    }
}

/// Every instruction of the sequence is in rewritten shape; such a
/// program references no variables at all.
pub open spec fn code_rewritten(code: Seq<Instr>) -> bool {
    forall|i: int| 0 <= i < code.len() ==> instr_rewritten(#[trigger] code[i])
}

proof fn lemma_rewrite_instr_rewritten(ins: Instr, c: Seq<Color>, flip: bool)
    ensures
        forall|j: int|
            0 <= j < rewrite_instr_spec(ins, c, flip).0.len() ==> instr_rewritten(
                #[trigger] rewrite_instr_spec(ins, c, flip).0[j],
            ),
{
}

/// The rewriter's output is always in rewritten shape: it resolves every
/// variable operand and removes every variable write-back.
pub proof fn lemma_rewrite_output_rewritten(code: Seq<Instr>, c: Seq<Color>, flip: bool)
    ensures
        code_rewritten(rewrite_spec(code, c, flip).0),
    decreases code.len(),
{
    if code.len() > 0 {
        let f1 = rewrite_instr_spec(code[0], c, flip).1;
        lemma_rewrite_instr_rewritten(code[0], c, flip);
        lemma_rewrite_output_rewritten(code.drop_first(), c, f1);
    }
}

/// On code in rewritten shape, the rewriter is the identity, under any
/// color assignment whatsoever: nothing in such code mentions a variable.
pub proof fn lemma_rewrite_identity(code: Seq<Instr>, c: Seq<Color>, flip: bool)
    requires
        code_rewritten(code),
    ensures
        rewrite_spec(code, c, flip) == (code, flip),
    decreases code.len(),
{
    if code.len() == 0 {
        assert(rewrite_spec(code, c, flip).0 =~= code);
    } else {
        assert(instr_rewritten(code[0]));
        assert(rewrite_instr_spec(code[0], c, flip) == (seq![code[0]], flip));
        lemma_rewrite_identity(code.drop_first(), c, flip);
        assert(rewrite_spec(code, c, flip).0 =~= code);
    }
}

/// Idempotence of the rewrite: running the rewriter on its own output is
/// a no-op, whatever assignment the second run sees — in particular the
/// empty one, since rewritten code has no variables left.
pub proof fn lemma_rewrite_idempotent(code: Seq<Instr>, c: Seq<Color>, c2: Seq<Color>)
    ensures
        rewrite_spec(rewrite_spec(code, c, true).0, c2, true) == (
            rewrite_spec(code, c, true).0,
            true,
        ),
{
    lemma_rewrite_output_rewritten(code, c, true);
    lemma_rewrite_identity(rewrite_spec(code, c, true).0, c2, true);
}

/// Does the instruction touch the spill slot of variable `v`?
pub open spec fn slot_ref(ins: Instr, v: int) -> bool {
    match ins {
        Instr::SlotStore(_, x) => x == v,
        Instr::Load(_, x) => x == v,
        _ => false,
    }
}

proof fn lemma_rewrite_instr_no_double_life(ins: Instr, c: Seq<Color>, flip: bool, v: int)
    requires
        0 <= v < c.len(),
        c[v] matches Color::Colored(_),
        !slot_ref(ins, v),
    ensures
        forall|j: int|
            0 <= j < rewrite_instr_spec(ins, c, flip).0.len() ==> !slot_ref(
                #[trigger] rewrite_instr_spec(ins, c, flip).0[j],
                v,
            ),
{
}

/// No double life: a variable that received a register class never
/// occupies a memory slot in the rewritten program — no load of its
/// slot is ever emitted and no store into it survives. (Its memory
/// cell is not reserved either: `spilled_vars` lists spilled ids only.)
pub proof fn lemma_no_double_life(code: Seq<Instr>, c: Seq<Color>, flip: bool, v: int)
    requires
        0 <= v < c.len(),
        c[v] matches Color::Colored(_),
        forall|i: int| 0 <= i < code.len() ==> !slot_ref(#[trigger] code[i], v),
    ensures
        forall|j: int|
            0 <= j < rewrite_spec(code, c, flip).0.len() ==> !slot_ref(
                #[trigger] rewrite_spec(code, c, flip).0[j],
                v,
            ),
    decreases code.len(),
{
    if code.len() > 0 {
        let f1 = rewrite_instr_spec(code[0], c, flip).1;
        lemma_rewrite_instr_no_double_life(code[0], c, flip, v);
        assert forall|i: int| 0 <= i < code.drop_first().len() implies !slot_ref(
            #[trigger] code.drop_first()[i],
            v,
        ) by {
            assert(code.drop_first()[i] == code[i + 1]);
        }
        lemma_no_double_life(code.drop_first(), c, f1, v);
        let first = rewrite_instr_spec(code[0], c, flip).0;
        let rest = rewrite_spec(code.drop_first(), c, f1).0;
        assert(rewrite_spec(code, c, flip).0 == first + rest);
        assert forall|j: int| 0 <= j < rewrite_spec(code, c, flip).0.len() implies !slot_ref(
            #[trigger] rewrite_spec(code, c, flip).0[j],
            v,
        ) by {
            if j < first.len() {
                assert(rewrite_spec(code, c, flip).0[j] == first[j]);
            } else {
                assert(rewrite_spec(code, c, flip).0[j] == rest[j - first.len()]);
            }
        }
    }
}

/// Resolve one operand read: the replacement operand, an optional spill
/// load to emit first, and the scratch toggle afterwards. Fails on a
/// variable the coloring does not cover.
fn resolve_operand(o: Operand, coloring: &Vec<Color>, flip: bool) -> (r: Result<
    (Operand, Option<Instr>, bool),
    AllocError,
>)
    requires
        colors_in_palette(coloring@, 8),
    ensures
        match r {
            Ok(t) => {
                &&& operand_vars_bound(o, coloring@.len())
                &&& resolve_spec(o, coloring@, flip) == (
                    t.0,
                    match t.1 {
                        Some(l) => seq![l],
                        None => Seq::<Instr>::empty(),
                    },
                    t.2,
                )
            },
            Err(e) => {
                &&& !operand_vars_bound(o, coloring@.len())
                &&& e matches AllocError::MissingVar(v) && o == Operand::Var(v) && v
                    >= coloring@.len()
            },
        },
{
    match o {
        Operand::Var(v) => {
            if v >= coloring.len() {
                return Err(AllocError::MissingVar(v));
            }
            match coloring[v] {
                Color::Colored(x) => Ok((Operand::Reg(PhysReg::S(x as u8)), None, flip)),
                Color::Spilled => {
                    let sr = get_spill_reg(flip);
                    Ok((Operand::Reg(sr), Some(Instr::Load(sr, v)), !flip))
                },
            }
        },
        _ => Ok((o, None, flip)),
    }
}

/// Rewrite the whole instruction sequence under the color assignment:
/// reads of colored variables become their registers, reads of spilled
/// variables are preceded by a load through the alternating scratch
/// registers, colored write-backs become register moves, spilled
/// write-backs become stores to the variable's memory cell.
///
/// The palette is the eight saved registers, so every assigned class
/// must be below eight. Succeeds iff the coloring covers every variable
/// the code mentions; the first uncovered variable is the fatal
/// `MissingVar` — an invariant breach, since the coloring is built over
/// all variables of the program.
pub fn rewrite(code: &Vec<Instr>, coloring: &Vec<Color>) -> (r: Result<Vec<Instr>, AllocError>)
    requires
        colors_in_palette(coloring@, 8),
    ensures
        match r {
            Ok(out) => {
                &&& code_vars_bound(code@, coloring@.len())
                &&& out@ == rewrite_spec(code@, coloring@, true).0
            },
            Err(e) => {
                &&& !code_vars_bound(code@, coloring@.len())
                &&& e matches AllocError::MissingVar(v) && v >= coloring@.len()
            },
        },
{
    let n = code.len();
    let mut out: Vec<Instr> = Vec::new();
    let mut flip = true;
    let mut i: usize = 0;
    while i < n
        invariant
            i <= n,
            n == code@.len(),
            colors_in_palette(coloring@, 8),
            code_vars_bound(code@.subrange(0, i as int), coloring@.len()),
            out@ == rewrite_spec(code@.subrange(0, i as int), coloring@, true).0,
            flip == rewrite_spec(code@.subrange(0, i as int), coloring@, true).1,
        decreases n - i,
    {
        let ghost prefix = code@.subrange(0, i as int);
        let ins = code[i];
        match ins {
            Instr::Store(r, v) => {
                if v >= coloring.len() {
                    proof {
                        assert(!instr_vars_bound(code@[i as int], coloring@.len()));
                    }
                    return Err(AllocError::MissingVar(v));
                }
                match coloring[v] {
                    Color::Colored(x) => {
                        out.push(Instr::Move(PhysReg::S(x as u8), Operand::Reg(r)));
                    },
                    Color::Spilled => {
                        out.push(Instr::SlotStore(r, v));
                    },
                }
            },
            Instr::Move(d, o) => {
                match resolve_operand(o, coloring, flip) {
                    Ok((o2, load, f2)) => {
                        if let Some(l) = load {
                            out.push(l);
                        }
                        out.push(Instr::Move(d, o2));
                        flip = f2;
                    },
                    Err(e) => {
                        proof {
                            assert(!instr_vars_bound(code@[i as int], coloring@.len()));
                        }
                        return Err(e);
                    },
                }
            },
            Instr::Arith(op, d, a, b) => {
                let (a2, la, f1) = match resolve_operand(a, coloring, flip) {
                    Ok(t) => t,
                    Err(e) => {
                        proof {
                            assert(!instr_vars_bound(code@[i as int], coloring@.len()));
                        }
                        return Err(e);
                    },
                };
                let (b2, lb, f2) = match resolve_operand(b, coloring, f1) {
                    Ok(t) => t,
                    Err(e) => {
                        proof {
                            assert(!instr_vars_bound(code@[i as int], coloring@.len()));
                        }
                        return Err(e);
                    },
                };
                if let Some(l) = la {
                    out.push(l);
                }
                if let Some(l) = lb {
                    out.push(l);
                }
                out.push(Instr::Arith(op, d, a2, b2));
                flip = f2;
            },
            Instr::Branch(cp, a, b, lab) => {
                let (a2, la, f1) = match resolve_operand(a, coloring, flip) {
                    Ok(t) => t,
                    Err(e) => {
                        proof {
                            assert(!instr_vars_bound(code@[i as int], coloring@.len()));
                        }
                        return Err(e);
                    },
                };
                let (b2, lb, f2) = match resolve_operand(b, coloring, f1) {
                    Ok(t) => t,
                    Err(e) => {
                        proof {
                            assert(!instr_vars_bound(code@[i as int], coloring@.len()));
                        }
                        return Err(e);
                    },
                };
                if let Some(l) = la {
                    out.push(l);
                }
                if let Some(l) = lb {
                    out.push(l);
                }
                out.push(Instr::Branch(cp, a2, b2, lab));
                flip = f2;
            },
            _ => {
                out.push(ins);
            },
        }
        proof {
            lemma_rewrite_spec_snoc(prefix, code@[i as int], coloring@, true);
            assert(prefix.push(code@[i as int]) =~= code@.subrange(0, i + 1));
            assert(out@ =~= rewrite_spec(code@.subrange(0, i + 1), coloring@, true).0);
        }
        i += 1;
    }
    proof {
        assert(code@.subrange(0, n as int) =~= code@);
    }
    Ok(out)
}

/// The data section the rewritten program needs: one reserved,
/// zero-initialized memory cell for every variable left spilled, in
/// ascending id order; colored variables get none.
pub fn spilled_vars(coloring: &Vec<Color>) -> (r: Vec<usize>)
    ensures
        forall|j: int|
            0 <= j < r@.len() ==> #[trigger] r@[j] < coloring@.len() && coloring@[r@[j] as int]
                == Color::Spilled,
        forall|v: int|
            0 <= v < coloring@.len() && #[trigger] coloring@[v] == Color::Spilled ==> exists|j: int|
                0 <= j < r@.len() && #[trigger] r@[j] == v,
        forall|j1: int, j2: int| 0 <= j1 < j2 < r@.len() ==> r@[j1] < r@[j2],
{
    let n = coloring.len();
    let mut r: Vec<usize> = Vec::new();
    let mut v: usize = 0;
    while v < n
        invariant
            v <= n,
            n == coloring@.len(),
            forall|j: int|
                0 <= j < r@.len() ==> #[trigger] r@[j] < v && coloring@[r@[j] as int]
                    == Color::Spilled,
            forall|x: int|
                0 <= x < v && #[trigger] coloring@[x] == Color::Spilled ==> exists|j: int|
                    0 <= j < r@.len() && #[trigger] r@[j] == x,
            forall|j1: int, j2: int| 0 <= j1 < j2 < r@.len() ==> r@[j1] < r@[j2],
        decreases n - v,
    {
        let ghost r_pre = r@;
        if let Color::Spilled = coloring[v] {
            r.push(v);
        }
        proof {
            assert forall|x: int|
                0 <= x < v + 1 && #[trigger] coloring@[x] == Color::Spilled implies exists|j: int|
                0 <= j < r@.len() && #[trigger] r@[j] == x by {
                if x == v {
                    assert(r@[r@.len() - 1] == x);
                } else {
                    let j = choose|j: int| 0 <= j < r_pre.len() && #[trigger] r_pre[j] == x;
                    assert(r@[j] == x);
                }
            }
        }
        v += 1;
    }
    r
}

} // verus!
