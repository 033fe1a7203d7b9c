//! The abstract syntax tree of the source language, the visitor over it,
//! and the code generator that lowers a tree to the pseudo-instruction
//! sequence the register allocator consumes.

use vstd::prelude::*;
use crate::instr::{
    code_labels_bound, code_vars_bound, operand_vars_bound, BinOp, CmpOp, Instr, Operand, PhysReg,
};
use crate::lex::is_digit;

verus! {

/// A statement.
#[derive(Debug)]
pub enum Stm {
    Assign(AssignStm),
    Compound(CompoundStm),
    Print(PrintStm),
    For(ForStm),
}

/// An expression.
#[derive(Debug)]
pub enum Exp {
    Id(IdExp),
    Num(NumExp),
    Op(OpExp),
    Eseq(EseqExp),
    Comp(CompExp),
}

/// A non-empty list of expressions (the arguments of a print).
#[derive(Debug)]
pub enum ExpList {
    Pair(PairExpList),
    Last(LastExpList),
}

/// `id := exp`
#[derive(Debug)]
pub struct AssignStm {
    pub id: Box<Exp>,
    pub exp: Box<Exp>,
}

/// `stm1 ; stm2`
#[derive(Debug)]
pub struct CompoundStm {
    pub stm1: Box<Stm>,
    pub stm2: Box<Stm>,
}

/// `print ( exps )`
#[derive(Debug)]
pub struct PrintStm {
    pub exps: Box<ExpList>,
}

/// `for ( iter ; comp ; inc ) { body }`
#[derive(Debug)]
pub struct ForStm {
    pub iter: Box<Stm>,
    pub comp: Box<Exp>,
    pub inc: Box<Stm>,
    pub body: Box<Stm>,
}

/// a variable read
#[derive(Debug)]
pub struct IdExp {
    pub id: String,
}

/// a number literal, as its source text
#[derive(Debug)]
pub struct NumExp {
    pub num: String,
}

/// `left op right`
#[derive(Debug)]
pub struct OpExp {
    pub left: Box<Exp>,
    pub right: Box<Exp>,
    pub op: BinOp,
}

/// `( stm , exp )`: a statement evaluated for effect, then a value
#[derive(Debug)]
pub struct EseqExp {
    pub stm: Box<Stm>,
    pub exp: Box<Exp>,
}

/// head of an expression list, with more to come
#[derive(Debug)]
pub struct PairExpList {
    pub head: Box<Exp>,
    pub tail: Box<ExpList>,
}

/// the last expression of a list
#[derive(Debug)]
pub struct LastExpList {
    pub head: Box<Exp>,
}

/// a comparison, the condition of a for-loop
#[derive(Debug)]
pub struct CompExp {
    pub left: Box<Exp>,
    pub right: Box<Exp>,
    pub op: CmpOp,
}

/// What stops code generation: a number literal that is not a plain
/// decimal `u32`, an assignment whose target is not an identifier, a
/// comparison anywhere but a for-loop condition, a for-loop condition
/// that is not a comparison, or a label counter at its limit.
#[derive(Debug)]
pub enum CodeGenError {
    InvalidLiteral(String),
    InvalidAssignTarget,
    MisplacedComparison,
    TooManyLabels,
}

/// A visitor over the tree. Code generation can fail, so every visit
/// returns a result; an expression visit yields the operand holding the
/// expression's value.
pub trait Visitor {
    fn visit_stm(&mut self, stm: &Stm) -> Result<(), CodeGenError>;

    fn visit_exp(&mut self, exp: &Exp) -> Result<Operand, CodeGenError>;

    fn visit_exp_list(&mut self, exp_list: &ExpList) -> Result<Vec<Operand>, CodeGenError>;
}

impl Stm {
    /// Dispatch this statement to the visitor.
    pub fn accept<V: Visitor>(&self, visitor: &mut V) -> Result<(), CodeGenError> {
        visitor.visit_stm(self)
    }
}

impl Exp {
    /// Dispatch this expression to the visitor.
    pub fn accept<V: Visitor>(&self, visitor: &mut V) -> Result<Operand, CodeGenError> {
        visitor.visit_exp(self)
    }
}

impl ExpList {
    /// Dispatch this expression list to the visitor.
    pub fn accept<V: Visitor>(&self, visitor: &mut V) -> Result<Vec<Operand>, CodeGenError> {
        visitor.visit_exp_list(self)
    }
}

/// The numeric value of a digit.
pub open spec fn digit_val(c: char) -> int {
    (c as u32) - ('0' as u32)
}

/// A plain decimal literal: non-empty, digits only.
pub open spec fn str_is_digits(s: Seq<char>) -> bool {
    s.len() > 0 && forall|i: int| 0 <= i < s.len() ==> is_digit(#[trigger] s[i])
}

/// The value of a digit string, most significant digit first.
pub open spec fn str_num_val(s: Seq<char>) -> int
    decreases s.len(),
{
    if s.len() == 0 {
        0
    } else {
        str_num_val(s.drop_last()) * 10 + digit_val(s[s.len() - 1])
    }
}

proof fn lemma_num_val_nonneg(s: Seq<char>)
    requires
        forall|i: int| 0 <= i < s.len() ==> is_digit(#[trigger] s[i]),
    ensures
        str_num_val(s) >= 0,
    decreases s.len(),
{
    if s.len() > 0 {
        lemma_num_val_nonneg(s.drop_last());
        assert(is_digit(s[s.len() - 1]));
        assert(digit_val(s[s.len() - 1]) >= 0);
        assert(str_num_val(s.drop_last()) * 10 >= 0) by (nonlinear_arith)
            requires str_num_val(s.drop_last()) >= 0;
    }
}

proof fn lemma_num_val_prefix_le(s: Seq<char>, i: int)
    requires
        forall|j: int| 0 <= j < s.len() ==> is_digit(#[trigger] s[j]),
        0 <= i <= s.len(),
    ensures
        str_num_val(s.subrange(0, i)) <= str_num_val(s),
    decreases s.len() - i,
{
    if i == s.len() {
        assert(s.subrange(0, i) =~= s);
    } else {
        lemma_num_val_prefix_le(s, i + 1);
        let p = s.subrange(0, i);
        let q = s.subrange(0, i + 1);
        assert(q.drop_last() =~= p);
        lemma_num_val_nonneg(p);
        assert(is_digit(q[q.len() - 1]));
        assert(str_num_val(q) == str_num_val(p) * 10 + digit_val(q[q.len() - 1]));
        assert(str_num_val(p) * 10 >= str_num_val(p)) by (nonlinear_arith)
            requires str_num_val(p) >= 0;
    }
}

/// Parse a plain decimal `u32` literal: its value, or nothing where the
/// text is empty, has a non-digit (a sign, a dot), or exceeds `u32`.
pub fn parse_num(s: &String) -> (r: Option<u32>)
    ensures
        match r {
            Some(v) => str_is_digits(s@) && str_num_val(s@) == v as int,
            None => !str_is_digits(s@) || str_num_val(s@) > u32::MAX,
        },
{
    let n = s.as_str().unicode_len();
    if n == 0 {
        return None;
    }
    let mut acc: u32 = 0;
    let mut i: usize = 0;
    while i < n
        invariant
            i <= n,
            n == s@.len(),
            forall|j: int| 0 <= j < i ==> is_digit(#[trigger] s@[j]),
            acc as int == str_num_val(s@.subrange(0, i as int)),
        decreases n - i,
    {
        let c = s.as_str().get_char(i);
        let cu = c as u32;
        if cu < 48 || cu > 57 {
            return None;
        }
        let d: u32 = cu - 48;
        let wide: u64 = (acc as u64) * 10 + (d as u64);
        proof {
            assert(s@.subrange(0, i + 1).drop_last() =~= s@.subrange(0, i as int));
            assert(str_num_val(s@.subrange(0, i + 1)) == (acc as int) * 10 + d);
        }
        if wide > (u32::MAX as u64) {
            proof {
                if str_is_digits(s@) {
                    lemma_num_val_prefix_le(s@, i + 1);
                }
            }
            return None;
        }
        acc = wide as u32;
        i += 1;
    }
    proof {
        assert(s@.subrange(0, n as int) =~= s@);
    }
    Some(acc)
}

/// The code generator: lowers statements to the pseudo-instruction
/// sequence, interning variable names as small ids and cycling through
/// the scratch registers for intermediate values.
pub struct CodeGenerator {
    /// the instructions emitted so far
    pub generated_code: Vec<Instr>,
    /// counter cycling the scratch registers `$t0`..`$t7`
    pub temp_var_num: u16,
    /// counter cycling the saved registers (kept for parity; unused by
    /// the current lowering)
    pub var_num: u16,
    /// next fresh label id
    pub label_num: usize,
    /// the interning table: the name of variable `v` is `var_set[v]`
    pub var_set: Vec<String>,
}

/// The position of `name` in the interning table: the first index whose
/// entry has these characters, or the table's length where none has.
pub open spec fn intern_pos(names: Seq<String>, name: Seq<char>) -> int
    decreases names.len(),
{
    if names.len() == 0 {
        0
    } else if names[0]@ == name {
        0
    } else {
        1 + intern_pos(names.drop_first(), name)
    }
}

/// What interning `name` makes of the table, and the id it yields: an
/// existing entry's index, or the index of the freshly appended entry.
pub open spec fn spec_intern(names: Seq<String>, name: String) -> (Seq<String>, int) {
    let p = intern_pos(names, name@);
    if p < names.len() {
        (names, p)
    } else {
        (names.push(name), p)
    }
}

proof fn lemma_intern_pos_at(names: Seq<String>, name: Seq<char>, i: int)
    requires
        0 <= i <= names.len(),
        forall|j: int| 0 <= j < i ==> (#[trigger] names[j])@ != name,
        i == names.len() || names[i]@ == name,
    ensures
        intern_pos(names, name) == i,
    decreases names.len(),
{
    if names.len() == 0 {
    } else if names[0]@ == name {
        assert(i == 0);
    } else {
        assert(i > 0);
        let rest = names.drop_first();
        assert forall|j: int| 0 <= j < i - 1 implies (#[trigger] rest[j])@ != name by {
            assert(rest[j] == names[j + 1]);
        }
        assert(i - 1 == rest.len() || rest[i - 1]@ == name);
        lemma_intern_pos_at(rest, name, i - 1);
    }
}

/// `b` begins with `a`: nothing of `a` was removed or changed.
pub open spec fn seq_extends<T>(a: Seq<T>, b: Seq<T>) -> bool {
    &&& a.len() <= b.len()
    &&& forall|i: int| 0 <= i < a.len() ==> a[i] == #[trigger] b[i]
}

/// No two interned names are the same.
pub open spec fn names_distinct(names: Seq<String>) -> bool {
    forall|i: int, j: int|
        0 <= i < names.len() && 0 <= j < names.len() && i != j ==> (#[trigger] names[i])@ != (
        #[trigger] names[j])@
}

/// Can this expression be lowered? Number literals must be plain `u32`
/// decimals, and comparisons may only stand as a for-loop condition.
pub open spec fn exp_gen_ok(exp: Exp) -> bool
    decreases exp,
{
    match exp {
        Exp::Id(_) => true,
        Exp::Num(num) => str_is_digits(num.num@) && str_num_val(num.num@) <= u32::MAX,
        Exp::Op(op) => exp_gen_ok(*op.left) && exp_gen_ok(*op.right),
        Exp::Eseq(eseq) => stm_gen_ok(*eseq.stm) && exp_gen_ok(*eseq.exp),
        Exp::Comp(_) => false,
    }
}

/// Can this statement be lowered? An assignment's target must be an
/// identifier; a for-loop's condition must be a comparison of two
/// lowerable expressions.
pub open spec fn stm_gen_ok(stm: Stm) -> bool
    decreases stm,
{
    match stm {
        Stm::Assign(assign) => (*assign.id matches Exp::Id(_)) && exp_gen_ok(*assign.exp),
        Stm::Compound(compound) => stm_gen_ok(*compound.stm1) && stm_gen_ok(*compound.stm2),
        Stm::Print(print) => exp_list_gen_ok(*print.exps),
        Stm::For(for_stm) => stm_gen_ok(*for_stm.iter) && stm_gen_ok(*for_stm.inc) && stm_gen_ok(
            *for_stm.body,
        ) && (*for_stm.comp matches Exp::Comp(comp) && exp_gen_ok(*comp.left) && exp_gen_ok(
            *comp.right,
        )),
    }
}

/// Can this expression list be lowered?
pub open spec fn exp_list_gen_ok(l: ExpList) -> bool
    decreases l,
{
    match l {
        ExpList::Pair(pair) => exp_gen_ok(*pair.head) && exp_list_gen_ok(*pair.tail),
        ExpList::Last(last) => exp_gen_ok(*last.head),
    }
}

impl CodeGenerator {
    /// A generator state whose emitted code mentions only interned
    /// variables and already-allocated labels, over a duplicate-free
    /// interning table.
    pub open spec fn wf(self) -> bool {
        &&& code_vars_bound(self.generated_code@, self.var_set@.len())
        &&& code_labels_bound(self.generated_code@, self.label_num as nat)
        &&& names_distinct(self.var_set@)
    }

    /// Did this call only add to the generator: code appended, the
    /// interning table extended, no label id reused?
    pub open spec fn extends(self, post: CodeGenerator) -> bool {
        &&& seq_extends(self.generated_code@, post.generated_code@)
        &&& seq_extends(self.var_set@, post.var_set@)
        &&& self.label_num <= post.label_num
    }

    /// The next scratch register, cycling through `$t0`..`$t7`.
    pub fn get_temp(&mut self) -> (r: PhysReg)
        ensures
            r == PhysReg::T((old(self).temp_var_num % 8) as u8),
            final(self).temp_var_num == (if old(self).temp_var_num == u16::MAX {
                0u16
            } else {
                (old(self).temp_var_num + 1) as u16
            }),
            final(self).generated_code == old(self).generated_code,
            final(self).var_num == old(self).var_num,
            final(self).label_num == old(self).label_num,
            final(self).var_set == old(self).var_set,
    {
        let r = PhysReg::T((self.temp_var_num % 8) as u8);
        if self.temp_var_num == u16::MAX {
            self.temp_var_num = 0;
        } else {
            self.temp_var_num = self.temp_var_num + 1;
        }
        r
    }

    /// The next saved register, cycling through `$s0`..`$s7`.
    pub fn get_var(&mut self) -> (r: PhysReg)
        ensures
            r == PhysReg::S((old(self).var_num % 8) as u8),
            final(self).var_num == (if old(self).var_num == u16::MAX {
                0u16
            } else {
                (old(self).var_num + 1) as u16
            }),
            final(self).generated_code == old(self).generated_code,
            final(self).temp_var_num == old(self).temp_var_num,
            final(self).label_num == old(self).label_num,
            final(self).var_set == old(self).var_set,
    {
        let r = PhysReg::S((self.var_num % 8) as u8);
        if self.var_num == u16::MAX {
            self.var_num = 0;
        } else {
            self.var_num = self.var_num + 1;
        }
        r
    }

    /// A fresh loop label id.
    pub fn gen_label(&mut self) -> (l: usize)
        requires
            old(self).label_num < usize::MAX,
        ensures
            l == old(self).label_num,
            final(self).label_num == old(self).label_num + 1,
            final(self).generated_code == old(self).generated_code,
            final(self).temp_var_num == old(self).temp_var_num,
            final(self).var_num == old(self).var_num,
            final(self).var_set == old(self).var_set,
    {
        let l = self.label_num;
        self.label_num = self.label_num + 1;
        l
    }

    /// Is this operand an immediate?
    pub fn is_numeric(&self, x: &Operand) -> (r: bool)
        ensures
            r == (x matches Operand::Imm(_)),
    {
        match x {
            Operand::Imm(_) => true,
            _ => false,
        }
    }

    /// Emit the system-call selector for printing an integer.
    pub fn load_print_instr(&mut self)
        ensures
            final(self).generated_code@ == old(self).generated_code@.push(
                Instr::Li(PhysReg::V(0), 1),
            ),
            final(self).temp_var_num == old(self).temp_var_num,
            final(self).var_num == old(self).var_num,
            final(self).label_num == old(self).label_num,
            final(self).var_set == old(self).var_set,
    {
        self.generated_code.push(Instr::Li(PhysReg::V(0), 1));
    }

    /// Emit a system call.
    pub fn syscall(&mut self)
        ensures
            final(self).generated_code@ == old(self).generated_code@.push(Instr::Syscall),
            final(self).temp_var_num == old(self).temp_var_num,
            final(self).var_num == old(self).var_num,
            final(self).label_num == old(self).label_num,
            final(self).var_set == old(self).var_set,
    {
        self.generated_code.push(Instr::Syscall);
    }

    /// Emit the print of a newline: select the print-string call, load
    /// the newline string's address, and call.
    pub fn newline_instr(&mut self)
        ensures
            final(self).generated_code@ == old(self).generated_code@.push(
                Instr::Li(PhysReg::V(0), 4),
            ).push(Instr::La(PhysReg::A(0))).push(Instr::Syscall),
            final(self).temp_var_num == old(self).temp_var_num,
            final(self).var_num == old(self).var_num,
            final(self).label_num == old(self).label_num,
            final(self).var_set == old(self).var_set,
    {
        self.generated_code.push(Instr::Li(PhysReg::V(0), 4));
        self.generated_code.push(Instr::La(PhysReg::A(0)));
        self.generated_code.push(Instr::Syscall);
    }

    /// The id of this variable name, interning it if it is new.
    #[verifier::loop_isolation(false)]
    pub fn intern_var(&mut self, name: &String) -> (v: usize)
        ensures
            names_distinct(old(self).var_set@) ==> names_distinct(final(self).var_set@),
            seq_extends(old(self).var_set@, final(self).var_set@),
            v < final(self).var_set@.len(),
            final(self).var_set@[v as int]@ == name@,
            v as int == intern_pos(old(self).var_set@, name@),
            final(self).var_set@ == spec_intern(old(self).var_set@, *name).0,
            final(self).generated_code == old(self).generated_code,
            final(self).temp_var_num == old(self).temp_var_num,
            final(self).var_num == old(self).var_num,
            final(self).label_num == old(self).label_num,
    {
        let n = self.var_set.len();
        let mut i: usize = 0;
        while i < n
            invariant
                i <= n,
                n == self.var_set@.len(),
                forall|j: int| 0 <= j < i ==> (#[trigger] self.var_set@[j])@ != name@,
        decreases n - i,
        {
            if self.var_set[i].eq(name) {
                proof {
                    lemma_intern_pos_at(self.var_set@, name@, i as int);
                }
                return i;
            }
            i += 1;
        }
        proof {
            lemma_intern_pos_at(self.var_set@, name@, n as int);
        }
        self.var_set.push(name.clone());
        proof {
            assert(self.var_set@ =~= spec_intern(old(self).var_set@, *name).0);
            if names_distinct(old(self).var_set@) {
            assert forall|a: int, b: int|
                0 <= a < self.var_set@.len() && 0 <= b < self.var_set@.len() && a != b implies (
            #[trigger] self.var_set@[a])@ != (#[trigger] self.var_set@[b])@ by {
                if a == n as int {
                    assert((self.var_set@[b])@ != name@);
                } else if b == n as int {
                    assert((self.var_set@[a])@ != name@);
                }
            }
            }
        }
        n
    }
}


/// The generator's state, as mathematics: the code emitted so far, the
/// two register counters, the next label, and the interning table.
pub struct GenState {
    pub code: Seq<Instr>,
    pub temp: u16,
    pub var: u16,
    pub label: usize,
    pub names: Seq<String>,
}

/// The state a generator value is in.
pub open spec fn state_of(cg: CodeGenerator) -> GenState {
    GenState {
        code: cg.generated_code@,
        temp: cg.temp_var_num,
        var: cg.var_num,
        label: cg.label_num,
        names: cg.var_set@,
    }
}

/// A register counter after one draw: up by one, wrapping.
pub open spec fn wrap16(n: u16) -> u16 {
    if n == u16::MAX {
        0u16
    } else {
        (n + 1) as u16
    }
}

/// The scratch register a counter value selects.
pub open spec fn temp_reg(n: u16) -> PhysReg {
    PhysReg::T((n % 8) as u8)
}

/// What lowering one expression makes of the generator: the state
/// afterwards and the operand holding the value — or the error that
/// stops it. This is the exact meaning of `gen_exp`.
pub open spec fn spec_gen_exp(exp: Exp, st: GenState) -> Result<(GenState, Operand), CodeGenError>
    decreases exp,
{
    match exp {
        Exp::Id(id) => {
            let (names2, p) = spec_intern(st.names, id.id);
            Ok((GenState { names: names2, ..st }, Operand::Var(p as usize)))
        },
        Exp::Num(num) => if str_is_digits(num.num@) && str_num_val(num.num@) <= u32::MAX {
            Ok((st, Operand::Imm(str_num_val(num.num@) as u32)))
        } else {
            Err(CodeGenError::InvalidLiteral(num.num))
        },
        Exp::Op(op) => match spec_gen_exp(*op.left, st) {
            Ok((st1, code1)) => match spec_gen_exp(*op.right, st1) {
                Ok((st2, code2)) => {
                    let t1 = temp_reg(st2.temp);
                    let t2 = temp_reg(wrap16(st2.temp));
                    let t3 = temp_reg(wrap16(wrap16(st2.temp)));
                    let loads1: Seq<Instr> = match code1 {
                        Operand::Imm(nv) => seq![Instr::Li(t1, nv)],
                        _ => Seq::empty(),
                    };
                    let o1 = match code1 {
                        Operand::Imm(_) => Operand::Reg(t1),
                        other => other,
                    };
                    let loads2: Seq<Instr> = match code2 {
                        Operand::Imm(nv) => seq![Instr::Li(t2, nv)],
                        _ => Seq::empty(),
                    };
                    let o2 = match code2 {
                        Operand::Imm(_) => Operand::Reg(t2),
                        other => other,
                    };
                    Ok(
                        (
                            GenState {
                                code: st2.code + loads1 + loads2 + seq![
                                    Instr::Arith(op.op, t3, o1, o2),
                                ],
                                temp: wrap16(wrap16(wrap16(st2.temp))),
                                ..st2
                            },
                            Operand::Reg(t3),
                        ),
                    )
                },
                Err(e) => Err(e),
            },
            Err(e) => Err(e),
        },
        Exp::Eseq(eseq) => match spec_gen_stm(*eseq.stm, st) {
            Ok(st1) => spec_gen_exp(*eseq.exp, st1),
            Err(e) => Err(e),
        },
        Exp::Comp(_) => Err(CodeGenError::MisplacedComparison),
    }
}

/// What the write-back at the end of an assignment emits, given the
/// operand holding the value: a register is stored directly, an
/// immediate or a variable read goes through a fresh scratch register.
pub open spec fn spec_store_value(v2: Operand, vid: int, st: GenState) -> GenState {
    match v2 {
        Operand::Reg(r) => GenState { code: st.code.push(Instr::Store(r, vid as usize)), ..st },
        Operand::Imm(nv) => GenState {
            code: st.code + seq![
                Instr::Li(temp_reg(st.temp), nv),
                Instr::Store(temp_reg(st.temp), vid as usize),
            ],
            temp: wrap16(st.temp),
            ..st
        },
        Operand::Var(u) => GenState {
            code: st.code + seq![
                Instr::Move(temp_reg(st.temp), Operand::Var(u)),
                Instr::Store(temp_reg(st.temp), vid as usize),
            ],
            temp: wrap16(st.temp),
            ..st
        },
    }
}

/// What printing one already-lowered value emits: the load of an
/// immediate if one is needed, the print call, and the newline.
pub open spec fn spec_print_one(o: Operand, st: GenState) -> GenState {
    match o {
        Operand::Imm(nv) => GenState {
            code: st.code + seq![
                Instr::Li(temp_reg(st.temp), nv),
                Instr::Li(PhysReg::V(0), 1),
                Instr::Move(PhysReg::A(0), Operand::Reg(temp_reg(st.temp))),
                Instr::Syscall,
                Instr::Li(PhysReg::V(0), 4),
                Instr::La(PhysReg::A(0)),
                Instr::Syscall,
            ],
            temp: wrap16(st.temp),
            ..st
        },
        _ => GenState {
            code: st.code + seq![
                Instr::Li(PhysReg::V(0), 1),
                Instr::Move(PhysReg::A(0), o),
                Instr::Syscall,
                Instr::Li(PhysReg::V(0), 4),
                Instr::La(PhysReg::A(0)),
                Instr::Syscall,
            ],
            ..st
        },
    }
}

/// Printing a list of lowered values, left to right.
pub open spec fn spec_print_items(items: Seq<Operand>, st: GenState) -> GenState
    decreases items.len(),
{
    if items.len() == 0 {
        st
    } else {
        spec_print_items(items.drop_first(), spec_print_one(items[0], st))
    }
}

/// What lowering one statement makes of the generator: the exact
/// meaning of `gen_stm`.
pub open spec fn spec_gen_stm(stm: Stm, st: GenState) -> Result<GenState, CodeGenError>
    decreases stm,
{
    match stm {
        Stm::Assign(assign) => match *assign.id {
            Exp::Id(idexp) => {
                let (names2, vid) = spec_intern(st.names, idexp.id);
                let st1 = GenState { names: names2, ..st };
                match spec_gen_exp(*assign.exp, st1) {
                    Ok((st2, v2)) => Ok(spec_store_value(v2, vid, st2)),
                    Err(e) => Err(e),
                }
            },
            _ => Err(CodeGenError::InvalidAssignTarget),
        },
        Stm::Compound(compound) => match spec_gen_stm(*compound.stm1, st) {
            Ok(st1) => spec_gen_stm(*compound.stm2, st1),
            Err(e) => Err(e),
        },
        Stm::Print(print) => match spec_gen_exp_list(*print.exps, st) {
            Ok((st1, items)) => Ok(spec_print_items(items, st1)),
            Err(e) => Err(e),
        },
        Stm::For(for_stm) => match spec_gen_stm(*for_stm.iter, st) {
            Ok(st1) => if st1.label >= usize::MAX - 1 {
                Err(CodeGenError::TooManyLabels)
            } else {
                let entry = st1.label;
                let exit = (st1.label + 1) as usize;
                let st2 = GenState {
                    code: st1.code.push(Instr::Label(entry)),
                    label: (st1.label + 2) as usize,
                    ..st1
                };
                match *for_stm.comp {
                    Exp::Comp(comp) => match spec_gen_exp(*comp.left, st2) {
                        Ok((st3, cl)) => match spec_gen_exp(*comp.right, st3) {
                            Ok((st4, cr)) => {
                                let st5 = GenState {
                                    code: st4.code.push(Instr::Branch(comp.op, cl, cr, exit)),
                                    ..st4
                                };
                                match spec_gen_stm(*for_stm.body, st5) {
                                    Ok(st6) => match spec_gen_stm(*for_stm.inc, st6) {
                                        Ok(st7) => Ok(
                                            GenState {
                                                code: st7.code + seq![
                                                    Instr::Jump(entry),
                                                    Instr::Label(exit),
                                                ],
                                                ..st7
                                            },
                                        ),
                                        Err(e) => Err(e),
                                    },
                                    Err(e) => Err(e),
                                }
                            },
                            Err(e) => Err(e),
                        },
                        Err(e) => Err(e),
                    },
                    _ => Err(CodeGenError::MisplacedComparison),
                }
            },
            Err(e) => Err(e),
        },
    }
}

/// What lowering an expression list makes of the generator, with the
/// operands of its expressions in order: the exact meaning of
/// `gen_exp_list`.
pub open spec fn spec_gen_exp_list(l: ExpList, st: GenState) -> Result<
    (GenState, Seq<Operand>),
    CodeGenError,
>
    decreases l,
{
    match l {
        ExpList::Pair(pair) => match spec_gen_exp(*pair.head, st) {
            Ok((st1, v1)) => match spec_gen_exp_list(*pair.tail, st1) {
                Ok((st2, vs)) => Ok((st2, seq![v1] + vs)),
                Err(e) => Err(e),
            },
            Err(e) => Err(e),
        },
        ExpList::Last(last) => match spec_gen_exp(*last.head, st) {
            Ok((st1, v1)) => Ok((st1, seq![v1])),
            Err(e) => Err(e),
        },
    }
}

/// The shape of the operand a lowered expression yields: an identifier
/// yields its interned variable, a literal its value, an operation the
/// destination register of its arithmetic; a statement-expression yields
/// whatever its inner expression does.
pub open spec fn gen_exp_result_ok(exp: Exp, o: Operand, names: Seq<String>) -> bool
    decreases exp,
{
    match exp {
        Exp::Id(id) => o matches Operand::Var(v) && v < names.len() && names[v as int]@ == id.id@,
        Exp::Num(num) => o matches Operand::Imm(x) && x as int == str_num_val(num.num@),
        Exp::Op(_) => o matches Operand::Reg(_),
        Exp::Eseq(eseq) => gen_exp_result_ok(*eseq.exp, o, names),
        Exp::Comp(_) => false,
    }
}

impl CodeGenerator {
    /// Lower one expression: emit the instructions computing it and
    /// return the operand that holds its value — the interned variable
    /// for an identifier, the immediate for a literal, the destination
    /// scratch register for an operation.
    ///
    /// From a well-formed generator state the state stays well-formed
    /// and only grows; success is decided by `exp_gen_ok` alone.
    pub fn gen_exp(&mut self, exp: &Exp) -> (r: Result<Operand, CodeGenError>)
        ensures
            old(self).wf() ==> final(self).wf() && old(self).extends(*final(self)),
            r is Ok ==> exp_gen_ok(*exp),
            !exp_gen_ok(*exp) ==> r is Err,
            r matches Ok(o) ==> (spec_gen_exp(*exp, state_of(*old(self))) matches Ok(p) && p.0
                == state_of(*final(self)) && p.1 == o),
            r matches Err(e) ==> spec_gen_exp(*exp, state_of(*old(self))) == Err::<
                (GenState, Operand),
                CodeGenError,
            >(e),
            old(self).wf() ==> (r matches Ok(o) ==> operand_vars_bound(
                o,
                final(self).var_set@.len(),
            ) && gen_exp_result_ok(*exp, o, final(self).var_set@)),
        decreases *exp,
    {
        match exp {
            Exp::Id(id) => {
                let v = self.intern_var(&id.id);
                Ok(Operand::Var(v))
            },
            Exp::Num(num) => match parse_num(&num.num) {
                Some(v) => Ok(Operand::Imm(v)),
                None => Err(CodeGenError::InvalidLiteral(num.num.clone())),
            },
            Exp::Op(op) => {
                let code1 = match self.gen_exp(&op.left) {
                    Ok(o) => o,
                    Err(e) => {
                        return Err(e);
                    },
                };
                let code2 = match self.gen_exp(&op.right) {
                    Ok(o) => o,
                    Err(e) => {
                        return Err(e);
                    },
                };
                let ghost st2g = state_of(*self);
                let t1 = self.get_temp();
                let t2 = self.get_temp();
                let t3 = self.get_temp();
                let o1 = match code1 {
                    Operand::Imm(nv) => {
                        self.generated_code.push(Instr::Li(t1, nv));
                        Operand::Reg(t1)
                    },
                    other => other,
                };
                let o2 = match code2 {
                    Operand::Imm(nv) => {
                        self.generated_code.push(Instr::Li(t2, nv));
                        Operand::Reg(t2)
                    },
                    other => other,
                };
                self.generated_code.push(Instr::Arith(op.op, t3, o1, o2));
                proof {
                    let loads1: Seq<Instr> = match code1 {
                        Operand::Imm(nv) => seq![Instr::Li(temp_reg(st2g.temp), nv)],
                        _ => Seq::empty(),
                    };
                    let loads2: Seq<Instr> = match code2 {
                        Operand::Imm(nv) => seq![Instr::Li(temp_reg(wrap16(st2g.temp)), nv)],
                        _ => Seq::empty(),
                    };
                    assert(state_of(*self).code =~= st2g.code + loads1 + loads2 + seq![
                        Instr::Arith(op.op, t3, o1, o2),
                    ]);
                }
                Ok(Operand::Reg(t3))
            },
            Exp::Eseq(eseq) => {
                match self.gen_stm(&eseq.stm) {
                    Ok(_) => {},
                    Err(e) => {
                        return Err(e);
                    },
                }
                self.gen_exp(&eseq.exp)
            },
            Exp::Comp(_) => Err(CodeGenError::MisplacedComparison),
        }
    }

    /// Lower one statement, appending its instructions.
    ///
    /// From a well-formed generator state the state stays well-formed
    /// and only grows. Success needs `stm_gen_ok`, and additionally
    /// that the label counter does not run out (it cannot on any tree
    /// that fits in memory).
    pub fn gen_stm(&mut self, stm: &Stm) -> (r: Result<(), CodeGenError>)
        ensures
            old(self).wf() ==> final(self).wf() && old(self).extends(*final(self)),
            r is Ok ==> stm_gen_ok(*stm),
            !stm_gen_ok(*stm) ==> r is Err,
            r is Ok ==> spec_gen_stm(*stm, state_of(*old(self))) == Ok::<GenState, CodeGenError>(
                state_of(*final(self)),
            ),
            r matches Err(e) ==> spec_gen_stm(*stm, state_of(*old(self))) == Err::<
                GenState,
                CodeGenError,
            >(e),
        decreases *stm,
    {
        match stm {
            Stm::Assign(assign) => {
                let vid = match &*assign.id {
                    Exp::Id(idexp) => self.intern_var(&idexp.id),
                    _ => {
                        return Err(CodeGenError::InvalidAssignTarget);
                    },
                };
                let v2 = match self.gen_exp(&assign.exp) {
                    Ok(o) => o,
                    Err(e) => {
                        return Err(e);
                    },
                };
                let ghost st2g = state_of(*self);
                match v2 {
                    Operand::Reg(r2) => {
                        self.generated_code.push(Instr::Store(r2, vid));
                    },
                    Operand::Imm(nv) => {
                        let t = self.get_temp();
                        self.generated_code.push(Instr::Li(t, nv));
                        self.generated_code.push(Instr::Store(t, vid));
                    },
                    Operand::Var(u) => {
                        let t = self.get_temp();
                        self.generated_code.push(Instr::Move(t, Operand::Var(u)));
                        self.generated_code.push(Instr::Store(t, vid));
                    },
                }
                proof {
                    assert(state_of(*self).code =~= spec_store_value(v2, vid as int, st2g).code);
                }
                Ok(())
            },
            Stm::Compound(compound) => {
                match self.gen_stm(&compound.stm1) {
                    Ok(_) => {},
                    Err(e) => {
                        return Err(e);
                    },
                }
                self.gen_stm(&compound.stm2)
            },
            Stm::Print(print) => {
                let arr = match self.gen_exp_list(&print.exps) {
                    Ok(a) => a,
                    Err(e) => {
                        return Err(e);
                    },
                };
                let ghost st1g = state_of(*self);
                proof {
                    assert(arr@.skip(0) =~= arr@);
                }
                let n = arr.len();
                let mut i: usize = 0;
                while i < n
                    invariant
                        i <= n,
                        n == arr@.len(),
                        old(self).wf() ==> self.wf() && old(self).extends(*self),
                        old(self).wf() ==> forall|j: int|
                            0 <= j < n ==> operand_vars_bound(
                                #[trigger] arr@[j],
                                self.var_set@.len(),
                            ),
                        spec_print_items(arr@.skip(i as int), state_of(*self)) == spec_print_items(
                            arr@,
                            st1g,
                        ),
                    decreases n - i,
                {
                    let ghost st_pre = state_of(*self);
                    match arr[i] {
                        Operand::Imm(nv) => {
                            let t = self.get_temp();
                            self.generated_code.push(Instr::Li(t, nv));
                            self.load_print_instr();
                            self.generated_code.push(Instr::Move(PhysReg::A(0), Operand::Reg(t)));
                        },
                        Operand::Var(u) => {
                            self.load_print_instr();
                            self.generated_code.push(Instr::Move(PhysReg::A(0), Operand::Var(u)));
                        },
                        Operand::Reg(r2) => {
                            self.load_print_instr();
                            self.generated_code.push(Instr::Move(PhysReg::A(0), Operand::Reg(r2)));
                        },
                    }
                    self.syscall();
                    self.newline_instr();
                    proof {
                        assert(state_of(*self).code =~= spec_print_one(arr@[i as int], st_pre).code);
                        assert(state_of(*self) == spec_print_one(arr@[i as int], st_pre));
                        assert(arr@.skip(i as int)[0] == arr@[i as int]);
                        assert(arr@.skip(i as int).drop_first() =~= arr@.skip(i + 1));
                    }
                    i += 1;
                }
                proof {
                    assert(arr@.skip(n as int) =~= Seq::<Operand>::empty());
                }
                Ok(())
            },
            Stm::For(for_stm) => {
                match self.gen_stm(&for_stm.iter) {
                    Ok(_) => {},
                    Err(e) => {
                        return Err(e);
                    },
                }
                if self.label_num >= usize::MAX - 1 {
                    return Err(CodeGenError::TooManyLabels);
                }
                let entry = self.gen_label();
                self.generated_code.push(Instr::Label(entry));
                let exit = self.gen_label();
                let branch = match &*for_stm.comp {
                    Exp::Comp(comp) => {
                        let cl = match self.gen_exp(&comp.left) {
                            Ok(o) => o,
                            Err(e) => {
                                return Err(e);
                            },
                        };
                        let cr = match self.gen_exp(&comp.right) {
                            Ok(o) => o,
                            Err(e) => {
                                return Err(e);
                            },
                        };
                        Instr::Branch(comp.op, cl, cr, exit)
                    },
                    _ => {
                        return Err(CodeGenError::MisplacedComparison);
                    },
                };
                self.generated_code.push(branch);
                match self.gen_stm(&for_stm.body) {
                    Ok(_) => {},
                    Err(e) => {
                        return Err(e);
                    },
                }
                match self.gen_stm(&for_stm.inc) {
                    Ok(_) => {},
                    Err(e) => {
                        return Err(e);
                    },
                }
                let ghost st7g = state_of(*self);
                self.generated_code.push(Instr::Jump(entry));
                self.generated_code.push(Instr::Label(exit));
                proof {
                    assert(state_of(*self).code =~= st7g.code + seq![
                        Instr::Jump(entry),
                        Instr::Label(exit),
                    ]);
                }
                Ok(())
            },
        }
    }

    /// Lower an expression list, returning the operand of each
    /// expression in order.
    pub fn gen_exp_list(&mut self, exp_list: &ExpList) -> (r: Result<Vec<Operand>, CodeGenError>)
        ensures
            old(self).wf() ==> final(self).wf() && old(self).extends(*final(self)),
            r is Ok ==> exp_list_gen_ok(*exp_list),
            !exp_list_gen_ok(*exp_list) ==> r is Err,
            r matches Ok(a) ==> (spec_gen_exp_list(*exp_list, state_of(*old(self))) matches Ok(p)
                && p.0 == state_of(*final(self)) && p.1 == a@),
            r matches Err(e) ==> spec_gen_exp_list(*exp_list, state_of(*old(self))) == Err::<
                (GenState, Seq<Operand>),
                CodeGenError,
            >(e),
            old(self).wf() ==> (r matches Ok(a) ==> forall|j: int|
                0 <= j < a@.len() ==> operand_vars_bound(
                    #[trigger] a@[j],
                    final(self).var_set@.len(),
                )),
        decreases *exp_list,
    {
        match exp_list {
            ExpList::Pair(pair) => {
                let v1 = match self.gen_exp(&pair.head) {
                    Ok(o) => o,
                    Err(e) => {
                        return Err(e);
                    },
                };
                let mut v2 = match self.gen_exp_list(&pair.tail) {
                    Ok(a) => a,
                    Err(e) => {
                        return Err(e);
                    },
                };
                let mut new_arr: Vec<Operand> = Vec::new();
                new_arr.push(v1);
                new_arr.append(&mut v2);
                Ok(new_arr)
            },
            ExpList::Last(last) => {
                let v1 = match self.gen_exp(&last.head) {
                    Ok(o) => o,
                    Err(e) => {
                        return Err(e);
                    },
                };
                let mut new_arr: Vec<Operand> = Vec::new();
                new_arr.push(v1);
                Ok(new_arr)
            },
        }
    }
}

impl Visitor for CodeGenerator {
    fn visit_stm(&mut self, stm: &Stm) -> Result<(), CodeGenError> {
        self.gen_stm(stm)
    }

    fn visit_exp(&mut self, exp: &Exp) -> Result<Operand, CodeGenError> {
        self.gen_exp(exp)
    }

    fn visit_exp_list(&mut self, exp_list: &ExpList) -> Result<Vec<Operand>, CodeGenError> {
        self.gen_exp_list(exp_list)
    }
}

} // verus!
