//! The allocation pipeline: successors, liveness, interference graph,
//! coloring and spill rewriting, each stage handing its result to the
//! next. One compilation is one synchronous pass; every error is an
//! unrecoverable invariant breach that aborts it.

use vstd::prelude::*;
use crate::cfg::{build_label_table, build_successors, label_table_ok, labels_unique, succ_spec};
use crate::coloring::{colors_in_palette, coloring_valid, graph_coloring, Color};
use crate::instr::{
    code_labels_bound, code_vars_bound, defs_var, uses_var, AllocError, Instr,
};
use crate::interference::{build_interference, interferes, InterferenceGraph};
use crate::liveness::{build_gen_kill, liveness, rows_wf};
use crate::rewrite::{rewrite, rewrite_spec, spilled_vars};

verus! {

/// Everything one allocation produces: the rewritten code, the data
/// cells it needs, and the artifacts of the intermediate stages, so a
/// caller (or a test) can hold each against its stage's guarantee.
pub struct Allocation {
    /// the instruction sequence with every variable operand resolved
    pub code: Vec<Instr>,
    /// the variables that need a reserved, zero-initialized memory cell
    pub cells: Vec<usize>,
    /// the color assignment the rewrite used
    pub coloring: Vec<Color>,
    /// live-in sets per program point, one bit per variable
    pub live_in: Vec<Vec<bool>>,
    /// live-out sets per program point
    pub live_out: Vec<Vec<bool>>,
    /// the interference graph
    pub graph: InterferenceGraph,
    /// successor program points per program point
    pub succ: Vec<Vec<usize>>,
    /// label table: marker program point per label id
    pub labels: Vec<Option<usize>>,
}

/// The liveness result of an allocation, stated over the instruction
/// sequence itself: the backward dataflow equations hold exactly, with
/// `gen` the variables an instruction reads and `kill` the variable it
/// overwrites.
pub open spec fn live_sets_ok(
    code: Seq<Instr>,
    succ: Seq<Vec<usize>>,
    in_l: Seq<Vec<bool>>,
    out_l: Seq<Vec<bool>>,
    n_vars: nat,
) -> bool {
    &&& rows_wf(in_l, code.len(), n_vars)
    &&& rows_wf(out_l, code.len(), n_vars)
    &&& forall|i: int, v: int|
        0 <= i < code.len() && 0 <= v < n_vars ==> (#[trigger] out_l[i]@[v] == exists|j: int|
            0 <= j < succ[i]@.len() && in_l[#[trigger] succ[i]@[j] as int]@[v])
    &&& forall|i: int, v: int|
        0 <= i < code.len() && 0 <= v < n_vars ==> (#[trigger] in_l[i]@[v] == (uses_var(code[i], v)
            || (out_l[i]@[v] && !defs_var(code[i], v))))
}

/// Liveness soundness: whatever a program point reads without prior
/// redefinition at that point — its `gen` set — is in its live-in set.
pub proof fn lemma_reads_are_live_in(
    code: Seq<Instr>,
    succ: Seq<Vec<usize>>,
    in_l: Seq<Vec<bool>>,
    out_l: Seq<Vec<bool>>,
    n_vars: nat,
)
    requires
        live_sets_ok(code, succ, in_l, out_l, n_vars),
    ensures
        forall|i: int, v: int|
            0 <= i < code.len() && 0 <= v < n_vars && uses_var(code[i], v)
                ==> #[trigger] in_l[i]@[v],
{
    assert forall|i: int, v: int|
        0 <= i < code.len() && 0 <= v < n_vars && uses_var(code[i], v) implies
        #[trigger] in_l[i]@[v] by {
        assert(in_l[i]@[v] == (uses_var(code[i], v) || (out_l[i]@[v] && !defs_var(code[i], v))));
    }
}

/// Every stage's guarantee, in one place: what a successful allocation
/// promises of its artifacts, for the input sequence `code` over
/// `n_vars` variables with a palette of `k` classes.
pub open spec fn allocation_ok(code: Seq<Instr>, n_vars: nat, k: nat, a: Allocation) -> bool {
    &&& label_table_ok(code, a.labels@) && labels_unique(code)
    &&& a.succ@.len() == code.len() && forall|i: int|
        0 <= i < code.len() ==> #[trigger] a.succ@[i]@ == succ_spec(code, a.labels@, i)
    &&& live_sets_ok(code, a.succ@, a.live_in@, a.live_out@, n_vars)
    &&& a.graph.wf() && a.graph.n == n_vars
    &&& forall|u: int, v: int|
        0 <= u < n_vars && 0 <= v < n_vars ==> #[trigger] a.graph.edge(u, v) == interferes(
            code,
            a.live_out@,
            u,
            v,
        )
    &&& a.coloring@.len() == n_vars && colors_in_palette(a.coloring@, k) && coloring_valid(
        a.graph,
        a.coloring@,
    )
    &&& a.code@ == rewrite_spec(code, a.coloring@, true).0
    &&& forall|j: int|
        0 <= j < a.cells@.len() ==> #[trigger] a.cells@[j] < n_vars && a.coloring@[a.cells@[j] as int]
            == Color::Spilled
    &&& forall|v: int|
        0 <= v < n_vars && #[trigger] a.coloring@[v] == Color::Spilled ==> exists|j: int|
            0 <= j < a.cells@.len() && #[trigger] a.cells@[j] == v
    &&& forall|j1: int, j2: int| 0 <= j1 < j2 < a.cells@.len() ==> a.cells@[j1] < a.cells@[j2]
}

/// Does every jump and branch of `code` target a label that has a
/// defining marker?
pub open spec fn all_targets_defined(code: Seq<Instr>) -> bool {
    forall|i: int|
        0 <= i < code.len() ==> (crate::cfg::instr_target(#[trigger] code[i]) matches Some(l)
            ==> exists|j: int| 0 <= j < code.len() && #[trigger] crate::cfg::defines_label(
            code[j],
            l,
        ))
}

/// Run the whole allocation backend on `code` over `n_vars` variables
/// and `n_labels` labels, with a palette of `k` register classes (at
/// most the eight saved registers).
///
/// Succeeds iff no label is defined twice and every branch or jump
/// targets a defined label; then every stage's guarantee holds of the
/// returned artifacts: the label table is exact, the successor sets
/// follow the control-flow rules, the liveness sets solve the dataflow
/// equations, the graph is the interference relation, the coloring is
/// proper within the palette, the code is the spill rewrite under that
/// coloring, and the cells are exactly the spilled variables.
pub fn register_allocate(code: &Vec<Instr>, n_vars: usize, n_labels: usize, k: usize) -> (r:
    Result<Allocation, AllocError>)
    requires
        code_vars_bound(code@, n_vars as nat),
        code_labels_bound(code@, n_labels as nat),
        k <= 8,
    ensures
        match r {
            Ok(a) => a.labels@.len() == n_labels && allocation_ok(code@, n_vars as nat, k as nat, a),
            Err(e) => {
                &&& e matches AllocError::DuplicateLabel(_) ==> !labels_unique(code@)
                &&& e matches AllocError::UnresolvedLabel(_) ==> !all_targets_defined(code@)
                &&& !(e matches AllocError::MissingVar(_))
            },
        },
{
    let tab = match build_label_table(code, n_labels) {
        Ok(t) => t,
        Err(e) => {
            return Err(e);
        },
    };
    let succ = match build_successors(code, &tab) {
        Ok(s) => s,
        Err(e) => {
            proof {
                if !all_targets_defined(code@) {
                } else {
                    let i = choose|i: int|
                        0 <= i < code@.len() && (crate::cfg::instr_target(
                            #[trigger] code@[i],
                        ) matches Some(l) && (l >= tab@.len() || tab@[l as int] is None));
                    let l = crate::cfg::instr_target(code@[i])->Some_0;
                    assert(crate::instr::instr_labels_bound(code@[i], n_labels as nat));
                    let j = choose|j: int|
                        0 <= j < code@.len() && #[trigger] crate::cfg::defines_label(code@[j], l);
                    assert(tab@[l as int] == Some(j as usize));
                    assert(false);
                }
            }
            return Err(e);
        },
    };
    let (genv, killv) = build_gen_kill(code, n_vars);
    let (live_in, live_out) = liveness(&succ, &genv, &killv, n_vars);
    proof {
        assert forall|i: int, v: int| 0 <= i < code@.len() && 0 <= v < n_vars implies (
        #[trigger] live_in@[i]@[v] == (uses_var(code@[i], v) || (live_out@[i]@[v] && !defs_var(
            code@[i],
            v,
        )))) by {
            assert(genv@[i]@[v] == uses_var(code@[i], v));
            assert(killv@[i]@[v] == defs_var(code@[i], v));
        }
    }
    let graph = build_interference(code, &live_out, n_vars);
    let coloring = graph_coloring(&graph, k);
    proof {
        assert(colors_in_palette(coloring@, 8));
    }
    let new_code = match rewrite(code, &coloring) {
        Ok(c) => c,
        Err(_) => {
            proof {
                assert(false);
            }
            return Err(AllocError::MissingVar(0));
        },
    };
    let cells = spilled_vars(&coloring);
    Ok(
        Allocation {
            code: new_code,
            cells,
            coloring,
            live_in,
            live_out,
            graph,
            succ,
            labels: tab,
        },
    )
}


/// What stops a compilation, from any stage: an invalid character, a
/// rejected token stream, a tree that cannot be lowered, or a broken
/// invariant inside the allocation backend.
#[derive(Debug)]
pub enum CompileError {
    Token(crate::errors::TokenError),
    Parse(crate::errors::ParseError),
    CodeGen(crate::ast::CodeGenError),
    Alloc(AllocError),
}

/// A finished compilation: the pseudo-instruction sequence before
/// allocation, the interned variable names (the id of a variable is its
/// index here), and the allocation itself.
pub struct Compilation {
    pub code: Vec<Instr>,
    pub var_names: Vec<String>,
    pub allocation: Allocation,
}

proof fn lemma_spec_lex_some_token(
    cs: Seq<char>,
    state: u8,
    tok: Seq<char>,
    line: usize,
    acc: Seq<crate::lex::TokenV>,
)
    ensures
        crate::lex::spec_lex(cs, state, tok, line, acc) matches Ok(tvs) ==> tvs.len() >= acc.len()
            + 1,
    decreases cs.len(),
{
    if cs.len() != 0 {
        match crate::lex::lex_char(cs[0], state, tok, line) {
            Ok(step) => {
                lemma_spec_lex_some_token(cs.drop_first(), step.0, step.1, step.2, acc + step.3);
            },
            Err(_) => {},
        }
    }
}

/// Compile one source text down to allocated code with a palette of `k`
/// register classes: tokenize, parse, lower, and run the allocation
/// backend. On success the allocation carries every stage's guarantee
/// over the lowered sequence, whose variables are the interned names.
pub fn compile(source: String, k: usize) -> (r: Result<Compilation, CompileError>)
    requires
        k <= 8,
    ensures
        r matches Ok(c) ==> {
            &&& code_vars_bound(c.code@, c.var_names@.len())
            &&& allocation_ok(c.code@, c.var_names@.len() as nat, k as nat, c.allocation)
        },
        r matches Err(e) ==> (e matches CompileError::Token(te) ==> crate::lex::spec_tokenize(
            source@,
        ) == Err::<Seq<crate::lex::TokenV>, crate::errors::TokenError>(te)),
        crate::lex::spec_tokenize(source@) matches Err(te) ==> r == Err::<
            Compilation,
            CompileError,
        >(CompileError::Token(te)),
{
    let tokens = match crate::lex::tokenize(source) {
        Ok(t) => t,
        Err(e) => {
            return Err(CompileError::Token(e));
        },
    };
    proof {
        lemma_spec_lex_some_token(source@, 0u8, Seq::empty(), 1, Seq::empty());
    }
    let prog = match crate::parser::parse(&tokens) {
        Ok(p) => p,
        Err(e) => {
            return Err(CompileError::Parse(e));
        },
    };
    let mut code_gen = crate::ast::CodeGenerator {
        generated_code: Vec::new(),
        temp_var_num: 0,
        var_num: 0,
        label_num: 0,
        var_set: Vec::new(),
    };
    match code_gen.gen_stm(&prog) {
        Ok(_) => {},
        Err(e) => {
            return Err(CompileError::CodeGen(e));
        },
    }
    let n_vars = code_gen.var_set.len();
    let n_labels = code_gen.label_num;
    match register_allocate(&code_gen.generated_code, n_vars, n_labels, k) {
        Ok(a) => Ok(
            Compilation {
                code: code_gen.generated_code,
                var_names: code_gen.var_set,
                allocation: a,
            },
        ),
        Err(e) => Err(CompileError::Alloc(e)),
    }
}

} // verus!
