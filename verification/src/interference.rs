//! The interference graph: an undirected graph over all variables, with
//! an edge wherever one variable is overwritten while another is
//! simultaneously live-out.

use vstd::prelude::*;
use crate::instr::{code_vars_bound, defs_var, Instr};
use crate::liveness::rows_wf;

verus! {

/// Program point `i` kills `v` while `u` is live-out there, with `u ≠ v`.
pub open spec fn interferes_at(
    code: Seq<Instr>,
    out_l: Seq<Vec<bool>>,
    i: int,
    u: int,
    v: int,
) -> bool {
    defs_var(code[i], v) && out_l[i]@[u] && u != v
}

/// Either orientation of an interference at point `i`.
pub open spec fn interferes_sym_at(
    code: Seq<Instr>,
    out_l: Seq<Vec<bool>>,
    i: int,
    u: int,
    v: int,
) -> bool {
    interferes_at(code, out_l, i, u, v) || interferes_at(code, out_l, i, v, u)
}

/// `{u, v}` is an interference edge: at some program point, one of the
/// two is killed while the other is live-out. The relation is a set:
/// how many points witness it is irrelevant.
pub open spec fn interferes(code: Seq<Instr>, out_l: Seq<Vec<bool>>, u: int, v: int) -> bool {
    exists|i: int| 0 <= i < code.len() && #[trigger] interferes_sym_at(code, out_l, i, u, v)
}

/// Interference is symmetric and never relates a variable to itself.
pub proof fn lemma_interference_symmetric(
    code: Seq<Instr>,
    out_l: Seq<Vec<bool>>,
    u: int,
    v: int,
)
    ensures
        interferes(code, out_l, u, v) == interferes(code, out_l, v, u),
        !interferes(code, out_l, u, u),
{
    if interferes(code, out_l, u, v) {
        let i = choose|i: int| 0 <= i < code.len() && #[trigger] interferes_sym_at(
            code,
            out_l,
            i,
            u,
            v,
        );
        assert(interferes_sym_at(code, out_l, i, v, u));
    }
    if interferes(code, out_l, v, u) {
        let i = choose|i: int| 0 <= i < code.len() && #[trigger] interferes_sym_at(
            code,
            out_l,
            i,
            v,
            u,
        );
        assert(interferes_sym_at(code, out_l, i, u, v));
    }
}

/// The interference graph, as a symmetric adjacency matrix over the `n`
/// variable ids. Isolated vertices (rows with no set bit) are legal.
pub struct InterferenceGraph {
    /// number of nodes: the full set of variables seen in the program
    pub n: usize,
    /// adjacency matrix: `adj[u][v]` iff `{u, v}` is an edge
    pub adj: Vec<Vec<bool>>,
}

impl InterferenceGraph {
    /// A square, symmetric matrix with an empty diagonal.
    pub open spec fn wf(self) -> bool {
        &&& rows_wf(self.adj@, self.n as nat, self.n as nat)
        &&& forall|u: int, v: int|
            0 <= u < self.n && 0 <= v < self.n ==> #[trigger] self.adj@[u]@[v] == self.adj@[v]@[u]
        &&& forall|u: int| 0 <= u < self.n ==> !(#[trigger] self.adj@[u]@[u])
    }

    /// Is `{u, v}` an edge?
    pub open spec fn edge(self, u: int, v: int) -> bool {
        self.adj@[u]@[v]
    }
}

/// Set `adj[r][c]` in a square bit matrix.
fn set_bit(m: &mut Vec<Vec<bool>>, r: usize, c: usize)
    requires
        r < old(m)@.len(),
        c < old(m)@[r as int]@.len(),
    ensures
        final(m)@.len() == old(m)@.len(),
        forall|x: int| 0 <= x < old(m)@.len() && x != r ==> final(m)@[x]@ == old(m)@[x]@,
        (#[trigger] final(m)@[r as int])@.len() == old(m)@[r as int]@.len(),
        forall|y: int|
            0 <= y < old(m)@[r as int]@.len() && y != c ==> #[trigger] final(m)@[r as int]@[y]
                == old(m)@[r as int]@[y],
        final(m)@[r as int]@[c as int],
{
    m[r][c] = true;
}

/// Build the interference graph of `code` from its live-out sets: for
/// every program point killing `v` and every `u ≠ v` live-out there, add
/// the undirected edge `{u, v}`. Re-insertion is idempotent: the matrix
/// holds a set of edges, not a multiset.
pub fn build_interference(
    code: &Vec<Instr>,
    out_list: &Vec<Vec<bool>>,
    n_vars: usize,
) -> (g: InterferenceGraph)
    requires
        code_vars_bound(code@, n_vars as nat),
        rows_wf(out_list@, code@.len(), n_vars as nat),
    ensures
        g.wf(),
        g.n == n_vars,
        forall|u: int, v: int|
            0 <= u < n_vars && 0 <= v < n_vars ==> #[trigger] g.edge(u, v) == interferes(
                code@,
                out_list@,
                u,
                v,
            ),
{
    let n = code.len();
    let mut adj: Vec<Vec<bool>> = Vec::new();
    {
        let mut i: usize = 0;
        while i < n_vars
            invariant
                i <= n_vars,
                adj@.len() == i,
                forall|x: int| 0 <= x < i ==> (#[trigger] adj@[x])@.len() == n_vars,
                forall|x: int, y: int| 0 <= x < i && 0 <= y < n_vars ==> !(#[trigger] adj@[x]@[y]),
            decreases n_vars - i,
        {
            let mut row: Vec<bool> = Vec::new();
            let mut y: usize = 0;
            while y < n_vars
                invariant
                    y <= n_vars,
                    row@.len() == y,
                    forall|z: int| 0 <= z < y ==> !(#[trigger] row@[z]),
                decreases n_vars - y,
            {
                row.push(false);
                y += 1;
            }
            adj.push(row);
            i += 1;
        }
    }
    let mut i: usize = 0;
    while i < n
        invariant
            i <= n,
            n == code@.len(),
            code_vars_bound(code@, n_vars as nat),
            rows_wf(out_list@, n as nat, n_vars as nat),
            rows_wf(adj@, n_vars as nat, n_vars as nat),
            forall|u: int, v: int|
                0 <= u < n_vars && 0 <= v < n_vars ==> #[trigger] adj@[u]@[v] == exists|x: int|
                    0 <= x < i && #[trigger] interferes_sym_at(code@, out_list@, x, u, v),
        decreases n - i,
    {
        if let Instr::Store(_, d) = code[i] {
            assert(crate::instr::instr_vars_bound(code@[i as int], n_vars as nat));
            let ghost adj_pre = adj@;
            let mut u: usize = 0;
            while u < n_vars
                invariant
                    u <= n_vars,
                    i < n,
                    d < n_vars,
                    code@[i as int] == Instr::Store(code@[i as int]->Store_0, d),
                    n == code@.len(),
                    rows_wf(out_list@, n as nat, n_vars as nat),
                    rows_wf(adj@, n_vars as nat, n_vars as nat),
                    forall|a: int, b: int|
                        0 <= a < n_vars && 0 <= b < n_vars ==> #[trigger] adj@[a]@[b] == (
                        adj_pre[a]@[b] || (a == d && 0 <= b < u && out_list@[i as int]@[b] && b != d)
                            || (b == d && 0 <= a < u && out_list@[i as int]@[a] && a != d)),
                decreases n_vars - u,
            {
                if out_list[i][u] && u != d {
                    set_bit(&mut adj, d, u);
                    set_bit(&mut adj, u, d);
                }
                u += 1;
            }
            proof {
                assert forall|a: int, b: int| 0 <= a < n_vars && 0 <= b < n_vars implies
                    #[trigger] adj@[a]@[b] == exists|x: int|
                    0 <= x < i + 1 && #[trigger] interferes_sym_at(code@, out_list@, x, a, b) by {
                    if adj@[a]@[b] {
                        if adj_pre[a]@[b] {
                            let x = choose|x: int|
                                0 <= x < i && #[trigger] interferes_sym_at(
                                    code@,
                                    out_list@,
                                    x,
                                    a,
                                    b,
                                );
                            assert(interferes_sym_at(code@, out_list@, x, a, b));
                        } else {
                            assert(interferes_sym_at(code@, out_list@, i as int, a, b));
                        }
                    } else {
                        assert(!adj_pre[a]@[b]);
                        if exists|x: int|
                            0 <= x < i + 1 && #[trigger] interferes_sym_at(
                                code@,
                                out_list@,
                                x,
                                a,
                                b,
                            ) {
                            let x = choose|x: int|
                                0 <= x < i + 1 && #[trigger] interferes_sym_at(
                                    code@,
                                    out_list@,
                                    x,
                                    a,
                                    b,
                                );
                            assert(x == i);
                            assert(false);
                        }
                    }
                }
            }
        } else {
            proof {
                assert forall|a: int, b: int| 0 <= a < n_vars && 0 <= b < n_vars implies
                    #[trigger] adj@[a]@[b] == exists|x: int|
                    0 <= x < i + 1 && #[trigger] interferes_sym_at(code@, out_list@, x, a, b) by {
                    assert(!interferes_sym_at(code@, out_list@, i as int, a, b));
                    if adj@[a]@[b] {
                        let x = choose|x: int|
                            0 <= x < i && #[trigger] interferes_sym_at(code@, out_list@, x, a, b);
                        assert(interferes_sym_at(code@, out_list@, x, a, b));
                    } else {
                        if exists|x: int|
                            0 <= x < i + 1 && #[trigger] interferes_sym_at(
                                code@,
                                out_list@,
                                x,
                                a,
                                b,
                            ) {
                            let x = choose|x: int|
                                0 <= x < i + 1 && #[trigger] interferes_sym_at(
                                    code@,
                                    out_list@,
                                    x,
                                    a,
                                    b,
                                );
                            assert(x == i);
                            assert(false);
                        }
                    }
                }
            }
        }
        i += 1;
    }
    let g = InterferenceGraph { n: n_vars, adj };
    proof {
        assert forall|u: int, v: int| 0 <= u < n_vars && 0 <= v < n_vars implies #[trigger] g.edge(
            u,
            v,
        ) == interferes(code@, out_list@, u, v) by {
            if g.edge(u, v) {
                let x = choose|x: int|
                    0 <= x < n && #[trigger] interferes_sym_at(code@, out_list@, x, u, v);
                assert(interferes_sym_at(code@, out_list@, x, u, v));
            } else {
                if interferes(code@, out_list@, u, v) {
                    let x = choose|x: int|
                        0 <= x < code@.len() && #[trigger] interferes_sym_at(
                            code@,
                            out_list@,
                            x,
                            u,
                            v,
                        );
                    assert(false);
                }
            }
        }
        assert forall|u: int, v: int| 0 <= u < n_vars && 0 <= v < n_vars implies #[trigger] g
            .adj@[u]@[v] == g.adj@[v]@[u] by {
            if g.adj@[u]@[v] {
                let x = choose|x: int|
                    0 <= x < n && #[trigger] interferes_sym_at(code@, out_list@, x, u, v);
                assert(interferes_sym_at(code@, out_list@, x, v, u));
            }
            if g.adj@[v]@[u] {
                let x = choose|x: int|
                    0 <= x < n && #[trigger] interferes_sym_at(code@, out_list@, x, v, u);
                assert(interferes_sym_at(code@, out_list@, x, u, v));
            }
        }
        assert forall|u: int| 0 <= u < n_vars implies !(#[trigger] g.adj@[u]@[u]) by {
            if g.adj@[u]@[u] {
                let x = choose|x: int|
                    0 <= x < n && #[trigger] interferes_sym_at(code@, out_list@, x, u, u);
            }
        }
    }
    g
}

} // verus!
