//! Backward may-be-live dataflow at instruction granularity.
//!
//! Per-instruction `gen`/`kill` sets and the live-in/live-out sets are
//! bit rows indexed by variable id: row `i` of a table holds one bit per
//! variable, and bit `v` of row `i` says whether variable `v` is in the
//! set at program point `i`.

use vstd::prelude::*;
use crate::instr::{code_vars_bound, defs_var, uses_var, Instr, Operand};

verus! {

/// Well-formed bit table: `n` rows of `nv` bits each.
pub open spec fn rows_wf(l: Seq<Vec<bool>>, n: nat, nv: nat) -> bool {
    &&& l.len() == n
    &&& forall|i: int| 0 <= i < n ==> (#[trigger] l[i])@.len() == nv
}

/// Pointwise containment: every bit set in `a` is set in `b`.
/// (Rows of equal shape; `b` may have more bits set, never fewer.)
pub open spec fn rows_grow(a: Seq<Vec<bool>>, b: Seq<Vec<bool>>) -> bool {
    &&& a.len() == b.len()
    &&& forall|i: int| 0 <= i < a.len() ==> (#[trigger] a[i])@.len() == b[i]@.len()
    &&& forall|i: int, v: int|
        0 <= i < a.len() && 0 <= v < a[i]@.len() && #[trigger] a[i]@[v] ==> b[i]@[v]
}

/// A row of `nv` clear bits.
fn false_row(nv: usize) -> (r: Vec<bool>)
    ensures
        r@.len() == nv,
        forall|v: int| 0 <= v < nv ==> !(#[trigger] r@[v]),
{
    let mut r: Vec<bool> = Vec::new();
    let mut v: usize = 0;
    while v < nv
        invariant
            v <= nv,
            r@.len() == v,
            forall|x: int| 0 <= x < v ==> !(#[trigger] r@[x]),
        decreases nv - v,
    {
        r.push(false);
        v += 1;
    }
    r
}

/// A table of `n` rows of `nv` clear bits.
fn false_rows(n: usize, nv: usize) -> (r: Vec<Vec<bool>>)
    ensures
        rows_wf(r@, n as nat, nv as nat),
        forall|i: int, v: int| 0 <= i < n && 0 <= v < nv ==> !(#[trigger] r@[i]@[v]),
{
    let mut r: Vec<Vec<bool>> = Vec::new();
    let mut i: usize = 0;
    while i < n
        invariant
            i <= n,
            r@.len() == i,
            forall|x: int| 0 <= x < i ==> (#[trigger] r@[x])@.len() == nv,
            forall|x: int, v: int| 0 <= x < i && 0 <= v < nv ==> !(#[trigger] r@[x]@[v]),
        decreases n - i,
    {
        r.push(false_row(nv));
        i += 1;
    }
    r
}

/// Set the bit of the variable a plain variable operand reads, if any.
fn mark_operand(row: &mut Vec<bool>, o: Operand)
    requires
        crate::instr::operand_vars_bound(o, old(row)@.len()),
    ensures
        final(row)@.len() == old(row)@.len(),
        forall|v: int|
            0 <= v < final(row)@.len() ==> #[trigger] final(row)@[v] == (old(row)@[v]
                || crate::instr::operand_is_var(o, v)),
{
    if let Operand::Var(x) = o {
        row[x] = true;
    }
}

/// Build the `gen` and `kill` bit tables of `code`: `gen[i][v]` iff
/// instruction `i` reads variable `v` as a plain variable operand,
/// `kill[i][v]` iff instruction `i` unconditionally overwrites `v`.
pub fn build_gen_kill(code: &Vec<Instr>, n_vars: usize) -> (r: (Vec<Vec<bool>>, Vec<Vec<bool>>))
    requires
        code_vars_bound(code@, n_vars as nat),
    ensures
        rows_wf(r.0@, code@.len(), n_vars as nat),
        rows_wf(r.1@, code@.len(), n_vars as nat),
        forall|i: int, v: int|
            0 <= i < code@.len() && 0 <= v < n_vars ==> #[trigger] r.0@[i]@[v] == uses_var(
                code@[i],
                v,
            ),
        forall|i: int, v: int|
            0 <= i < code@.len() && 0 <= v < n_vars ==> #[trigger] r.1@[i]@[v] == defs_var(
                code@[i],
                v,
            ),
{
    let n = code.len();
    let mut genv: Vec<Vec<bool>> = Vec::new();
    let mut killv: Vec<Vec<bool>> = Vec::new();
    let mut i: usize = 0;
    while i < n
        invariant
            i <= n,
            n == code@.len(),
            code_vars_bound(code@, n_vars as nat),
            genv@.len() == i,
            killv@.len() == i,
            forall|x: int| 0 <= x < i ==> (#[trigger] genv@[x])@.len() == n_vars,
            forall|x: int| 0 <= x < i ==> (#[trigger] killv@[x])@.len() == n_vars,
            forall|x: int, v: int|
                0 <= x < i && 0 <= v < n_vars ==> #[trigger] genv@[x]@[v] == uses_var(code@[x], v),
            forall|x: int, v: int|
                0 <= x < i && 0 <= v < n_vars ==> #[trigger] killv@[x]@[v] == defs_var(code@[x], v),
        decreases n - i,
    {
        let mut g = false_row(n_vars);
        let mut k = false_row(n_vars);
        assert(crate::instr::instr_vars_bound(code@[i as int], n_vars as nat));
        match code[i] {
            Instr::Move(_, o) => mark_operand(&mut g, o),
            Instr::Arith(_, _, a, b) => {
                mark_operand(&mut g, a);
                mark_operand(&mut g, b);
            },
            Instr::Branch(_, a, b, _) => {
                mark_operand(&mut g, a);
                mark_operand(&mut g, b);
            },
            Instr::Store(_, x) => {
                k[x] = true;
            },
            _ => {},
        }
        genv.push(g);
        killv.push(k);
        i += 1;
    }
    (genv, killv)
}

/// Is every bit set in `curr` also set in `prev`? The dataflow sets only
/// ever grow, so once this holds after a sweep the previous and current
/// sets are equal and the fixpoint is reached.
pub fn in_out_list_equal(prev: &Vec<Vec<bool>>, curr: &Vec<Vec<bool>>) -> (r: bool)
    requires
        prev@.len() == curr@.len(),
        forall|i: int| 0 <= i < prev@.len() ==> (#[trigger] prev@[i])@.len() == curr@[i]@.len(),
    ensures
        r == rows_grow(curr@, prev@),
{
    let n = curr.len();
    let mut i: usize = 0;
    while i < n
        invariant
            i <= n,
            n == curr@.len(),
            prev@.len() == curr@.len(),
            forall|x: int| 0 <= x < prev@.len() ==> (#[trigger] prev@[x])@.len() == curr@[x]@.len(),
            forall|x: int, v: int|
                0 <= x < i && 0 <= v < curr@[x]@.len() && #[trigger] curr@[x]@[v] ==> prev@[x]@[v],
        decreases n - i,
    {
        let nv = curr[i].len();
        let mut v: usize = 0;
        while v < nv
            invariant
                v <= nv,
                i < n,
                n == curr@.len(),
                prev@.len() == curr@.len(),
                nv == curr@[i as int]@.len(),
                forall|x: int|
                    0 <= x < prev@.len() ==> (#[trigger] prev@[x])@.len() == curr@[x]@.len(),
                forall|x: int, y: int|
                    0 <= x < i && 0 <= y < curr@[x]@.len() && #[trigger] curr@[x]@[y]
                        ==> prev@[x]@[y],
                forall|y: int|
                    0 <= y < v && #[trigger] curr@[i as int]@[y] ==> prev@[i as int]@[y],
            decreases nv - v,
        {
            if curr[i][v] && !prev[i][v] {
                return false;
            }
            v += 1;
        }
        i += 1;
    }
    true
}

/// A copy of one bit row.
fn copy_row(src: &Vec<bool>) -> (r: Vec<bool>)
    ensures
        r@ == src@,
{
    let n = src.len();
    let mut r: Vec<bool> = Vec::new();
    let mut v: usize = 0;
    while v < n
        invariant
            v <= n,
            n == src@.len(),
            r@ == src@.subrange(0, v as int),
        decreases n - v,
    {
        r.push(src[v]);
        assert(r@ =~= src@.subrange(0, v + 1));
        v += 1;
    }
    assert(r@ =~= src@);
    r
}

/// Union `src` into `dst`; report whether any bit was newly set.
fn or_into(dst: &mut Vec<bool>, src: &Vec<bool>) -> (added: bool)
    requires
        old(dst)@.len() == src@.len(),
    ensures
        final(dst)@.len() == src@.len(),
        forall|v: int|
            0 <= v < src@.len() ==> #[trigger] final(dst)@[v] == (old(dst)@[v] || src@[v]),
        added == exists|v: int| 0 <= v < src@.len() && !old(dst)@[v] && #[trigger] src@[v],
{
    let n = src.len();
    let mut added = false;
    let mut v: usize = 0;
    while v < n
        invariant
            v <= n,
            n == src@.len(),
            dst@.len() == src@.len(),
            forall|y: int| 0 <= y < v ==> #[trigger] dst@[y] == (old(dst)@[y] || src@[y]),
            forall|y: int| v <= y < n ==> #[trigger] dst@[y] == old(dst)@[y],
            added == exists|y: int| 0 <= y < v && !old(dst)@[y] && #[trigger] src@[y],
        decreases n - v,
    {
        if src[v] {
            if !dst[v] {
                added = true;
                dst[v] = true;
            }
        }
        v += 1;
    }
    added
}

/// Valid successor table over `n` program points: every successor is a
/// valid program point.
pub open spec fn succ_ok(succ: Seq<Vec<usize>>, n: nat) -> bool {
    &&& succ.len() == n
    &&& forall|i: int, j: int|
        0 <= i < succ.len() && 0 <= j < succ[i]@.len() ==> #[trigger] succ[i]@[j] < n
}

/// The value the sweep read from `in[s]` while it was processing program
/// point `i`: sweeps run backward, so points above `i` already carry this
/// sweep's value, points at or below `i` still carry the previous one.
pub open spec fn sweep_source(
    a_in: Seq<Vec<bool>>,
    b_in: Seq<Vec<bool>>,
    i: int,
    s: int,
    v: int,
) -> bool {
    if s > i {
        b_in[s]@[v]
    } else {
        a_in[s]@[v]
    }
}

/// What one backward sweep makes of `out[i]`: the old bits, plus the
/// live-in bits of every successor as read during the sweep.
pub open spec fn sweep_out_eq(
    succ: Seq<Vec<usize>>,
    a_in: Seq<Vec<bool>>,
    b_in: Seq<Vec<bool>>,
    a_out: Seq<Vec<bool>>,
    b_out: Seq<Vec<bool>>,
    i: int,
    v: int,
) -> bool {
    b_out[i]@[v] == (a_out[i]@[v] || exists|j: int|
        0 <= j < succ[i]@.len() && sweep_source(a_in, b_in, i, #[trigger] succ[i]@[j] as int, v))
}

/// What one backward sweep makes of `in[i]`: the old bits, plus
/// `gen[i] ∪ (out[i] \ kill[i])` over this sweep's `out[i]`.
pub open spec fn sweep_in_eq(
    genv: Seq<Vec<bool>>,
    killv: Seq<Vec<bool>>,
    a_in: Seq<Vec<bool>>,
    b_in: Seq<Vec<bool>>,
    b_out: Seq<Vec<bool>>,
    i: int,
    v: int,
) -> bool {
    b_in[i]@[v] == (a_in[i]@[v] || genv[i]@[v] || (b_out[i]@[v] && !killv[i]@[v]))
}

/// Containment half of the dataflow equations, an invariant of the whole
/// fixpoint iteration: no set ever holds a bit the equations do not
/// justify.
pub open spec fn contained(
    succ: Seq<Vec<usize>>,
    genv: Seq<Vec<bool>>,
    killv: Seq<Vec<bool>>,
    in_l: Seq<Vec<bool>>,
    out_l: Seq<Vec<bool>>,
) -> bool {
    &&& forall|i: int, v: int|
        0 <= i < out_l.len() && 0 <= v < out_l[i]@.len() && #[trigger] out_l[i]@[v]
            ==> exists|j: int|
            0 <= j < succ[i]@.len() && in_l[#[trigger] succ[i]@[j] as int]@[v]
    &&& forall|i: int, v: int|
        0 <= i < in_l.len() && 0 <= v < in_l[i]@.len() && #[trigger] in_l[i]@[v] ==> genv[i]@[v]
            || (out_l[i]@[v] && !killv[i]@[v])
}

/// The backward may-be-live dataflow equations, as equalities:
/// `out[i] = ⋃_{s ∈ succ[i]} in[s]` and `in[i] = gen[i] ∪ (out[i] \ kill[i])`.
pub open spec fn liveness_fixpoint(
    succ: Seq<Vec<usize>>,
    genv: Seq<Vec<bool>>,
    killv: Seq<Vec<bool>>,
    in_l: Seq<Vec<bool>>,
    out_l: Seq<Vec<bool>>,
) -> bool {
    &&& forall|i: int, v: int|
        0 <= i < out_l.len() && 0 <= v < out_l[i]@.len() ==> (#[trigger] out_l[i]@[v]
            == exists|j: int| 0 <= j < succ[i]@.len() && in_l[#[trigger] succ[i]@[j] as int]@[v])
    &&& forall|i: int, v: int|
        0 <= i < in_l.len() && 0 <= v < in_l[i]@.len() ==> (#[trigger] in_l[i]@[v] == (genv[i]@[v]
            || (out_l[i]@[v] && !killv[i]@[v])))
}

/// Any bit set in `b` but not in `a`? (The sweep reports this.)
pub open spec fn rows_changed(a_in: Seq<Vec<bool>>, a_out: Seq<Vec<bool>>, b_in: Seq<Vec<bool>>, b_out: Seq<Vec<bool>>) -> bool {
    exists|i: int, v: int|
        #![trigger b_in[i]@[v]]
        #![trigger b_out[i]@[v]]
        0 <= i < b_in.len() && 0 <= v < b_in[i]@.len() && ((!a_in[i]@[v] && b_in[i]@[v]) || (
        !a_out[i]@[v] && b_out[i]@[v]))
}

/// One full backward sweep of the dataflow equations, from the last
/// program point down to the first, growing `in` and `out` in place.
///
/// The sets never shrink (`rows_grow` in the postcondition): liveness is
/// monotone, which with the bounded variable universe bounds the number
/// of sweeps. Returns whether any set grew; when none did, the sets are
/// a fixpoint of the equations.
/// Any bit set in `b` but not in `a`? (`b` only ever gains bits.)
fn row_added(a: &Vec<bool>, b: &Vec<bool>) -> (r: bool)
    requires
        a@.len() == b@.len(),
    ensures
        r == exists|v: int| 0 <= v < a@.len() && !a@[v] && #[trigger] b@[v],
{
    let n = a.len();
    let mut v: usize = 0;
    while v < n
        invariant
            v <= n,
            n == a@.len(),
            a@.len() == b@.len(),
            forall|y: int| 0 <= y < v && #[trigger] b@[y] ==> a@[y],
        decreases n - v,
    {
        if b[v] && !a[v] {
            return true;
        }
        v += 1;
    }
    false
}

/// One full backward sweep of the dataflow equations, from the last
/// program point down to the first, growing `in` and `out` in place.
///
/// The sets never shrink (`rows_grow` in the postcondition): the transfer
/// functions are monotone, and with the finite variable universe this
/// bounds the number of sweeps. Returns whether any set grew; when none
/// did, the sets are a fixpoint of the equations.
#[verifier::loop_isolation(false)]
pub fn liveness_sweep(
    succ: &Vec<Vec<usize>>,
    genv: &Vec<Vec<bool>>,
    killv: &Vec<Vec<bool>>,
    nv: usize,
    in_list: &mut Vec<Vec<bool>>,
    out_list: &mut Vec<Vec<bool>>,
) -> (changed: bool)
    requires
        succ_ok(succ@, succ@.len()),
        rows_wf(genv@, succ@.len(), nv as nat),
        rows_wf(killv@, succ@.len(), nv as nat),
        rows_wf(old(in_list)@, succ@.len(), nv as nat),
        rows_wf(old(out_list)@, succ@.len(), nv as nat),
    ensures
        rows_wf(final(in_list)@, succ@.len(), nv as nat),
        rows_wf(final(out_list)@, succ@.len(), nv as nat),
        rows_grow(old(in_list)@, final(in_list)@),
        rows_grow(old(out_list)@, final(out_list)@),
        forall|i: int, v: int|
            0 <= i < succ@.len() && 0 <= v < nv ==> sweep_out_eq(
                succ@,
                old(in_list)@,
                final(in_list)@,
                old(out_list)@,
                final(out_list)@,
                i,
                v,
            ),
        forall|i: int, v: int|
            0 <= i < succ@.len() && 0 <= v < nv ==> sweep_in_eq(
                genv@,
                killv@,
                old(in_list)@,
                final(in_list)@,
                final(out_list)@,
                i,
                v,
            ),
        changed == rows_changed(old(in_list)@, old(out_list)@, final(in_list)@, final(out_list)@),
{
    let n = succ.len();
    let mut changed = false;
    let mut i: usize = n;
    while i > 0
        invariant
            i <= n,
            rows_wf(in_list@, n as nat, nv as nat),
            rows_wf(out_list@, n as nat, nv as nat),
            forall|x: int|
                0 <= x < i ==> (#[trigger] in_list@[x])@ == old(in_list)@[x]@ && out_list@[x]@
                    == old(out_list)@[x]@,
            rows_grow(old(in_list)@, in_list@),
            rows_grow(old(out_list)@, out_list@),
            forall|x: int, v: int|
                i <= x < n && 0 <= v < nv ==> sweep_out_eq(
                    succ@,
                    old(in_list)@,
                    in_list@,
                    old(out_list)@,
                    out_list@,
                    x,
                    v,
                ),
            forall|x: int, v: int|
                i <= x < n && 0 <= v < nv ==> sweep_in_eq(
                    genv@,
                    killv@,
                    old(in_list)@,
                    in_list@,
                    out_list@,
                    x,
                    v,
                ),
            changed == rows_changed(old(in_list)@, old(out_list)@, in_list@, out_list@),
        decreases i,
    {
        i -= 1;
        let ghost in_snap = in_list@;
        let ghost out_snap = out_list@;
        // out[i] grows by the live-in bits of every successor
        let mut out_row = copy_row(&out_list[i]);
        let m = succ[i].len();
        let mut j: usize = 0;
        while j < m
            invariant
                j <= m,
                m == succ@[i as int]@.len(),
                out_row@.len() == nv,
                forall|v: int|
                    0 <= v < nv ==> #[trigger] out_row@[v] == (out_list@[i as int]@[v] || exists|
                        j2: int,
                    |
                        0 <= j2 < j && in_list@[#[trigger] succ@[i as int]@[j2] as int]@[v]),
            decreases m - j,
        {
            let s = succ[i][j];
            let ghost pre = out_row@;
            or_into(&mut out_row, &in_list[s]);
            proof {
                assert forall|v: int| 0 <= v < nv implies #[trigger] out_row@[v] == (
                out_list@[i as int]@[v] || exists|j2: int|
                    0 <= j2 < j + 1 && in_list@[#[trigger] succ@[i as int]@[j2] as int]@[v]) by {
                    if out_row@[v] {
                        if pre[v] {
                            if !out_list@[i as int]@[v] {
                                let j2 = choose|j2: int|
                                    0 <= j2 < j && in_list@[
                                        #[trigger] succ@[i as int]@[j2] as int]@[v];
                                assert(0 <= j2 < j + 1 && in_list@[succ@[i as int]@[j2] as int]@[v]);
                            }
                        } else {
                            assert(in_list@[succ@[i as int]@[j as int] as int]@[v]);
                        }
                    }
                }
            }
            j += 1;
        }
        // gen[i] ∪ (out[i] \ kill[i]), over this sweep's out[i]
        let mut add = copy_row(&genv[i]);
        let mut v: usize = 0;
        while v < nv
            invariant
                v <= nv,
                add@.len() == nv,
                out_row@.len() == nv,
                forall|y: int|
                    0 <= y < v ==> #[trigger] add@[y] == (genv@[i as int]@[y] || (out_row@[y]
                        && !killv@[i as int]@[y])),
                forall|y: int| v <= y < nv ==> #[trigger] add@[y] == genv@[i as int]@[y],
            decreases nv - v,
        {
            if out_row[v] && !killv[i][v] {
                add[v] = true;
            }
            v += 1;
        }
        // in[i] grows by that union
        let mut in_row = copy_row(&in_list[i]);
        let in_changed = or_into(&mut in_row, &add);
        let row_changed = row_added(&out_list[i], &out_row);
        out_list[i] = out_row;
        in_list[i] = in_row;
        proof {
            let a_in = old(in_list)@;
            let a_out = old(out_list)@;
            assert(in_snap[i as int]@ == a_in[i as int]@);
            assert(out_snap[i as int]@ == a_out[i as int]@);
            // the two sweep equations, for the freshly processed point and
            // for the points processed earlier in this sweep
            assert forall|x: int, v2: int| i <= x < n && 0 <= v2 < nv implies sweep_out_eq(
                succ@,
                a_in,
                in_list@,
                a_out,
                out_list@,
                x,
                v2,
            ) by {
                if x == i {
                    assert(out_list@[x]@[v2] == (out_snap[x]@[v2] || exists|j2: int|
                        0 <= j2 < succ@[x]@.len() && in_snap[#[trigger] succ@[x]@[j2] as int]@[v2]));
                    if out_list@[x]@[v2] && !a_out[x]@[v2] {
                        let j2 = choose|j2: int|
                            0 <= j2 < succ@[x]@.len() && in_snap[
                                #[trigger] succ@[x]@[j2] as int]@[v2];
                        let s = succ@[x]@[j2] as int;
                        assert(in_snap[s]@[v2]);
                        assert(sweep_source(a_in, in_list@, x, s, v2));
                    }
                    if exists|j2: int|
                        0 <= j2 < succ@[x]@.len() && sweep_source(
                            a_in,
                            in_list@,
                            x,
                            #[trigger] succ@[x]@[j2] as int,
                            v2,
                        ) {
                        let j2 = choose|j2: int|
                            0 <= j2 < succ@[x]@.len() && sweep_source(
                                a_in,
                                in_list@,
                                x,
                                #[trigger] succ@[x]@[j2] as int,
                                v2,
                            );
                        let s = succ@[x]@[j2] as int;
                        assert(in_snap[s]@[v2]);
                        assert(out_list@[x]@[v2]);
                    }
                } else {
                    assert(sweep_out_eq(succ@, a_in, in_snap, a_out, out_snap, x, v2));
                    assert(out_list@[x]@ == out_snap[x]@);
                    if exists|j2: int|
                        0 <= j2 < succ@[x]@.len() && sweep_source(
                            a_in,
                            in_snap,
                            x,
                            #[trigger] succ@[x]@[j2] as int,
                            v2,
                        ) {
                        let j2 = choose|j2: int|
                            0 <= j2 < succ@[x]@.len() && sweep_source(
                                a_in,
                                in_snap,
                                x,
                                #[trigger] succ@[x]@[j2] as int,
                                v2,
                            );
                        let s = succ@[x]@[j2] as int;
                        assert(sweep_source(a_in, in_list@, x, s, v2) == sweep_source(
                            a_in,
                            in_snap,
                            x,
                            s,
                            v2,
                        ));
                    }
                    if exists|j2: int|
                        0 <= j2 < succ@[x]@.len() && sweep_source(
                            a_in,
                            in_list@,
                            x,
                            #[trigger] succ@[x]@[j2] as int,
                            v2,
                        ) {
                        let j2 = choose|j2: int|
                            0 <= j2 < succ@[x]@.len() && sweep_source(
                                a_in,
                                in_list@,
                                x,
                                #[trigger] succ@[x]@[j2] as int,
                                v2,
                            );
                        let s = succ@[x]@[j2] as int;
                        assert(sweep_source(a_in, in_snap, x, s, v2) == sweep_source(
                            a_in,
                            in_list@,
                            x,
                            s,
                            v2,
                        ));
                    }
                }
            }
            assert forall|x: int, v2: int| i <= x < n && 0 <= v2 < nv implies sweep_in_eq(
                genv@,
                killv@,
                a_in,
                in_list@,
                out_list@,
                x,
                v2,
            ) by {
                if x == i {
                    assert(in_list@[x]@[v2] == (in_snap[x]@[v2] || add@[v2]));
                    assert(add@[v2] == (genv@[x]@[v2] || (out_row@[v2] && !killv@[x]@[v2])));
                    assert(out_list@[x]@ == out_row@);
                } else {
                    assert(sweep_in_eq(genv@, killv@, a_in, in_snap, out_snap, x, v2));
                    assert(in_list@[x]@ == in_snap[x]@);
                    assert(out_list@[x]@ == out_snap[x]@);
                }
            }
            // the change flag names exactly the sweeps that grew a set
            let new_changed = changed || row_changed || in_changed;
            if new_changed {
                if changed {
                    let (x, v2) = choose|x: int, v2: int|
                        #![trigger in_snap[x]@[v2]]
                        #![trigger out_snap[x]@[v2]]
                        0 <= x < in_snap.len() && 0 <= v2 < in_snap[x]@.len() && ((!a_in[x]@[v2]
                            && in_snap[x]@[v2]) || (!a_out[x]@[v2] && out_snap[x]@[v2]));
                    assert(x != i);
                    assert((!a_in[x]@[v2] && in_list@[x]@[v2]) || (!a_out[x]@[v2]
                        && out_list@[x]@[v2]));
                    assert(rows_changed(a_in, a_out, in_list@, out_list@));
                } else if row_changed {
                    let v2 = choose|v2: int| 0 <= v2 < nv && !out_snap[i as int]@[v2]
                        && #[trigger] out_row@[v2];
                    assert(!a_out[i as int]@[v2] && out_list@[i as int]@[v2]);
                    assert(rows_changed(a_in, a_out, in_list@, out_list@));
                } else {
                    let v2 = choose|v2: int| 0 <= v2 < nv && !in_snap[i as int]@[v2]
                        && #[trigger] add@[v2];
                    assert(!a_in[i as int]@[v2] && in_list@[i as int]@[v2]);
                    assert(rows_changed(a_in, a_out, in_list@, out_list@));
                }
            } else {
                if rows_changed(a_in, a_out, in_list@, out_list@) {
                    let (x, v2) = choose|x: int, v2: int|
                        #![trigger in_list@[x]@[v2]]
                        #![trigger out_list@[x]@[v2]]
                        0 <= x < in_list@.len() && 0 <= v2 < in_list@[x]@.len() && ((!a_in[x]@[v2]
                            && in_list@[x]@[v2]) || (!a_out[x]@[v2] && out_list@[x]@[v2]));
                    if x != i {
                        assert(in_list@[x]@ == in_snap[x]@);
                        assert(out_list@[x]@ == out_snap[x]@);
                        assert(rows_changed(a_in, a_out, in_snap, out_snap));
                        assert(false);
                    } else {
                        if !a_in[x]@[v2] && in_list@[x]@[v2] {
                            assert(in_row@[v2] == (in_snap[x]@[v2] || add@[v2]));
                            assert(add@[v2]);
                            assert(false);
                        } else {
                            assert(!a_out[x]@[v2] && out_row@[v2]);
                            assert(false);
                        }
                    }
                }
            }
        }
        if row_changed || in_changed {
            changed = true;
        }
    }
    changed
}


/// The number of set bits in one row.
pub open spec fn row_count(r: Seq<bool>) -> nat
    decreases r.len(),
{
    if r.len() == 0 {
        0
    } else {
        row_count(r.drop_last()) + (if r[r.len() - 1] {
            1nat
        } else {
            0nat
        })
    }
}

/// The number of set bits in a whole table.
pub open spec fn rows_count(l: Seq<Vec<bool>>) -> nat
    decreases l.len(),
{
    if l.len() == 0 {
        0
    } else {
        rows_count(l.drop_last()) + row_count(l[l.len() - 1]@)
    }
}

proof fn lemma_row_count_le(a: Seq<bool>, b: Seq<bool>)
    requires
        a.len() == b.len(),
        forall|v: int| 0 <= v < a.len() && #[trigger] a[v] ==> b[v],
    ensures
        row_count(a) <= row_count(b),
    decreases a.len(),
{
    if a.len() > 0 {
        lemma_row_count_le(a.drop_last(), b.drop_last());
    }
}

proof fn lemma_row_count_lt(a: Seq<bool>, b: Seq<bool>, w: int)
    requires
        a.len() == b.len(),
        forall|v: int| 0 <= v < a.len() && #[trigger] a[v] ==> b[v],
        0 <= w < a.len(),
        !a[w],
        b[w],
    ensures
        row_count(a) < row_count(b),
    decreases a.len(),
{
    if w == a.len() - 1 {
        lemma_row_count_le(a.drop_last(), b.drop_last());
    } else {
        lemma_row_count_lt(a.drop_last(), b.drop_last(), w);
    }
}

proof fn lemma_row_count_bound(a: Seq<bool>)
    ensures
        row_count(a) <= a.len(),
    decreases a.len(),
{
    if a.len() > 0 {
        lemma_row_count_bound(a.drop_last());
    }
}

proof fn lemma_rows_count_le(a: Seq<Vec<bool>>, b: Seq<Vec<bool>>)
    requires
        rows_grow(a, b),
    ensures
        rows_count(a) <= rows_count(b),
    decreases a.len(),
{
    if a.len() > 0 {
        assert(rows_grow(a.drop_last(), b.drop_last()));
        lemma_rows_count_le(a.drop_last(), b.drop_last());
        lemma_row_count_le(a[a.len() - 1]@, b[b.len() - 1]@);
    }
}

proof fn lemma_rows_count_lt(a: Seq<Vec<bool>>, b: Seq<Vec<bool>>, wi: int, wv: int)
    requires
        rows_grow(a, b),
        0 <= wi < a.len(),
        0 <= wv < a[wi]@.len(),
        !a[wi]@[wv],
        b[wi]@[wv],
    ensures
        rows_count(a) < rows_count(b),
    decreases a.len(),
{
    assert(rows_grow(a.drop_last(), b.drop_last()));
    if wi == a.len() - 1 {
        lemma_rows_count_le(a.drop_last(), b.drop_last());
        lemma_row_count_lt(a[wi]@, b[wi]@, wv);
    } else {
        lemma_rows_count_lt(a.drop_last(), b.drop_last(), wi, wv);
        lemma_row_count_le(a[a.len() - 1]@, b[b.len() - 1]@);
    }
}

proof fn lemma_rows_count_bound(l: Seq<Vec<bool>>, n: nat, nv: nat)
    requires
        rows_wf(l, n, nv),
    ensures
        rows_count(l) <= n * nv,
    decreases n,
{
    if n > 0 {
        assert(rows_wf(l.drop_last(), (n - 1) as nat, nv));
        lemma_rows_count_bound(l.drop_last(), (n - 1) as nat, nv);
        lemma_row_count_bound(l[l.len() - 1]@);
        assert((n - 1) * nv + nv == n * nv) by (nonlinear_arith);
    }
}

/// A sweep keeps the containment invariant: it only ever sets a bit the
/// dataflow equations justify over the sets it leaves behind.
proof fn lemma_sweep_preserves_contained(
    succ: Seq<Vec<usize>>,
    genv: Seq<Vec<bool>>,
    killv: Seq<Vec<bool>>,
    a_in: Seq<Vec<bool>>,
    a_out: Seq<Vec<bool>>,
    b_in: Seq<Vec<bool>>,
    b_out: Seq<Vec<bool>>,
    nv: nat,
)
    requires
        succ_ok(succ, succ.len()),
        rows_wf(a_in, succ.len(), nv),
        rows_wf(a_out, succ.len(), nv),
        rows_wf(b_in, succ.len(), nv),
        rows_wf(b_out, succ.len(), nv),
        contained(succ, genv, killv, a_in, a_out),
        rows_grow(a_in, b_in),
        rows_grow(a_out, b_out),
        forall|i: int, v: int|
            0 <= i < succ.len() && 0 <= v < nv ==> sweep_out_eq(succ, a_in, b_in, a_out, b_out, i, v),
        forall|i: int, v: int|
            0 <= i < succ.len() && 0 <= v < nv ==> sweep_in_eq(genv, killv, a_in, b_in, b_out, i, v),
    ensures
        contained(succ, genv, killv, b_in, b_out),
{
    assert forall|i: int, v: int|
        0 <= i < b_out.len() && 0 <= v < b_out[i]@.len() && #[trigger] b_out[i]@[v] implies exists|
        j: int,
    | 0 <= j < succ[i]@.len() && b_in[#[trigger] succ[i]@[j] as int]@[v] by {
        assert(sweep_out_eq(succ, a_in, b_in, a_out, b_out, i, v));
        if a_out[i]@[v] {
            let j = choose|j: int| 0 <= j < succ[i]@.len() && a_in[#[trigger] succ[i]@[j] as int]@[v];
            assert(b_in[succ[i]@[j] as int]@[v]);
        } else {
            let j = choose|j: int|
                0 <= j < succ[i]@.len() && sweep_source(a_in, b_in, i, #[trigger] succ[i]@[j] as int, v);
            let s = succ[i]@[j] as int;
            if s > i {
                assert(b_in[s]@[v]);
            } else {
                assert(a_in[s]@[v]);
                assert(b_in[s]@[v]);
            }
        }
    }
    assert forall|i: int, v: int|
        0 <= i < b_in.len() && 0 <= v < b_in[i]@.len() && #[trigger] b_in[i]@[v] implies genv[i]@[v]
        || (b_out[i]@[v] && !killv[i]@[v]) by {
        assert(sweep_in_eq(genv, killv, a_in, b_in, b_out, i, v));
        if a_in[i]@[v] {
            assert(genv[i]@[v] || (a_out[i]@[v] && !killv[i]@[v]));
        }
    }
}

/// Solve the backward liveness equations to their least fixpoint by
/// repeated full backward sweeps from all-empty sets.
///
/// The sets grow monotonically from sweep to sweep and are bounded by
/// the variable universe, so the iteration terminates (the `decreases`
/// measure is the number of still-clear bits); when a sweep grows
/// nothing the equations hold exactly. Unreachable program points are
/// no special case: their sets simply stay empty.
pub fn liveness(
    succ: &Vec<Vec<usize>>,
    genv: &Vec<Vec<bool>>,
    killv: &Vec<Vec<bool>>,
    nv: usize,
) -> (r: (Vec<Vec<bool>>, Vec<Vec<bool>>))
    requires
        succ_ok(succ@, succ@.len()),
        rows_wf(genv@, succ@.len(), nv as nat),
        rows_wf(killv@, succ@.len(), nv as nat),
    ensures
        rows_wf(r.0@, succ@.len(), nv as nat),
        rows_wf(r.1@, succ@.len(), nv as nat),
        liveness_fixpoint(succ@, genv@, killv@, r.0@, r.1@),
{
    let n = succ.len();
    let mut in_list = false_rows(n, nv);
    let mut out_list = false_rows(n, nv);
    proof {
        lemma_rows_count_bound(in_list@, n as nat, nv as nat);
        lemma_rows_count_bound(out_list@, n as nat, nv as nat);
    }
    loop
        invariant
            n == succ@.len(),
            succ_ok(succ@, n as nat),
            rows_wf(genv@, n as nat, nv as nat),
            rows_wf(killv@, n as nat, nv as nat),
            rows_wf(in_list@, n as nat, nv as nat),
            rows_wf(out_list@, n as nat, nv as nat),
            contained(succ@, genv@, killv@, in_list@, out_list@),
            rows_count(in_list@) + rows_count(out_list@) <= (n as int) * (nv as int) + (n as int) * (nv as int),
        ensures
            rows_wf(in_list@, n as nat, nv as nat),
            rows_wf(out_list@, n as nat, nv as nat),
            liveness_fixpoint(succ@, genv@, killv@, in_list@, out_list@),
        decreases (n as int) * (nv as int) + (n as int) * (nv as int) - rows_count(in_list@) - rows_count(out_list@),
    {
        let ghost pre_in = in_list@;
        let ghost pre_out = out_list@;
        let changed = liveness_sweep(succ, genv, killv, nv, &mut in_list, &mut out_list);
        proof {
            lemma_sweep_preserves_contained(
                succ@,
                genv@,
                killv@,
                pre_in,
                pre_out,
                in_list@,
                out_list@,
                nv as nat,
            );
        }
        if !changed {
            proof {
                lemma_rows_count_bound(in_list@, n as nat, nv as nat);
                lemma_rows_count_bound(out_list@, n as nat, nv as nat);
                // nothing grew, so this sweep read and wrote equal sets:
                // the sweep equations collapse to the fixpoint equations
                assert forall|i: int, v: int|
                    0 <= i < n && 0 <= v < in_list@[i]@.len() implies #[trigger] in_list@[i]@[v]
                    == pre_in[i]@[v] by {
                    if !pre_in[i]@[v] && in_list@[i]@[v] {
                        assert(rows_changed(pre_in, pre_out, in_list@, out_list@));
                    }
                }
                assert forall|i: int, v: int|
                    0 <= i < n && 0 <= v < out_list@[i]@.len() implies #[trigger] out_list@[i]@[v]
                    == pre_out[i]@[v] by {
                    if !pre_out[i]@[v] && out_list@[i]@[v] {
                        assert(rows_changed(pre_in, pre_out, in_list@, out_list@));
                    }
                }
                assert forall|i: int, v: int| 0 <= i < n && 0 <= v < out_list@[i]@.len() implies (
                #[trigger] out_list@[i]@[v] == exists|j: int|
                    0 <= j < succ@[i]@.len() && in_list@[#[trigger] succ@[i]@[j] as int]@[v]) by {
                    assert(sweep_out_eq(succ@, pre_in, in_list@, pre_out, out_list@, i, v));
                    if exists|j: int|
                        0 <= j < succ@[i]@.len() && in_list@[#[trigger] succ@[i]@[j] as int]@[v] {
                        let j = choose|j: int|
                            0 <= j < succ@[i]@.len() && in_list@[
                                #[trigger] succ@[i]@[j] as int]@[v];
                        let s = succ@[i]@[j] as int;
                        assert(sweep_source(pre_in, in_list@, i, s, v));
                        assert(out_list@[i]@[v]);
                    }
                    if out_list@[i]@[v] {
                        let j = choose|j: int|
                            0 <= j < succ@[i]@.len() && in_list@[
                                #[trigger] succ@[i]@[j] as int]@[v];
                    }
                }
                assert forall|i: int, v: int| 0 <= i < n && 0 <= v < in_list@[i]@.len() implies (
                #[trigger] in_list@[i]@[v] == (genv@[i]@[v] || (out_list@[i]@[v]
                    && !killv@[i]@[v]))) by {
                    assert(sweep_in_eq(genv@, killv@, pre_in, in_list@, out_list@, i, v));
                }
            }
            break;
        }
        proof {
            let (wi, wv) = choose|wi: int, wv: int|
                #![trigger in_list@[wi]@[wv]]
                #![trigger out_list@[wi]@[wv]]
                0 <= wi < in_list@.len() && 0 <= wv < in_list@[wi]@.len() && ((!pre_in[wi]@[wv]
                    && in_list@[wi]@[wv]) || (!pre_out[wi]@[wv] && out_list@[wi]@[wv]));
            if !pre_in[wi]@[wv] && in_list@[wi]@[wv] {
                lemma_rows_count_lt(pre_in, in_list@, wi, wv);
                lemma_rows_count_le(pre_out, out_list@);
            } else {
                lemma_rows_count_lt(pre_out, out_list@, wi, wv);
                lemma_rows_count_le(pre_in, in_list@);
            }
            lemma_rows_count_bound(in_list@, n as nat, nv as nat);
            lemma_rows_count_bound(out_list@, n as nat, nv as nat);
        }
    }
    (in_list, out_list)
}

/// Liveness soundness: whatever a program point reads is live-in there.
/// If instruction `i` reads variable `v` (it is in `gen[i]`, i.e. read
/// with no prior redefinition at `i` itself), then `v ∈ in[i]`.
pub proof fn lemma_liveness_sound(
    succ: Seq<Vec<usize>>,
    genv: Seq<Vec<bool>>,
    killv: Seq<Vec<bool>>,
    in_l: Seq<Vec<bool>>,
    out_l: Seq<Vec<bool>>,
    nv: nat,
)
    requires
        rows_wf(genv, succ.len(), nv),
        rows_wf(in_l, succ.len(), nv),
        rows_wf(out_l, succ.len(), nv),
        liveness_fixpoint(succ, genv, killv, in_l, out_l),
    ensures
        forall|i: int, v: int|
            0 <= i < succ.len() && 0 <= v < nv && #[trigger] genv[i]@[v] ==> in_l[i]@[v],
{
}

} // verus!
