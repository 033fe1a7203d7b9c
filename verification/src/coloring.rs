//! Graph-coloring register allocation: Kempe-style simplify–select with
//! spilling over a bounded palette of `k` register classes.

use vstd::prelude::*;
use crate::interference::InterferenceGraph;
use crate::liveness::row_count;

verus! {

/// What a variable is assigned: one of the `k` register classes, or the
/// spill sentinel. Built once per compilation and consumed immediately
/// by the rewriter.
#[derive(Clone, Copy, PartialEq, Eq, Structural, Debug)]
pub enum Color {
    /// an abstract register class index in `[0, k)`
    Colored(usize),
    /// no class could be assigned; the variable lives in memory
    Spilled,
}

/// Do two assignments let their variables share storage illegally?
/// Only two equal register classes clash; a spilled variable clashes
/// with nothing.
pub open spec fn same_class(a: Color, b: Color) -> bool {
    match (a, b) {
        (Color::Colored(x), Color::Colored(y)) => x == y,
        _ => false,
    }
}

/// Every assigned class is inside the palette of `k` classes.
pub open spec fn colors_in_palette(c: Seq<Color>, k: nat) -> bool {
    forall|v: int| 0 <= v < c.len() ==> (#[trigger] c[v] matches Color::Colored(x) ==> x < k)
}

/// A proper coloring of `g`: colored neighbours never share a class.
/// (Spilled variables are exempt: they occupy no register.)
pub open spec fn coloring_valid(g: InterferenceGraph, c: Seq<Color>) -> bool {
    &&& c.len() == g.n
    &&& forall|u: int, v: int|
        0 <= u < g.n && 0 <= v < g.n && #[trigger] g.edge(u, v) ==> !same_class(c[u], c[v])
}

proof fn lemma_row_count_full(s: Seq<bool>)
    requires
        forall|v: int| 0 <= v < s.len() ==> #[trigger] s[v],
    ensures
        row_count(s) == s.len(),
    decreases s.len(),
{
    if s.len() > 0 {
        lemma_row_count_full(s.drop_last());
    }
}

proof fn lemma_row_count_set(s: Seq<bool>, w: int)
    requires
        0 <= w < s.len(),
        !s[w],
    ensures
        row_count(s.update(w, true)) == row_count(s) + 1,
    decreases s.len(),
{
    let t = s.update(w, true);
    if w == s.len() - 1 {
        assert(t.drop_last() =~= s.drop_last());
    } else {
        lemma_row_count_set(s.drop_last(), w);
        assert(t.drop_last() =~= s.drop_last().update(w, true));
    }
}

/// The number of non-removed neighbours `x` still has.
fn live_degree(g: &InterferenceGraph, removed: &Vec<bool>, x: usize) -> (d: usize)
    requires
        g.wf(),
        removed@.len() == g.n,
        x < g.n,
{
    let n = g.n;
    let mut d: usize = 0;
    let mut u: usize = 0;
    while u < n
        invariant
            u <= n,
            d <= u,
            n == g.n,
            g.wf(),
            removed@.len() == g.n,
            x < g.n,
        decreases n - u,
    {
        if g.adj[x][u] && !removed[u] {
            d += 1;
        }
        u += 1;
    }
    d
}

/// Color the interference graph with `k` classes, Chaitin/Kempe style.
///
/// Simplify: repeatedly remove the lowest-id node of current degree
/// `< k` (it can always be colored later), pushing it onto a stack; when
/// none qualifies, remove the lowest-id remaining node as a potential
/// spill. Select: pop in reverse, assigning each node the lowest class
/// no already-colored neighbour holds, or `Spilled` when all `k` are
/// taken. Both picks scan ids upward, so the result is deterministic:
/// no map iteration order is involved.
///
/// The result assigns every variable exactly one storage, every class is
/// in `[0, k)`, neighbouring variables never share a class, and a node
/// with fewer than `k` neighbours is never spilled: at most `k − 1`
/// classes compete for it.
pub fn graph_coloring(g: &InterferenceGraph, k: usize) -> (c: Vec<Color>)
    requires
        g.wf(),
    ensures
        c@.len() == g.n,
        colors_in_palette(c@, k as nat),
        coloring_valid(*g, c@),
        forall|v: int|
            0 <= v < g.n && row_count((#[trigger] g.adj@[v])@) < k ==> c@[v] matches Color::Colored(
                _,
            ),
{
    let n = g.n;
    let mut removed: Vec<bool> = Vec::new();
    {
        let mut v: usize = 0;
        while v < n
            invariant
                v <= n,
                removed@.len() == v,
                forall|y: int| 0 <= y < v ==> !(#[trigger] removed@[y]),
            decreases n - v,
        {
            removed.push(false);
            v += 1;
        }
    }
    proof {
        crate::coloring::lemma_row_count_zero(removed@);
    }
    let mut stack: Vec<usize> = Vec::new();
    let mut t: usize = 0;
    while t < n
        invariant
            t <= n,
            n == g.n,
            g.wf(),
            removed@.len() == n,
            stack@.len() == t,
            row_count(removed@) == t,
            forall|p: int| 0 <= p < t ==> #[trigger] stack@[p] < n,
            forall|p: int, q: int| 0 <= p < t && 0 <= q < t && p != q ==> stack@[p] != stack@[q],
            forall|x: int|
                0 <= x < n ==> #[trigger] removed@[x] == exists|p: int|
                    0 <= p < t && #[trigger] stack@[p] == x,
        decreases n - t,
    {
        // lowest-id node of remaining degree < k, else (a potential
        // spill) the lowest-id remaining node
        let mut pick: usize = n;
        let mut x: usize = 0;
        while x < n
            invariant
                x <= n,
                n == g.n,
                g.wf(),
                removed@.len() == n,
                pick == n || (pick < n && !removed@[pick as int]),
            decreases n - x,
        {
            if pick == n && !removed[x] {
                if live_degree(g, &removed, x) < k {
                    pick = x;
                }
            }
            x += 1;
        }
        if pick == n {
            let mut y: usize = 0;
            while y < n
                invariant
                    y <= n,
                    n == g.n,
                    removed@.len() == n,
                    pick == n || (pick < n && !removed@[pick as int]),
                    pick == n ==> forall|z: int| 0 <= z < y ==> #[trigger] removed@[z],
                decreases n - y,
            {
                if pick == n && !removed[y] {
                    pick = y;
                }
                y += 1;
            }
            if pick == n {
                proof {
                    lemma_row_count_full(removed@);
                    assert(false);
                }
            }
        }
        let idx = pick;
        proof {
            lemma_row_count_set(removed@, idx as int);
        }
        let ghost removed_pre = removed@;
        let ghost stack_pre = stack@;
        removed[idx] = true;
        stack.push(idx);
        proof {
            assert forall|xx: int| 0 <= xx < n implies #[trigger] removed@[xx] == exists|p: int|
                0 <= p < t + 1 && #[trigger] stack@[p] == xx by {
                if removed@[xx] {
                    if xx == idx {
                        assert(stack@[t as int] == xx);
                    } else {
                        assert(removed_pre[xx]);
                        let p = choose|p: int| 0 <= p < t && #[trigger] stack_pre[p] == xx;
                        assert(stack@[p] == xx);
                    }
                } else {
                    if exists|p: int| 0 <= p < t + 1 && #[trigger] stack@[p] == xx {
                        let p = choose|p: int| 0 <= p < t + 1 && #[trigger] stack@[p] == xx;
                        if p < t {
                            assert(stack_pre[p] == xx);
                            assert(removed_pre[xx]);
                            assert(false);
                        } else {
                            assert(xx == idx);
                            assert(false);
                        }
                    }
                }
            }
        }
        t += 1;
    }
    // select: pop in reverse removal order
    let mut colors: Vec<Color> = Vec::new();
    {
        let mut v: usize = 0;
        while v < n
            invariant
                v <= n,
                colors@.len() == v,
                forall|y: int| 0 <= y < v ==> #[trigger] colors@[y] == Color::Spilled,
            decreases n - v,
        {
            colors.push(Color::Spilled);
            v += 1;
        }
    }
    let mut decided: Vec<bool> = Vec::new();
    {
        let mut v: usize = 0;
        while v < n
            invariant
                v <= n,
                decided@.len() == v,
                forall|y: int| 0 <= y < v ==> !(#[trigger] decided@[y]),
            decreases n - v,
        {
            decided.push(false);
            v += 1;
        }
    }
    proof {
        assert forall|x: int| #![trigger decided@[x]] 0 <= x < n implies decided@[x] || (exists|
            p: int,
        | 0 <= p < stack@.len() && #[trigger] stack@[p] == x) by {
            if !removed@[x] {
                lemma_row_count_missing(removed@, x);
                assert(false);
            }
        }
    }
    while stack.len() > 0
        invariant
            n == g.n,
            g.wf(),
            colors@.len() == n,
            decided@.len() == n,
            forall|p: int| 0 <= p < stack@.len() ==> #[trigger] stack@[p] < n,
            forall|p: int, q: int|
                0 <= p < stack@.len() && 0 <= q < stack@.len() && p != q ==> stack@[p] != stack@[q],
            forall|p: int| 0 <= p < stack@.len() ==> !decided@[#[trigger] stack@[p] as int],
            forall|x: int|
                0 <= x < n ==> decided@[x] || exists|p: int|
                    0 <= p < stack@.len() && #[trigger] stack@[p] == x,
            colors_in_palette(colors@, k as nat),
            forall|x: int| 0 <= x < n && !decided@[x] ==> #[trigger] colors@[x] == Color::Spilled,
            forall|u: int, v: int|
                0 <= u < n && 0 <= v < n && decided@[u] && decided@[v] && #[trigger] g.edge(u, v)
                    ==> !same_class(colors@[u], colors@[v]),
            forall|x: int|
                0 <= x < n && decided@[x] && row_count((#[trigger] g.adj@[x])@) < k ==> colors@[x]
                    matches Color::Colored(_),
        decreases stack@.len(),
    {
        let ghost stack_before = stack@;
        let idx = match stack.pop() {
            Some(i) => i,
            None => {
                proof {
                    assert(false);
                }
                0
            },
        };
        // classes held by already-colored neighbours
        let mut used: Vec<bool> = Vec::new();
        {
            let mut v: usize = 0;
            while v < k
                invariant
                    v <= k,
                    used@.len() == v,
                    forall|y: int| 0 <= y < v ==> !(#[trigger] used@[y]),
                decreases k - v,
            {
                used.push(false);
                v += 1;
            }
        }
        proof {
            lemma_row_count_zero(used@);
            lemma_row_count_zero(g.adj@[idx as int]@.subrange(0, 0));
        }
        let mut u: usize = 0;
        while u < n
            invariant
                u <= n,
                n == g.n,
                g.wf(),
                idx < n,
                colors@.len() == n,
                decided@.len() == n,
                used@.len() == k,
                colors_in_palette(colors@, k as nat),
                forall|cc: int|
                    0 <= cc < k ==> #[trigger] used@[cc] == exists|w: int|
                        0 <= w < u && g.edge(idx as int, w) && decided@[w] && #[trigger] colors@[w]
                            == Color::Colored(cc as usize),
                row_count(used@) <= row_count(g.adj@[idx as int]@.subrange(0, u as int)),
            decreases n - u,
        {
            let ghost used_pre = used@;
            let ghost deg_pre = g.adj@[idx as int]@.subrange(0, u as int);
            if g.adj[idx][u] && decided[u] {
                if let Color::Colored(cu) = colors[u] {
                    assert(cu < k);
                    proof {
                        if used@[cu as int] {
                            assert(used@.update(cu as int, true) =~= used@);
                        } else {
                            lemma_row_count_set(used@, cu as int);
                        }
                    }
                    used[cu] = true;
                }
            }
            proof {
                let deg_next = g.adj@[idx as int]@.subrange(0, u + 1);
                assert(deg_next.drop_last() =~= deg_pre);
                assert(deg_next[deg_next.len() - 1] == g.adj@[idx as int]@[u as int]);
            }
            proof {
                assert forall|cc: int| 0 <= cc < k implies #[trigger] used@[cc] == exists|w: int|
                    0 <= w < u + 1 && g.edge(idx as int, w) && decided@[w] && #[trigger] colors@[w]
                        == Color::Colored(cc as usize) by {
                    if used@[cc] {
                        if g.edge(idx as int, u as int) && decided@[u as int] && colors@[u as int]
                            == Color::Colored(cc as usize) {
                            assert(0 <= u < u + 1 && g.edge(idx as int, u as int)
                                && decided@[u as int] && colors@[u as int] == Color::Colored(
                                cc as usize,
                            ));
                        } else {
                            let w = choose|w: int|
                                0 <= w < u && g.edge(idx as int, w) && decided@[w]
                                    && #[trigger] colors@[w] == Color::Colored(cc as usize);
                            assert(0 <= w < u + 1 && g.edge(idx as int, w) && decided@[w]
                                && colors@[w] == Color::Colored(cc as usize));
                        }
                    } else {
                        if exists|w: int|
                            0 <= w < u + 1 && g.edge(idx as int, w) && decided@[w]
                                && #[trigger] colors@[w] == Color::Colored(cc as usize) {
                            let w = choose|w: int|
                                0 <= w < u + 1 && g.edge(idx as int, w) && decided@[w]
                                    && #[trigger] colors@[w] == Color::Colored(cc as usize);
                            assert(w == u);
                            assert(false);
                        }
                    }
                }
            }
            u += 1;
        }
        // lowest class no colored neighbour holds
        let mut chosen: usize = k;
        let mut cc: usize = 0;
        while cc < k
            invariant
                cc <= k,
                used@.len() == k,
                chosen == k || (chosen < k && !used@[chosen as int]),
                chosen == k ==> forall|c2: int| 0 <= c2 < cc ==> #[trigger] used@[c2],
            decreases k - cc,
        {
            if chosen == k && !used[cc] {
                chosen = cc;
            }
            cc += 1;
        }
        proof {
            assert(g.adj@[idx as int]@.subrange(0, n as int) =~= g.adj@[idx as int]@);
            if chosen == k && k > 0 {
                // every class is held by some colored neighbour, so the
                // node's degree is at least k: low-degree nodes never spill
                lemma_row_count_full(used@);
            }
        }
        let ghost colors_pre = colors@;
        let ghost decided_pre = decided@;
        if chosen < k {
            colors[idx] = Color::Colored(chosen);
        } else {
            colors[idx] = Color::Spilled;
        }
        decided[idx] = true;
        proof {
            assert forall|x: int| 0 <= x < n implies decided@[x] || exists|p: int|
                0 <= p < stack@.len() && #[trigger] stack@[p] == x by {
                if !decided@[x] {
                    assert(!decided_pre[x]);
                    let p = choose|p: int|
                        0 <= p < stack_before.len() && #[trigger] stack_before[p] == x;
                    if p == stack_before.len() - 1 {
                        assert(x == idx);
                        assert(false);
                    } else {
                        assert(stack@[p] == x);
                    }
                }
            }
            assert forall|a: int, b: int|
                0 <= a < n && 0 <= b < n && decided@[a] && decided@[b] && #[trigger] g.edge(a, b)
                implies !same_class(colors@[a], colors@[b]) by {
                if a == idx && b == idx {
                    assert(!g.edge(a, b));
                } else if a == idx {
                    match colors@[a] {
                        Color::Colored(ca) => {
                            if colors@[b] == Color::Colored(ca) {
                                assert(used@[ca as int]);
                            }
                        },
                        Color::Spilled => {},
                    }
                } else if b == idx {
                    assert(g.edge(b, a) == g.edge(a, b));
                    match colors@[b] {
                        Color::Colored(cb) => {
                            if colors@[a] == Color::Colored(cb) {
                                assert(used@[cb as int]);
                            }
                        },
                        Color::Spilled => {},
                    }
                } else {
                    assert(colors@[a] == colors_pre[a] && colors@[b] == colors_pre[b]);
                }
            }
        }
    }
    proof {
        assert forall|x: int| 0 <= x < n implies #[trigger] decided@[x] by {
            if !decided@[x] {
                let p = choose|p: int| 0 <= p < stack@.len() && #[trigger] stack@[p] == x;
                assert(false);
            }
        }
    }
    colors
}

proof fn lemma_row_count_missing(s: Seq<bool>, w: int)
    requires
        0 <= w < s.len(),
        !s[w],
    ensures
        row_count(s) < s.len(),
    decreases s.len(),
{
    lemma_row_count_bound_local(s.drop_last());
    if w == s.len() - 1 {
    } else {
        lemma_row_count_missing(s.drop_last(), w);
    }
}

proof fn lemma_row_count_bound_local(s: Seq<bool>)
    ensures
        row_count(s) <= s.len(),
    decreases s.len(),
{
    if s.len() > 0 {
        lemma_row_count_bound_local(s.drop_last());
    }
}

proof fn lemma_row_count_zero(s: Seq<bool>)
    requires
        forall|v: int| 0 <= v < s.len() ==> !(#[trigger] s[v]),
    ensures
        row_count(s) == 0,
    decreases s.len(),
{
    if s.len() > 0 {
        lemma_row_count_zero(s.drop_last());
    }
}

} // verus!
