//! Control-flow successors: the label table and the successor set of
//! every program point.

use vstd::prelude::*;
use crate::instr::{AllocError, Instr};

verus! {

/// The label a branch or jump transfers control to, if any.
pub open spec fn instr_target(ins: Instr) -> Option<usize> {
    match ins {
        Instr::Jump(l) => Some(l),
        Instr::Branch(_, _, _, l) => Some(l),
        _ => None,
    }
}

/// Does the instruction fall through to the next program point?
/// Everything does except an unconditional jump: control provably leaves.
pub open spec fn falls_through(ins: Instr) -> bool {
    !(ins matches Instr::Jump(_))
}

/// A correct label table `t` for `code`: `t[l]` is the program point of
/// the marker of label `l`, or `None` where `l` has no marker.
pub open spec fn label_table_ok(code: Seq<Instr>, t: Seq<Option<usize>>) -> bool {
    &&& forall|l: int|
        0 <= l < t.len() ==> match #[trigger] t[l] {
            Some(j) => j < code.len() && code[j as int] == Instr::Label(l as usize),
            None => true,
        }
    &&& forall|i: int|
        0 <= i < code.len() ==> (#[trigger] code[i] matches Instr::Label(l) ==> l < t.len()
            && t[l as int] == Some(i as usize))
}

/// Is `ins` the defining marker of label `l`?
pub open spec fn defines_label(ins: Instr, l: usize) -> bool {
    ins == Instr::Label(l)
}

/// No label has two defining markers in `code`.
pub open spec fn labels_unique(code: Seq<Instr>) -> bool {
    forall|i: int, j: int, l: usize|
        0 <= i < code.len() && 0 <= j < code.len() && #[trigger] defines_label(code[i], l)
            && #[trigger] defines_label(code[j], l) ==> i == j
}

/// Build the label table: for each label id below `n_labels`, the program
/// point of its unique marker. Built once; consulted by successor
/// construction and never mutated afterwards.
///
/// Returns `DuplicateLabel` iff some label has two defining markers.
pub fn build_label_table(code: &Vec<Instr>, n_labels: usize) -> (r: Result<
    Vec<Option<usize>>,
    AllocError,
>)
    requires
        crate::instr::code_labels_bound(code@, n_labels as nat),
    ensures
        match r {
            Ok(t) => {
                &&& t@.len() == n_labels
                &&& label_table_ok(code@, t@)
                &&& labels_unique(code@)
            },
            Err(e) => {
                &&& e matches AllocError::DuplicateLabel(l)
                &&& !labels_unique(code@)
            },
        },
{
    let n = code.len();
    let mut tab: Vec<Option<usize>> = Vec::new();
    let mut l: usize = 0;
    while l < n_labels
        invariant
            l <= n_labels,
            tab@.len() == l,
            forall|x: int| 0 <= x < l ==> tab@[x] is None,
        decreases n_labels - l,
    {
        tab.push(None);
        l += 1;
    }
    let mut i: usize = 0;
    while i < n
        invariant
            i <= n,
            n == code@.len(),
            tab@.len() == n_labels,
            crate::instr::code_labels_bound(code@, n_labels as nat),
            forall|x: int|
                0 <= x < n_labels ==> match #[trigger] tab@[x] {
                    Some(j) => j < i && code@[j as int] == Instr::Label(x as usize),
                    None => true,
                },
            forall|j: int|
                0 <= j < i ==> (#[trigger] code@[j] matches Instr::Label(x) ==> x < n_labels
                    && tab@[x as int] == Some(j as usize)),
        decreases n - i,
    {
        if let Instr::Label(lab) = code[i] {
            assert(crate::instr::instr_labels_bound(code@[i as int], n_labels as nat));
            if tab[lab].is_some() {
                proof {
                    let j2 = tab@[lab as int]->Some_0;
                    assert(defines_label(code@[j2 as int], lab));
                    assert(defines_label(code@[i as int], lab));
                    assert(j2 < i);
                    assert(!labels_unique(code@));
                }
                return Err(AllocError::DuplicateLabel(lab));
            }
            tab[lab] = Some(i);
        }
        i += 1;
    }
    proof {
        assert forall|a: int, b: int, x: usize|
            0 <= a < code@.len() && 0 <= b < code@.len() && #[trigger] defines_label(code@[a], x)
                && #[trigger] defines_label(code@[b], x) implies a == b by {
            assert(tab@[x as int] == Some(a as usize));
            assert(tab@[x as int] == Some(b as usize));
        }
    }
    Ok(tab)
}

/// The successor set of program point `i`, as §-classical CFG rules give
/// it: a jump goes only to its target; a conditional branch goes to its
/// target and falls through; everything else falls through. The last
/// program point has no fall-through successor.
pub open spec fn succ_spec(code: Seq<Instr>, t: Seq<Option<usize>>, i: int) -> Seq<usize> {
    let n = code.len();
    match code[i] {
        Instr::Jump(l) => seq![t[l as int]->Some_0],
        Instr::Branch(_, _, _, l) => if i + 1 < n {
            seq![t[l as int]->Some_0, (i + 1) as usize]
        } else {
            seq![t[l as int]->Some_0]
        },
        _ => if i + 1 < n {
            seq![(i + 1) as usize]
        } else {
            Seq::empty()
        },
    }
}

/// Does every branch and jump of `code` target a label the table defines?
pub open spec fn targets_resolved(code: Seq<Instr>, t: Seq<Option<usize>>) -> bool {
    forall|i: int|
        0 <= i < code.len() ==> (instr_target(#[trigger] code[i]) matches Some(l) ==> l < t.len()
            && t[l as int] is Some)
}

/// Build the successor sets of all program points.
///
/// Succeeds iff every branch and jump targets a defined label; an
/// unresolved target is fatal. Every successor is a valid program point.
pub fn build_successors(code: &Vec<Instr>, tab: &Vec<Option<usize>>) -> (r: Result<
    Vec<Vec<usize>>,
    AllocError,
>)
    requires
        label_table_ok(code@, tab@),
    ensures
        match r {
            Ok(s) => {
                &&& targets_resolved(code@, tab@)
                &&& s@.len() == code@.len()
                &&& forall|i: int| 0 <= i < s@.len() ==> #[trigger] s@[i]@ == succ_spec(
                    code@,
                    tab@,
                    i,
                )
                &&& forall|i: int, j: int|
                    0 <= i < s@.len() && 0 <= j < s@[i]@.len() ==> #[trigger] s@[i]@[j]
                        < code@.len()
            },
            Err(e) => {
                &&& !targets_resolved(code@, tab@)
                &&& e matches AllocError::UnresolvedLabel(l) && (exists|i: int|
                    0 <= i < code@.len() && instr_target(#[trigger] code@[i]) == Some(l) && (l
                        >= tab@.len() || tab@[l as int] is None))
            },
        },
{
    let n = code.len();
    let mut succ: Vec<Vec<usize>> = Vec::new();
    let mut i: usize = 0;
    while i < n
        invariant
            i <= n,
            n == code@.len(),
            label_table_ok(code@, tab@),
            succ@.len() == i,
            forall|x: int| 0 <= x < i ==> #[trigger] succ@[x]@ == succ_spec(code@, tab@, x),
            forall|x: int, j: int|
                0 <= x < i && 0 <= j < succ@[x]@.len() ==> #[trigger] succ@[x]@[j] < code@.len(),
            forall|x: int|
                0 <= x < i ==> (instr_target(#[trigger] code@[x]) matches Some(l) ==> l
                    < tab@.len() && tab@[l as int] is Some),
        decreases n - i,
    {
        let mut row: Vec<usize> = Vec::new();
        match code[i] {
            Instr::Jump(l) => {
                if l >= tab.len() {
                    return Err(AllocError::UnresolvedLabel(l));
                }
                match tab[l] {
                    Some(target) => row.push(target),
                    None => {
                        return Err(AllocError::UnresolvedLabel(l));
                    },
                }
            },
            Instr::Branch(_, _, _, l) => {
                if l >= tab.len() {
                    return Err(AllocError::UnresolvedLabel(l));
                }
                match tab[l] {
                    Some(target) => row.push(target),
                    None => {
                        return Err(AllocError::UnresolvedLabel(l));
                    },
                }
                if i + 1 < n {
                    row.push(i + 1);
                }
            },
            _ => {
                if i + 1 < n {
                    row.push(i + 1);
                }
            },
        }
        assert(row@ =~= succ_spec(code@, tab@, i as int));
        succ.push(row);
        i += 1;
    }
    Ok(succ)
}

} // verus!
