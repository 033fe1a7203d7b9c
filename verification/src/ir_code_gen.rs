//! Building the syntax tree from the parser's reductions: one closed
//! sum type for everything the semantic stack can hold, and the action
//! applied at each reduction.

use vstd::prelude::*;
use crate::ast::{
    AssignStm, CompExp, CompoundStm, EseqExp, Exp, ExpList, ForStm, IdExp, LastExpList, NumExp,
    OpExp, PairExpList, PrintStm, Stm,
};
use crate::instr::{BinOp, CmpOp};

verus! {

/// One parse-stack entry: an automaton state or a token's text.
#[derive(Debug)]
pub enum StackItem {
    State(usize),
    Value(String),
}

/// One entry of the tree-building stack: a finished subtree of one of
/// the three syntactic classes, or a pending arithmetic opcode.
#[derive(Debug)]
pub enum AstItem {
    Stm(Stm),
    Exp(Exp),
    ExpList(ExpList),
    Op(BinOp),
}

/// The tree-building stack does not fit the production applied: a wrong
/// number or kind of entries, or a missing token value. The reductions
/// are parser-driven, so this is an internal contract violation; fatal.
#[derive(Clone, Copy, PartialEq, Eq, Structural, Debug)]
pub enum BuildError {
    MalformedStack,
}

/// Does the tree-building stack fit production `prod_num`? (For the
/// productions that carry a token value, the value must be present —
/// except the two operand productions, where a missing value makes the
/// reduction a no-op rather than an error.)
pub open spec fn gen_line_ok(prod_num: usize, stack: Seq<AstItem>, item: StackItem) -> bool {
    let n = stack.len() as int;
    if prod_num == 2 {
        n >= 2 && stack[n - 1] is Stm && stack[n - 2] is Stm
    } else if prod_num == 4 {
        n >= 1 && stack[n - 1] is ExpList
    } else if prod_num == 5 {
        n >= 4 && stack[n - 1] is Stm && stack[n - 2] is Stm && stack[n - 3] is Exp && stack[n
            - 4] is Stm
    } else if prod_num == 6 {
        (item is Value) && n >= 1 && stack[n - 1] is Exp
    } else if prod_num == 7 {
        n >= 2 && stack[n - 1] is ExpList && stack[n - 2] is Exp
    } else if prod_num == 8 {
        n >= 1 && stack[n - 1] is Exp
    } else if prod_num == 9 || prod_num == 10 {
        item is Value
    } else if prod_num == 13 || prod_num == 14 {
        n >= 2 && stack[n - 1] is Exp && stack[n - 2] is Exp
    } else if prod_num == 15 || prod_num == 16 {
        (item is Value) ==> (n >= 2 && stack[n - 1] is Exp && stack[n - 2] is Op)
    } else if prod_num == 17 {
        n >= 2 && stack[n - 1] is Exp && stack[n - 2] is Stm
    } else {
        true
    }
}

/// What production `prod_num` makes of the tree-building stack: which
/// entries it consumes and exactly which node it pushes in their place.
pub open spec fn gen_line_post(
    prod_num: usize,
    old_stack: Seq<AstItem>,
    item: StackItem,
    new_stack: Seq<AstItem>,
) -> bool {
    let n = old_stack.len() as int;
    if prod_num == 2 {
        // stm ::= stm ; stm
        &&& new_stack.len() == n - 1
        &&& forall|i: int| 0 <= i < n - 2 ==> new_stack[i] == old_stack[i]
        &&& new_stack[n - 2] is Stm
        &&& new_stack[n - 2]->Stm_0 is Compound
        &&& *new_stack[n - 2]->Stm_0->Compound_0.stm1 == old_stack[n - 2]->Stm_0
        &&& *new_stack[n - 2]->Stm_0->Compound_0.stm2 == old_stack[n - 1]->Stm_0
    } else if prod_num == 4 {
        // stm ::= print ( explist )
        &&& new_stack.len() == n
        &&& forall|i: int| 0 <= i < n - 1 ==> new_stack[i] == old_stack[i]
        &&& new_stack[n - 1] is Stm
        &&& new_stack[n - 1]->Stm_0 is Print
        &&& *new_stack[n - 1]->Stm_0->Print_0.exps == old_stack[n - 1]->ExpList_0
    } else if prod_num == 5 {
        // stm ::= for ( stm ; compexp ; stm ) { stm }
        &&& new_stack.len() == n - 3
        &&& forall|i: int| 0 <= i < n - 4 ==> new_stack[i] == old_stack[i]
        &&& new_stack[n - 4] is Stm
        &&& new_stack[n - 4]->Stm_0 is For
        &&& *new_stack[n - 4]->Stm_0->For_0.iter == old_stack[n - 4]->Stm_0
        &&& *new_stack[n - 4]->Stm_0->For_0.comp == old_stack[n - 3]->Exp_0
        &&& *new_stack[n - 4]->Stm_0->For_0.inc == old_stack[n - 2]->Stm_0
        &&& *new_stack[n - 4]->Stm_0->For_0.body == old_stack[n - 1]->Stm_0
    } else if prod_num == 6 {
        // assignstm ::= ID := exp
        &&& new_stack.len() == n
        &&& forall|i: int| 0 <= i < n - 1 ==> new_stack[i] == old_stack[i]
        &&& new_stack[n - 1] is Stm
        &&& new_stack[n - 1]->Stm_0 is Assign
        &&& *new_stack[n - 1]->Stm_0->Assign_0.id is Id
        &&& (*new_stack[n - 1]->Stm_0->Assign_0.id)->Id_0.id == item->Value_0
        &&& *new_stack[n - 1]->Stm_0->Assign_0.exp == old_stack[n - 1]->Exp_0
    } else if prod_num == 7 {
        // explist ::= exp , explist
        &&& new_stack.len() == n - 1
        &&& forall|i: int| 0 <= i < n - 2 ==> new_stack[i] == old_stack[i]
        &&& new_stack[n - 2] is ExpList
        &&& new_stack[n - 2]->ExpList_0 is Pair
        &&& *new_stack[n - 2]->ExpList_0->Pair_0.head == old_stack[n - 2]->Exp_0
        &&& *new_stack[n - 2]->ExpList_0->Pair_0.tail == old_stack[n - 1]->ExpList_0
    } else if prod_num == 8 {
        // explist ::= exp
        &&& new_stack.len() == n
        &&& forall|i: int| 0 <= i < n - 1 ==> new_stack[i] == old_stack[i]
        &&& new_stack[n - 1] is ExpList
        &&& new_stack[n - 1]->ExpList_0 is Last
        &&& *new_stack[n - 1]->ExpList_0->Last_0.head == old_stack[n - 1]->Exp_0
    } else if prod_num == 9 {
        // exp ::= ID
        &&& new_stack.len() == n + 1
        &&& forall|i: int| 0 <= i < n ==> new_stack[i] == old_stack[i]
        &&& new_stack[n] is Exp
        &&& new_stack[n]->Exp_0 is Id
        &&& new_stack[n]->Exp_0->Id_0.id == item->Value_0
    } else if prod_num == 10 {
        // exp ::= Num
        &&& new_stack.len() == n + 1
        &&& forall|i: int| 0 <= i < n ==> new_stack[i] == old_stack[i]
        &&& new_stack[n] is Exp
        &&& new_stack[n]->Exp_0 is Num
        &&& new_stack[n]->Exp_0->Num_0.num == item->Value_0
    } else if prod_num == 13 || prod_num == 14 {
        // compexp ::= exp >= exp | exp <= exp
        &&& new_stack.len() == n - 1
        &&& forall|i: int| 0 <= i < n - 2 ==> new_stack[i] == old_stack[i]
        &&& new_stack[n - 2] is Exp
        &&& new_stack[n - 2]->Exp_0 is Comp
        &&& *new_stack[n - 2]->Exp_0->Comp_0.left == old_stack[n - 2]->Exp_0
        &&& *new_stack[n - 2]->Exp_0->Comp_0.right == old_stack[n - 1]->Exp_0
        &&& new_stack[n - 2]->Exp_0->Comp_0.op == (if prod_num == 13 {
            CmpOp::Ge
        } else {
            CmpOp::Le
        })
    } else if prod_num == 15 || prod_num == 16 {
        // opexp ::= ID binop exp | Num binop exp
        if item is Value {
            &&& new_stack.len() == n - 1
            &&& forall|i: int| 0 <= i < n - 2 ==> new_stack[i] == old_stack[i]
            &&& new_stack[n - 2] is Exp
            &&& new_stack[n - 2]->Exp_0 is Op
            &&& (if prod_num == 15 {
                &&& *new_stack[n - 2]->Exp_0->Op_0.left is Id
                &&& (*new_stack[n - 2]->Exp_0->Op_0.left)->Id_0.id == item->Value_0
            } else {
                &&& *new_stack[n - 2]->Exp_0->Op_0.left is Num
                &&& (*new_stack[n - 2]->Exp_0->Op_0.left)->Num_0.num == item->Value_0
            })
            &&& *new_stack[n - 2]->Exp_0->Op_0.right == old_stack[n - 1]->Exp_0
            &&& new_stack[n - 2]->Exp_0->Op_0.op == old_stack[n - 2]->Op_0
        } else {
            new_stack == old_stack
        }
    } else if prod_num == 17 {
        // eseqexp ::= ( stm , exp )
        &&& new_stack.len() == n - 1
        &&& forall|i: int| 0 <= i < n - 2 ==> new_stack[i] == old_stack[i]
        &&& new_stack[n - 2] is Exp
        &&& new_stack[n - 2]->Exp_0 is Eseq
        &&& *new_stack[n - 2]->Exp_0->Eseq_0.stm == old_stack[n - 2]->Stm_0
        &&& *new_stack[n - 2]->Exp_0->Eseq_0.exp == old_stack[n - 1]->Exp_0
    } else if prod_num == 18 || prod_num == 19 || prod_num == 20 || prod_num == 21 {
        // binop ::= + | - | * | /
        &&& new_stack.len() == n + 1
        &&& forall|i: int| 0 <= i < n ==> new_stack[i] == old_stack[i]
        &&& new_stack[n] == AstItem::Op(
            if prod_num == 18 {
                BinOp::Add
            } else if prod_num == 19 {
                BinOp::Sub
            } else if prod_num == 20 {
                BinOp::Mul
            } else {
                BinOp::Div
            },
        )
    } else {
        new_stack == old_stack
    }
}

/// Apply the reduction of production `prod_num` to the tree-building
/// stack: consume the finished children on top and push the node they
/// form, exactly as `gen_line_post` states. A stack that does not fit
/// the production is left untouched and reported fatal.
pub fn gen_line(prod_num: usize, icg_stack: &mut Vec<AstItem>, stack_item: StackItem) -> (r:
    Result<(), BuildError>)
    ensures
        r is Ok <==> gen_line_ok(prod_num, old(icg_stack)@, stack_item),
        r is Ok ==> gen_line_post(prod_num, old(icg_stack)@, stack_item, final(icg_stack)@),
        r is Err ==> final(icg_stack)@ == old(icg_stack)@,
{
    if prod_num == 2 {
        if icg_stack.len() < 2 {
            return Err(BuildError::MalformedStack);
        }
        let t1 = icg_stack.pop().unwrap();
        let t2 = icg_stack.pop().unwrap();
        match (t2, t1) {
            (AstItem::Stm(s2), AstItem::Stm(s1)) => {
                icg_stack.push(
                    AstItem::Stm(
                        Stm::Compound(
                            CompoundStm { stm1: Box::new(s2), stm2: Box::new(s1) },
                        ),
                    ),
                );
                Ok(())
            },
            (x2, x1) => {
                icg_stack.push(x2);
                icg_stack.push(x1);
                proof {
                    assert(icg_stack@ =~= old(icg_stack)@);
                }
                Err(BuildError::MalformedStack)
            },
        }
    } else if prod_num == 4 {
        if icg_stack.len() < 1 {
            return Err(BuildError::MalformedStack);
        }
        let t1 = icg_stack.pop().unwrap();
        match t1 {
            AstItem::ExpList(l) => {
                icg_stack.push(AstItem::Stm(Stm::Print(PrintStm { exps: Box::new(l) })));
                Ok(())
            },
            x1 => {
                icg_stack.push(x1);
                proof {
                    assert(icg_stack@ =~= old(icg_stack)@);
                }
                Err(BuildError::MalformedStack)
            },
        }
    } else if prod_num == 5 {
        if icg_stack.len() < 4 {
            return Err(BuildError::MalformedStack);
        }
        let t1 = icg_stack.pop().unwrap();
        let t2 = icg_stack.pop().unwrap();
        let t3 = icg_stack.pop().unwrap();
        let t4 = icg_stack.pop().unwrap();
        match (t4, t3, t2, t1) {
            (AstItem::Stm(iter), AstItem::Exp(comp), AstItem::Stm(inc), AstItem::Stm(body)) => {
                icg_stack.push(
                    AstItem::Stm(
                        Stm::For(
                            ForStm {
                                iter: Box::new(iter),
                                comp: Box::new(comp),
                                inc: Box::new(inc),
                                body: Box::new(body),
                            },
                        ),
                    ),
                );
                Ok(())
            },
            (x4, x3, x2, x1) => {
                icg_stack.push(x4);
                icg_stack.push(x3);
                icg_stack.push(x2);
                icg_stack.push(x1);
                proof {
                    assert(icg_stack@ =~= old(icg_stack)@);
                }
                Err(BuildError::MalformedStack)
            },
        }
    } else if prod_num == 6 {
        match stack_item {
            StackItem::Value(value) => {
                if icg_stack.len() < 1 {
                    return Err(BuildError::MalformedStack);
                }
                let t2 = icg_stack.pop().unwrap();
                match t2 {
                    AstItem::Exp(e) => {
                        icg_stack.push(
                            AstItem::Stm(
                                Stm::Assign(
                                    AssignStm {
                                        id: Box::new(Exp::Id(IdExp { id: value })),
                                        exp: Box::new(e),
                                    },
                                ),
                            ),
                        );
                        Ok(())
                    },
                    x1 => {
                        icg_stack.push(x1);
                        proof {
                            assert(icg_stack@ =~= old(icg_stack)@);
                        }
                        Err(BuildError::MalformedStack)
                    },
                }
            },
            _ => Err(BuildError::MalformedStack),
        }
    } else if prod_num == 7 {
        if icg_stack.len() < 2 {
            return Err(BuildError::MalformedStack);
        }
        let t1 = icg_stack.pop().unwrap();
        let t2 = icg_stack.pop().unwrap();
        match (t2, t1) {
            (AstItem::Exp(head), AstItem::ExpList(tail)) => {
                icg_stack.push(
                    AstItem::ExpList(
                        ExpList::Pair(
                            PairExpList { head: Box::new(head), tail: Box::new(tail) },
                        ),
                    ),
                );
                Ok(())
            },
            (x2, x1) => {
                icg_stack.push(x2);
                icg_stack.push(x1);
                proof {
                    assert(icg_stack@ =~= old(icg_stack)@);
                }
                Err(BuildError::MalformedStack)
            },
        }
    } else if prod_num == 8 {
        if icg_stack.len() < 1 {
            return Err(BuildError::MalformedStack);
        }
        let t1 = icg_stack.pop().unwrap();
        match t1 {
            AstItem::Exp(head) => {
                icg_stack.push(
                    AstItem::ExpList(ExpList::Last(LastExpList { head: Box::new(head) })),
                );
                Ok(())
            },
            x1 => {
                icg_stack.push(x1);
                proof {
                    assert(icg_stack@ =~= old(icg_stack)@);
                }
                Err(BuildError::MalformedStack)
            },
        }
    } else if prod_num == 9 {
        match stack_item {
            StackItem::Value(value) => {
                icg_stack.push(AstItem::Exp(Exp::Id(IdExp { id: value })));
                Ok(())
            },
            _ => Err(BuildError::MalformedStack),
        }
    } else if prod_num == 10 {
        match stack_item {
            StackItem::Value(value) => {
                icg_stack.push(AstItem::Exp(Exp::Num(NumExp { num: value })));
                Ok(())
            },
            _ => Err(BuildError::MalformedStack),
        }
    } else if prod_num == 13 || prod_num == 14 {
        if icg_stack.len() < 2 {
            return Err(BuildError::MalformedStack);
        }
        let t1 = icg_stack.pop().unwrap();
        let t2 = icg_stack.pop().unwrap();
        match (t2, t1) {
            (AstItem::Exp(left), AstItem::Exp(right)) => {
                let op = if prod_num == 13 {
                    CmpOp::Ge
                } else {
                    CmpOp::Le
                };
                icg_stack.push(
                    AstItem::Exp(
                        Exp::Comp(
                            CompExp { left: Box::new(left), right: Box::new(right), op },
                        ),
                    ),
                );
                Ok(())
            },
            (x2, x1) => {
                icg_stack.push(x2);
                icg_stack.push(x1);
                proof {
                    assert(icg_stack@ =~= old(icg_stack)@);
                }
                Err(BuildError::MalformedStack)
            },
        }
    } else if prod_num == 15 || prod_num == 16 {
        match stack_item {
            StackItem::Value(value) => {
                if icg_stack.len() < 2 {
                    return Err(BuildError::MalformedStack);
                }
                let t1 = icg_stack.pop().unwrap();
                let t2 = icg_stack.pop().unwrap();
                match (t2, t1) {
                    (AstItem::Op(op), AstItem::Exp(right)) => {
                        let left = if prod_num == 15 {
                            Exp::Id(IdExp { id: value })
                        } else {
                            Exp::Num(NumExp { num: value })
                        };
                        icg_stack.push(
                            AstItem::Exp(
                                Exp::Op(
                                    OpExp {
                                        left: Box::new(left),
                                        right: Box::new(right),
                                        op,
                                    },
                                ),
                            ),
                        );
                        Ok(())
                    },
                    (x2, x1) => {
                        icg_stack.push(x2);
                        icg_stack.push(x1);
                        proof {
                            assert(icg_stack@ =~= old(icg_stack)@);
                        }
                        Err(BuildError::MalformedStack)
                    },
                }
            },
            // no token value: the reduction does nothing
            _ => Ok(()),
        }
    } else if prod_num == 17 {
        if icg_stack.len() < 2 {
            return Err(BuildError::MalformedStack);
        }
        let t1 = icg_stack.pop().unwrap();
        let t2 = icg_stack.pop().unwrap();
        match (t2, t1) {
            (AstItem::Stm(s), AstItem::Exp(e)) => {
                icg_stack.push(
                    AstItem::Exp(
                        Exp::Eseq(EseqExp { stm: Box::new(s), exp: Box::new(e) }),
                    ),
                );
                Ok(())
            },
            (x2, x1) => {
                icg_stack.push(x2);
                icg_stack.push(x1);
                proof {
                    assert(icg_stack@ =~= old(icg_stack)@);
                }
                Err(BuildError::MalformedStack)
            },
        }
    } else if prod_num == 18 {
        icg_stack.push(AstItem::Op(BinOp::Add));
        Ok(())
    } else if prod_num == 19 {
        icg_stack.push(AstItem::Op(BinOp::Sub));
        Ok(())
    } else if prod_num == 20 {
        icg_stack.push(AstItem::Op(BinOp::Mul));
        Ok(())
    } else if prod_num == 21 {
        icg_stack.push(AstItem::Op(BinOp::Div));
        Ok(())
    } else {
        Ok(())
    }
}

} // verus!
