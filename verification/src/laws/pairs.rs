//! Laws of pairs: what a cell holds, and who sees a change to it.
use vstd::prelude::*;
use crate::evaluator::{ControlV, InterpV, ret};
use crate::parser::ExprV;
use crate::primitives::pair::{
    PairRef, PairV, car_spec, cdr_spec, cons_spec, heap_list, set_car_spec, set_cdr_spec,
};

verus! {

/// A fresh pair holds what it was made of: after `(cons a b)` gave the cell
/// `p`, `(car p)` is `a` and `(cdr p)` is `b`.
pub proof fn law_cons_car_cdr(m: InterpV, a: ExprV, b: ExprV)
    requires
        m.heap.len() < usize::MAX,
    ensures
        ({
            let made = cons_spec(m, seq![a, b]);
            let p = made.control->Return_0;
            &&& made.control is Return
            &&& p == ExprV::Pair(PairRef { index: m.heap.len() as usize })
            &&& car_spec(made, seq![p]) == ret(made, a)
            &&& cdr_spec(made, seq![p]) == ret(made, b)
        }),
{
}

/// `set-car!` is seen through every reference: after `(set-car! p x)` on a
/// cell `p` of the heap, `(car q)` is `x` for every reference `q` to that
/// cell, its `cdr` is what it was, and every other cell is as it was.
pub proof fn law_set_car_is_shared(m: InterpV, p: PairRef, q: PairRef, x: ExprV)
    requires
        p.index < m.heap.len(),
        q == p,
    ensures
        ({
            let set = set_car_spec(m, seq![ExprV::Pair(p), x]);
            &&& set.control == ControlV::Return(ExprV::Void)
            &&& car_spec(set, seq![ExprV::Pair(q)]) == ret(set, x)
            &&& cdr_spec(set, seq![ExprV::Pair(q)]) == ret(set, m.heap[p.index as int].cdr)
            &&& set.heap.len() == m.heap.len()
            &&& forall|i: int|
                0 <= i < m.heap.len() && i != p.index ==> #[trigger] set.heap[i] == m.heap[i]
        }),
{
}

/// `set-cdr!` is seen through every reference, as `set-car!` is.
pub proof fn law_set_cdr_is_shared(m: InterpV, p: PairRef, q: PairRef, x: ExprV)
    requires
        p.index < m.heap.len(),
        q == p,
    ensures
        ({
            let set = set_cdr_spec(m, seq![ExprV::Pair(p), x]);
            &&& set.control == ControlV::Return(ExprV::Void)
            &&& cdr_spec(set, seq![ExprV::Pair(q)]) == ret(set, x)
            &&& car_spec(set, seq![ExprV::Pair(q)]) == ret(set, m.heap[p.index as int].car)
            &&& set.heap.len() == m.heap.len()
            &&& forall|i: int|
                0 <= i < m.heap.len() && i != p.index ==> #[trigger] set.heap[i] == m.heap[i]
        }),
{
}

/// A list takes one new cell for each item and leaves the cells that were
/// there as they were.
pub proof fn lemma_heap_list_extends(heap: Seq<PairV>, items: Seq<ExprV>)
    ensures
        heap_list(heap, items).0.len() == heap.len() + items.len(),
        forall|i: int| 0 <= i < heap.len() ==> #[trigger] heap_list(heap, items).0[i] == heap[i],
    decreases items.len(),
{
    if items.len() > 0 {
        lemma_heap_list_extends(heap, items.drop_first());
    }
}

/// Whether `later` is `heap` with more cells after it.
pub open spec fn extends(later: Seq<PairV>, heap: Seq<PairV>) -> bool {
    heap.len() <= later.len() && forall|i: int| 0 <= i < heap.len() ==> #[trigger] later[i] == heap[i]
}

} // verus!
