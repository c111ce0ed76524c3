//! Pairs: two-field cells that live in a heap and are shared by reference.
use vstd::prelude::*;
use crate::error::{EvalErr, EvalErrV};
use crate::evaluator::{Args, Control, ControlV, Interp, InterpV, fail, ret};
use crate::parser::{Expr, ExprV, exprs_view, lemma_push_view, nth};

verus! {

/// A reference to a pair cell: its position in the heap that allocated it.
#[derive(Clone, Copy, Debug, PartialEq, Eq, Hash)]
pub struct PairRef {
    pub index: usize,
}

/// A pair cell.
#[derive(Debug, PartialEq)]
pub struct Pair {
    pub car: Expr,
    pub cdr: Expr,
}

/// The mathematical value of a pair cell.
pub ghost struct PairV {
    pub car: ExprV,
    pub cdr: ExprV,
}

impl View for Pair {
    type V = PairV;

    open spec fn view(&self) -> PairV {
        PairV { car: self.car@, cdr: self.cdr@ }
    }
}

impl Pair {
    /// A cell holding `car` and `cdr`.
    pub fn new(car: Expr, cdr: Expr) -> (p: Pair)
        ensures
            p.car == car,
            p.cdr == cdr,
    {
        Pair { car, cdr }
    }
}

/// The store of pair cells. A cell, once allocated, stays at its position.
#[derive(Debug, PartialEq)]
pub struct Heap {
    pub pairs: Vec<Pair>,
}

/// The values of a sequence of pair cells.
pub open spec fn pairs_view(s: Seq<Pair>) -> Seq<PairV> {
    Seq::new(s.len(), |i: int| s[i]@)
}

impl View for Heap {
    type V = Seq<PairV>;

    open spec fn view(&self) -> Seq<PairV> {
        pairs_view(self.pairs@)
    }
}

/// The heap after a cell with the given fields was allocated in `heap`, and
/// the reference to that cell.
pub open spec fn heap_cons(heap: Seq<PairV>, car: ExprV, cdr: ExprV) -> (Seq<PairV>, ExprV) {
    (heap.push(PairV { car, cdr }), ExprV::Pair(PairRef { index: heap.len() as usize }))
}

/// The proper list of the items: the chain of freshly allocated cells, the
/// cell of the last item allocated first, and the reference to its first cell
/// (the empty list where there is no item).
pub open spec fn heap_list(heap: Seq<PairV>, items: Seq<ExprV>) -> (Seq<PairV>, ExprV)
    decreases items.len(),
{
    if items.len() == 0 {
        (heap, ExprV::EmptyList)
    } else {
        let (rest_heap, rest) = heap_list(heap, items.drop_first());
        heap_cons(rest_heap, items[0], rest)
    }
}

/// The items of the proper list `p`, where following at most `fuel` cells from
/// `p` leads to the empty list. A chain that ends in another value, leaves the
/// heap or is longer than `fuel` is no proper list.
pub open spec fn list_items(heap: Seq<PairV>, p: ExprV, fuel: nat) -> Option<Seq<ExprV>>
    decreases fuel,
{
    match p {
        ExprV::EmptyList => Some(Seq::empty()),
        ExprV::Pair(r) => {
            if fuel > 0 && r.index < heap.len() {
                match list_items(heap, heap[r.index as int].cdr, (fuel - 1) as nat) {
                    Some(rest) => Some(seq![heap[r.index as int].car] + rest),
                    None => None,
                }
            } else {
                None
            }
        },
        _ => None,
    }
}

impl Heap {
    /// An empty heap.
    pub fn new() -> (heap: Heap)
        ensures
            heap@ == Seq::<PairV>::empty(),
    {
        let heap = Heap { pairs: Vec::new() };
        assert(heap@ =~= Seq::<PairV>::empty());
        heap
    }

    /// The number of cells.
    pub fn len(&self) -> (n: usize)
        ensures
            n == self@.len(),
    {
        self.pairs.len()
    }

    /// Allocates a cell holding `car` and `cdr` and returns the reference to it.
    pub fn cons(&mut self, car: Expr, cdr: Expr) -> (r: Expr)
        ensures
            (final(self)@, r@) == heap_cons(old(self)@, car@, cdr@),
    {
        let index = self.pairs.len();
        self.pairs.push(Pair { car, cdr });
        assert(self@ =~= old(self)@.push(PairV { car: car@, cdr: cdr@ }));
        Expr::Pair(PairRef { index })
    }

    /// The cell that `p` refers to, where there is one.
    pub fn get(&self, p: PairRef) -> (r: Option<&Pair>)
        ensures
            match r {
                Some(cell) => p.index < self@.len() && cell@ == self@[p.index as int],
                None => p.index >= self@.len(),
            },
    {
        if p.index < self.pairs.len() {
            Some(&self.pairs[p.index])
        } else {
            None
        }
    }

    /// The items of the proper list `list`, where it is one. A chain of cells
    /// with a cycle, or one that does not end in the empty list, is none.
    pub fn try_list(&self, list: &Expr) -> (r: Option<Vec<Expr>>)
        ensures
            match r {
                Some(items) => list_items(self@, list@, self@.len()) == Some(exprs_view(items)),
                None => list_items(self@, list@, self@.len()) is None,
            },
    {
        let mut items: Vec<Expr> = Vec::new();
        let mut cursor: Expr = list.clone();
        let mut fuel: usize = self.pairs.len();
        assert(exprs_view(items) =~= Seq::<ExprV>::empty());
        proof {
            lemma_items_after_empty(list_items(self@, list@, self@.len()));
        }
        loop
            invariant
                fuel <= self.pairs.len(),
                list_items(self@, list@, self@.len()) == items_after(
                    exprs_view(items),
                    list_items(self@, cursor@, fuel as nat),
                ),
            decreases fuel,
        {
            match cursor {
                Expr::EmptyList => {
                    assert(exprs_view(items) + Seq::<ExprV>::empty() =~= exprs_view(items));
                    return Some(items);
                },
                Expr::Pair(p) => {
                    if fuel == 0 {
                        return None;
                    }
                    match self.get(p) {
                        None => {
                            return None;
                        },
                        Some(cell) => {
                            let car = cell.car.clone();
                            let cdr = cell.cdr.clone();
                            proof {
                                lemma_push_view(items@, car);
                                match list_items(self@, cdr@, (fuel - 1) as nat) {
                                    Some(rest) => {
                                        assert(exprs_view(items) + (seq![car@] + rest)
                                            =~= exprs_view(items).push(car@) + rest);
                                    },
                                    None => {},
                                }
                            }
                            items.push(car);
                            cursor = cdr;
                            fuel -= 1;
                        },
                    }
                },
                _ => {
                    return None;
                },
            }
        }
    }

    /// Allocates the proper list of the items and returns the reference to
    /// its first cell, or the empty list where there is no item.
    pub fn list(&mut self, items: &Vec<Expr>) -> (r: Expr)
        ensures
            (final(self)@, r@) == heap_list(old(self)@, exprs_view(*items)),
    {
        let mut acc = Expr::EmptyList;
        let mut i: usize = items.len();
        let ghost all = exprs_view(*items);
        assert(all.subrange(all.len() as int, all.len() as int) =~= Seq::<ExprV>::empty());
        while i > 0
            invariant
                i <= items.len(),
                all == exprs_view(*items),
                (self@, acc@) == heap_list(old(self)@, all.subrange(i as int, all.len() as int)),
            decreases i,
        {
            i -= 1;
            proof {
                assert(all.subrange(i as int, all.len() as int).drop_first() =~= all.subrange(
                    i + 1,
                    all.len() as int,
                ));
            }
            acc = self.cons(items[i].clone(), acc);
        }
        assert(all.subrange(0, all.len() as int) =~= all);
        acc
    }
}

/// The items of a list of which the items `done` were passed before.
pub open spec fn items_after(done: Seq<ExprV>, rest: Option<Seq<ExprV>>) -> Option<Seq<ExprV>> {
    match rest {
        Some(v) => Some(done + v),
        None => None,
    }
}

proof fn lemma_items_after_empty(rest: Option<Seq<ExprV>>)
    ensures
        items_after(Seq::empty(), rest) == rest,
{
    match rest {
        Some(v) => {
            assert(Seq::<ExprV>::empty() + v =~= v);
        },
        None => {},
    }
}


/// `(cons a b)`: a fresh cell that holds `a` and `b`.
pub open spec fn cons_spec(m: InterpV, args: Seq<ExprV>) -> InterpV {
    if args.len() < 2 {
        fail(m, EvalErrV::InvalidArgs("'cons'. expected two arguments."@))
    } else {
        let (heap, cell) = heap_cons(m.heap, args[0], args[1]);
        InterpV {
            heap,
            frames: m.frames,
            stack: m.stack,
            control: ControlV::Return(cell),
            output: m.output,
        }
    }
}

/// `(car p)`: the first field of the cell `p`.
pub open spec fn car_spec(m: InterpV, args: Seq<ExprV>) -> InterpV {
    if args.len() == 0 {
        fail(m, EvalErrV::InvalidArgs("'car'. expected argument"@))
    } else {
        match args[0] {
            ExprV::Pair(p) => if p.index < m.heap.len() {
                ret(m, m.heap[p.index as int].car)
            } else {
                fail(m, EvalErrV::TypeError("pair"@, args[0]))
            },
            ExprV::EmptyList => fail(
                m,
                EvalErrV::InvalidArgs("cannot access car of empty list"@),
            ),
            other => fail(m, EvalErrV::TypeError("pair"@, other)),
        }
    }
}

/// `(cdr p)`: the second field of the cell `p`.
pub open spec fn cdr_spec(m: InterpV, args: Seq<ExprV>) -> InterpV {
    if args.len() == 0 {
        fail(m, EvalErrV::InvalidArgs("'cdr'. expected argument"@))
    } else {
        match args[0] {
            ExprV::Pair(p) => if p.index < m.heap.len() {
                ret(m, m.heap[p.index as int].cdr)
            } else {
                fail(m, EvalErrV::TypeError("pair"@, args[0]))
            },
            ExprV::EmptyList => fail(
                m,
                EvalErrV::InvalidArgs("cannot access cdr of empty list"@),
            ),
            other => fail(m, EvalErrV::TypeError("pair"@, other)),
        }
    }
}

/// The heap with the first field of cell `i` set to `v`.
pub open spec fn heap_set_car(heap: Seq<PairV>, i: int, v: ExprV) -> Seq<PairV> {
    heap.update(i, PairV { car: v, cdr: heap[i].cdr })
}

/// The heap with the second field of cell `i` set to `v`.
pub open spec fn heap_set_cdr(heap: Seq<PairV>, i: int, v: ExprV) -> Seq<PairV> {
    heap.update(i, PairV { car: heap[i].car, cdr: v })
}

/// `(set-car! p v)`: the first field of the cell `p` becomes `v`, for every
/// holder of a reference to the cell.
pub open spec fn set_car_spec(m: InterpV, args: Seq<ExprV>) -> InterpV {
    if args.len() < 2 {
        fail(m, EvalErrV::InvalidArgs("'car'. expected argument"@))
    } else {
        match args[0] {
            ExprV::Pair(p) => if p.index < m.heap.len() {
                InterpV {
                    heap: heap_set_car(m.heap, p.index as int, args[1]),
                    frames: m.frames,
                    stack: m.stack,
                    control: ControlV::Return(ExprV::Void),
                    output: m.output,
                }
            } else {
                fail(m, EvalErrV::TypeError("pair"@, args[0]))
            },
            other => fail(m, EvalErrV::TypeError("pair"@, other)),
        }
    }
}

/// `(set-cdr! p v)`: the second field of the cell `p` becomes `v`, for every
/// holder of a reference to the cell.
pub open spec fn set_cdr_spec(m: InterpV, args: Seq<ExprV>) -> InterpV {
    if args.len() < 2 {
        fail(m, EvalErrV::InvalidArgs("'cdr'. expected argument"@))
    } else {
        match args[0] {
            ExprV::Pair(p) => if p.index < m.heap.len() {
                InterpV {
                    heap: heap_set_cdr(m.heap, p.index as int, args[1]),
                    frames: m.frames,
                    stack: m.stack,
                    control: ControlV::Return(ExprV::Void),
                    output: m.output,
                }
            } else {
                fail(m, EvalErrV::TypeError("pair"@, args[0]))
            },
            other => fail(m, EvalErrV::TypeError("pair"@, other)),
        }
    }
}

/// `(list x ...)`: the proper list of the arguments, in fresh cells.
pub open spec fn list_spec(m: InterpV, args: Seq<ExprV>) -> InterpV {
    let (heap, list) = heap_list(m.heap, args);
    InterpV {
        heap,
        frames: m.frames,
        stack: m.stack,
        control: ControlV::Return(list),
        output: m.output,
    }
}

impl Heap {
    /// Sets the first field of the cell `p` to `v`, where there is that cell.
    pub fn set_car(&mut self, p: PairRef, v: Expr) -> (done: bool)
        ensures
            done == (p.index < old(self)@.len()),
            final(self)@ == if done {
                heap_set_car(old(self)@, p.index as int, v@)
            } else {
                old(self)@
            },
    {
        if p.index < self.pairs.len() {
            let cdr = self.pairs[p.index].cdr.clone();
            self.pairs.set(p.index, Pair { car: v, cdr });
            assert(self@ =~= heap_set_car(old(self)@, p.index as int, v@));
            true
        } else {
            false
        }
    }

    /// Sets the second field of the cell `p` to `v`, where there is that cell.
    pub fn set_cdr(&mut self, p: PairRef, v: Expr) -> (done: bool)
        ensures
            done == (p.index < old(self)@.len()),
            final(self)@ == if done {
                heap_set_cdr(old(self)@, p.index as int, v@)
            } else {
                old(self)@
            },
    {
        if p.index < self.pairs.len() {
            let car = self.pairs[p.index].car.clone();
            self.pairs.set(p.index, Pair { car, cdr: v });
            assert(self@ =~= heap_set_cdr(old(self)@, p.index as int, v@));
            true
        } else {
            false
        }
    }
}

/// `(cons a b)`.
pub fn cons(interp: &mut Interp, args: Args)
    ensures
        final(interp)@ == cons_spec(old(interp)@, args@),
{
    if args.args.len() < 2 {
        interp.fail(EvalErr::InvalidArgs("'cons'. expected two arguments."));
    } else {
        let cell = interp.heap.cons(nth(&args.args, 0).clone(), nth(&args.args, 1).clone());
        interp.control = Control::Return(cell);
    }
}

/// `(car p)`.
pub fn car(interp: &mut Interp, args: Args)
    ensures
        final(interp)@ == car_spec(old(interp)@, args@),
{
    if args.args.len() == 0 {
        interp.fail(EvalErr::InvalidArgs("'car'. expected argument"));
        return ;
    }
    match nth(&args.args, 0) {
        Expr::Pair(p) => {
            let field = match interp.heap.get(*p) {
                Some(cell) => Some(cell.car.clone()),
                None => None,
            };
            match field {
                Some(v) => interp.ret(v),
                None => interp.fail(EvalErr::TypeError("pair", Expr::Pair(*p))),
            }
        },
        Expr::EmptyList => interp.fail(EvalErr::InvalidArgs("cannot access car of empty list")),
        x => interp.fail(EvalErr::TypeError("pair", x.clone())),
    }
}

/// `(cdr p)`.
pub fn cdr(interp: &mut Interp, args: Args)
    ensures
        final(interp)@ == cdr_spec(old(interp)@, args@),
{
    if args.args.len() == 0 {
        interp.fail(EvalErr::InvalidArgs("'cdr'. expected argument"));
        return ;
    }
    match nth(&args.args, 0) {
        Expr::Pair(p) => {
            let field = match interp.heap.get(*p) {
                Some(cell) => Some(cell.cdr.clone()),
                None => None,
            };
            match field {
                Some(v) => interp.ret(v),
                None => interp.fail(EvalErr::TypeError("pair", Expr::Pair(*p))),
            }
        },
        Expr::EmptyList => interp.fail(EvalErr::InvalidArgs("cannot access cdr of empty list")),
        x => interp.fail(EvalErr::TypeError("pair", x.clone())),
    }
}

/// `(set-car! p v)`.
pub fn set_car(interp: &mut Interp, args: Args)
    ensures
        final(interp)@ == set_car_spec(old(interp)@, args@),
{
    if args.args.len() < 2 {
        interp.fail(EvalErr::InvalidArgs("'car'. expected argument"));
        return ;
    }
    match nth(&args.args, 0) {
        Expr::Pair(p) => {
            if interp.heap.set_car(*p, nth(&args.args, 1).clone()) {
                interp.control = Control::Return(Expr::Void);
            } else {
                interp.fail(EvalErr::TypeError("pair", Expr::Pair(*p)));
            }
        },
        expr => interp.fail(EvalErr::TypeError("pair", expr.clone())),
    }
}

/// `(set-cdr! p v)`.
pub fn set_cdr(interp: &mut Interp, args: Args)
    ensures
        final(interp)@ == set_cdr_spec(old(interp)@, args@),
{
    if args.args.len() < 2 {
        interp.fail(EvalErr::InvalidArgs("'cdr'. expected argument"));
        return ;
    }
    match nth(&args.args, 0) {
        Expr::Pair(p) => {
            if interp.heap.set_cdr(*p, nth(&args.args, 1).clone()) {
                interp.control = Control::Return(Expr::Void);
            } else {
                interp.fail(EvalErr::TypeError("pair", Expr::Pair(*p)));
            }
        },
        expr => interp.fail(EvalErr::TypeError("pair", expr.clone())),
    }
}

/// `(list x ...)`.
pub fn list(interp: &mut Interp, args: Args)
    ensures
        final(interp)@ == list_spec(old(interp)@, args@),
{
    let list = interp.heap.list(&args.args);
    interp.control = Control::Return(list);
}

} // verus!
