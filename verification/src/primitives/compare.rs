//! `not` and structural equality.
use vstd::prelude::*;
use crate::error::{EvalErr, EvalErrV};
use crate::evaluator::{Args, Interp, InterpV, boolean, fail, ret};
use crate::lexer::{Token, TokenV};
use crate::parser::{Expr, ExprV, nth};
use crate::primitives::pair::{Heap, PairV};

verus! {

/// How many pairs of values a comparison looks at before it gives up.
pub const EQUAL_BUDGET: usize = 1_000_000;

/// `(not x)`: `#t` for `#f`, and `#f` for everything else.
pub open spec fn not_spec(m: InterpV, args: Seq<ExprV>) -> InterpV {
    if args.len() == 0 {
        fail(m, EvalErrV::InvalidArgs("'not'. expected argument"@))
    } else {
        ret(m, boolean(args[0] == boolean(false)))
    }
}

/// The text of a string or a symbol.
pub open spec fn text_of(t: TokenV) -> Option<Seq<char>> {
    match t {
        TokenV::Str(s) => Some(s),
        TokenV::Symbol(s) => Some(s),
        _ => None,
    }
}

/// Whether two atoms are equal: numbers of equal value, equal booleans, and
/// strings and symbols of the same text.
pub open spec fn same_atom(a: TokenV, b: TokenV) -> bool {
    match (a, b) {
        (TokenV::Number(x), TokenV::Number(y)) => x.same_value(y),
        (TokenV::Boolean(x), TokenV::Boolean(y)) => x == y,
        _ => text_of(a) is Some && text_of(a) == text_of(b),
    }
}

/// Whether all the pairs of values in `work` are structurally equal, as far
/// as `budget` comparisons show: atoms as `same_atom` says, the empty list
/// and the unspecified value each to itself, a quotation to a quotation of
/// an equal datum, a cell to itself and to a cell with equal fields. Where
/// the budget runs out, the answer is no.
pub open spec fn equal_loop(heap: Seq<PairV>, work: Seq<(ExprV, ExprV)>, budget: nat) -> bool
    decreases budget,
{
    if work.len() == 0 {
        true
    } else if budget == 0 {
        false
    } else {
        let rest = work.drop_last();
        let left = (budget - 1) as nat;
        match work.last() {
            (ExprV::Atom(x), ExprV::Atom(y)) => same_atom(x, y) && equal_loop(heap, rest, left),
            (ExprV::EmptyList, ExprV::EmptyList) => equal_loop(heap, rest, left),
            (ExprV::Void, ExprV::Void) => equal_loop(heap, rest, left),
            (ExprV::Quoted(x), ExprV::Quoted(y)) => equal_loop(heap, rest.push((*x, *y)), left),
            (ExprV::Pair(p), ExprV::Pair(q)) => {
                if p == q {
                    equal_loop(heap, rest, left)
                } else if p.index < heap.len() && q.index < heap.len() {
                    equal_loop(
                        heap,
                        rest.push((heap[p.index as int].cdr, heap[q.index as int].cdr)).push(
                            (heap[p.index as int].car, heap[q.index as int].car),
                        ),
                        left,
                    )
                } else {
                    false
                }
            },
            _ => false,
        }
    }
}

/// `(equal? x y)` and `(eq? x y)`: whether `x` and `y` are structurally equal.
pub open spec fn equal_spec(m: InterpV, args: Seq<ExprV>) -> InterpV {
    if args.len() < 2 {
        fail(m, EvalErrV::InvalidArgs("'equal?'. expected two arguments."@))
    } else {
        ret(m, boolean(equal_loop(m.heap, seq![(args[0], args[1])], EQUAL_BUDGET as nat)))
    }
}

/// `(not x)`.
pub fn not(interp: &mut Interp, args: Args)
    ensures
        final(interp)@ == not_spec(old(interp)@, args@),
{
    if args.args.len() == 0 {
        interp.fail(EvalErr::InvalidArgs("'not'. expected argument"));
    } else {
        let is_false = match nth(&args.args, 0) {
            Expr::Atom(Token::Boolean(b)) => !*b,
            _ => false,
        };
        interp.ret(Expr::Atom(Token::Boolean(is_false)));
    }
}

/// Whether two atoms are equal.
pub fn atoms_equal(a: &Token, b: &Token) -> (r: bool)
    ensures
        r == same_atom(a@, b@),
{
    match (a, b) {
        (Token::Number(x), Token::Number(y)) => x.equals(y),
        (Token::Boolean(x), Token::Boolean(y)) => *x == *y,
        (Token::Str(x), Token::Str(y)) => *x == *y,
        (Token::Str(x), Token::Symbol(y)) => *x == *y,
        (Token::Symbol(x), Token::Str(y)) => *x == *y,
        (Token::Symbol(x), Token::Symbol(y)) => *x == *y,
        _ => false,
    }
}

/// The values of the pairs of expressions still to compare.
pub open spec fn work_view(s: Seq<(Expr, Expr)>) -> Seq<(ExprV, ExprV)> {
    Seq::new(s.len(), |i: int| (s[i].0@, s[i].1@))
}

/// Whether `a` and `b` are structurally equal.
pub fn structurally_equal(heap: &Heap, a: &Expr, b: &Expr) -> (r: bool)
    ensures
        r == equal_loop(heap@, seq![(a@, b@)], EQUAL_BUDGET as nat),
{
    let mut work: Vec<(Expr, Expr)> = Vec::new();
    work.push((a.clone(), b.clone()));
    assert(work_view(work@) =~= seq![(a@, b@)]);
    let mut budget: usize = EQUAL_BUDGET;
    loop
        invariant
            equal_loop(heap@, seq![(a@, b@)], EQUAL_BUDGET as nat) == equal_loop(
                heap@,
                work_view(work@),
                budget as nat,
            ),
        decreases budget,
    {
        let ghost before = work_view(work@);
        let (x, y) = match work.pop() {
            None => {
                return true;
            },
            Some(pair) => pair,
        };
        assert(work_view(work@) =~= before.drop_last());
        assert(before.last() == (x@, y@));
        if budget == 0 {
            return false;
        }
        budget -= 1;
        match (x, y) {
            (Expr::Atom(s), Expr::Atom(t)) => {
                if !atoms_equal(&s, &t) {
                    return false;
                }
            },
            (Expr::EmptyList, Expr::EmptyList) => {},
            (Expr::Void, Expr::Void) => {},
            (Expr::Quoted(s), Expr::Quoted(t)) => {
                let ghost rest = work_view(work@);
                work.push((*s, *t));
                assert(work_view(work@) =~= rest.push((s@, t@)));
            },
            (Expr::Pair(p), Expr::Pair(q)) => {
                if p.index == q.index {
                } else {
                    match (heap.get(p), heap.get(q)) {
                        (Some(c), Some(d)) => {
                            let ghost rest = work_view(work@);
                            work.push((c.cdr.clone(), d.cdr.clone()));
                            work.push((c.car.clone(), d.car.clone()));
                            assert(work_view(work@) =~= rest.push((c.cdr@, d.cdr@)).push(
                                (c.car@, d.car@),
                            ));
                        },
                        _ => {
                            return false;
                        },
                    }
                }
            },
            _ => {
                return false;
            },
        }
    }
}

/// `(equal? x y)` and `(eq? x y)`.
pub fn equal(interp: &mut Interp, args: Args)
    ensures
        final(interp)@ == equal_spec(old(interp)@, args@),
{
    if args.args.len() < 2 {
        interp.fail(EvalErr::InvalidArgs("'equal?'. expected two arguments."));
    } else {
        let same = structurally_equal(&interp.heap, nth(&args.args, 0), nth(&args.args, 1));
        interp.ret(Expr::Atom(Token::Boolean(same)));
    }
}

} // verus!
