//! `apply`.
use vstd::prelude::*;
use crate::error::{EvalErr, EvalErrV};
use crate::evaluator::{Args, Control, ControlV, Interp, InterpV, fail, with_control};
use crate::parser::{ExprV, nth};
use crate::primitives::pair::list_items;

verus! {

/// `(apply procedure list)`: the procedure is applied to the items of the
/// list, which are not evaluated again. The list is a proper list of cells,
/// or the empty list.
pub open spec fn apply_spec(m: InterpV, args: Seq<ExprV>) -> InterpV {
    if args.len() < 2 {
        fail(m, EvalErrV::InvalidArgs("'apply'. expected operation and list of arguments"@))
    } else {
        match list_items(m.heap, args[1], m.heap.len()) {
            Some(items) => with_control(m, ControlV::Apply(args[0], items)),
            None => fail(m, EvalErrV::InvalidArgs("'apply'. expected list as second argument"@)),
        }
    }
}

/// `(apply procedure list)`.
pub fn apply(interp: &mut Interp, args: Args)
    ensures
        final(interp)@ == apply_spec(old(interp)@, args@),
{
    if args.args.len() < 2 {
        interp.fail(EvalErr::InvalidArgs("'apply'. expected operation and list of arguments"));
        return ;
    }
    let op = nth(&args.args, 0).clone();
    match interp.heap.try_list(nth(&args.args, 1)) {
        Some(items) => {
            interp.control = Control::Apply(op, items);
        },
        None => interp.fail(EvalErr::InvalidArgs("'apply'. expected list as second argument")),
    }
}

} // verus!
