//! Arithmetic and comparison of numbers.
//!
//! The arithmetic itself is asked of the embedding program, one operation at
//! a time; what is decided here is which operations, on which numbers and in
//! which order.
use vstd::prelude::*;
use crate::error::{EvalErr, EvalErrV};
use crate::evaluator::{Args, ArithOp, Comparison, Finish, Interp, InterpV, fail, fold_step};
use crate::lexer::{Token, TokenV};
use crate::number::{Number, ONE_BITS};
use crate::parser::{Expr, ExprV, exprs_view, nth};

verus! {

/// The numbers from `i` on, or the error of the first argument that is none.
pub open spec fn to_nums(args: Seq<ExprV>, i: int) -> Result<Seq<Number>, EvalErrV>
    decreases args.len() - i,
{
    if i < 0 || i >= args.len() {
        Ok(Seq::empty())
    } else {
        match args[i] {
            ExprV::Atom(TokenV::Number(n)) => match to_nums(args, i + 1) {
                Ok(rest) => Ok(seq![n] + rest),
                Err(e) => Err(e),
            },
            other => Err(EvalErrV::TypeError("number"@, other)),
        }
    }
}

/// What the numbers of the arguments are after the numbers `done` were found.
pub open spec fn nums_after(done: Seq<Number>, rest: Result<Seq<Number>, EvalErrV>) -> Result<
    Seq<Number>,
    EvalErrV,
> {
    match rest {
        Ok(v) => Ok(done + v),
        Err(e) => Err(e),
    }
}

/// The numbers that the arguments are.
pub fn into_nums(args: &Vec<Expr>) -> (r: Result<Vec<Number>, EvalErr>)
    ensures
        match r {
            Ok(nums) => to_nums(exprs_view(*args), 0) == Ok::<Seq<Number>, EvalErrV>(nums@),
            Err(e) => to_nums(exprs_view(*args), 0) == Err::<Seq<Number>, EvalErrV>(e@),
        },
{
    let mut nums: Vec<Number> = Vec::new();
    let mut i: usize = 0;
    let ghost all = exprs_view(*args);
    proof {
        match to_nums(all, 0) {
            Ok(v) => {
                assert(Seq::<Number>::empty() + v =~= v);
            },
            Err(e) => {},
        }
    }
    while i < args.len()
        invariant
            i <= args.len(),
            all == exprs_view(*args),
            to_nums(all, 0) == nums_after(nums@, to_nums(all, i as int)),
        decreases args.len() - i,
    {
        match nth(args, i) {
            Expr::Atom(Token::Number(n)) => {
                proof {
                    match to_nums(all, i + 1) {
                        Ok(v) => {
                            assert(nums@ + (seq![*n] + v) =~= nums@.push(*n) + v);
                        },
                        Err(e) => {},
                    }
                }
                nums.push(*n);
            },
            other => {
                return Err(EvalErr::TypeError("number", other.clone()));
            },
        }
        i += 1;
    }
    proof {
        assert(nums@ + Seq::<Number>::empty() =~= nums@);
    }
    Ok(nums)
}

/// The machine folding all the arguments into `identity`.
pub open spec fn fold_all(m: InterpV, args: Seq<ExprV>, op: ArithOp, identity: Number) -> InterpV {
    match to_nums(args, 0) {
        Ok(nums) => fold_step(m, op, identity, nums, 0, Finish::Value),
        Err(e) => fail(m, e),
    }
}

/// The machine folding the arguments after the first into the first.
pub open spec fn fold_from_first(m: InterpV, args: Seq<ExprV>, op: ArithOp) -> InterpV {
    match to_nums(args, 0) {
        Ok(nums) => {
            if nums.len() == 0 {
                fail(m, EvalErrV::InvalidArgs("Procedure requires at least one argument"@))
            } else {
                fold_step(m, op, nums[0], nums, 1, Finish::Value)
            }
        },
        Err(e) => fail(m, e),
    }
}

/// `(+ x ...)`: the sum of the arguments, from zero on.
pub open spec fn add_spec(m: InterpV, args: Seq<ExprV>) -> InterpV {
    fold_all(m, args, ArithOp::Add, Number { bits: 0 })
}

/// `(* x ...)`: the product of the arguments, from one on.
pub open spec fn multiply_spec(m: InterpV, args: Seq<ExprV>) -> InterpV {
    fold_all(m, args, ArithOp::Mul, Number { bits: ONE_BITS })
}

/// `(- x y ...)`: the first argument less each of the others.
pub open spec fn subtract_spec(m: InterpV, args: Seq<ExprV>) -> InterpV {
    fold_from_first(m, args, ArithOp::Sub)
}

/// `(/ x y ...)`: the first argument divided by each of the others.
pub open spec fn divide_spec(m: InterpV, args: Seq<ExprV>) -> InterpV {
    fold_from_first(m, args, ArithOp::Div)
}

/// A comparison: of the first argument with the sum of the others.
pub open spec fn compare_spec(m: InterpV, args: Seq<ExprV>, c: Comparison) -> InterpV {
    match to_nums(args, 0) {
        Ok(nums) => {
            if nums.len() < 2 {
                fail(m, EvalErrV::InvalidArgs("Procedure requires at least two arguments"@))
            } else {
                fold_step(m, ArithOp::Add, Number { bits: 0 }, nums, 1, Finish::Compare(c, nums[0]))
            }
        },
        Err(e) => fail(m, e),
    }
}

/// `(remainder x y)`: the remainder of the division that truncates.
pub open spec fn remainder_spec(m: InterpV, args: Seq<ExprV>) -> InterpV {
    match to_nums(args, 0) {
        Ok(nums) => {
            if nums.len() != 2 {
                fail(m, EvalErrV::InvalidArgs("Procedure requires two arguments"@))
            } else {
                fold_step(m, ArithOp::Rem, nums[0], nums, 1, Finish::Value)
            }
        },
        Err(e) => fail(m, e),
    }
}

/// `(modulo x y)`: the remainder with the sign of the divisor.
pub open spec fn modulo_spec(m: InterpV, args: Seq<ExprV>) -> InterpV {
    match to_nums(args, 0) {
        Ok(nums) => {
            if nums.len() != 2 {
                fail(m, EvalErrV::InvalidArgs("Procedure requires two arguments"@))
            } else {
                fold_step(m, ArithOp::Rem, nums[0], nums, 1, Finish::Modulo(nums[1]))
            }
        },
        Err(e) => fail(m, e),
    }
}

fn fold_args(interp: &mut Interp, args: Args, op: ArithOp, identity: Number)
    ensures
        final(interp)@ == fold_all(old(interp)@, args@, op, identity),
{
    match into_nums(&args.args) {
        Ok(nums) => interp.fold(op, identity, nums, 0, Finish::Value),
        Err(e) => interp.fail(e),
    }
}

fn fold_rest(interp: &mut Interp, args: Args, op: ArithOp)
    ensures
        final(interp)@ == fold_from_first(old(interp)@, args@, op),
{
    match into_nums(&args.args) {
        Ok(nums) => {
            if nums.len() == 0 {
                interp.fail(EvalErr::InvalidArgs("Procedure requires at least one argument"));
            } else {
                let first = nums[0];
                interp.fold(op, first, nums, 1, Finish::Value);
            }
        },
        Err(e) => interp.fail(e),
    }
}

/// `(+ x ...)`.
pub fn add(interp: &mut Interp, args: Args)
    ensures
        final(interp)@ == add_spec(old(interp)@, args@),
{
    fold_args(interp, args, ArithOp::Add, Number::zero())
}

/// `(* x ...)`.
pub fn multiply(interp: &mut Interp, args: Args)
    ensures
        final(interp)@ == multiply_spec(old(interp)@, args@),
{
    fold_args(interp, args, ArithOp::Mul, Number::one())
}

/// `(- x y ...)`.
pub fn subtract(interp: &mut Interp, args: Args)
    ensures
        final(interp)@ == subtract_spec(old(interp)@, args@),
{
    fold_rest(interp, args, ArithOp::Sub)
}

/// `(/ x y ...)`.
pub fn divide(interp: &mut Interp, args: Args)
    ensures
        final(interp)@ == divide_spec(old(interp)@, args@),
{
    fold_rest(interp, args, ArithOp::Div)
}

fn cmp_first_to_rest(interp: &mut Interp, args: Args, c: Comparison)
    ensures
        final(interp)@ == compare_spec(old(interp)@, args@, c),
{
    match into_nums(&args.args) {
        Ok(nums) => {
            if nums.len() < 2 {
                interp.fail(EvalErr::InvalidArgs("Procedure requires at least two arguments"));
            } else {
                let first = nums[0];
                interp.fold(ArithOp::Add, Number::zero(), nums, 1, Finish::Compare(c, first));
            }
        },
        Err(e) => interp.fail(e),
    }
}

/// `(= x y ...)`.
pub fn equality(interp: &mut Interp, args: Args)
    ensures
        final(interp)@ == compare_spec(old(interp)@, args@, Comparison::Equal),
{
    cmp_first_to_rest(interp, args, Comparison::Equal)
}

/// `(> x y ...)`.
pub fn greater_than(interp: &mut Interp, args: Args)
    ensures
        final(interp)@ == compare_spec(old(interp)@, args@, Comparison::Greater),
{
    cmp_first_to_rest(interp, args, Comparison::Greater)
}

/// `(>= x y ...)`.
pub fn greater_than_or_eq(interp: &mut Interp, args: Args)
    ensures
        final(interp)@ == compare_spec(old(interp)@, args@, Comparison::GreaterOrEq),
{
    cmp_first_to_rest(interp, args, Comparison::GreaterOrEq)
}

/// `(< x y ...)`.
pub fn less_than(interp: &mut Interp, args: Args)
    ensures
        final(interp)@ == compare_spec(old(interp)@, args@, Comparison::Less),
{
    cmp_first_to_rest(interp, args, Comparison::Less)
}

/// `(<= x y ...)`.
pub fn less_than_or_eq(interp: &mut Interp, args: Args)
    ensures
        final(interp)@ == compare_spec(old(interp)@, args@, Comparison::LessOrEq),
{
    cmp_first_to_rest(interp, args, Comparison::LessOrEq)
}

/// `(remainder x y)`.
pub fn remainder(interp: &mut Interp, args: Args)
    ensures
        final(interp)@ == remainder_spec(old(interp)@, args@),
{
    match into_nums(&args.args) {
        Ok(nums) => {
            if nums.len() != 2 {
                interp.fail(EvalErr::InvalidArgs("Procedure requires two arguments"));
            } else {
                let first = nums[0];
                interp.fold(ArithOp::Rem, first, nums, 1, Finish::Value);
            }
        },
        Err(e) => interp.fail(e),
    }
}

/// `(modulo x y)`.
pub fn modulo(interp: &mut Interp, args: Args)
    ensures
        final(interp)@ == modulo_spec(old(interp)@, args@),
{
    match into_nums(&args.args) {
        Ok(nums) => {
            if nums.len() != 2 {
                interp.fail(EvalErr::InvalidArgs("Procedure requires two arguments"));
            } else {
                let first = nums[0];
                let divisor = nums[1];
                interp.fold(ArithOp::Rem, first, nums, 1, Finish::Modulo(divisor));
            }
        },
        Err(e) => interp.fail(e),
    }
}

} // verus!
