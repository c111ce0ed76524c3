//! The native procedures and the pair heap they work on.
use vstd::prelude::*;
use crate::evaluator::{Args, Comparison, Interp, InterpV};
use crate::parser::ExprV;
use crate::procedure::Native;

pub mod compare;
pub mod core_lang;
pub mod io;
pub mod numeric;
pub mod pair;
pub mod prelude;
pub mod typecheck;

verus! {

/// The machine after the native procedure `n` was applied to `args`.
pub open spec fn native_spec(m: InterpV, n: Native, args: Seq<ExprV>) -> InterpV {
    match n {
        Native::Apply => core_lang::apply_spec(m, args),
        Native::Add => numeric::add_spec(m, args),
        Native::Subtract => numeric::subtract_spec(m, args),
        Native::Multiply => numeric::multiply_spec(m, args),
        Native::Divide => numeric::divide_spec(m, args),
        Native::Equality => numeric::compare_spec(m, args, Comparison::Equal),
        Native::GreaterThan => numeric::compare_spec(m, args, Comparison::Greater),
        Native::GreaterThanOrEq => numeric::compare_spec(m, args, Comparison::GreaterOrEq),
        Native::LessThan => numeric::compare_spec(m, args, Comparison::Less),
        Native::LessThanOrEq => numeric::compare_spec(m, args, Comparison::LessOrEq),
        Native::Remainder => numeric::remainder_spec(m, args),
        Native::Modulo => numeric::modulo_spec(m, args),
        Native::Cons => pair::cons_spec(m, args),
        Native::Car => pair::car_spec(m, args),
        Native::Cdr => pair::cdr_spec(m, args),
        Native::SetCar => pair::set_car_spec(m, args),
        Native::SetCdr => pair::set_cdr_spec(m, args),
        Native::List => pair::list_spec(m, args),
        Native::Display => io::display_spec(m, args),
        Native::Error => io::error_spec(m, args),
        Native::Equal => compare::equal_spec(m, args),
        Native::Not => compare::not_spec(m, args),
        Native::Symbol => typecheck::symbol_spec(m, args),
        Native::String => typecheck::string_spec(m, args),
        Native::Number => typecheck::number_spec(m, args),
        Native::Pair => typecheck::pair_spec(m, args),
        Native::Null => typecheck::null_spec(m, args),
    }
}

/// Applies the native procedure `n` to `args`.
pub fn call_native(interp: &mut Interp, n: Native, args: Args)
    ensures
        final(interp)@ == native_spec(old(interp)@, n, args@),
{
    match n {
        Native::Apply => core_lang::apply(interp, args),
        Native::Add => numeric::add(interp, args),
        Native::Subtract => numeric::subtract(interp, args),
        Native::Multiply => numeric::multiply(interp, args),
        Native::Divide => numeric::divide(interp, args),
        Native::Equality => numeric::equality(interp, args),
        Native::GreaterThan => numeric::greater_than(interp, args),
        Native::GreaterThanOrEq => numeric::greater_than_or_eq(interp, args),
        Native::LessThan => numeric::less_than(interp, args),
        Native::LessThanOrEq => numeric::less_than_or_eq(interp, args),
        Native::Remainder => numeric::remainder(interp, args),
        Native::Modulo => numeric::modulo(interp, args),
        Native::Cons => pair::cons(interp, args),
        Native::Car => pair::car(interp, args),
        Native::Cdr => pair::cdr(interp, args),
        Native::SetCar => pair::set_car(interp, args),
        Native::SetCdr => pair::set_cdr(interp, args),
        Native::List => pair::list(interp, args),
        Native::Display => io::display(interp, args),
        Native::Error => io::error(interp, args),
        Native::Equal => compare::equal(interp, args),
        Native::Not => compare::not(interp, args),
        Native::Symbol => typecheck::symbol(interp, args),
        Native::String => typecheck::string(interp, args),
        Native::Number => typecheck::number(interp, args),
        Native::Pair => typecheck::pair(interp, args),
        Native::Null => typecheck::null(interp, args),
    }
}

} // verus!
