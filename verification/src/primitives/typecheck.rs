//! The type predicates.
use vstd::prelude::*;
use crate::error::{EvalErr, EvalErrV};
use crate::evaluator::{Args, Interp, InterpV, boolean, fail, ret};
use crate::lexer::Token;
use crate::parser::{Expr, ExprV, nth};

verus! {

/// The machine returning whether the first argument is of a kind, or stopped
/// with the given message where there is no argument.
pub open spec fn predicate_spec(
    m: InterpV,
    args: Seq<ExprV>,
    holds: spec_fn(ExprV) -> bool,
    message: Seq<char>,
) -> InterpV {
    if args.len() == 0 {
        fail(m, EvalErrV::InvalidArgs(message))
    } else {
        ret(m, boolean(holds(args[0])))
    }
}

/// `(symbol? x)`.
pub open spec fn symbol_spec(m: InterpV, args: Seq<ExprV>) -> InterpV {
    predicate_spec(
        m,
        args,
        |x: ExprV| x is Atom && x->Atom_0 is Symbol,
        "'symbol?' expected argument"@,
    )
}

/// `(string? x)`.
pub open spec fn string_spec(m: InterpV, args: Seq<ExprV>) -> InterpV {
    predicate_spec(m, args, |x: ExprV| x is Atom && x->Atom_0 is Str, "'string?' expected argument"@)
}

/// `(number? x)`.
pub open spec fn number_spec(m: InterpV, args: Seq<ExprV>) -> InterpV {
    predicate_spec(
        m,
        args,
        |x: ExprV| x is Atom && x->Atom_0 is Number,
        "'number?' expected argument"@,
    )
}

/// `(null? x)`.
pub open spec fn null_spec(m: InterpV, args: Seq<ExprV>) -> InterpV {
    predicate_spec(m, args, |x: ExprV| x is EmptyList, "'null?'. expected argument"@)
}

/// `(pair? x)`.
pub open spec fn pair_spec(m: InterpV, args: Seq<ExprV>) -> InterpV {
    predicate_spec(m, args, |x: ExprV| x is Pair, "'pair?'. expected argument"@)
}

/// `(symbol? x)`.
pub fn symbol(interp: &mut Interp, args: Args)
    ensures
        final(interp)@ == symbol_spec(old(interp)@, args@),
{
    if args.args.len() == 0 {
        interp.fail(EvalErr::InvalidArgs("'symbol?' expected argument"));
    } else {
        let holds = match nth(&args.args, 0) {
            Expr::Atom(Token::Symbol(_)) => true,
            _ => false,
        };
        interp.ret(Expr::Atom(Token::Boolean(holds)));
    }
}

/// `(string? x)`.
pub fn string(interp: &mut Interp, args: Args)
    ensures
        final(interp)@ == string_spec(old(interp)@, args@),
{
    if args.args.len() == 0 {
        interp.fail(EvalErr::InvalidArgs("'string?' expected argument"));
    } else {
        let holds = match nth(&args.args, 0) {
            Expr::Atom(Token::Str(_)) => true,
            _ => false,
        };
        interp.ret(Expr::Atom(Token::Boolean(holds)));
    }
}

/// `(number? x)`.
pub fn number(interp: &mut Interp, args: Args)
    ensures
        final(interp)@ == number_spec(old(interp)@, args@),
{
    if args.args.len() == 0 {
        interp.fail(EvalErr::InvalidArgs("'number?' expected argument"));
    } else {
        let holds = match nth(&args.args, 0) {
            Expr::Atom(Token::Number(_)) => true,
            _ => false,
        };
        interp.ret(Expr::Atom(Token::Boolean(holds)));
    }
}

/// `(null? x)`.
pub fn null(interp: &mut Interp, args: Args)
    ensures
        final(interp)@ == null_spec(old(interp)@, args@),
{
    if args.args.len() == 0 {
        interp.fail(EvalErr::InvalidArgs("'null?'. expected argument"));
    } else {
        let holds = match nth(&args.args, 0) {
            Expr::EmptyList => true,
            _ => false,
        };
        interp.ret(Expr::Atom(Token::Boolean(holds)));
    }
}

/// `(pair? x)`.
pub fn pair(interp: &mut Interp, args: Args)
    ensures
        final(interp)@ == pair_spec(old(interp)@, args@),
{
    if args.args.len() == 0 {
        interp.fail(EvalErr::InvalidArgs("'pair?'. expected argument"));
    } else {
        let holds = match nth(&args.args, 0) {
            Expr::Pair(_) => true,
            _ => false,
        };
        interp.ret(Expr::Atom(Token::Boolean(holds)));
    }
}

} // verus!
