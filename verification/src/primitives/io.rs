//! `display` and `error`.
use vstd::prelude::*;
use crate::error::{EvalErr, EvalErrV};
use crate::evaluator::{Args, Control, ControlV, Interp, InterpV, fail, outputs_view};
use crate::lexer::{Token, TokenV};
use crate::parser::{Expr, ExprV, nth};
use crate::print::{PRINT_DEPTH, Printable, expr_fragments};

verus! {

/// `(display x)`: the printed form of `x` is added to the output, and `x` is
/// the value.
pub open spec fn display_spec(m: InterpV, args: Seq<ExprV>) -> InterpV {
    if args.len() == 0 {
        fail(m, EvalErrV::InvalidArgs("'display'. expected argument"@))
    } else {
        InterpV {
            heap: m.heap,
            frames: m.frames,
            stack: m.stack,
            control: ControlV::Return(args[0]),
            output: m.output.push(expr_fragments(m.heap, args[0], PRINT_DEPTH as nat)),
        }
    }
}

/// `(error message)`: evaluation stops with the message.
pub open spec fn error_spec(m: InterpV, args: Seq<ExprV>) -> InterpV {
    if args.len() == 0 {
        fail(m, EvalErrV::InvalidArgs("'error'. expected argument"@))
    } else {
        match args[0] {
            ExprV::Atom(TokenV::Str(message)) => fail(m, EvalErrV::RuntimeException(message)),
            _ => fail(m, EvalErrV::InvalidArgs("'error'. expected string as argument."@)),
        }
    }
}

/// `(display x)`.
pub fn display(interp: &mut Interp, args: Args)
    ensures
        final(interp)@ == display_spec(old(interp)@, args@),
{
    if args.args.len() == 0 {
        interp.fail(EvalErr::InvalidArgs("'display'. expected argument"));
    } else {
        let expr = nth(&args.args, 0).clone();
        let printed = expr.printable(&interp.heap);
        interp.output.push(printed);
        assert(outputs_view(interp.output@) =~= outputs_view(old(interp).output@).push(
            expr_fragments(old(interp)@.heap, expr@, PRINT_DEPTH as nat),
        ));
        interp.control = Control::Return(expr);
    }
}

/// `(error message)`.
pub fn error(interp: &mut Interp, args: Args)
    ensures
        final(interp)@ == error_spec(old(interp)@, args@),
{
    if args.args.len() == 0 {
        interp.fail(EvalErr::InvalidArgs("'error'. expected argument"));
    } else {
        match nth(&args.args, 0) {
            Expr::Atom(Token::Str(message)) => interp.fail(
                EvalErr::RuntimeException(message.clone()),
            ),
            _ => interp.fail(EvalErr::InvalidArgs("'error'. expected string as argument.")),
        }
    }
}

} // verus!
