//! The errors of lexing, parsing and evaluation.
use vstd::prelude::*;
use crate::lexer::push_char;
use crate::parser::{Expr, ExprV};
use crate::primitives::pair::{Heap, PairV};
use crate::print::{
    Fragment, FragmentV, PRINT_DEPTH, Printable, expr_fragments, fragments_view, push_string,
    push_text, text, write_expr,
};

verus! {

/// What can go wrong between source text and value.
#[derive(Debug, PartialEq)]
pub enum EvalErr {
    UnboundVar(String),
    InvalidArgs(&'static str),
    TypeError(&'static str, Expr),
    UnexpectedToken(Expr),
    UnexpectedChar(char),
    UnterminatedString,
    MalformedToken(&'static str),
    LexingFailures(Vec<EvalErr>),
    RuntimeException(String),
    UnexpectedEnd,
    NilEnv,
}

/// The mathematical value of an error.
pub ghost enum EvalErrV {
    UnboundVar(Seq<char>),
    InvalidArgs(Seq<char>),
    TypeError(Seq<char>, ExprV),
    UnexpectedToken(ExprV),
    UnexpectedChar(char),
    UnterminatedString,
    MalformedToken(Seq<char>),
    LexingFailures(Seq<EvalErrV>),
    RuntimeException(Seq<char>),
    UnexpectedEnd,
    NilEnv,
}

/// The value of an error.
pub open spec fn err_view(e: EvalErr) -> EvalErrV
    decreases e,
{
    match e {
        EvalErr::UnboundVar(n) => EvalErrV::UnboundVar(n@),
        EvalErr::InvalidArgs(m) => EvalErrV::InvalidArgs(m@),
        EvalErr::TypeError(m, x) => EvalErrV::TypeError(m@, x@),
        EvalErr::UnexpectedToken(t) => EvalErrV::UnexpectedToken(t@),
        EvalErr::UnexpectedChar(c) => EvalErrV::UnexpectedChar(c),
        EvalErr::UnterminatedString => EvalErrV::UnterminatedString,
        EvalErr::MalformedToken(m) => EvalErrV::MalformedToken(m@),
        EvalErr::LexingFailures(v) => EvalErrV::LexingFailures(
            Seq::new(
                v.len() as nat,
                |i: int|
                    if 0 <= i < v.len() {
                        err_view(v[i])
                    } else {
                        EvalErrV::NilEnv
                    },
            ),
        ),
        EvalErr::RuntimeException(m) => EvalErrV::RuntimeException(m@),
        EvalErr::UnexpectedEnd => EvalErrV::UnexpectedEnd,
        EvalErr::NilEnv => EvalErrV::NilEnv,
    }
}

impl Clone for EvalErr {
    #[verifier::loop_isolation(false)]
    fn clone(&self) -> (r: EvalErr)
        ensures
            r@ == self@,
        decreases self,
    {
        match self {
            EvalErr::UnboundVar(n) => EvalErr::UnboundVar(n.clone()),
            EvalErr::InvalidArgs(m) => EvalErr::InvalidArgs(*m),
            EvalErr::TypeError(m, x) => EvalErr::TypeError(*m, x.clone()),
            EvalErr::UnexpectedToken(t) => EvalErr::UnexpectedToken(t.clone()),
            EvalErr::UnexpectedChar(c) => EvalErr::UnexpectedChar(*c),
            EvalErr::UnterminatedString => EvalErr::UnterminatedString,
            EvalErr::MalformedToken(m) => EvalErr::MalformedToken(*m),
            EvalErr::LexingFailures(v) => {
                let mut out: Vec<EvalErr> = Vec::new();
                let mut i: usize = 0;
                while i < v.len()
                    invariant
                        i <= v.len(),
                        out.len() == i,
                        forall|j: int| 0 <= j < i ==> out[j]@ == v[j]@,
                    decreases v.len() - i,
                {
                    out.push(v[i].clone());
                    i += 1;
                }
                proof {
                    lemma_failures_view(out);
                    lemma_failures_view(*v);
                    assert(errs_view(out) =~= errs_view(*v));
                }
                EvalErr::LexingFailures(out)
            },
            EvalErr::RuntimeException(m) => EvalErr::RuntimeException(m.clone()),
            EvalErr::UnexpectedEnd => EvalErr::UnexpectedEnd,
            EvalErr::NilEnv => EvalErr::NilEnv,
        }
    }
}

impl View for EvalErr {
    type V = EvalErrV;

    open spec fn view(&self) -> EvalErrV {
        err_view(*self)
    }
}

/// The values of a vector of errors.
pub open spec fn errs_view(v: Vec<EvalErr>) -> Seq<EvalErrV> {
    Seq::new(v.len() as nat, |i: int| v[i]@)
}

/// The value of a collection of lexing failures is the collection of their values.
pub proof fn lemma_failures_view(v: Vec<EvalErr>)
    ensures
        EvalErr::LexingFailures(v)@ == EvalErrV::LexingFailures(errs_view(v)),
{
    let a = EvalErr::LexingFailures(v)@->LexingFailures_0;
    assert(a =~= errs_view(v));
}


/// The message of an error that is no collection of lexing failures; of such
/// a collection, its heading.
pub open spec fn plain_message(heap: Seq<PairV>, e: EvalErrV) -> Seq<FragmentV> {
    match e {
        EvalErrV::RuntimeException(m) => text(m),
        EvalErrV::UnboundVar(var) => text("accessing unbound variable "@) + text(var),
        EvalErrV::InvalidArgs(m) => text("invalid argument, "@) + text(m),
        EvalErrV::MalformedToken(m) => text(m),
        EvalErrV::UnexpectedEnd => text("unexpected end of expression"@),
        EvalErrV::NilEnv => text("inserting value into empty enviroment"@),
        EvalErrV::UnexpectedToken(x) => text("unexpected token "@) + expr_fragments(
            heap,
            x,
            PRINT_DEPTH as nat,
        ),
        EvalErrV::UnexpectedChar(c) => text("unexpected token "@) + text(seq![c]),
        EvalErrV::UnterminatedString => text("unclosed string"@),
        EvalErrV::TypeError(expected, got) => text("expected "@) + text(expected) + text(
            ", got "@,
        ) + expr_fragments(heap, got, PRINT_DEPTH as nat),
        EvalErrV::LexingFailures(_) => text("could not parse tokens:"@),
    }
}

/// The messages of the failures from `i` on, each on a line of its own.
pub open spec fn failure_lines(heap: Seq<PairV>, errs: Seq<EvalErrV>, i: int) -> Seq<FragmentV>
    decreases errs.len() - i,
{
    if i < 0 || i >= errs.len() {
        Seq::empty()
    } else {
        text("\n-- "@) + plain_message(heap, errs[i]) + failure_lines(heap, errs, i + 1)
    }
}

/// The message of an error: what went wrong, in one line; for a collection of
/// lexing failures, a heading and then each failure on a line of its own.
pub open spec fn message(heap: Seq<PairV>, e: EvalErrV) -> Seq<FragmentV> {
    match e {
        EvalErrV::LexingFailures(errs) => plain_message(heap, e) + failure_lines(heap, errs, 0),
        _ => plain_message(heap, e),
    }
}

fn write_plain(e: &EvalErr, heap: &Heap, out: &mut Vec<Fragment>)
    ensures
        fragments_view(*final(out)) == fragments_view(*old(out)) + plain_message(heap@, e@),
{
    let ghost start = fragments_view(*out);
    match e {
        EvalErr::RuntimeException(m) => push_string(out, m.clone()),
        EvalErr::UnboundVar(var) => {
            push_text(out, "accessing unbound variable ");
            push_string(out, var.clone());
        },
        EvalErr::InvalidArgs(m) => {
            push_text(out, "invalid argument, ");
            push_text(out, m);
        },
        EvalErr::MalformedToken(m) => push_text(out, m),
        EvalErr::UnexpectedEnd => push_text(out, "unexpected end of expression"),
        EvalErr::NilEnv => push_text(out, "inserting value into empty enviroment"),
        EvalErr::UnexpectedToken(x) => {
            push_text(out, "unexpected token ");
            write_expr(x, heap, PRINT_DEPTH, out);
        },
        EvalErr::UnexpectedChar(c) => {
            push_text(out, "unexpected token ");
            let mut s = String::new();
            push_char(&mut s, *c);
            assert(s@ =~= seq![*c]);
            push_string(out, s);
        },
        EvalErr::UnterminatedString => push_text(out, "unclosed string"),
        EvalErr::TypeError(expected, got) => {
            push_text(out, "expected ");
            push_text(out, expected);
            push_text(out, ", got ");
            write_expr(got, heap, PRINT_DEPTH, out);
        },
        EvalErr::LexingFailures(_) => push_text(out, "could not parse tokens:"),
    }
    assert(fragments_view(*out) =~= start + plain_message(heap@, e@));
}

/// Appends the message of an error.
pub fn write_message(e: &EvalErr, heap: &Heap, out: &mut Vec<Fragment>)
    ensures
        fragments_view(*final(out)) == fragments_view(*old(out)) + message(heap@, e@),
{
    let ghost start = fragments_view(*out);
    write_plain(e, heap, out);
    match e {
        EvalErr::LexingFailures(errs) => {
            proof {
                lemma_failures_view(*errs);
            }
            let ghost all = errs_view(*errs);
            let ghost head = fragments_view(*out);
            let mut i: usize = 0;
            while i < errs.len()
                invariant
                    i <= errs.len(),
                    all == errs_view(*errs),
                    head + failure_lines(heap@, all, 0) =~= fragments_view(*out) + failure_lines(
                        heap@,
                        all,
                        i as int,
                    ),
                decreases errs.len() - i,
            {
                push_text(out, "\n-- ");
                write_plain(&errs[i], heap, out);
                i += 1;
            }
            assert(fragments_view(*out) =~= start + message(heap@, e@));
        },
        _ => {},
    }
}

/// The message of an error.
pub fn make_message(err: &EvalErr, heap: &Heap) -> (r: Vec<Fragment>)
    ensures
        fragments_view(r) == message(heap@, err@),
{
    let mut out: Vec<Fragment> = Vec::new();
    write_message(err, heap, &mut out);
    assert(fragments_view(out) =~= message(heap@, err@));
    out
}

impl Printable for EvalErr {
    /// The message of the error after `ERROR: `.
    open spec fn printed(&self, heap: Seq<PairV>) -> Seq<FragmentV> {
        text("ERROR: "@) + message(heap, self@)
    }

    fn printable(&self, heap: &Heap) -> (r: Vec<Fragment>) {
        let mut out: Vec<Fragment> = Vec::new();
        push_text(&mut out, "ERROR: ");
        write_message(self, heap, &mut out);
        assert(fragments_view(out) =~= self.printed(heap@));
        out
    }
}

} // verus!
