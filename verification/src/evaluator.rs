//! The evaluator: an abstract machine that takes one step at a time.
//!
//! The machine holds the pair heap, the environment frames, a stack of
//! continuations and a control: the expression being evaluated, the value
//! being returned, or the arithmetic it waits for. It never computes with
//! floating-point numbers itself: where a sum, difference, product, quotient
//! or remainder is needed, it stops with the request, and the embedding
//! program answers with the result.
use vstd::prelude::*;
use std::rc::Rc;
use crate::enviroment::{Env, EnvRef, EnvV, assign, define_local, extend, frames_view, lookup};
use crate::error::{EvalErr, EvalErrV};
use crate::lexer::{Token, TokenV, names_view};
use crate::number::Number;
use crate::parser::{
    Expr, ExprV, clone_all, cond_to_if_spec, exprs_view, lemma_push_view, let_to_lambda_spec, nth,
    rest_of,
};
use crate::primitives::native_spec;
use crate::primitives::pair::{Heap, PairV};
use crate::print::{Fragment, FragmentV, fragments_view};
use crate::procedure::{Compound, Proc, ProcV};
use crate::special_form::{Eval, SpecialFormV};

verus! {

/// The arithmetic that the machine asks for.
#[derive(Clone, Copy, Debug, PartialEq, Eq)]
pub enum ArithOp {
    Add,
    Sub,
    Mul,
    Div,
    Rem,
}

/// A request for the result of `lhs op rhs` in double-precision arithmetic.
#[derive(Clone, Copy, Debug, PartialEq, Eq)]
pub struct Arith {
    pub op: ArithOp,
    pub lhs: Number,
    pub rhs: Number,
}

/// The numeric comparisons.
#[derive(Clone, Copy, Debug, PartialEq, Eq)]
pub enum Comparison {
    Equal,
    Greater,
    GreaterOrEq,
    Less,
    LessOrEq,
}

/// What becomes of the result of a fold over numbers.
#[derive(Clone, Copy, Debug, PartialEq, Eq)]
pub enum Finish {
    /// It is the value.
    Value,
    /// The given number is compared with it.
    Compare(Comparison, Number),
    /// It is a remainder, to be given the sign of the given divisor.
    Modulo(Number),
}

/// The kinds of expression sequences.
#[derive(Clone, Copy, Debug, PartialEq, Eq)]
pub enum Sequel {
    /// A `begin`: the value of the last expression, or the unspecified value.
    Begin,
    /// The body of a procedure: the value of the last expression, or the
    /// empty list.
    Body,
    /// An `and`.
    And,
    /// An `or`.
    Or,
}

/// A continuation: what is to be done with a value once it is there.
#[derive(Debug, PartialEq)]
pub enum Kont {
    /// It is the value of `exprs[next - 1]` in a call; the values before it
    /// are `done`.
    Call { exprs: Vec<Expr>, next: usize, done: Vec<Expr>, env: EnvRef },
    /// It is the value of `exprs[next - 1]` in a sequence.
    Sequence { kind: Sequel, exprs: Vec<Expr>, next: usize, env: EnvRef },
    /// It is the value of the predicate of an `if`.
    If { consequence: Expr, alternative: Expr, env: EnvRef },
    /// It is the value to define `name` as.
    Define { name: String, env: EnvRef },
    /// It is the value to assign to `name`.
    Assign { name: String, env: EnvRef },
    /// It is the number folded so far; `nums[next]` is the next to fold in.
    Fold { op: ArithOp, nums: Vec<Number>, next: usize, finish: Finish },
}

/// What the machine is doing.
#[derive(Debug, PartialEq)]
pub enum Control {
    /// Nothing.
    Idle,
    /// Evaluating an expression in an environment.
    Eval(Expr, EnvRef),
    /// Applying a procedure to arguments.
    Apply(Expr, Vec<Expr>),
    /// Returning a value to the continuation on top of the stack.
    Return(Expr),
    /// Stopped on an error.
    Failed(EvalErr),
    /// Waiting for the result of an arithmetic operation.
    Await(Arith),
}

/// The machine. Its references, to cells and to frames, are positions in its
/// heap and its frames; a machine that is made and used through the functions
/// of this library never holds a reference that leads nowhere
/// (`laws::safety`), and one that does is answered with an error.
#[derive(Debug, PartialEq)]
pub struct Interp {
    pub heap: Heap,
    pub frames: Vec<Env>,
    pub stack: Vec<Kont>,
    pub control: Control,
    pub output: Vec<Vec<Fragment>>,
}

/// The mathematical value of a continuation.
pub ghost enum KontV {
    Call { exprs: Seq<ExprV>, next: usize, done: Seq<ExprV>, env: EnvRef },
    Sequence { kind: Sequel, exprs: Seq<ExprV>, next: usize, env: EnvRef },
    If { consequence: ExprV, alternative: ExprV, env: EnvRef },
    Define { name: Seq<char>, env: EnvRef },
    Assign { name: Seq<char>, env: EnvRef },
    Fold { op: ArithOp, nums: Seq<Number>, next: usize, finish: Finish },
}

/// The mathematical value of a control.
pub ghost enum ControlV {
    Idle,
    Eval(ExprV, EnvRef),
    Apply(ExprV, Seq<ExprV>),
    Return(ExprV),
    Failed(EvalErrV),
    Await(Arith),
}

/// The mathematical value of a machine.
pub ghost struct InterpV {
    pub heap: Seq<PairV>,
    pub frames: Seq<EnvV>,
    pub stack: Seq<KontV>,
    pub control: ControlV,
    pub output: Seq<Seq<FragmentV>>,
}

impl View for Kont {
    type V = KontV;

    open spec fn view(&self) -> KontV {
        match self {
            Kont::Call { exprs, next, done, env } => KontV::Call {
                exprs: exprs_view(*exprs),
                next: *next,
                done: exprs_view(*done),
                env: *env,
            },
            Kont::Sequence { kind, exprs, next, env } => KontV::Sequence {
                kind: *kind,
                exprs: exprs_view(*exprs),
                next: *next,
                env: *env,
            },
            Kont::If { consequence, alternative, env } => KontV::If {
                consequence: consequence@,
                alternative: alternative@,
                env: *env,
            },
            Kont::Define { name, env } => KontV::Define { name: name@, env: *env },
            Kont::Assign { name, env } => KontV::Assign { name: name@, env: *env },
            Kont::Fold { op, nums, next, finish } => KontV::Fold {
                op: *op,
                nums: nums@,
                next: *next,
                finish: *finish,
            },
        }
    }
}

impl View for Control {
    type V = ControlV;

    open spec fn view(&self) -> ControlV {
        match self {
            Control::Idle => ControlV::Idle,
            Control::Eval(e, env) => ControlV::Eval(e@, *env),
            Control::Apply(callee, args) => ControlV::Apply(callee@, exprs_view(*args)),
            Control::Return(v) => ControlV::Return(v@),
            Control::Failed(e) => ControlV::Failed(e@),
            Control::Await(a) => ControlV::Await(*a),
        }
    }
}

/// The values of a sequence of continuations.
pub open spec fn konts_view(s: Seq<Kont>) -> Seq<KontV> {
    Seq::new(s.len(), |i: int| s[i]@)
}

/// The values of a sequence of printed forms.
pub open spec fn outputs_view(s: Seq<Vec<Fragment>>) -> Seq<Seq<FragmentV>> {
    Seq::new(s.len(), |i: int| fragments_view(s[i]))
}

impl View for Interp {
    type V = InterpV;

    open spec fn view(&self) -> InterpV {
        InterpV {
            heap: self.heap@,
            frames: frames_view(self.frames@),
            stack: konts_view(self.stack@),
            control: self.control@,
            output: outputs_view(self.output@),
        }
    }
}

/// The boolean `b` as a value.
pub open spec fn boolean(b: bool) -> ExprV {
    ExprV::Atom(TokenV::Boolean(b))
}

/// The number `n` as a value.
pub open spec fn number(n: Number) -> ExprV {
    ExprV::Atom(TokenV::Number(n))
}

/// Every value but `#f` counts as true.
pub open spec fn truthy(v: ExprV) -> bool {
    v != boolean(false)
}

/// The machine with another control.
pub open spec fn with_control(m: InterpV, control: ControlV) -> InterpV {
    InterpV { heap: m.heap, frames: m.frames, stack: m.stack, control, output: m.output }
}

/// The machine returning `v` to its stack.
pub open spec fn ret(m: InterpV, v: ExprV) -> InterpV {
    with_control(m, ControlV::Return(v))
}

/// The machine stopped on the error `e`: nothing is left to continue.
pub open spec fn fail(m: InterpV, e: EvalErrV) -> InterpV {
    InterpV {
        heap: m.heap,
        frames: m.frames,
        stack: Seq::empty(),
        control: ControlV::Failed(e),
        output: m.output,
    }
}

/// The machine evaluating `e` in `env`, to continue with `k`.
pub open spec fn descend(m: InterpV, k: KontV, e: ExprV, env: EnvRef) -> InterpV {
    InterpV {
        heap: m.heap,
        frames: m.frames,
        stack: m.stack.push(k),
        control: ControlV::Eval(e, env),
        output: m.output,
    }
}

/// The value of a sequence of the given kind that has no expression.
pub open spec fn empty_value(kind: Sequel) -> ExprV {
    match kind {
        Sequel::Begin => ExprV::Void,
        Sequel::Body => ExprV::EmptyList,
        Sequel::And => boolean(true),
        Sequel::Or => boolean(false),
    }
}

/// The machine starting on a sequence of expressions.
pub open spec fn start_sequence(m: InterpV, kind: Sequel, exprs: Seq<ExprV>, env: EnvRef) -> InterpV {
    if exprs.len() == 0 {
        ret(m, empty_value(kind))
    } else {
        descend(m, KontV::Sequence { kind, exprs, next: 1, env }, exprs[0], env)
    }
}

/// The machine after the expression before `next` of a sequence gave `v`:
/// an `and` ends on `#f` and an `or` on a true value; else the next
/// expression is evaluated; after the last, a `begin` and a body give its
/// value, an `and` gives `#t` and an `or` gives `#f`.
pub open spec fn continue_sequence(
    m: InterpV,
    kind: Sequel,
    exprs: Seq<ExprV>,
    next: usize,
    env: EnvRef,
    v: ExprV,
) -> InterpV {
    if kind == Sequel::And && !truthy(v) {
        ret(m, boolean(false))
    } else if kind == Sequel::Or && truthy(v) {
        ret(m, v)
    } else if next < exprs.len() && next < usize::MAX {
        descend(
            m,
            KontV::Sequence { kind, exprs, next: (next + 1) as usize, env },
            exprs[next as int],
            env,
        )
    } else {
        match kind {
            Sequel::And => ret(m, boolean(true)),
            Sequel::Or => ret(m, boolean(false)),
            _ => ret(m, v),
        }
    }
}

/// The machine after the expression before `next` of a call gave `v`: the
/// next expression is evaluated; after the last, the first value is applied
/// to the others.
pub open spec fn continue_call(
    m: InterpV,
    exprs: Seq<ExprV>,
    next: usize,
    done: Seq<ExprV>,
    env: EnvRef,
    v: ExprV,
) -> InterpV {
    let values = done.push(v);
    if next < exprs.len() && next < usize::MAX {
        descend(
            m,
            KontV::Call { exprs, next: (next + 1) as usize, done: values, env },
            exprs[next as int],
            env,
        )
    } else {
        with_control(m, ControlV::Apply(values[0], values.subrange(1, values.len() as int)))
    }
}

/// The comparison `c` of `first` with `rest`.
pub open spec fn compare(c: Comparison, first: Number, rest: Number) -> bool {
    match c {
        Comparison::Equal => first.same_value(rest),
        Comparison::Greater => rest.below(first),
        Comparison::GreaterOrEq => rest.below(first) || rest.same_value(first),
        Comparison::Less => first.below(rest),
        Comparison::LessOrEq => first.below(rest) || first.same_value(rest),
    }
}

/// The machine with the result `acc` of a fold.
pub open spec fn finish_fold(m: InterpV, finish: Finish, acc: Number) -> InterpV {
    match finish {
        Finish::Value => ret(m, number(acc)),
        Finish::Compare(c, first) => ret(m, boolean(compare(c, first, acc))),
        Finish::Modulo(divisor) => {
            if acc.magnitude() != 0 && acc.negative() != divisor.negative() {
                InterpV {
                    heap: m.heap,
                    frames: m.frames,
                    stack: m.stack.push(
                        KontV::Fold {
                            op: ArithOp::Add,
                            nums: Seq::empty(),
                            next: 0,
                            finish: Finish::Value,
                        },
                    ),
                    control: ControlV::Await(Arith { op: ArithOp::Add, lhs: acc, rhs: divisor }),
                    output: m.output,
                }
            } else {
                ret(m, number(acc))
            }
        },
    }
}

/// The machine folding the numbers from `next` on into `acc`: it asks for
/// `acc op nums[next]`, or has the result where no number is left.
pub open spec fn fold_step(
    m: InterpV,
    op: ArithOp,
    acc: Number,
    nums: Seq<Number>,
    next: usize,
    finish: Finish,
) -> InterpV {
    if next < nums.len() && next < usize::MAX {
        InterpV {
            heap: m.heap,
            frames: m.frames,
            stack: m.stack.push(KontV::Fold { op, nums, next: (next + 1) as usize, finish }),
            control: ControlV::Await(Arith { op, lhs: acc, rhs: nums[next as int] }),
            output: m.output,
        }
    } else {
        finish_fold(m, finish, acc)
    }
}

/// The machine after the value `v` came back to the continuation `k`, which
/// was taken from the stack.
pub open spec fn continue_with(m: InterpV, k: KontV, v: ExprV) -> InterpV {
    match k {
        KontV::Call { exprs, next, done, env } => continue_call(m, exprs, next, done, env, v),
        KontV::Sequence { kind, exprs, next, env } => continue_sequence(
            m,
            kind,
            exprs,
            next,
            env,
            v,
        ),
        KontV::If { consequence, alternative, env } => with_control(
            m,
            ControlV::Eval(
                if truthy(v) {
                    consequence
                } else {
                    alternative
                },
                env,
            ),
        ),
        KontV::Define { name, env } => match define_local(m.frames, env, name, v) {
            Ok(frames) => InterpV {
                heap: m.heap,
                frames,
                stack: m.stack,
                control: ControlV::Return(ExprV::Void),
                output: m.output,
            },
            Err(e) => fail(m, e),
        },
        KontV::Assign { name, env } => match assign(m.frames, env, name, v) {
            Ok(frames) => InterpV {
                heap: m.heap,
                frames,
                stack: m.stack,
                control: ControlV::Return(ExprV::Void),
                output: m.output,
            },
            Err(e) => fail(m, e),
        },
        KontV::Fold { op, nums, next, finish } => match v {
            ExprV::Atom(TokenV::Number(n)) => fold_step(m, op, n, nums, next, finish),
            other => fail(m, EvalErrV::TypeError("number"@, other)),
        },
    }
}

/// The names of the symbols from `i` on, or the error of the first
/// expression that is no symbol.
pub open spec fn symbols(items: Seq<ExprV>, i: int) -> Result<Seq<Seq<char>>, EvalErrV>
    decreases items.len() - i,
{
    if i < 0 || i >= items.len() {
        Ok(Seq::empty())
    } else {
        match items[i] {
            ExprV::Atom(TokenV::Symbol(name)) => match symbols(items, i + 1) {
                Ok(rest) => Ok(seq![name] + rest),
                Err(e) => Err(e),
            },
            other => Err(EvalErrV::TypeError("symbol"@, other)),
        }
    }
}

/// The closure with the given parameters and body, made in `env`.
pub open spec fn closure(params: Seq<Seq<char>>, body: Seq<ExprV>, env: EnvRef) -> ExprV {
    ExprV::Proc(Box::new(ProcV::Compound { params, body, env }))
}

/// The machine evaluating a `lambda`: its value is the closure over `env`.
pub open spec fn eval_lambda(m: InterpV, params: ExprV, body: Seq<ExprV>, env: EnvRef) -> InterpV {
    if env.0 is None {
        fail(m, EvalErrV::NilEnv)
    } else {
        match params {
            ExprV::Call(names) => match symbols(names, 0) {
                Ok(names) => ret(m, closure(names, body, env)),
                Err(e) => fail(m, e),
            },
            ExprV::EmptyList => ret(m, closure(Seq::empty(), body, env)),
            other => fail(m, EvalErrV::TypeError("list"@, other)),
        }
    }
}

/// The machine evaluating a special form in `env`.
pub open spec fn eval_form(m: InterpV, f: SpecialFormV, env: EnvRef) -> InterpV {
    match f {
        SpecialFormV::If(predicate, consequence, alternative) => descend(
            m,
            KontV::If { consequence, alternative, env },
            predicate,
            env,
        ),
        SpecialFormV::Lambda(params, body) => eval_lambda(m, params, body, env),
        SpecialFormV::Define(identifier, value) => match identifier {
            ExprV::Atom(TokenV::Symbol(name)) => descend(m, KontV::Define { name, env }, value, env),
            other => fail(m, EvalErrV::TypeError("symbol or list"@, other)),
        },
        SpecialFormV::Assignment(identifier, value) => match identifier {
            ExprV::Atom(TokenV::Symbol(name)) => descend(m, KontV::Assign { name, env }, value, env),
            other => fail(m, EvalErrV::TypeError("symbol"@, other)),
        },
        SpecialFormV::And(exprs) => start_sequence(m, Sequel::And, exprs, env),
        SpecialFormV::Or(exprs) => start_sequence(m, Sequel::Or, exprs, env),
        SpecialFormV::Begin(exprs) => start_sequence(m, Sequel::Begin, exprs, env),
        SpecialFormV::Cond(clauses) => match cond_to_if_spec(clauses, 0) {
            Ok(e) => with_control(m, ControlV::Eval(e, env)),
            Err(e) => fail(m, e),
        },
        SpecialFormV::Let(bindings, body) => match let_to_lambda_spec(bindings, body) {
            Ok(call) => with_control(m, ControlV::Eval(ExprV::Call(call), env)),
            Err(e) => fail(m, e),
        },
    }
}

/// The machine evaluating `e` in `env`: a symbol is looked up; a quotation
/// gives its datum; a special form and a call that starts with one go by the
/// form; of another call the expressions are evaluated from the left; every
/// other expression is its own value.
pub open spec fn eval_expr(m: InterpV, e: ExprV, env: EnvRef) -> InterpV {
    match e {
        ExprV::Atom(TokenV::Symbol(name)) => match lookup(m.frames, env, name) {
            Ok(v) => ret(m, v),
            Err(e) => fail(m, e),
        },
        ExprV::Quoted(datum) => ret(m, *datum),
        ExprV::SpecialForm(f) => eval_form(m, *f, env),
        ExprV::Call(items) => {
            if items.len() == 0 {
                fail(m, EvalErrV::InvalidArgs("expected operation"@))
            } else if env.0 is None {
                fail(m, EvalErrV::NilEnv)
            } else {
                match items[0] {
                    ExprV::SpecialForm(f) => eval_form(m, *f, env),
                    first => descend(
                        m,
                        KontV::Call { exprs: items, next: 1, done: Seq::empty(), env },
                        first,
                        env,
                    ),
                }
            }
        },
        other => ret(m, other),
    }
}

/// The machine applying `callee` to `args`: a native procedure does its
/// work; a closure gets a new frame that extends the environment it was made
/// in and binds its parameters, in which its body is evaluated; nothing else
/// can be applied.
pub open spec fn apply_procedure(m: InterpV, callee: ExprV, args: Seq<ExprV>) -> InterpV {
    match callee {
        ExprV::Proc(p) => match *p {
            ProcV::Primitive(n) => native_spec(m, n, args),
            ProcV::Compound { params, body, env } => {
                if params.len() != args.len() {
                    fail(
                        m,
                        EvalErrV::InvalidArgs("amount of args does not match function pararms"@),
                    )
                } else {
                    let (frames, inner) = extend(m.frames, env, params, args);
                    start_sequence(
                        InterpV {
                            heap: m.heap,
                            frames,
                            stack: m.stack,
                            control: m.control,
                            output: m.output,
                        },
                        Sequel::Body,
                        body,
                        inner,
                    )
                }
            },
        },
        other => fail(m, EvalErrV::TypeError("procedure"@, other)),
    }
}

/// Whether the machine has nothing to do by itself: it is idle, has failed,
/// waits for an answer, or has returned its value to an empty stack.
pub open spec fn terminal(m: InterpV) -> bool {
    match m.control {
        ControlV::Eval(_, _) => false,
        ControlV::Apply(_, _) => false,
        ControlV::Return(_) => m.stack.len() == 0,
        _ => true,
    }
}

/// The machine one step on. A machine with nothing to do stays as it is.
pub open spec fn step_spec(m: InterpV) -> InterpV {
    if terminal(m) {
        m
    } else {
        let rest = with_control(m, ControlV::Idle);
        match m.control {
            ControlV::Eval(e, env) => eval_expr(rest, e, env),
            ControlV::Apply(callee, args) => apply_procedure(rest, callee, args),
            ControlV::Return(v) => continue_with(
                InterpV {
                    heap: m.heap,
                    frames: m.frames,
                    stack: m.stack.drop_last(),
                    control: ControlV::Idle,
                    output: m.output,
                },
                m.stack.last(),
                v,
            ),
            _ => m,
        }
    }
}

/// What a machine has come to.
pub ghost enum OutcomeV {
    /// It has the value of the expression.
    Done(ExprV),
    /// It has stopped on an error.
    Failed(EvalErrV),
    /// It waits for the result of an arithmetic operation.
    Needs(Arith),
    /// It has more steps to take.
    Paused,
    /// It has nothing to evaluate.
    Idle,
}

/// What the machine has come to.
pub open spec fn outcome_of(m: InterpV) -> OutcomeV {
    match m.control {
        ControlV::Return(v) => if m.stack.len() == 0 {
            OutcomeV::Done(v)
        } else {
            OutcomeV::Paused
        },
        ControlV::Failed(e) => OutcomeV::Failed(e),
        ControlV::Await(a) => OutcomeV::Needs(a),
        ControlV::Idle => OutcomeV::Idle,
        _ => OutcomeV::Paused,
    }
}

/// The machine after at most `fuel` steps: it stops before, where it has
/// nothing to do.
pub open spec fn run_spec(m: InterpV, fuel: nat) -> InterpV
    decreases fuel,
{
    if fuel == 0 || terminal(m) {
        m
    } else {
        run_spec(step_spec(m), (fuel - 1) as nat)
    }
}

/// The machine with the answer `n` to the arithmetic it waits for. A machine
/// that waits for none stays as it is.
pub open spec fn answer_spec(m: InterpV, n: Number) -> InterpV {
    match m.control {
        ControlV::Await(_) => ret(m, number(n)),
        _ => m,
    }
}

/// The machine after at most `fuel` steps together with a host that answers
/// each request for arithmetic with the next of `answers`, an answer counting
/// as a step; and the answers that are left. The machine stops before, where
/// it has nothing to do and no answer to take.
pub open spec fn drive_spec(m: InterpV, answers: Seq<Number>, fuel: nat) -> (InterpV, Seq<Number>)
    decreases fuel,
{
    if fuel == 0 {
        (m, answers)
    } else if m.control is Await && answers.len() > 0 {
        drive_spec(answer_spec(m, answers[0]), answers.drop_first(), (fuel - 1) as nat)
    } else if terminal(m) {
        (m, answers)
    } else {
        drive_spec(step_spec(m), answers, (fuel - 1) as nat)
    }
}

/// The machine set to evaluate `e` in `env`, whatever it was doing.
pub open spec fn load_spec(m: InterpV, e: ExprV, env: EnvRef) -> InterpV {
    InterpV {
        heap: m.heap,
        frames: m.frames,
        stack: Seq::empty(),
        control: ControlV::Eval(e, env),
        output: m.output,
    }
}

/// The arguments of a procedure call and the environment of the call.
#[derive(Debug, PartialEq)]
pub struct Args {
    pub args: Vec<Expr>,
    pub env: EnvRef,
}

impl View for Args {
    type V = Seq<ExprV>;

    open spec fn view(&self) -> Seq<ExprV> {
        exprs_view(self.args)
    }
}

impl Args {
    /// The given arguments, for a call in `env`.
    pub fn new(args: Vec<Expr>, env: &EnvRef) -> (r: Result<Args, EvalErr>)
        ensures
            match r {
                Ok(a) => env.0 is Some && a.args == args && a.env == *env,
                Err(e) => env.0 is None && e@ == EvalErrV::NilEnv,
            },
    {
        match env.clone_rc() {
            Ok(env) => Ok(Args { args, env }),
            Err(e) => Err(e),
        }
    }

    /// The environment of the call.
    pub fn env(&self) -> (r: Result<EnvRef, EvalErr>)
        ensures
            match r {
                Ok(env) => self.env.0 is Some && env == self.env,
                Err(e) => self.env.0 is None && e@ == EvalErrV::NilEnv,
            },
    {
        self.env.clone_rc()
    }

    /// The number of arguments.
    pub fn len(&self) -> (n: usize)
        ensures
            n == self@.len(),
    {
        self.args.len()
    }

    /// Whether there is no argument.
    pub fn is_empty(&self) -> (r: bool)
        ensures
            r == (self@.len() == 0),
    {
        self.args.len() == 0
    }
}

impl Interp {
    /// A machine with empty heap, no frame and nothing to do.
    pub fn new() -> (m: Interp)
        ensures
            m@ == (InterpV {
                heap: Seq::empty(),
                frames: Seq::empty(),
                stack: Seq::empty(),
                control: ControlV::Idle,
                output: Seq::empty(),
            }),
    {
        let m = Interp {
            heap: Heap::new(),
            frames: Vec::new(),
            stack: Vec::new(),
            control: Control::Idle,
            output: Vec::new(),
        };
        assert(m@.frames =~= Seq::empty());
        assert(m@.stack =~= Seq::empty());
        assert(m@.output =~= Seq::empty());
        m
    }

    /// Returns `v` to the stack.
    pub fn ret(&mut self, v: Expr)
        ensures
            final(self)@ == ret(old(self)@, v@),
    {
        self.control = Control::Return(v);
    }

    /// Stops on the error `e`.
    pub fn fail(&mut self, e: EvalErr)
        ensures
            final(self)@ == fail(old(self)@, e@),
    {
        self.stack = Vec::new();
        self.control = Control::Failed(e);
        assert(self@.stack =~= Seq::empty());
    }

    /// Pushes a continuation.
    pub fn push(&mut self, k: Kont)
        ensures
            final(self)@ == (InterpV {
                heap: old(self)@.heap,
                frames: old(self)@.frames,
                stack: old(self)@.stack.push(k@),
                control: old(self)@.control,
                output: old(self)@.output,
            }),
    {
        self.stack.push(k);
        assert(self@.stack =~= old(self)@.stack.push(k@));
    }

    /// Evaluates `e` in `env` next, to continue with `k`.
    pub fn descend(&mut self, k: Kont, e: Expr, env: EnvRef)
        ensures
            final(self)@ == descend(old(self)@, k@, e@, env),
    {
        self.push(k);
        self.control = Control::Eval(e, env);
    }

    /// Gives the result `acc` of a fold its final form.
    pub fn finish_fold(&mut self, finish: Finish, acc: Number)
        ensures
            final(self)@ == finish_fold(old(self)@, finish, acc),
    {
        match finish {
            Finish::Value => self.ret(Expr::Atom(Token::Number(acc))),
            Finish::Compare(c, first) => {
                let b = match c {
                    Comparison::Equal => first.equals(&acc),
                    Comparison::Greater => acc.less_than(&first),
                    Comparison::GreaterOrEq => acc.less_or_equal(&first),
                    Comparison::Less => first.less_than(&acc),
                    Comparison::LessOrEq => first.less_or_equal(&acc),
                };
                self.ret(Expr::Atom(Token::Boolean(b)));
            },
            Finish::Modulo(divisor) => {
                if !acc.is_zero() && acc.is_negative() != divisor.is_negative() {
                    let nums: Vec<Number> = Vec::new();
                    self.push(
                        Kont::Fold { op: ArithOp::Add, nums, next: 0, finish: Finish::Value },
                    );
                    self.control = Control::Await(
                        Arith { op: ArithOp::Add, lhs: acc, rhs: divisor },
                    );
                } else {
                    self.ret(Expr::Atom(Token::Number(acc)));
                }
            },
        }
    }

    /// Folds the numbers from `next` on into `acc`.
    pub fn fold(&mut self, op: ArithOp, acc: Number, nums: Vec<Number>, next: usize, finish: Finish)
        ensures
            final(self)@ == fold_step(old(self)@, op, acc, nums@, next, finish),
    {
        if next < nums.len() && next < usize::MAX {
            let rhs = nums[next];
            self.push(Kont::Fold { op, nums, next: next + 1, finish });
            self.control = Control::Await(Arith { op, lhs: acc, rhs });
        } else {
            self.finish_fold(finish, acc);
        }
    }
}

/// What a machine has come to.
#[derive(Debug, PartialEq)]
pub enum Outcome {
    /// It has the value of the expression.
    Done(Expr),
    /// It has stopped on an error.
    Failed(EvalErr),
    /// It waits for the result of an arithmetic operation.
    Needs(Arith),
    /// It has more steps to take.
    Paused,
    /// It has nothing to evaluate.
    Idle,
}

impl View for Outcome {
    type V = OutcomeV;

    open spec fn view(&self) -> OutcomeV {
        match self {
            Outcome::Done(v) => OutcomeV::Done(v@),
            Outcome::Failed(e) => OutcomeV::Failed(e@),
            Outcome::Needs(a) => OutcomeV::Needs(*a),
            Outcome::Paused => OutcomeV::Paused,
            Outcome::Idle => OutcomeV::Idle,
        }
    }
}

/// The names that the expressions are, where all of them are symbols.
pub fn into_strings(items: &Vec<Expr>) -> (r: Result<Vec<String>, EvalErr>)
    ensures
        match r {
            Ok(names) => symbols(exprs_view(*items), 0) == Ok::<Seq<Seq<char>>, EvalErrV>(
                names_view(names),
            ),
            Err(e) => symbols(exprs_view(*items), 0) == Err::<Seq<Seq<char>>, EvalErrV>(e@),
        },
{
    let mut names: Vec<String> = Vec::new();
    let mut i: usize = 0;
    let ghost all = exprs_view(*items);
    assert(names_view(names) =~= Seq::<Seq<char>>::empty());
    proof {
        match symbols(all, 0) {
            Ok(v) => {
                assert(Seq::<Seq<char>>::empty() + v =~= v);
            },
            Err(e) => {},
        }
    }
    while i < items.len()
        invariant
            i <= items.len(),
            all == exprs_view(*items),
            symbols(all, 0) == names_after(names_view(names), symbols(all, i as int)),
        decreases items.len() - i,
    {
        match nth(items, i) {
            Expr::Atom(Token::Symbol(name)) => {
                let ghost before = names_view(names);
                proof {
                    match symbols(all, i + 1) {
                        Ok(v) => {
                            assert(before + (seq![name@] + v) =~= before.push(name@) + v);
                        },
                        Err(e) => {},
                    }
                }
                names.push(name.clone());
                assert(names_view(names) =~= before.push(name@));
            },
            other => {
                return Err(EvalErr::TypeError("symbol", other.clone()));
            },
        }
        i += 1;
    }
    proof {
        assert(names_view(names) + Seq::<Seq<char>>::empty() =~= names_view(names));
    }
    Ok(names)
}

/// What the names of the symbols are after the names `done` were found.
pub open spec fn names_after(done: Seq<Seq<char>>, rest: Result<Seq<Seq<char>>, EvalErrV>) -> Result<
    Seq<Seq<char>>,
    EvalErrV,
> {
    match rest {
        Ok(v) => Ok(done + v),
        Err(e) => Err(e),
    }
}

impl Interp {
    /// Starts on a sequence of expressions.
    pub fn start_sequence(&mut self, kind: Sequel, exprs: Vec<Expr>, env: EnvRef)
        ensures
            final(self)@ == start_sequence(old(self)@, kind, exprs_view(exprs), env),
    {
        if exprs.len() == 0 {
            let value = match kind {
                Sequel::Begin => Expr::Void,
                Sequel::Body => Expr::EmptyList,
                Sequel::And => Expr::Atom(Token::Boolean(true)),
                Sequel::Or => Expr::Atom(Token::Boolean(false)),
            };
            self.ret(value);
        } else {
            let first = nth(&exprs, 0).clone();
            self.descend(Kont::Sequence { kind, exprs, next: 1, env }, first, env);
        }
    }

    /// Goes on with a sequence after the expression before `next` gave `v`.
    pub fn continue_sequence(
        &mut self,
        kind: Sequel,
        exprs: Vec<Expr>,
        next: usize,
        env: EnvRef,
        v: Expr,
    )
        ensures
            final(self)@ == continue_sequence(old(self)@, kind, exprs_view(exprs), next, env, v@),
    {
        let is_false = match &v {
            Expr::Atom(Token::Boolean(b)) => !*b,
            _ => false,
        };
        assert(is_false == !truthy(v@));
        let is_and = match kind {
            Sequel::And => true,
            _ => false,
        };
        let is_or = match kind {
            Sequel::Or => true,
            _ => false,
        };
        if is_and && is_false {
            self.ret(Expr::Atom(Token::Boolean(false)));
        } else if is_or && !is_false {
            self.ret(v);
        } else if next < exprs.len() && next < usize::MAX {
            let e = nth(&exprs, next).clone();
            self.descend(Kont::Sequence { kind, exprs, next: next + 1, env }, e, env);
        } else {
            match kind {
                Sequel::And => self.ret(Expr::Atom(Token::Boolean(true))),
                Sequel::Or => self.ret(Expr::Atom(Token::Boolean(false))),
                _ => self.ret(v),
            }
        }
    }

    /// Goes on with a call after the expression before `next` gave `v`.
    pub fn continue_call(
        &mut self,
        exprs: Vec<Expr>,
        next: usize,
        done: Vec<Expr>,
        env: EnvRef,
        v: Expr,
    )
        ensures
            final(self)@ == continue_call(
                old(self)@,
                exprs_view(exprs),
                next,
                exprs_view(done),
                env,
                v@,
            ),
    {
        let mut values = done;
        proof {
            lemma_push_view(values@, v);
        }
        values.push(v);
        if next < exprs.len() && next < usize::MAX {
            let e = nth(&exprs, next).clone();
            self.descend(Kont::Call { exprs, next: next + 1, done: values, env }, e, env);
        } else {
            let callee = nth(&values, 0).clone();
            let args = rest_of(&values, 1);
            self.control = Control::Apply(callee, args);
        }
    }

    /// Goes on with the continuation `k`, to which the value `v` came back.
    pub fn continue_with(&mut self, k: Kont, v: Expr)
        ensures
            final(self)@ == continue_with(old(self)@, k@, v@),
    {
        match k {
            Kont::Call { exprs, next, done, env } => self.continue_call(exprs, next, done, env, v),
            Kont::Sequence { kind, exprs, next, env } => self.continue_sequence(
                kind,
                exprs,
                next,
                env,
                v,
            ),
            Kont::If { consequence, alternative, env } => {
                let is_false = match &v {
                    Expr::Atom(Token::Boolean(b)) => !*b,
                    _ => false,
                };
                assert(is_false == !truthy(v@));
                if is_false {
                    self.control = Control::Eval(alternative, env);
                } else {
                    self.control = Control::Eval(consequence, env);
                }
            },
            Kont::Define { name, env } => match env.insert_val(&mut self.frames, name, v) {
                Ok(()) => {
                    self.control = Control::Return(Expr::Void);
                },
                Err(e) => self.fail(e),
            },
            Kont::Assign { name, env } => match env.update_val(&mut self.frames, name, v) {
                Ok(()) => {
                    self.control = Control::Return(Expr::Void);
                },
                Err(e) => self.fail(e),
            },
            Kont::Fold { op, nums, next, finish } => match v {
                Expr::Atom(Token::Number(n)) => self.fold(op, n, nums, next, finish),
                other => self.fail(EvalErr::TypeError("number", other)),
            },
        }
    }

    /// Evaluates a `lambda`.
    pub fn eval_lambda(&mut self, params: &Expr, body: &Vec<Expr>, env: EnvRef)
        ensures
            final(self)@ == eval_lambda(old(self)@, params@, exprs_view(*body), env),
    {
        if env.0.is_none() {
            self.fail(EvalErr::NilEnv);
            return ;
        }
        match params {
            Expr::Call(names) => match into_strings(names) {
                Ok(names) => {
                    let proc = Compound::new(clone_all(body), names, env);
                    self.ret(Expr::Proc(Rc::new(proc)));
                },
                Err(e) => self.fail(e),
            },
            Expr::EmptyList => {
                let names: Vec<String> = Vec::new();
                assert(names_view(names) =~= Seq::<Seq<char>>::empty());
                let proc = Compound::new(clone_all(body), names, env);
                self.ret(Expr::Proc(Rc::new(proc)));
            },
            other => self.fail(EvalErr::TypeError("list", other.clone())),
        }
    }

    /// Evaluates `e` in `env`.
    pub fn eval_expr(&mut self, e: Expr, env: EnvRef)
        ensures
            final(self)@ == eval_expr(old(self)@, e@, env),
    {
        match e {
            Expr::Atom(Token::Symbol(name)) => match env.get_val(&self.frames, name.as_str()) {
                Ok(v) => self.ret(v),
                Err(e) => self.fail(e),
            },
            Expr::Quoted(datum) => self.ret(*datum),
            Expr::SpecialForm(f) => {
                assert(Expr::SpecialForm(f)@ == ExprV::SpecialForm(Box::new(f@)));
                f.eval(self, &env)
            },
            Expr::Call(items) => self.eval_call(items, env),
            other => self.ret(other),
        }
    }

    /// Evaluates the call of the given items in `env`.
    pub fn eval_call(&mut self, items: Vec<Expr>, env: EnvRef)
        ensures
            final(self)@ == eval_expr(old(self)@, ExprV::Call(exprs_view(items)), env),
    {
        if items.len() == 0 {
            self.fail(EvalErr::InvalidArgs("expected operation"));
        } else if env.0.is_none() {
            self.fail(EvalErr::NilEnv);
        } else {
            match nth(&items, 0) {
                Expr::SpecialForm(f) => {
                    assert(items[0]@ == ExprV::SpecialForm(Box::new(f@)));
                    f.eval(self, &env)
                },
                first => {
                    assert(!(items[0]@ is SpecialForm));
                    let first = first.clone();
                    let done: Vec<Expr> = Vec::new();
                    assert(exprs_view(done) =~= Seq::<ExprV>::empty());
                    self.descend(Kont::Call { exprs: items, next: 1, done, env }, first, env);
                },
            }
        }
    }

    /// Applies `callee` to `args`.
    pub fn apply_procedure(&mut self, callee: Expr, args: Vec<Expr>)
        ensures
            final(self)@ == apply_procedure(old(self)@, callee@, exprs_view(args)),
    {
        match &callee {
            Expr::Proc(p) => match &**p {
                Proc::Primitive(native) => native.call(self, Args { args, env: EnvRef(None) }),
                Proc::Compound(closure) => closure.call(self, Args { args, env: EnvRef(None) }),
            },
            other => self.fail(EvalErr::TypeError("procedure", other.clone())),
        }
    }

    /// Whether the machine has nothing to do by itself.
    pub fn is_terminal(&self) -> (r: bool)
        ensures
            r == terminal(self@),
    {
        match &self.control {
            Control::Eval(_, _) => false,
            Control::Apply(_, _) => false,
            Control::Return(_) => self.stack.len() == 0,
            _ => true,
        }
    }

    /// Takes one step.
    pub fn step(&mut self)
        ensures
            final(self)@ == step_spec(old(self)@),
    {
        if self.is_terminal() {
            return ;
        }
        let mut control = Control::Idle;
        std::mem::swap(&mut self.control, &mut control);
        match control {
            Control::Eval(e, env) => self.eval_expr(e, env),
            Control::Apply(callee, args) => self.apply_procedure(callee, args),
            Control::Return(v) => {
                let ghost before = konts_view(self.stack@);
                match self.stack.pop() {
                    Some(k) => {
                        assert(konts_view(self.stack@) =~= before.drop_last());
                        assert(k@ == before.last());
                        self.continue_with(k, v);
                    },
                    None => {},
                }
            },
            _ => {},
        }
    }

    /// Takes steps until there is nothing to do, but at most `fuel` of them.
    pub fn run(&mut self, fuel: usize) -> (r: Outcome)
        ensures
            final(self)@ == run_spec(old(self)@, fuel as nat),
            r@ == outcome_of(final(self)@),
    {
        let mut left = fuel;
        while left > 0 && !self.is_terminal()
            invariant
                run_spec(old(self)@, fuel as nat) == run_spec(self@, left as nat),
            decreases left,
        {
            self.step();
            left -= 1;
        }
        self.outcome()
    }

    /// What the machine has come to.
    pub fn outcome(&self) -> (r: Outcome)
        ensures
            r@ == outcome_of(self@),
    {
        match &self.control {
            Control::Return(v) => if self.stack.len() == 0 {
                Outcome::Done(v.clone())
            } else {
                Outcome::Paused
            },
            Control::Failed(e) => Outcome::Failed(e.clone()),
            Control::Await(a) => Outcome::Needs(*a),
            Control::Idle => Outcome::Idle,
            _ => Outcome::Paused,
        }
    }

    /// Sets the machine to evaluate `e` in `env`.
    pub fn load(&mut self, e: Expr, env: EnvRef)
        ensures
            final(self)@ == load_spec(old(self)@, e@, env),
    {
        self.stack = Vec::new();
        self.control = Control::Eval(e, env);
        assert(self@.stack =~= Seq::empty());
    }

    /// Gives the machine the result of the arithmetic it waits for.
    pub fn answer(&mut self, n: Number)
        ensures
            final(self)@ == answer_spec(old(self)@, n),
    {
        let waiting = match &self.control {
            Control::Await(_) => true,
            _ => false,
        };
        if waiting {
            self.ret(Expr::Atom(Token::Number(n)));
        }
    }
}

/// Evaluates `expr` in `env`, for at most `fuel` steps, on the machine
/// `interp`, whatever it was doing before.
pub fn eval(interp: &mut Interp, expr: &Expr, env: &EnvRef, fuel: usize) -> (r: Outcome)
    ensures
        final(interp)@ == run_spec(load_spec(old(interp)@, expr@, *env), fuel as nat),
        r@ == outcome_of(final(interp)@),
{
    interp.load(expr.clone(), *env);
    interp.run(fuel)
}

/// Goes on, for at most `fuel` steps, with the answer to the arithmetic that
/// the machine waits for. A machine that waits for none just goes on.
pub fn resume(interp: &mut Interp, answer: Number, fuel: usize) -> (r: Outcome)
    ensures
        final(interp)@ == run_spec(answer_spec(old(interp)@, answer), fuel as nat),
        r@ == outcome_of(final(interp)@),
{
    interp.answer(answer);
    interp.run(fuel)
}

/// Goes on for at most `fuel` steps, taking the answer to each request for
/// arithmetic from `answers`, an answer counting as a step, and returns how
/// many answers were taken.
pub fn drive(interp: &mut Interp, answers: &Vec<Number>, fuel: usize) -> (used: usize)
    ensures
        used <= answers.len(),
        (final(interp)@, answers@.subrange(used as int, answers.len() as int)) == drive_spec(
            old(interp)@,
            answers@,
            fuel as nat,
        ),
{
    let mut left = fuel;
    let mut used: usize = 0;
    assert(answers@.subrange(0, answers.len() as int) =~= answers@);
    while left > 0
        invariant
            used <= answers.len(),
            drive_spec(old(interp)@, answers@, fuel as nat) == drive_spec(
                interp@,
                answers@.subrange(used as int, answers.len() as int),
                left as nat,
            ),
        decreases left,
    {
        let waiting = match &interp.control {
            Control::Await(_) => true,
            _ => false,
        };
        if waiting && used < answers.len() {
            proof {
                let rest = answers@.subrange(used as int, answers.len() as int);
                assert(rest.drop_first() =~= answers@.subrange(used + 1, answers.len() as int));
                assert(rest[0] == answers[used as int]);
            }
            interp.answer(answers[used]);
            used += 1;
        } else if interp.is_terminal() {
            return used;
        } else {
            interp.step();
        }
        left -= 1;
    }
    used
}

/// Sets the machine to apply `op` to `args`.
pub fn apply(interp: &mut Interp, op: Expr, args: Args)
    ensures
        final(interp)@ == (InterpV {
            heap: old(interp)@.heap,
            frames: old(interp)@.frames,
            stack: Seq::empty(),
            control: ControlV::Apply(op@, args@),
            output: old(interp)@.output,
        }),
{
    interp.stack = Vec::new();
    interp.control = Control::Apply(op, args.args);
    assert(interp@.stack =~= Seq::empty());
}

/// The machine after each of the expressions from `i` on was evaluated in
/// `env`, for at most `fuel` steps each, and what each of them came to. An
/// expression that has not come to its value when the next is taken up is
/// given up.
pub open spec fn eval_all_spec(m: InterpV, exprs: Seq<ExprV>, i: int, env: EnvRef, fuel: nat) -> (
    InterpV,
    Seq<OutcomeV>,
)
    decreases exprs.len() - i,
{
    if i < 0 || i >= exprs.len() {
        (m, Seq::empty())
    } else {
        let after = run_spec(load_spec(m, exprs[i], env), fuel);
        let (last, rest) = eval_all_spec(after, exprs, i + 1, env, fuel);
        (last, seq![outcome_of(after)] + rest)
    }
}

/// The values of a vector of outcomes.
pub open spec fn outcomes_view(v: Vec<Outcome>) -> Seq<OutcomeV> {
    Seq::new(v.len() as nat, |i: int| v[i]@)
}

/// Evaluates each of the expressions in `env`, for at most `fuel` steps each,
/// and returns what each of them came to.
pub fn eval_all(interp: &mut Interp, exprs: &Vec<Expr>, env: &EnvRef, fuel: usize) -> (r: Vec<
    Outcome,
>)
    ensures
        (final(interp)@, outcomes_view(r)) == eval_all_spec(
            old(interp)@,
            exprs_view(*exprs),
            0,
            *env,
            fuel as nat,
        ),
{
    let mut outcomes: Vec<Outcome> = Vec::new();
    let mut i: usize = 0;
    let ghost all = exprs_view(*exprs);
    let ghost goal = eval_all_spec(interp@, all, 0, *env, fuel as nat);
    assert(outcomes_view(outcomes) =~= Seq::<OutcomeV>::empty());
    assert(Seq::<OutcomeV>::empty() + goal.1 =~= goal.1);
    while i < exprs.len()
        invariant
            i <= exprs.len(),
            all == exprs_view(*exprs),
            goal.0 == eval_all_spec(interp@, all, i as int, *env, fuel as nat).0,
            goal.1 == outcomes_view(outcomes) + eval_all_spec(
                interp@,
                all,
                i as int,
                *env,
                fuel as nat,
            ).1,
        decreases exprs.len() - i,
    {
        let ghost before = outcomes_view(outcomes);
        let outcome = eval(interp, nth(exprs, i), env, fuel);
        proof {
            let rest = eval_all_spec(interp@, all, i + 1, *env, fuel as nat).1;
            assert(before + (seq![outcome@] + rest) =~= before.push(outcome@) + rest);
        }
        outcomes.push(outcome);
        assert(outcomes_view(outcomes) =~= before.push(outcome@));
        i += 1;
    }
    assert(outcomes_view(outcomes) + Seq::<OutcomeV>::empty() =~= outcomes_view(outcomes));
    outcomes
}

} // verus!
