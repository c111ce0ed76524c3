//! Laws of the machine: what its steps change, what they do not depend on,
//! and where evaluation stops short.
use vstd::prelude::*;
use crate::enviroment::{EnvRef, define_local, frame_of, native_value};
use crate::evaluator::{
    ControlV, InterpV, KontV, Sequel, answer_spec, apply_procedure, boolean, continue_with,
    drive_spec, eval_expr, load_spec, ret, run_spec, step_spec, terminal, truthy, with_control,
};
use crate::laws::frames::{frame_wf, law_define_then_lookup, lemma_binding_in_range};
use crate::laws::pairs::{extends, lemma_heap_list_extends};
use crate::lexer::TokenV;
use crate::number::Number;
use crate::parser::{ExprV, special};
use crate::procedure::{Native, ProcV};
use crate::special_form::SpecialFormV;

verus! {

/// `and` stops at the first `#f`: a machine that evaluates `(and #f e ...)`
/// has, three steps later, the value `#f` and is otherwise as it was, whatever
/// the expressions after the `#f` are.
pub proof fn law_and_short_circuit(m: InterpV, env: EnvRef, rest: Seq<ExprV>)
    requires
        env.0 is Some,
    ensures
        run_spec(
            with_control(
                m,
                ControlV::Eval(special(SpecialFormV::And(seq![boolean(false)] + rest)), env),
            ),
            3,
        ) == with_control(m, ControlV::Return(boolean(false))),
{
    reveal_with_fuel(run_spec, 4);
    let exprs = seq![boolean(false)] + rest;
    let start = with_control(m, ControlV::Eval(special(SpecialFormV::And(exprs)), env));
    let one = step_spec(start);
    assert(one.stack.drop_last() =~= m.stack);
    let two = step_spec(one);
    assert(two.stack == one.stack);
    let three = step_spec(two);
    assert(three == with_control(m, ControlV::Return(boolean(false))));
}

/// `or` stops at the first true value: a machine that evaluates
/// `(or #t e ...)` has, three steps later, the value `#t` and is otherwise as
/// it was, whatever the expressions after the `#t` are.
pub proof fn law_or_short_circuit(m: InterpV, env: EnvRef, rest: Seq<ExprV>)
    requires
        env.0 is Some,
    ensures
        run_spec(
            with_control(
                m,
                ControlV::Eval(special(SpecialFormV::Or(seq![boolean(true)] + rest)), env),
            ),
            3,
        ) == with_control(m, ControlV::Return(boolean(true))),
{
    reveal_with_fuel(run_spec, 4);
    let exprs = seq![boolean(true)] + rest;
    let start = with_control(m, ControlV::Eval(special(SpecialFormV::Or(exprs)), env));
    let one = step_spec(start);
    assert(one.stack.drop_last() =~= m.stack);
    let two = step_spec(one);
    assert(two.stack == one.stack);
    let three = step_spec(two);
    assert(three == with_control(m, ControlV::Return(boolean(true))));
}

/// A machine with nothing to do stays as it is, however long it runs.
pub proof fn law_terminal_is_final(m: InterpV, fuel: nat)
    requires
        terminal(m),
    ensures
        run_spec(m, fuel) == m,
        step_spec(m) == m,
{
}

/// Running in two goes is running in one: the machine after `f` steps and
/// then `g` more is the machine after `f + g` steps.
pub proof fn law_run_composes(m: InterpV, f: nat, g: nat)
    ensures
        run_spec(run_spec(m, f), g) == run_spec(m, f + g),
    decreases f,
{
    if f == 0 {
    } else if terminal(m) {
        law_terminal_is_final(m, g);
        law_terminal_is_final(m, f + g);
    } else {
        law_run_composes(step_spec(m), (f - 1) as nat, g);
    }
}

/// What an evaluation comes to does not depend on how many steps it is
/// given, once they are enough: a machine that has come to rest within `f`
/// steps is the same after any larger number of steps.
pub proof fn law_result_is_independent_of_fuel(m: InterpV, f: nat, g: nat)
    requires
        terminal(run_spec(m, f)),
        f <= g,
    ensures
        run_spec(m, g) == run_spec(m, f),
{
    law_run_composes(m, f, (g - f) as nat);
    law_terminal_is_final(run_spec(m, f), (g - f) as nat);
}

/// The expressions that are evaluated in one step and without a change to the
/// machine: symbols, literals, quotations and values.
pub open spec fn simple(e: ExprV) -> bool {
    e is Atom || e is Quoted || e is EmptyList || e is Void || e is Pair || e is Proc
}

/// Evaluating a simple expression changes nothing and can be repeated: where
/// it gives a value, the machine is as before but for that value, which
/// depends on the expression and the frames alone, and evaluating the
/// expression once more gives the same value.
pub proof fn law_simple_expressions_are_transparent(m: InterpV, e: ExprV, env: EnvRef)
    requires
        simple(e),
        eval_expr(m, e, env).control is Return,
    ensures
        ({
            let once = eval_expr(m, e, env);
            let value = once.control->Return_0;
            &&& once == ret(m, value)
            &&& eval_expr(once, e, env) == once
            &&& forall|other: InterpV|
                other.frames == m.frames ==> #[trigger] eval_expr(other, e, env) == ret(
                    other,
                    value,
                )
        }),
{
}

/// Whether the machine is about to apply the native procedure `n`.
pub open spec fn applies(m: InterpV, n: Native) -> bool {
    m.control is Apply && m.control->Apply_0 == native_value(n)
}

/// Whether the machine is about to complete a definition or an assignment.
pub open spec fn binds(m: InterpV) -> bool {
    m.control is Return && m.stack.len() > 0 && (m.stack.last() is Define || m.stack.last()
        is Assign)
}

/// What a step can change, and what changes it. The heap, the frames and the
/// output only grow. The output grows only by `display`. A cell that is there
/// changes only by `set-car!` and `set-cdr!`. A frame that is there changes
/// only where a definition or an assignment completes. Every other step
/// leaves all of them as they were.
pub proof fn law_effects(m: InterpV)
    ensures
        ({
            let next = step_spec(m);
            &&& next.heap.len() >= m.heap.len()
            &&& next.frames.len() >= m.frames.len()
            &&& next.output.len() >= m.output.len()
            &&& forall|i: int| 0 <= i < m.output.len() ==> #[trigger] next.output[i] == m.output[i]
            &&& next.output.len() != m.output.len() ==> applies(m, Native::Display)
            &&& forall|i: int|
                0 <= i < m.heap.len() && #[trigger] next.heap[i] != m.heap[i] ==> applies(
                    m,
                    Native::SetCar,
                ) || applies(m, Native::SetCdr)
            &&& forall|i: int|
                0 <= i < m.frames.len() && #[trigger] next.frames[i] != m.frames[i] ==> binds(m)
        }),
{
    if !terminal(m) {
        let rest = with_control(m, ControlV::Idle);
        match m.control {
            ControlV::Eval(e, env) => {
                lemma_eval_keeps(rest, e, env);
            },
            ControlV::Apply(callee, args) => {
                lemma_apply_effects(rest, callee, args);
            },
            ControlV::Return(v) => {
                let popped = InterpV {
                    heap: m.heap,
                    frames: m.frames,
                    stack: m.stack.drop_last(),
                    control: ControlV::Idle,
                    output: m.output,
                };
                lemma_continue_effects(popped, m.stack.last(), v);
            },
            _ => {},
        }
    }
}

/// Whether two machines have the same heap, frames and output.
pub open spec fn same_store(a: InterpV, b: InterpV) -> bool {
    a.heap == b.heap && a.frames == b.frames && a.output == b.output
}

proof fn lemma_eval_keeps(m: InterpV, e: ExprV, env: EnvRef)
    ensures
        same_store(eval_expr(m, e, env), m),
{
}

proof fn lemma_continue_effects(m: InterpV, k: KontV, v: ExprV)
    ensures
        ({
            let next = continue_with(m, k, v);
            &&& next.heap == m.heap
            &&& next.output == m.output
            &&& next.frames.len() == m.frames.len()
            &&& !(k is Define || k is Assign) ==> next.frames == m.frames
        }),
{
    match k {
        KontV::Assign { name, env } => {
            match frame_of(m.frames, env) {
                Some(i) => lemma_binding_in_range(m.frames, i, name),
                None => {},
            }
        },
        _ => {},
    }
}

proof fn lemma_apply_effects(m: InterpV, callee: ExprV, args: Seq<ExprV>)
    ensures
        ({
            let next = apply_procedure(m, callee, args);
            &&& next.heap.len() >= m.heap.len()
            &&& next.frames.len() >= m.frames.len()
            &&& next.output.len() >= m.output.len()
            &&& forall|i: int| 0 <= i < m.output.len() ==> #[trigger] next.output[i] == m.output[i]
            &&& next.output.len() != m.output.len() ==> callee == native_value(Native::Display)
            &&& forall|i: int|
                0 <= i < m.heap.len() && #[trigger] next.heap[i] != m.heap[i] ==> callee
                    == native_value(Native::SetCar) || callee == native_value(Native::SetCdr)
            &&& forall|i: int| 0 <= i < m.frames.len() ==> #[trigger] next.frames[i] == m.frames[i]
        }),
{
    match callee {
        ExprV::Proc(p) => match *p {
            ProcV::Primitive(n) => {
                lemma_heap_list_extends(m.heap, args);
            },
            ProcV::Compound { params, body, env } => {},
        },
        _ => {},
    }
}

/// The machine `m` with the continuations `below` under its own. A machine
/// that has failed has no continuation left.
pub open spec fn lift(below: Seq<KontV>, m: InterpV) -> InterpV {
    if m.control is Failed {
        m
    } else {
        InterpV {
            heap: m.heap,
            frames: m.frames,
            stack: below + m.stack,
            control: m.control,
            output: m.output,
        }
    }
}

proof fn lemma_lift_eval(below: Seq<KontV>, m: InterpV, e: ExprV, env: EnvRef)
    requires
        !(m.control is Failed),
    ensures
        eval_expr(lift(below, m), e, env) == lift(below, eval_expr(m, e, env)),
{
    let a = eval_expr(lift(below, m), e, env);
    let b = lift(below, eval_expr(m, e, env));
    assert(a.stack =~= b.stack) by {
        assert(forall|k: KontV| (below + m.stack).push(k) =~= below + m.stack.push(k));
    }
}

proof fn lemma_lift_apply(below: Seq<KontV>, m: InterpV, callee: ExprV, args: Seq<ExprV>)
    requires
        !(m.control is Failed),
    ensures
        apply_procedure(lift(below, m), callee, args) == lift(
            below,
            apply_procedure(m, callee, args),
        ),
{
    let a = apply_procedure(lift(below, m), callee, args);
    let b = lift(below, apply_procedure(m, callee, args));
    assert(a.stack =~= b.stack) by {
        assert(forall|k: KontV| (below + m.stack).push(k) =~= below + m.stack.push(k));
    }
}

proof fn lemma_lift_continue(below: Seq<KontV>, m: InterpV, k: KontV, v: ExprV)
    requires
        !(m.control is Failed),
    ensures
        continue_with(lift(below, m), k, v) == lift(below, continue_with(m, k, v)),
{
    let a = continue_with(lift(below, m), k, v);
    let b = lift(below, continue_with(m, k, v));
    assert(a.stack =~= b.stack) by {
        assert(forall|k: KontV| (below + m.stack).push(k) =~= below + m.stack.push(k));
    }
}

/// A step does not look below the top of the stack: a machine that has
/// something to do takes the same step whatever continuations lie under its
/// own, and leaves them as they are, unless it fails.
pub proof fn law_step_ignores_the_stack_below(below: Seq<KontV>, m: InterpV)
    requires
        !terminal(m),
    ensures
        step_spec(lift(below, m)) == lift(below, step_spec(m)),
{
    let rest = with_control(m, ControlV::Idle);
    assert(with_control(lift(below, m), ControlV::Idle) == lift(below, rest));
    match m.control {
        ControlV::Eval(e, env) => lemma_lift_eval(below, rest, e, env),
        ControlV::Apply(callee, args) => lemma_lift_apply(below, rest, callee, args),
        ControlV::Return(v) => {
            let popped = InterpV {
                heap: m.heap,
                frames: m.frames,
                stack: m.stack.drop_last(),
                control: ControlV::Idle,
                output: m.output,
            };
            assert((below + m.stack).drop_last() =~= below + m.stack.drop_last());
            lemma_lift_continue(below, popped, m.stack.last(), v);
        },
        _ => {},
    }
}

/// Without answers, a machine with its host runs as it does alone.
pub proof fn law_drive_without_answers(m: InterpV, fuel: nat)
    ensures
        drive_spec(m, Seq::empty(), fuel) == (run_spec(m, fuel), Seq::<Number>::empty()),
    decreases fuel,
{
    if fuel > 0 && !terminal(m) {
        law_drive_without_answers(step_spec(m), (fuel - 1) as nat);
    }
}

/// Running with the host in two goes is running in one.
pub proof fn law_drive_composes(m: InterpV, answers: Seq<Number>, f: nat, g: nat)
    ensures
        drive_spec(m, answers, f + g) == drive_spec(
            drive_spec(m, answers, f).0,
            drive_spec(m, answers, f).1,
            g,
        ),
    decreases f,
{
    if f == 0 {
    } else if m.control is Await && answers.len() > 0 {
        law_drive_composes(answer_spec(m, answers[0]), answers.drop_first(), (f - 1) as nat, g);
    } else if terminal(m) {
        lemma_rest_stays(m, answers, g);
        lemma_rest_stays(m, answers, f + g);
    } else {
        law_drive_composes(step_spec(m), answers, (f - 1) as nat, g);
    }
}

proof fn lemma_rest_stays(m: InterpV, answers: Seq<Number>, fuel: nat)
    requires
        terminal(m),
        !(m.control is Await && answers.len() > 0),
    ensures
        drive_spec(m, answers, fuel) == (m, answers),
{
}

/// Whether the machine, with its host, is at work for all of `fuel` steps:
/// it does not come to rest before.
pub open spec fn busy(m: InterpV, answers: Seq<Number>, fuel: nat) -> bool
    decreases fuel,
{
    if fuel == 0 {
        true
    } else if m.control is Await && answers.len() > 0 {
        busy(answer_spec(m, answers[0]), answers.drop_first(), (fuel - 1) as nat)
    } else {
        !terminal(m) && busy(step_spec(m), answers, (fuel - 1) as nat)
    }
}

/// Work does not look below the top of the stack: a machine that is at work
/// for `fuel` steps does the same work whatever continuations lie under its
/// own, and leaves them as they are, unless it fails.
pub proof fn law_work_ignores_the_stack_below(
    below: Seq<KontV>,
    m: InterpV,
    answers: Seq<Number>,
    fuel: nat,
)
    requires
        busy(m, answers, fuel),
        !(m.control is Failed),
    ensures
        drive_spec(lift(below, m), answers, fuel) == (
            lift(below, drive_spec(m, answers, fuel).0),
            drive_spec(m, answers, fuel).1,
        ),
    decreases fuel,
{
    if fuel == 0 {
    } else if m.control is Await && answers.len() > 0 {
        law_work_ignores_the_stack_below(
            below,
            answer_spec(m, answers[0]),
            answers.drop_first(),
            (fuel - 1) as nat,
        );
    } else {
        law_step_ignores_the_stack_below(below, m);
        let next = step_spec(m);
        if next.control is Failed {
            lemma_rest_stays(next, answers, (fuel - 1) as nat);
            if fuel - 1 > 0 {
                assert(terminal(next));
            }
        } else {
            law_work_ignores_the_stack_below(below, next, answers, (fuel - 1) as nat);
        }
    }
}

/// The value that a sequence gives when its first expression has given `v`
/// and stops it: `#f` ends an `and`, a true value ends an `or`.
pub open spec fn stops(kind: Sequel, v: ExprV) -> bool {
    (kind == Sequel::And && !truthy(v)) || (kind == Sequel::Or && truthy(v))
}

proof fn lemma_sequence_stops(
    m: InterpV,
    env: EnvRef,
    kind: Sequel,
    form: SpecialFormV,
    first: ExprV,
    rest: Seq<ExprV>,
    answers: Seq<Number>,
    k: nat,
)
    requires
        env.0 is Some,
        (kind == Sequel::And && form == SpecialFormV::And(seq![first] + rest)) || (kind
            == Sequel::Or && form == SpecialFormV::Or(seq![first] + rest)),
        busy(load_spec(m, first, env), answers, k),
        drive_spec(load_spec(m, first, env), answers, k).0.control is Return,
        drive_spec(load_spec(m, first, env), answers, k).0.stack.len() == 0,
        stops(kind, drive_spec(load_spec(m, first, env), answers, k).0.control->Return_0),
    ensures
        ({
            let (done, left) = drive_spec(load_spec(m, first, env), answers, k);
            drive_spec(with_control(m, ControlV::Eval(special(form), env)), answers, k + 2) == (
                InterpV {
                    heap: done.heap,
                    frames: done.frames,
                    stack: m.stack,
                    control: done.control,
                    output: done.output,
                },
                left,
            )
        }),
{
    let exprs = seq![first] + rest;
    let sub = load_spec(m, first, env);
    let (done, left) = drive_spec(sub, answers, k);
    let start = with_control(m, ControlV::Eval(special(form), env));
    let cont = KontV::Sequence { kind, exprs, next: 1, env };
    let below = m.stack.push(cont);
    let one = step_spec(start);
    assert(one.stack =~= below + sub.stack);
    assert(one == lift(below, sub));
    assert(drive_spec(start, answers, 1) == (one, answers)) by {
        reveal_with_fuel(drive_spec, 2);
    }
    law_work_ignores_the_stack_below(below, sub, answers, k);
    law_drive_composes(start, answers, 1, k);
    assert(drive_spec(start, answers, 1 + k) == (lift(below, done), left));
    let waiting = lift(below, done);
    assert(waiting.stack =~= below);
    assert(waiting.stack.drop_last() =~= m.stack);
    assert(drive_spec(waiting, left, 1).0 == step_spec(waiting)) by {
        reveal_with_fuel(drive_spec, 2);
    }
    assert(drive_spec(waiting, left, 1).1 == left) by {
        reveal_with_fuel(drive_spec, 2);
    }
    law_drive_composes(start, answers, 1 + k, 1);
}

/// `and` stops at the first `#f`, whatever gives it: where the first
/// expression of an `and`, evaluated alone with the answers of the host, comes
/// to `#f` after `k` steps, the `and` comes to `#f` two steps later, and the
/// machine is then as the first expression left it. The expressions after
/// the first are not evaluated.
pub proof fn law_and_stops_at_false(
    m: InterpV,
    env: EnvRef,
    first: ExprV,
    rest: Seq<ExprV>,
    answers: Seq<Number>,
    k: nat,
)
    requires
        env.0 is Some,
        busy(load_spec(m, first, env), answers, k),
        drive_spec(load_spec(m, first, env), answers, k).0.control == ControlV::Return(
            boolean(false),
        ),
        drive_spec(load_spec(m, first, env), answers, k).0.stack.len() == 0,
    ensures
        ({
            let (done, left) = drive_spec(load_spec(m, first, env), answers, k);
            drive_spec(
                with_control(
                    m,
                    ControlV::Eval(special(SpecialFormV::And(seq![first] + rest)), env),
                ),
                answers,
                k + 2,
            ) == (
                InterpV {
                    heap: done.heap,
                    frames: done.frames,
                    stack: m.stack,
                    control: ControlV::Return(boolean(false)),
                    output: done.output,
                },
                left,
            )
        }),
{
    lemma_sequence_stops(
        m,
        env,
        Sequel::And,
        SpecialFormV::And(seq![first] + rest),
        first,
        rest,
        answers,
        k,
    );
}

/// `or` stops at the first true value, whatever gives it: where the first
/// expression of an `or`, evaluated alone with the answers of the host, comes
/// to a value other than `#f` after `k` steps, the `or` comes to that value
/// two steps later, and the machine is then as the first expression left it.
/// The expressions after the first are not evaluated.
pub proof fn law_or_stops_at_true(
    m: InterpV,
    env: EnvRef,
    first: ExprV,
    rest: Seq<ExprV>,
    answers: Seq<Number>,
    k: nat,
)
    requires
        env.0 is Some,
        busy(load_spec(m, first, env), answers, k),
        drive_spec(load_spec(m, first, env), answers, k).0.control is Return,
        truthy(drive_spec(load_spec(m, first, env), answers, k).0.control->Return_0),
        drive_spec(load_spec(m, first, env), answers, k).0.stack.len() == 0,
    ensures
        ({
            let (done, left) = drive_spec(load_spec(m, first, env), answers, k);
            drive_spec(
                with_control(
                    m,
                    ControlV::Eval(special(SpecialFormV::Or(seq![first] + rest)), env),
                ),
                answers,
                k + 2,
            ) == (
                InterpV {
                    heap: done.heap,
                    frames: done.frames,
                    stack: m.stack,
                    control: done.control,
                    output: done.output,
                },
                left,
            )
        }),
{
    lemma_sequence_stops(
        m,
        env,
        Sequel::Or,
        SpecialFormV::Or(seq![first] + rest),
        first,
        rest,
        answers,
        k,
    );
}

/// A definition binds the value of its expression: where the expression `v`
/// of `(define x v)`, evaluated alone in `env` with the answers of the host,
/// comes to the value `w` after `k` steps, the definition comes to the
/// unspecified value two steps later; the machine is then as `v` left it, but
/// that the frame of `env` binds `x` to `w`, and in it the symbol `x`
/// evaluates in `env` to `w`.
pub proof fn law_define_binds_the_value(
    m: InterpV,
    env: EnvRef,
    x: Seq<char>,
    v: ExprV,
    answers: Seq<Number>,
    k: nat,
)
    requires
        env.0 is Some,
        busy(load_spec(m, v, env), answers, k),
        drive_spec(load_spec(m, v, env), answers, k).0.control is Return,
        drive_spec(load_spec(m, v, env), answers, k).0.stack.len() == 0,
        frame_of(drive_spec(load_spec(m, v, env), answers, k).0.frames, env) is Some,
        frame_wf(
            drive_spec(load_spec(m, v, env), answers, k).0.frames[frame_of(
                drive_spec(load_spec(m, v, env), answers, k).0.frames,
                env,
            )->0],
        ),
    ensures
        ({
            let (done, left) = drive_spec(load_spec(m, v, env), answers, k);
            let w = done.control->Return_0;
            let form = SpecialFormV::Define(ExprV::Atom(TokenV::Symbol(x)), v);
            let (defined, rest) = drive_spec(
                with_control(m, ControlV::Eval(special(form), env)),
                answers,
                k + 2,
            );
            &&& rest == left
            &&& defined == (InterpV {
                heap: done.heap,
                frames: define_local(done.frames, env, x, w)->Ok_0,
                stack: m.stack,
                control: ControlV::Return(ExprV::Void),
                output: done.output,
            })
            &&& eval_expr(defined, ExprV::Atom(TokenV::Symbol(x)), env) == ret(defined, w)
        }),
{
    let sub = load_spec(m, v, env);
    let (done, left) = drive_spec(sub, answers, k);
    let w = done.control->Return_0;
    let form = SpecialFormV::Define(ExprV::Atom(TokenV::Symbol(x)), v);
    let start = with_control(m, ControlV::Eval(special(form), env));
    let cont = KontV::Define { name: x, env };
    let below = m.stack.push(cont);
    let one = step_spec(start);
    assert(one.stack =~= below + sub.stack);
    assert(one == lift(below, sub));
    assert(drive_spec(start, answers, 1) == (one, answers)) by {
        reveal_with_fuel(drive_spec, 2);
    }
    law_work_ignores_the_stack_below(below, sub, answers, k);
    law_drive_composes(start, answers, 1, k);
    let waiting = lift(below, done);
    assert(waiting.stack =~= below);
    assert(waiting.stack.drop_last() =~= m.stack);
    assert(drive_spec(waiting, left, 1) == (step_spec(waiting), left)) by {
        reveal_with_fuel(drive_spec, 2);
    }
    law_drive_composes(start, answers, 1 + k, 1);
    let popped = InterpV {
        heap: done.heap,
        frames: done.frames,
        stack: m.stack,
        control: ControlV::Idle,
        output: done.output,
    };
    law_define_then_lookup(popped, env, x, w);
}

/// Whether the next step is one of those that change what is there: the
/// completion of a definition or an assignment, `set-car!`, `set-cdr!` or
/// `display`.
pub open spec fn changes(m: InterpV) -> bool {
    binds(m) || applies(m, Native::SetCar) || applies(m, Native::SetCdr) || applies(
        m,
        Native::Display,
    )
}

/// Whether none of the at most `fuel` steps that the machine takes with its
/// host is one of those that change what is there.
pub open spec fn quiet(m: InterpV, answers: Seq<Number>, fuel: nat) -> bool
    decreases fuel,
{
    if fuel == 0 {
        true
    } else if m.control is Await && answers.len() > 0 {
        quiet(answer_spec(m, answers[0]), answers.drop_first(), (fuel - 1) as nat)
    } else if terminal(m) {
        true
    } else {
        !changes(m) && quiet(step_spec(m), answers, (fuel - 1) as nat)
    }
}

/// Work without definitions, assignments, `set-car!`, `set-cdr!` and
/// `display` changes nothing that is there: after it the cells and the frames
/// that were there are as they were, more may have come after them, and the
/// output is what it was.
pub proof fn law_quiet_work_changes_nothing(m: InterpV, answers: Seq<Number>, fuel: nat)
    requires
        quiet(m, answers, fuel),
    ensures
        ({
            let after = drive_spec(m, answers, fuel).0;
            &&& extends(after.heap, m.heap)
            &&& after.frames.len() >= m.frames.len()
            &&& forall|i: int| 0 <= i < m.frames.len() ==> #[trigger] after.frames[i] == m.frames[i]
            &&& after.output == m.output
        }),
    decreases fuel,
{
    if fuel == 0 {
    } else if m.control is Await && answers.len() > 0 {
        law_quiet_work_changes_nothing(
            answer_spec(m, answers[0]),
            answers.drop_first(),
            (fuel - 1) as nat,
        );
    } else if terminal(m) {
    } else {
        law_effects(m);
        let next = step_spec(m);
        law_quiet_work_changes_nothing(next, answers, (fuel - 1) as nat);
        let after = drive_spec(m, answers, fuel).0;
        assert(next.output =~= m.output);
        assert forall|i: int| 0 <= i < m.heap.len() implies #[trigger] after.heap[i]
            == m.heap[i] by {
            assert(next.heap[i] == m.heap[i]);
        }
        assert forall|i: int| 0 <= i < m.frames.len() implies #[trigger] after.frames[i]
            == m.frames[i] by {
            assert(next.frames[i] == m.frames[i]);
        }
    }
}


/// Work only adds cells and frames: after any work the machine has at least
/// the cells and the frames that it had.
pub proof fn law_work_only_grows(m: InterpV, answers: Seq<Number>, fuel: nat)
    ensures
        drive_spec(m, answers, fuel).0.heap.len() >= m.heap.len(),
        drive_spec(m, answers, fuel).0.frames.len() >= m.frames.len(),
    decreases fuel,
{
    if fuel == 0 {
    } else if m.control is Await && answers.len() > 0 {
        law_work_only_grows(answer_spec(m, answers[0]), answers.drop_first(), (fuel - 1) as nat);
    } else if terminal(m) {
    } else {
        law_effects(m);
        law_work_only_grows(step_spec(m), answers, (fuel - 1) as nat);
    }
}


/// An evaluation that leaves the store as it was can be repeated: where
/// evaluating `e` in `env`, with the answers of the host, leaves heap, frames
/// and output as they were, evaluating `e` again in the machine as it then is,
/// with the same answers, does the same and comes to the same.
pub proof fn law_still_work_repeats(
    m: InterpV,
    e: ExprV,
    env: EnvRef,
    answers: Seq<Number>,
    fuel: nat,
)
    requires
        same_store(drive_spec(load_spec(m, e, env), answers, fuel).0, m),
    ensures
        drive_spec(
            load_spec(drive_spec(load_spec(m, e, env), answers, fuel).0, e, env),
            answers,
            fuel,
        ) == drive_spec(load_spec(m, e, env), answers, fuel),
{
}

} // verus!
