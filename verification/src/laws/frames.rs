//! Laws of frames and environments: what binding, looking up and assigning
//! have to do with each other.
use vstd::prelude::*;
use crate::enviroment::{
    EnvRef, EnvV, assign, binding_frame, define_local, find_from, frame_insert, frame_lookup,
    frame_of, lookup, outer,
};
use crate::error::EvalErrV;
use crate::evaluator::{ControlV, InterpV, KontV, continue_with, eval_expr, ret};
use crate::lexer::TokenV;
use crate::parser::ExprV;

verus! {

/// A frame is well formed when each of its names has its value.
pub open spec fn frame_wf(frame: EnvV) -> bool {
    frame.names.len() == frame.values.len()
}

/// Where a name is found, it stands there; where it is not found, it stands
/// nowhere from the position on.
pub proof fn lemma_find_bounds(names: Seq<Seq<char>>, name: Seq<char>, i: int)
    requires
        0 <= i,
    ensures
        match find_from(names, name, i) {
            Some(j) => i <= j < names.len() && names[j] == name,
            None => forall|j: int| i <= j < names.len() ==> names[j] != name,
        },
    decreases names.len() - i,
{
    if i < names.len() && names[i] != name {
        lemma_find_bounds(names, name, i + 1);
    }
}

proof fn lemma_find_appended(names: Seq<Seq<char>>, name: Seq<char>, i: int)
    requires
        0 <= i <= names.len(),
        find_from(names, name, i) is None,
    ensures
        find_from(names.push(name), name, i) == Some(names.len() as int),
    decreases names.len() - i,
{
    if i < names.len() {
        lemma_find_appended(names, name, i + 1);
    }
}

/// A frame gives back what was last bound in it: after `name` was bound to
/// `value`, the frame binds `name` to `value`, and stays well formed.
pub proof fn law_frame_insert_then_lookup(frame: EnvV, name: Seq<char>, value: ExprV)
    requires
        frame_wf(frame),
    ensures
        frame_lookup(frame_insert(frame, name, value), name) == Some(value),
        frame_wf(frame_insert(frame, name, value)),
{
    lemma_find_bounds(frame.names, name, 0);
    match find_from(frame.names, name, 0) {
        Some(i) => {},
        None => {
            lemma_find_appended(frame.names, name, 0);
        },
    }
}

/// A binding of another name is left as it was.
pub proof fn law_frame_insert_keeps_others(
    frame: EnvV,
    name: Seq<char>,
    value: ExprV,
    other: Seq<char>,
)
    requires
        frame_wf(frame),
        other != name,
    ensures
        frame_lookup(frame_insert(frame, name, value), other) == frame_lookup(frame, other),
{
    lemma_find_bounds(frame.names, name, 0);
    lemma_find_bounds(frame.names, other, 0);
    lemma_find_kept(frame.names, name, other, 0);
}

proof fn lemma_find_kept(names: Seq<Seq<char>>, name: Seq<char>, other: Seq<char>, i: int)
    requires
        0 <= i <= names.len(),
        other != name,
    ensures
        find_from(names.push(name), other, i) == find_from(names, other, i),
    decreases names.len() - i,
{
    if i < names.len() {
        if names[i] != other {
            lemma_find_kept(names, name, other, i + 1);
        }
    } else {
        assert(names.push(name)[i] == name);
        assert(find_from(names.push(name), other, i + 1) is None);
    }
}

/// Defining a name and then looking it up gives the defined value: once the
/// expression of `(define x v)` has given the value `w` in the environment
/// `env`, the definition completes with the unspecified value, and in the
/// machine as it then is the symbol `x` evaluates in `env` to `w`.
pub proof fn law_define_then_lookup(m: InterpV, env: EnvRef, x: Seq<char>, w: ExprV)
    requires
        frame_of(m.frames, env) is Some,
        frame_wf(m.frames[frame_of(m.frames, env)->0]),
    ensures
        ({
            let defined = continue_with(m, KontV::Define { name: x, env }, w);
            &&& defined.control == ControlV::Return(ExprV::Void)
            &&& define_local(m.frames, env, x, w) == Ok::<Seq<EnvV>, crate::error::EvalErrV>(
                defined.frames,
            )
            &&& lookup(defined.frames, env, x) == Ok::<ExprV, crate::error::EvalErrV>(w)
            &&& eval_expr(defined, ExprV::Atom(TokenV::Symbol(x)), env) == ret(defined, w)
        }),
{
    let i = frame_of(m.frames, env)->0;
    law_frame_insert_then_lookup(m.frames[i], x, w);
    let defined = continue_with(m, KontV::Define { name: x, env }, w);
    assert(defined.frames[i] == frame_insert(m.frames[i], x, w));
    assert(binding_frame(defined.frames, i, x) == Some(i));
}

proof fn lemma_binding_after_insert(
    frames: Seq<EnvV>,
    i: int,
    f: int,
    name: Seq<char>,
    value: ExprV,
)
    requires
        binding_frame(frames, i, name) == Some(f),
        0 <= f < frames.len(),
        frame_wf(frames[f]),
    ensures
        binding_frame(frames.update(f, frame_insert(frames[f], name, value)), i, name) == Some(f),
    decreases i,
{
    let after = frames.update(f, frame_insert(frames[f], name, value));
    law_frame_insert_then_lookup(frames[f], name, value);
    if i == f {
    } else {
        assert(after[i] == frames[i]);
        match outer(frames, i) {
            Some(p) => {
                assert(frame_of(after, after[i].parent) == frame_of(frames, frames[i].parent));
                lemma_binding_after_insert(frames, p, f, name, value);
            },
            None => {},
        }
    }
}

/// The frame that binds a name lies within the frames, at or before the frame
/// from which it was searched, and binds the name.
pub proof fn lemma_binding_in_range(frames: Seq<EnvV>, i: int, name: Seq<char>)
    ensures
        match binding_frame(frames, i, name) {
            Some(f) => 0 <= f <= i && f < frames.len() && frame_lookup(frames[f], name) is Some,
            None => true,
        },
    decreases i,
{
    if 0 <= i < frames.len() && frame_lookup(frames[i], name) is None {
        match outer(frames, i) {
            Some(p) => lemma_binding_in_range(frames, p, name),
            None => {},
        }
    }
}

/// Assigning to a name and then looking it up gives the assigned value:
/// where `(set! x v)` finds a binding of `x` from the environment `env`, the
/// same binding is found afterwards, and it holds the new value.
pub proof fn law_assign_then_lookup(frames: Seq<EnvV>, env: EnvRef, x: Seq<char>, w: ExprV)
    requires
        forall|i: int| 0 <= i < frames.len() ==> frame_wf(#[trigger] frames[i]),
        assign(frames, env, x, w) is Ok,
    ensures
        lookup(assign(frames, env, x, w)->Ok_0, env, x) == Ok::<ExprV, EvalErrV>(w),
        lookup(frames, env, x) is Ok,
{
    let i = frame_of(frames, env)->0;
    lemma_binding_in_range(frames, i, x);
    let f = binding_frame(frames, i, x)->0;
    lemma_binding_after_insert(frames, i, f, x, w);
    law_frame_insert_then_lookup(frames[f], x, w);
}

/// An assignment to a name that has no binding fails and changes nothing; a
/// lookup of that name fails in the same way.
pub proof fn law_unbound_names_fail(frames: Seq<EnvV>, env: EnvRef, x: Seq<char>, w: ExprV)
    ensures
        lookup(frames, env, x) is Err <==> assign(frames, env, x, w) is Err,
        lookup(frames, env, x) is Err ==> lookup(frames, env, x) == Err::<ExprV, EvalErrV>(
            EvalErrV::UnboundVar(x),
        ) && assign(frames, env, x, w) == Err::<Seq<EnvV>, EvalErrV>(EvalErrV::UnboundVar(x)),
{
}

/// A definition is local: it changes the frame of its environment and no
/// other, whatever the frames around it bind.
pub proof fn law_define_is_local(frames: Seq<EnvV>, env: EnvRef, x: Seq<char>, w: ExprV)
    requires
        define_local(frames, env, x, w) is Ok,
    ensures
        ({
            let after = define_local(frames, env, x, w)->Ok_0;
            &&& after.len() == frames.len()
            &&& forall|i: int|
                0 <= i < frames.len() && Some(i) != frame_of(frames, env) ==> #[trigger] after[i]
                    == frames[i]
        }),
{
}

} // verus!
