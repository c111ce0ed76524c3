//! Environments: frames of bindings linked to the frame they extend.
use vstd::prelude::*;
use std::rc::Rc;
use crate::error::{EvalErr, EvalErrV};
use crate::evaluator::{Interp, InterpV, Outcome, OutcomeV, eval_all, eval_all_spec, outcomes_view};
use crate::lexer::{TokenStream, lex_outcome, names_view};
use crate::parser::{
    Expr, ExprV, Parser, expr_result_view, exprs_view, lemma_push_view, parse_program, seq_view,
};
use crate::primitives::prelude::PRELUDE;
use crate::procedure::{Native, Primitive, ProcV, native_name};

verus! {

/// A reference to an environment frame, or to none.
#[derive(Clone, Copy, Debug, PartialEq, Eq, Hash)]
pub struct EnvRef(pub Option<usize>);

/// One frame: the frame it extends and its own bindings, the latest last.
#[derive(Debug, PartialEq)]
pub struct Env {
    pub parent: EnvRef,
    pub names: Vec<String>,
    pub values: Vec<Expr>,
}

/// The mathematical value of a frame.
pub ghost struct EnvV {
    pub parent: EnvRef,
    pub names: Seq<Seq<char>>,
    pub values: Seq<ExprV>,
}

impl View for Env {
    type V = EnvV;

    open spec fn view(&self) -> EnvV {
        EnvV { parent: self.parent, names: names_view(self.names), values: exprs_view(self.values) }
    }
}

/// The values of a sequence of frames.
pub open spec fn frames_view(s: Seq<Env>) -> Seq<EnvV> {
    Seq::new(s.len(), |i: int| s[i]@)
}

/// The first position at or after `i` at which `name` stands in `names`.
pub open spec fn find_from(names: Seq<Seq<char>>, name: Seq<char>, i: int) -> Option<int>
    decreases names.len() - i,
{
    if i < 0 || i >= names.len() {
        None
    } else if names[i] == name {
        Some(i)
    } else {
        find_from(names, name, i + 1)
    }
}

/// What `name` is bound to in the frame itself.
pub open spec fn frame_lookup(frame: EnvV, name: Seq<char>) -> Option<ExprV> {
    match find_from(frame.names, name, 0) {
        Some(i) => if i < frame.values.len() {
            Some(frame.values[i])
        } else {
            None
        },
        None => None,
    }
}

/// The frame with `name` bound to `value`: in place of what it was bound to
/// before, or as a new binding.
pub open spec fn frame_insert(frame: EnvV, name: Seq<char>, value: ExprV) -> EnvV {
    match find_from(frame.names, name, 0) {
        Some(i) => if i < frame.values.len() {
            EnvV { parent: frame.parent, names: frame.names, values: frame.values.update(i, value) }
        } else {
            EnvV {
                parent: frame.parent,
                names: frame.names.push(name),
                values: frame.values.push(value),
            }
        },
        None => EnvV {
            parent: frame.parent,
            names: frame.names.push(name),
            values: frame.values.push(value),
        },
    }
}

/// The frame that `env` refers to, where there is one.
pub open spec fn frame_of(frames: Seq<EnvV>, env: EnvRef) -> Option<int> {
    match env.0 {
        Some(i) => if i < frames.len() {
            Some(i as int)
        } else {
            None
        },
        None => None,
    }
}

/// The frame in which a search that did not find its name in frame `i` goes
/// on: the parent, which is an older frame.
pub open spec fn outer(frames: Seq<EnvV>, i: int) -> Option<int> {
    match frame_of(frames, frames[i].parent) {
        Some(p) => if p < i {
            Some(p)
        } else {
            None
        },
        None => None,
    }
}

/// The frame, searching from frame `i` outwards, that binds `name`.
pub open spec fn binding_frame(frames: Seq<EnvV>, i: int, name: Seq<char>) -> Option<int>
    decreases i,
{
    if i < 0 || i >= frames.len() {
        None
    } else if frame_lookup(frames[i], name) is Some {
        Some(i)
    } else {
        match outer(frames, i) {
            Some(p) => binding_frame(frames, p, name),
            None => None,
        }
    }
}

/// What `name` is bound to, seen from `env`: the binding of the nearest frame
/// that has one.
pub open spec fn lookup(frames: Seq<EnvV>, env: EnvRef, name: Seq<char>) -> Result<
    ExprV,
    EvalErrV,
> {
    match frame_of(frames, env) {
        Some(i) => match binding_frame(frames, i, name) {
            Some(f) => Ok(frame_lookup(frames[f], name)->0),
            None => Err(EvalErrV::UnboundVar(name)),
        },
        None => Err(EvalErrV::UnboundVar(name)),
    }
}

/// The frames after `name` was bound to `value` in the frame of `env` itself.
pub open spec fn define_local(frames: Seq<EnvV>, env: EnvRef, name: Seq<char>, value: ExprV) -> Result<
    Seq<EnvV>,
    EvalErrV,
> {
    match frame_of(frames, env) {
        Some(i) => Ok(frames.update(i, frame_insert(frames[i], name, value))),
        None => Err(EvalErrV::NilEnv),
    }
}

/// The frames after the nearest binding of `name`, seen from `env`, was set to
/// `value`.
pub open spec fn assign(frames: Seq<EnvV>, env: EnvRef, name: Seq<char>, value: ExprV) -> Result<
    Seq<EnvV>,
    EvalErrV,
> {
    match frame_of(frames, env) {
        Some(i) => match binding_frame(frames, i, name) {
            Some(f) => Ok(frames.update(f, frame_insert(frames[f], name, value))),
            None => Err(EvalErrV::UnboundVar(name)),
        },
        None => Err(EvalErrV::UnboundVar(name)),
    }
}

/// The frame with the parameters from `i` on bound to their arguments, one
/// after the other.
pub open spec fn bind_all(frame: EnvV, params: Seq<Seq<char>>, args: Seq<ExprV>, i: int) -> EnvV
    decreases params.len() - i,
{
    if i < 0 || i >= params.len() || i >= args.len() {
        frame
    } else {
        bind_all(frame_insert(frame, params[i], args[i]), params, args, i + 1)
    }
}

/// The frames with a new frame that extends `parent` and binds the
/// parameters to the arguments, and the reference to the new frame.
pub open spec fn extend(
    frames: Seq<EnvV>,
    parent: EnvRef,
    params: Seq<Seq<char>>,
    args: Seq<ExprV>,
) -> (Seq<EnvV>, EnvRef) {
    (
        frames.push(
            bind_all(EnvV { parent, names: Seq::empty(), values: Seq::empty() }, params, args, 0),
        ),
        EnvRef(Some(frames.len() as usize)),
    )
}

impl Env {
    /// An empty frame that extends `parent`.
    pub fn new(parent: EnvRef) -> (env: Env)
        ensures
            env@ == (EnvV { parent, names: Seq::empty(), values: Seq::empty() }),
    {
        let env = Env { parent, names: Vec::new(), values: Vec::new() };
        assert(env@.names =~= Seq::empty());
        assert(env@.values =~= Seq::empty());
        env
    }

    /// The position of the binding of `name` in this frame.
    fn find(&self, name: &str) -> (r: Option<usize>)
        ensures
            match r {
                Some(i) => find_from(self@.names, name@, 0) == Some(i as int) && i
                    < self.names.len(),
                None => find_from(self@.names, name@, 0) is None,
            },
    {
        let mut i: usize = 0;
        let wanted = String::from_str(name);
        while i < self.names.len()
            invariant
                i <= self.names.len(),
                wanted@ == name@,
                find_from(self@.names, name@, 0) == find_from(self@.names, name@, i as int),
            decreases self.names.len() - i,
        {
            if self.names[i] == wanted {
                return Some(i);
            }
            i += 1;
        }
        None
    }

    /// What `name` is bound to in this frame itself.
    pub fn get_val(&self, name: &str) -> (r: Option<Expr>)
        ensures
            match r {
                Some(v) => frame_lookup(self@, name@) == Some(v@),
                None => frame_lookup(self@, name@) is None,
            },
    {
        match self.find(name) {
            Some(i) => if i < self.values.len() {
                Some(self.values[i].clone())
            } else {
                None
            },
            None => None,
        }
    }

    /// Binds `name` to `val` in this frame.
    pub fn insert_val(&mut self, name: String, val: Expr)
        ensures
            final(self)@ == frame_insert(old(self)@, name@, val@),
    {
        let found = self.find(name.as_str());
        match found {
            Some(i) => {
                if i < self.values.len() {
                    proof {
                        assert(seq_view(self.values@.update(i as int, val)) =~= seq_view(
                            self.values@,
                        ).update(i as int, val@));
                    }
                    self.values.set(i, val);
                    return ;
                }
            },
            None => {},
        }
        proof {
            lemma_push_view(self.values@, val);
            assert(names_view(self.names)
                =~= old(self)@.names);
        }
        let ghost before = names_view(self.names);
        self.names.push(name);
        self.values.push(val);
        assert(names_view(self.names) =~= before.push(name@));
    }
}

impl EnvRef {
    /// The reference to no frame.
    pub fn nil() -> (env: EnvRef)
        ensures
            env.0 is None,
    {
        EnvRef(None)
    }

    /// This reference, where it refers to a frame at all.
    pub fn clone_rc(&self) -> (r: Result<EnvRef, EvalErr>)
        ensures
            match r {
                Ok(env) => self.0 is Some && env == *self,
                Err(e) => self.0 is None && e@ == EvalErrV::NilEnv,
            },
    {
        match self.0 {
            Some(_) => Ok(*self),
            None => Err(EvalErr::NilEnv),
        }
    }

    /// The frame that this refers to, where there is one.
    pub fn get_env<'a>(&self, frames: &'a Vec<Env>) -> (r: Option<&'a Env>)
        ensures
            match r {
                Some(env) => frame_of(frames_view(frames@), *self) is Some && env@ == frames_view(
                    frames@,
                )[frame_of(frames_view(frames@), *self)->0],
                None => frame_of(frames_view(frames@), *self) is None,
            },
    {
        match self.frame(frames) {
            Some(i) => Some(&frames[i]),
            None => None,
        }
    }

    /// Stores `env` as a new frame and returns the reference to it.
    pub fn new(env: Env, frames: &mut Vec<Env>) -> (r: EnvRef)
        ensures
            frames_view(final(frames)@) == frames_view(old(frames)@).push(env@),
            r == EnvRef(Some(old(frames).len())),
    {
        let index = frames.len();
        frames.push(env);
        assert(frames_view(frames@) =~= frames_view(old(frames)@).push(env@));
        EnvRef(Some(index))
    }

    /// The position of the frame that this refers to.
    fn frame(&self, frames: &Vec<Env>) -> (r: Option<usize>)
        ensures
            match r {
                Some(i) => frame_of(frames_view(frames@), *self) == Some(i as int),
                None => frame_of(frames_view(frames@), *self) is None,
            },
    {
        match self.0 {
            Some(i) => if i < frames.len() {
                Some(i)
            } else {
                None
            },
            None => None,
        }
    }

    /// The nearest frame, from this one outwards, that binds `name`.
    fn binding(&self, frames: &Vec<Env>, name: &str) -> (r: Option<usize>)
        ensures
            match frame_of(frames_view(frames@), *self) {
                Some(i) => match r {
                    Some(f) => binding_frame(frames_view(frames@), i, name@) == Some(f as int) && f
                        < frames.len() && frame_lookup(frames_view(frames@)[f as int], name@)
                        is Some,
                    None => binding_frame(frames_view(frames@), i, name@) is None,
                },
                None => r is None,
            },
    {
        let mut at: usize = match self.frame(frames) {
            Some(i) => i,
            None => {
                return None;
            },
        };
        let ghost start = at as int;
        let ghost all = frames_view(frames@);
        loop
            invariant
                at < frames.len(),
                all == frames_view(frames@),
                frame_of(all, *self) == Some(start),
                binding_frame(all, start, name@) == binding_frame(all, at as int, name@),
            decreases at,
        {
            if frames[at].get_val(name).is_some() {
                return Some(at);
            }
            let parent = frames[at].parent;
            match parent.frame(frames) {
                Some(p) => {
                    if p < at {
                        at = p;
                    } else {
                        return None;
                    }
                },
                None => {
                    return None;
                },
            }
        }
    }

    /// What `name` is bound to, seen from this frame.
    pub fn get_val(&self, frames: &Vec<Env>, name: &str) -> (r: Result<Expr, EvalErr>)
        ensures
            expr_result_view(r) == lookup(frames_view(frames@), *self, name@),
    {
        match self.binding(frames, name) {
            Some(f) => match frames[f].get_val(name) {
                Some(v) => Ok(v),
                None => Err(EvalErr::UnboundVar(String::from_str(name))),
            },
            None => Err(EvalErr::UnboundVar(String::from_str(name))),
        }
    }

    /// Binds `name` to `val` in this frame itself.
    pub fn insert_val(&self, frames: &mut Vec<Env>, name: String, val: Expr) -> (r: Result<
        (),
        EvalErr,
    >)
        ensures
            match define_local(frames_view(old(frames)@), *self, name@, val@) {
                Ok(after) => r is Ok && frames_view(final(frames)@) == after,
                Err(e) => r is Err && r->Err_0@ == e && frames_view(final(frames)@) == frames_view(
                    old(frames)@,
                ),
            },
    {
        match self.frame(frames) {
            Some(i) => {
                let ghost before = frames_view(frames@);
                let mut frame = Env::new(EnvRef::nil());
                swap_frame(frames, i, &mut frame);
                frame.insert_val(name, val);
                swap_frame(frames, i, &mut frame);
                assert(frames_view(frames@) =~= before.update(
                    i as int,
                    frame_insert(before[i as int], name@, val@),
                ));
                Ok(())
            },
            None => Err(EvalErr::NilEnv),
        }
    }

    /// Sets the nearest binding of `name`, seen from this frame, to `val`.
    pub fn update_val(&self, frames: &mut Vec<Env>, name: String, val: Expr) -> (r: Result<
        (),
        EvalErr,
    >)
        ensures
            match assign(frames_view(old(frames)@), *self, name@, val@) {
                Ok(after) => r is Ok && frames_view(final(frames)@) == after,
                Err(e) => r is Err && r->Err_0@ == e && frames_view(final(frames)@) == frames_view(
                    old(frames)@,
                ),
            },
    {
        match self.binding(frames, name.as_str()) {
            Some(f) => {
                let ghost before = frames_view(frames@);
                let mut frame = Env::new(EnvRef::nil());
                swap_frame(frames, f, &mut frame);
                frame.insert_val(name, val);
                swap_frame(frames, f, &mut frame);
                assert(frames_view(frames@) =~= before.update(
                    f as int,
                    frame_insert(before[f as int], name@, val@),
                ));
                Ok(())
            },
            None => Err(EvalErr::UnboundVar(name)),
        }
    }

    /// Makes a new frame that extends this one and binds the parameters to
    /// the arguments, as far as both go.
    pub fn extend(&self, frames: &mut Vec<Env>, params: &Vec<String>, args: &Vec<Expr>) -> (r:
        EnvRef)
        ensures
            (frames_view(final(frames)@), r) == extend(
                frames_view(old(frames)@),
                *self,
                names_view(*params),
                exprs_view(*args),
            ),
    {
        let mut frame = Env::new(*self);
        let mut i: usize = 0;
        let ghost first = frame@;
        while i < params.len() && i < args.len()
            invariant
                i <= params.len(),
                i <= args.len(),
                bind_all(first, names_view(*params), exprs_view(*args), 0) == bind_all(
                    frame@,
                    names_view(*params),
                    exprs_view(*args),
                    i as int,
                ),
            decreases params.len() - i,
        {
            frame.insert_val(params[i].clone(), args[i].clone());
            i += 1;
        }
        EnvRef::new(frame, frames)
    }
}

/// Exchanges the frame at position `i` with `frame`.
fn swap_frame(frames: &mut Vec<Env>, i: usize, frame: &mut Env)
    requires
        i < old(frames).len(),
    ensures
        final(frames)@ == old(frames)@.update(i as int, *old(frame)),
        *final(frame) == old(frames)@[i as int],
{
    let mut taken = Env { parent: EnvRef(None), names: Vec::new(), values: Vec::new() };
    std::mem::swap(&mut taken, frame);
    frames.push(taken);
    let last = frames.len() - 1;
    let out = frames.swap_remove(i);
    *frame = out;
    proof {
        assert(frames@ =~= old(frames)@.update(i as int, *old(frame)));
    }
}


/// The native procedures, in the order in which a global frame binds them.
pub open spec fn all_natives() -> Seq<Native> {
    seq![
        Native::Apply,
        Native::Add,
        Native::Subtract,
        Native::Multiply,
        Native::Divide,
        Native::Equality,
        Native::GreaterThan,
        Native::GreaterThanOrEq,
        Native::LessThan,
        Native::LessThanOrEq,
        Native::Remainder,
        Native::Modulo,
        Native::Cons,
        Native::Car,
        Native::Cdr,
        Native::SetCar,
        Native::SetCdr,
        Native::List,
        Native::Display,
        Native::Error,
        Native::Equal,
        Native::Not,
        Native::Symbol,
        Native::String,
        Native::Number,
        Native::Pair,
        Native::Null,
    ]
}

/// The native procedure `n` as a value.
pub open spec fn native_value(n: Native) -> ExprV {
    ExprV::Proc(Box::new(ProcV::Primitive(n)))
}

/// The frame with the native procedures from `i` on bound to their names.
pub open spec fn bind_natives(frame: EnvV, natives: Seq<Native>, i: int) -> EnvV
    decreases natives.len() - i,
{
    if i < 0 || i >= natives.len() {
        frame
    } else {
        bind_natives(
            frame_insert(frame, native_name(natives[i]), native_value(natives[i])),
            natives,
            i + 1,
        )
    }
}

/// A global frame: every native procedure under its name, and structural
/// equality under the name `eq?` as well.
pub open spec fn global_frame() -> EnvV {
    frame_insert(
        bind_natives(
            EnvV { parent: EnvRef(None), names: Seq::empty(), values: Seq::empty() },
            all_natives(),
            0,
        ),
        "eq?"@,
        native_value(Native::Equal),
    )
}

/// What the import of the prelude gives: the error of lexing or parsing it,
/// or what each of its definitions came to.
pub open spec fn import_spec(m: InterpV, env: EnvRef, fuel: nat) -> (
    InterpV,
    Result<Seq<OutcomeV>, EvalErrV>,
) {
    match lex_outcome(PRELUDE@, 0) {
        Err(e) => (m, Err(e)),
        Ok(tokens) => {
            let parsed = parse_program(tokens, 0, m.heap);
            let with_data = InterpV {
                heap: parsed.heap,
                frames: m.frames,
                stack: m.stack,
                control: m.control,
                output: m.output,
            };
            match parsed.result {
                Err(e) => (with_data, Err(e)),
                Ok(exprs) => {
                    let (after, outcomes) = eval_all_spec(with_data, exprs, 0, env, fuel);
                    (after, Ok(outcomes))
                },
            }
        },
    }
}

fn natives() -> (r: Vec<Native>)
    ensures
        r@ == all_natives(),
{
    let r = vec![
        Native::Apply,
        Native::Add,
        Native::Subtract,
        Native::Multiply,
        Native::Divide,
        Native::Equality,
        Native::GreaterThan,
        Native::GreaterThanOrEq,
        Native::LessThan,
        Native::LessThanOrEq,
        Native::Remainder,
        Native::Modulo,
        Native::Cons,
        Native::Car,
        Native::Cdr,
        Native::SetCar,
        Native::SetCdr,
        Native::List,
        Native::Display,
        Native::Error,
        Native::Equal,
        Native::Not,
        Native::Symbol,
        Native::String,
        Native::Number,
        Native::Pair,
        Native::Null,
    ];
    assert(r@ =~= all_natives());
    r
}

fn native_expr(n: Native) -> (r: Expr)
    ensures
        r@ == native_value(n),
{
    Expr::Proc(Rc::new(Primitive::new(n)))
}

impl EnvRef {
    /// Makes a global frame and returns the reference to it.
    pub fn global(frames: &mut Vec<Env>) -> (r: EnvRef)
        ensures
            frames_view(final(frames)@) == frames_view(old(frames)@).push(global_frame()),
            r == EnvRef(Some(old(frames).len())),
    {
        let env = Env::new(EnvRef::nil());
        Self::install_primitives(env, frames)
    }

    /// Binds the native procedures in `env` and stores it as a new frame.
    fn install_primitives(env: Env, frames: &mut Vec<Env>) -> (r: EnvRef)
        ensures
            frames_view(final(frames)@) == frames_view(old(frames)@).push(
                frame_insert(
                    bind_natives(env@, all_natives(), 0),
                    "eq?"@,
                    native_value(Native::Equal),
                ),
            ),
            r == EnvRef(Some(old(frames).len())),
    {
        let mut env = env;
        let primitives = natives();
        let ghost first = env@;
        let mut i: usize = 0;
        while i < primitives.len()
            invariant
                i <= primitives.len(),
                primitives@ == all_natives(),
                bind_natives(first, all_natives(), 0) == bind_natives(
                    env@,
                    all_natives(),
                    i as int,
                ),
            decreases primitives.len() - i,
        {
            let native = primitives[i];
            env.insert_val(String::from_str(native.name()), native_expr(native));
            i += 1;
        }
        env.insert_val(String::from_str("eq?"), native_expr(Native::Equal));
        EnvRef::new(env, frames)
    }

    /// Evaluates the definitions of the prelude in this environment, for at
    /// most `fuel` steps each: the error of lexing or parsing the prelude, or
    /// what each definition came to.
    pub fn import_prelude(&self, interp: &mut Interp, fuel: usize) -> (r: Result<
        Vec<Outcome>,
        EvalErr,
    >)
        ensures
            final(interp)@ == import_spec(old(interp)@, *self, fuel as nat).0,
            match r {
                Ok(outcomes) => import_spec(old(interp)@, *self, fuel as nat).1 == Ok::<
                    Seq<OutcomeV>,
                    EvalErrV,
                >(outcomes_view(outcomes)),
                Err(e) => import_spec(old(interp)@, *self, fuel as nat).1 == Err::<
                    Seq<OutcomeV>,
                    EvalErrV,
                >(e@),
            },
    {
        let tokens = match TokenStream::new(PRELUDE).collect_tokens() {
            Ok(tokens) => tokens,
            Err(e) => {
                return Err(e);
            },
        };
        let exprs = match Parser::new(tokens).parse(&mut interp.heap) {
            Ok(exprs) => exprs,
            Err(e) => {
                return Err(e);
            },
        };
        Ok(eval_all(interp, &exprs, self, fuel))
    }
}

} // verus!
