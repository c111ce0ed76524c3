//! Laws of references: a machine whose references all lead somewhere stays
//! such a machine, whatever it does.
use vstd::prelude::*;
use crate::enviroment::{
    EnvRef, EnvV, all_natives, bind_all, bind_natives, binding_frame, extend, frame_insert,
    frame_of, global_frame, lookup, native_value,
};
use crate::evaluator::{
    ControlV, InterpV, KontV, answer_spec, apply_procedure, continue_with, drive_spec, eval_expr,
    eval_form, load_spec, ret, step_spec, terminal, with_control,
};
use crate::laws::frames::{lemma_binding_in_range, lemma_find_bounds};
use crate::laws::pairs::{extends, lemma_heap_list_extends};
use crate::laws::parsing::{
    lemma_expr_extends, lemma_item_extends, lemma_items_extend, lemma_program_extends,
};
use crate::laws::running::law_work_only_grows;
use crate::lexer::TokenV;
use crate::parser::{
    ExprV, Items, build_form, cond_to_if_spec, is_form_keyword, let_to_lambda_spec, parameter_list,
    parse_expr, parse_item, parse_items, parse_list, parse_program, parse_quote, special,
    unzip_spec,
};
use crate::primitives::native_spec;
use crate::primitives::pair::{PairV, car_spec, cdr_spec, heap_list, set_car_spec, set_cdr_spec};
use crate::procedure::{Native, ProcV, native_name};
use crate::special_form::SpecialFormV;

verus! {

/// Whether `env` refers to one of the first `frames` frames, or to none.
pub open spec fn env_ok(env: EnvRef, frames: nat) -> bool {
    match env.0 {
        Some(i) => i < frames,
        None => true,
    }
}

/// Whether every reference in the expressions leads somewhere.
pub open spec fn all_valid(items: Seq<ExprV>, cells: nat, frames: nat) -> bool
    decreases items,
{
    forall|i: int| 0 <= i < items.len() ==> valid(#[trigger] items[i], cells, frames)
}

/// Whether every reference in `e` leads somewhere: every reference to a pair
/// to one of the first `cells` cells, and the environment of every closure to
/// one of the first `frames` frames.
pub open spec fn valid(e: ExprV, cells: nat, frames: nat) -> bool
    decreases e,
{
    match e {
        ExprV::Pair(r) => r.index < cells,
        ExprV::Quoted(x) => valid(*x, cells, frames),
        ExprV::Call(items) => all_valid(items, cells, frames),
        ExprV::Proc(p) => match *p {
            ProcV::Primitive(_) => true,
            ProcV::Compound { params, body, env } => env_ok(env, frames) && all_valid(
                body,
                cells,
                frames,
            ),
        },
        ExprV::SpecialForm(f) => match *f {
            SpecialFormV::And(body) => all_valid(body, cells, frames),
            SpecialFormV::Assignment(identifier, value) => valid(identifier, cells, frames)
                && valid(value, cells, frames),
            SpecialFormV::Begin(exprs) => all_valid(exprs, cells, frames),
            SpecialFormV::Cond(clauses) => all_valid(clauses, cells, frames),
            SpecialFormV::Define(identifier, value) => valid(identifier, cells, frames) && valid(
                value,
                cells,
                frames,
            ),
            SpecialFormV::If(predicate, consequence, alternative) => valid(
                predicate,
                cells,
                frames,
            ) && valid(consequence, cells, frames) && valid(alternative, cells, frames),
            SpecialFormV::Lambda(params, body) => valid(params, cells, frames) && all_valid(
                body,
                cells,
                frames,
            ),
            SpecialFormV::Let(bindings, body) => valid(bindings, cells, frames) && all_valid(
                body,
                cells,
                frames,
            ),
            SpecialFormV::Or(body) => all_valid(body, cells, frames),
        },
        _ => true,
    }
}

/// Whether every reference in a continuation leads somewhere.
pub open spec fn kont_valid(k: KontV, cells: nat, frames: nat) -> bool {
    match k {
        KontV::Call { exprs, next, done, env } => all_valid(exprs, cells, frames) && all_valid(
            done,
            cells,
            frames,
        ) && env_ok(env, frames),
        KontV::Sequence { kind, exprs, next, env } => all_valid(exprs, cells, frames) && env_ok(
            env,
            frames,
        ),
        KontV::If { consequence, alternative, env } => valid(consequence, cells, frames) && valid(
            alternative,
            cells,
            frames,
        ) && env_ok(env, frames),
        KontV::Define { name, env } => env_ok(env, frames),
        KontV::Assign { name, env } => env_ok(env, frames),
        KontV::Fold { op, nums, next, finish } => true,
    }
}

/// Whether every reference in a control leads somewhere.
pub open spec fn control_valid(c: ControlV, cells: nat, frames: nat) -> bool {
    match c {
        ControlV::Eval(e, env) => valid(e, cells, frames) && env_ok(env, frames),
        ControlV::Apply(callee, args) => valid(callee, cells, frames) && all_valid(
            args,
            cells,
            frames,
        ),
        ControlV::Return(v) => valid(v, cells, frames),
        _ => true,
    }
}

/// Whether the frame at position `index` is in order: each name has its
/// value, the frame it extends is an older one, and every reference in its
/// values leads somewhere.
pub open spec fn frame_valid(frame: EnvV, index: int, cells: nat, frames: nat) -> bool {
    &&& frame.names.len() == frame.values.len()
    &&& match frame.parent.0 {
        Some(p) => p < index,
        None => true,
    }
    &&& all_valid(frame.values, cells, frames)
}

/// Whether the heap and the frames are in order.
pub open spec fn store_valid(heap: Seq<PairV>, frames: Seq<EnvV>) -> bool {
    &&& heap.len() <= usize::MAX
    &&& frames.len() <= usize::MAX
    &&& forall|i: int|
        0 <= i < heap.len() ==> valid((#[trigger] heap[i]).car, heap.len(), frames.len()) && valid(
            heap[i].cdr,
            heap.len(),
            frames.len(),
        )
    &&& forall|i: int|
        0 <= i < frames.len() ==> frame_valid(#[trigger] frames[i], i, heap.len(), frames.len())
}

/// Whether the machine is in order: every reference in it leads somewhere.
pub open spec fn machine_valid(m: InterpV) -> bool {
    &&& store_valid(m.heap, m.frames)
    &&& forall|i: int|
        0 <= i < m.stack.len() ==> kont_valid(#[trigger] m.stack[i], m.heap.len(), m.frames.len())
    &&& control_valid(m.control, m.heap.len(), m.frames.len())
}

proof fn lemma_valid_grows(e: ExprV, cells: nat, frames: nat, more_cells: nat, more_frames: nat)
    requires
        valid(e, cells, frames),
        cells <= more_cells,
        frames <= more_frames,
    ensures
        valid(e, more_cells, more_frames),
    decreases e,
{
    match e {
        ExprV::Quoted(x) => lemma_valid_grows(*x, cells, frames, more_cells, more_frames),
        ExprV::Call(items) => lemma_all_grow(items, cells, frames, more_cells, more_frames),
        ExprV::Proc(p) => match *p {
            ProcV::Compound { params, body, env } => lemma_all_grow(
                body,
                cells,
                frames,
                more_cells,
                more_frames,
            ),
            _ => {},
        },
        ExprV::SpecialForm(f) => match *f {
            SpecialFormV::And(body) => lemma_all_grow(body, cells, frames, more_cells, more_frames),
            SpecialFormV::Assignment(identifier, value) => {
                lemma_valid_grows(identifier, cells, frames, more_cells, more_frames);
                lemma_valid_grows(value, cells, frames, more_cells, more_frames);
            },
            SpecialFormV::Begin(exprs) => lemma_all_grow(
                exprs,
                cells,
                frames,
                more_cells,
                more_frames,
            ),
            SpecialFormV::Cond(clauses) => lemma_all_grow(
                clauses,
                cells,
                frames,
                more_cells,
                more_frames,
            ),
            SpecialFormV::Define(identifier, value) => {
                lemma_valid_grows(identifier, cells, frames, more_cells, more_frames);
                lemma_valid_grows(value, cells, frames, more_cells, more_frames);
            },
            SpecialFormV::If(predicate, consequence, alternative) => {
                lemma_valid_grows(predicate, cells, frames, more_cells, more_frames);
                lemma_valid_grows(consequence, cells, frames, more_cells, more_frames);
                lemma_valid_grows(alternative, cells, frames, more_cells, more_frames);
            },
            SpecialFormV::Lambda(params, body) => {
                lemma_valid_grows(params, cells, frames, more_cells, more_frames);
                lemma_all_grow(body, cells, frames, more_cells, more_frames);
            },
            SpecialFormV::Let(bindings, body) => {
                lemma_valid_grows(bindings, cells, frames, more_cells, more_frames);
                lemma_all_grow(body, cells, frames, more_cells, more_frames);
            },
            SpecialFormV::Or(body) => lemma_all_grow(body, cells, frames, more_cells, more_frames),
        },
        _ => {},
    }
}

proof fn lemma_all_grow(
    items: Seq<ExprV>,
    cells: nat,
    frames: nat,
    more_cells: nat,
    more_frames: nat,
)
    requires
        all_valid(items, cells, frames),
        cells <= more_cells,
        frames <= more_frames,
    ensures
        all_valid(items, more_cells, more_frames),
    decreases items,
{
    assert forall|i: int| 0 <= i < items.len() implies valid(
        #[trigger] items[i],
        more_cells,
        more_frames,
    ) by {
        lemma_valid_grows(items[i], cells, frames, more_cells, more_frames);
    }
}

/// References that lead somewhere keep doing so when cells and frames are
/// added.
pub proof fn law_validity_lasts(
    e: ExprV,
    cells: nat,
    frames: nat,
    more_cells: nat,
    more_frames: nat,
)
    requires
        valid(e, cells, frames),
        cells <= more_cells,
        frames <= more_frames,
    ensures
        valid(e, more_cells, more_frames),
{
    lemma_valid_grows(e, cells, frames, more_cells, more_frames);
}


/// Whether every continuation of the stack is in order.
pub open spec fn stack_valid(stack: Seq<KontV>, cells: nat, frames: nat) -> bool {
    forall|i: int| 0 <= i < stack.len() ==> kont_valid(#[trigger] stack[i], cells, frames)
}

proof fn lemma_kont_grows(k: KontV, cells: nat, frames: nat, more_cells: nat, more_frames: nat)
    requires
        kont_valid(k, cells, frames),
        cells <= more_cells,
        frames <= more_frames,
    ensures
        kont_valid(k, more_cells, more_frames),
{
    match k {
        KontV::Call { exprs, next, done, env } => {
            lemma_all_grow(exprs, cells, frames, more_cells, more_frames);
            lemma_all_grow(done, cells, frames, more_cells, more_frames);
        },
        KontV::Sequence { kind, exprs, next, env } => {
            lemma_all_grow(exprs, cells, frames, more_cells, more_frames);
        },
        KontV::If { consequence, alternative, env } => {
            lemma_valid_grows(consequence, cells, frames, more_cells, more_frames);
            lemma_valid_grows(alternative, cells, frames, more_cells, more_frames);
        },
        _ => {},
    }
}

proof fn lemma_stack_grows(
    stack: Seq<KontV>,
    cells: nat,
    frames: nat,
    more_cells: nat,
    more_frames: nat,
)
    requires
        stack_valid(stack, cells, frames),
        cells <= more_cells,
        frames <= more_frames,
    ensures
        stack_valid(stack, more_cells, more_frames),
{
    assert forall|i: int| 0 <= i < stack.len() implies kont_valid(
        #[trigger] stack[i],
        more_cells,
        more_frames,
    ) by {
        lemma_kont_grows(stack[i], cells, frames, more_cells, more_frames);
    }
}

/// Whether the heap and the frames are in order but for their sizes, which
/// are taken to be `cells` and `frames`.
pub open spec fn contents_valid(heap: Seq<PairV>, store: Seq<EnvV>, cells: nat, frames: nat) -> bool {
    &&& forall|i: int|
        0 <= i < heap.len() ==> valid((#[trigger] heap[i]).car, cells, frames) && valid(
            heap[i].cdr,
            cells,
            frames,
        )
    &&& forall|i: int| 0 <= i < store.len() ==> frame_valid(#[trigger] store[i], i, cells, frames)
}

proof fn lemma_contents_grow(
    heap: Seq<PairV>,
    store: Seq<EnvV>,
    cells: nat,
    frames: nat,
    more_cells: nat,
    more_frames: nat,
)
    requires
        contents_valid(heap, store, cells, frames),
        cells <= more_cells,
        frames <= more_frames,
    ensures
        contents_valid(heap, store, more_cells, more_frames),
{
    assert forall|i: int| 0 <= i < heap.len() implies valid(
        (#[trigger] heap[i]).car,
        more_cells,
        more_frames,
    ) && valid(heap[i].cdr, more_cells, more_frames) by {
        lemma_valid_grows(heap[i].car, cells, frames, more_cells, more_frames);
        lemma_valid_grows(heap[i].cdr, cells, frames, more_cells, more_frames);
    }
    assert forall|i: int| 0 <= i < store.len() implies frame_valid(
        #[trigger] store[i],
        i,
        more_cells,
        more_frames,
    ) by {
        lemma_all_grow(store[i].values, cells, frames, more_cells, more_frames);
    }
}

proof fn lemma_insert_valid(
    frame: EnvV,
    index: int,
    name: Seq<char>,
    value: ExprV,
    cells: nat,
    frames: nat,
)
    requires
        frame_valid(frame, index, cells, frames),
        valid(value, cells, frames),
    ensures
        frame_valid(frame_insert(frame, name, value), index, cells, frames),
{
    lemma_find_bounds(frame.names, name, 0);
    let after = frame_insert(frame, name, value);
    assert forall|i: int| 0 <= i < after.values.len() implies valid(
        #[trigger] after.values[i],
        cells,
        frames,
    ) by {
        if i < frame.values.len() && after.values[i] != value {
            assert(after.values[i] == frame.values[i]);
        }
    }
}

proof fn lemma_bind_all_valid(
    frame: EnvV,
    index: int,
    params: Seq<Seq<char>>,
    args: Seq<ExprV>,
    i: int,
    cells: nat,
    frames: nat,
)
    requires
        frame_valid(frame, index, cells, frames),
        all_valid(args, cells, frames),
        0 <= i,
    ensures
        frame_valid(bind_all(frame, params, args, i), index, cells, frames),
    decreases params.len() - i,
{
    if i < params.len() && i < args.len() {
        lemma_insert_valid(frame, index, params[i], args[i], cells, frames);
        lemma_bind_all_valid(
            frame_insert(frame, params[i], args[i]),
            index,
            params,
            args,
            i + 1,
            cells,
            frames,
        );
    }
}

proof fn lemma_lookup_valid(heap: Seq<PairV>, store: Seq<EnvV>, env: EnvRef, name: Seq<char>)
    requires
        store_valid(heap, store),
    ensures
        lookup(store, env, name) is Ok ==> valid(
            lookup(store, env, name)->Ok_0,
            heap.len(),
            store.len(),
        ),
{
    match frame_of(store, env) {
        Some(i) => {
            lemma_binding_in_range(store, i, name);
            match binding_frame(store, i, name) {
                Some(f) => {
                    lemma_find_bounds(store[f].names, name, 0);
                    assert(frame_valid(store[f], f, heap.len(), store.len()));
                },
                None => {},
            }
        },
        None => {},
    }
}

proof fn lemma_tail_valid(items: Seq<ExprV>, from: int, cells: nat, frames: nat)
    requires
        all_valid(items, cells, frames),
        0 <= from <= items.len(),
    ensures
        all_valid(items.subrange(from, items.len() as int), cells, frames),
{
    let tail = items.subrange(from, items.len() as int);
    assert forall|i: int| 0 <= i < tail.len() implies valid(#[trigger] tail[i], cells, frames) by {
        assert(tail[i] == items[from + i]);
    }
}

proof fn lemma_special_valid(f: SpecialFormV, cells: nat, frames: nat)
    requires
        valid(ExprV::SpecialForm(Box::new(f)), cells, frames),
    ensures
        valid(special(f), cells, frames),
{
    reveal_with_fuel(valid, 2);
    reveal_with_fuel(all_valid, 2);
    assert(special(f)->Call_0[0] == ExprV::SpecialForm(Box::new(f)));
}

proof fn lemma_cond_valid(clauses: Seq<ExprV>, i: int, cells: nat, frames: nat)
    requires
        all_valid(clauses, cells, frames),
        0 <= i,
    ensures
        cond_to_if_spec(clauses, i) is Ok ==> valid(
            cond_to_if_spec(clauses, i)->Ok_0,
            cells,
            frames,
        ),
    decreases clauses.len() - i,
{
    reveal_with_fuel(valid, 2);
    if i < clauses.len() {
        match clauses[i] {
            ExprV::Call(parts) => {
                if parts.len() > 0 {
                    assert(valid(clauses[i], cells, frames));
                    assert(all_valid(parts, cells, frames));
                    lemma_tail_valid(parts, 1, cells, frames);
                    let body = parts.subrange(1, parts.len() as int);
                    assert(valid(
                        ExprV::SpecialForm(Box::new(SpecialFormV::Begin(body))),
                        cells,
                        frames,
                    ));
                    lemma_special_valid(SpecialFormV::Begin(body), cells, frames);
                    lemma_cond_valid(clauses, i + 1, cells, frames);
                    if cond_to_if_spec(clauses, i) is Ok && parts[0] != ExprV::Atom(
                        TokenV::Else,
                    ) {
                        let alternative = cond_to_if_spec(clauses, i + 1)->Ok_0;
                        let form = SpecialFormV::If(
                            parts[0],
                            special(SpecialFormV::Begin(body)),
                            alternative,
                        );
                        assert(valid(parts[0], cells, frames));
                        assert(valid(ExprV::SpecialForm(Box::new(form)), cells, frames));
                        lemma_special_valid(form, cells, frames);
                    }
                }
            },
            _ => {},
        }
    }
}

proof fn lemma_unzip_valid(bindings: Seq<ExprV>, i: int, cells: nat, frames: nat)
    requires
        all_valid(bindings, cells, frames),
        0 <= i,
    ensures
        unzip_spec(bindings, i) is Ok ==> all_valid(unzip_spec(bindings, i)->Ok_0.0, cells, frames)
            && all_valid(unzip_spec(bindings, i)->Ok_0.1, cells, frames),
    decreases bindings.len() - i,
{
    reveal_with_fuel(valid, 2);
    if i < bindings.len() {
        match bindings[i] {
            ExprV::Call(binding) => {
                if binding.len() == 2 {
                    lemma_unzip_valid(bindings, i + 1, cells, frames);
                    if unzip_spec(bindings, i + 1) is Ok {
                        let (names, values) = unzip_spec(bindings, i + 1)->Ok_0;
                        assert(valid(bindings[i], cells, frames));
                        assert(valid(binding[0], cells, frames) && valid(
                            binding[1],
                            cells,
                            frames,
                        ));
                        assert forall|j: int|
                            0 <= j < (seq![binding[0]] + names).len() implies valid(
                            #[trigger] (seq![binding[0]] + names)[j],
                            cells,
                            frames,
                        ) by {
                            if j > 0 {
                                assert((seq![binding[0]] + names)[j] == names[j - 1]);
                            }
                        }
                        assert forall|j: int|
                            0 <= j < (seq![binding[1]] + values).len() implies valid(
                            #[trigger] (seq![binding[1]] + values)[j],
                            cells,
                            frames,
                        ) by {
                            if j > 0 {
                                assert((seq![binding[1]] + values)[j] == values[j - 1]);
                            }
                        }
                    }
                }
            },
            _ => {},
        }
    } else {
        assert(all_valid(Seq::<ExprV>::empty(), cells, frames));
    }
}

proof fn lemma_let_valid(bindings: ExprV, body: Seq<ExprV>, cells: nat, frames: nat)
    requires
        valid(bindings, cells, frames),
        all_valid(body, cells, frames),
    ensures
        let_to_lambda_spec(bindings, body) is Ok ==> all_valid(
            let_to_lambda_spec(bindings, body)->Ok_0,
            cells,
            frames,
        ),
{
    reveal_with_fuel(valid, 2);
    match bindings {
        ExprV::Call(list) => {
            lemma_unzip_valid(list, 0, cells, frames);
            if unzip_spec(list, 0) is Ok {
                let (names, values) = unzip_spec(list, 0)->Ok_0;
                let lambda = SpecialFormV::Lambda(ExprV::Call(names), body);
                assert(valid(ExprV::Call(names), cells, frames));
                assert(valid(ExprV::SpecialForm(Box::new(lambda)), cells, frames));
                lemma_special_valid(lambda, cells, frames);
                let call = seq![special(lambda)] + values;
                assert forall|j: int| 0 <= j < call.len() implies valid(
                    #[trigger] call[j],
                    cells,
                    frames,
                ) by {
                    if j > 0 {
                        assert(call[j] == values[j - 1]);
                    }
                }
            }
        },
        _ => {},
    }
}

proof fn lemma_eval_form_valid(m: InterpV, f: SpecialFormV, env: EnvRef)
    requires
        store_valid(m.heap, m.frames),
        stack_valid(m.stack, m.heap.len(), m.frames.len()),
        valid(ExprV::SpecialForm(Box::new(f)), m.heap.len(), m.frames.len()),
        env_ok(env, m.frames.len()),
    ensures
        machine_valid(eval_form(m, f, env)),
{
    reveal_with_fuel(valid, 2);
    let cells = m.heap.len();
    let frames = m.frames.len();
    match f {
        SpecialFormV::Cond(clauses) => lemma_cond_valid(clauses, 0, cells, frames),
        SpecialFormV::Let(bindings, body) => lemma_let_valid(bindings, body, cells, frames),
        _ => {},
    }
}

proof fn lemma_eval_valid(m: InterpV, e: ExprV, env: EnvRef)
    requires
        store_valid(m.heap, m.frames),
        stack_valid(m.stack, m.heap.len(), m.frames.len()),
        valid(e, m.heap.len(), m.frames.len()),
        env_ok(env, m.frames.len()),
    ensures
        machine_valid(eval_expr(m, e, env)),
{
    reveal_with_fuel(valid, 2);
    match e {
        ExprV::Atom(t) => {
            match t {
                TokenV::Symbol(name) => lemma_lookup_valid(m.heap, m.frames, env, name),
                _ => {},
            }
        },
        ExprV::SpecialForm(f) => lemma_eval_form_valid(m, *f, env),
        ExprV::Call(items) => {
            if items.len() > 0 {
                match items[0] {
                    ExprV::SpecialForm(f) => lemma_eval_form_valid(m, *f, env),
                    _ => {},
                }
            }
        },
        _ => {},
    }
}


proof fn lemma_continue_valid(m: InterpV, k: KontV, v: ExprV)
    requires
        store_valid(m.heap, m.frames),
        stack_valid(m.stack, m.heap.len(), m.frames.len()),
        kont_valid(k, m.heap.len(), m.frames.len()),
        valid(v, m.heap.len(), m.frames.len()),
    ensures
        machine_valid(continue_with(m, k, v)),
{
    let cells = m.heap.len();
    let frames = m.frames.len();
    match k {
        KontV::Call { exprs, next, done, env } => {
            let values = done.push(v);
            assert forall|i: int| 0 <= i < values.len() implies valid(
                #[trigger] values[i],
                cells,
                frames,
            ) by {
                if i < done.len() {
                    assert(values[i] == done[i]);
                }
            }
            lemma_tail_valid(values, 1, cells, frames);
        },
        KontV::Define { name, env } => {
            match frame_of(m.frames, env) {
                Some(i) => {
                    lemma_insert_valid(m.frames[i], i, name, v, cells, frames);
                },
                None => {},
            }
        },
        KontV::Assign { name, env } => {
            match frame_of(m.frames, env) {
                Some(i) => {
                    lemma_binding_in_range(m.frames, i, name);
                    match binding_frame(m.frames, i, name) {
                        Some(f) => lemma_insert_valid(m.frames[f], f, name, v, cells, frames),
                        None => {},
                    }
                },
                None => {},
            }
        },
        _ => {},
    }
}

proof fn lemma_list_items_valid(heap: Seq<PairV>, store: Seq<EnvV>, p: ExprV, fuel: nat)
    requires
        store_valid(heap, store),
    ensures
        crate::primitives::pair::list_items(heap, p, fuel) is Some ==> all_valid(
            crate::primitives::pair::list_items(heap, p, fuel)->Some_0,
            heap.len(),
            store.len(),
        ),
    decreases fuel,
{
    match p {
        ExprV::Pair(r) => {
            if fuel > 0 && r.index < heap.len() {
                let cell = heap[r.index as int];
                lemma_list_items_valid(heap, store, cell.cdr, (fuel - 1) as nat);
                match crate::primitives::pair::list_items(heap, cell.cdr, (fuel - 1) as nat) {
                    Some(rest) => {
                        let all = seq![cell.car] + rest;
                        assert forall|i: int| 0 <= i < all.len() implies valid(
                            #[trigger] all[i],
                            heap.len(),
                            store.len(),
                        ) by {
                            if i > 0 {
                                assert(all[i] == rest[i - 1]);
                            }
                        }
                    },
                    None => {},
                }
            }
        },
        _ => {
            assert(all_valid(Seq::<ExprV>::empty(), heap.len(), store.len()));
        },
    }
}

proof fn lemma_list_valid(heap: Seq<PairV>, store: Seq<EnvV>, items: Seq<ExprV>)
    requires
        contents_valid(heap, store, heap.len(), store.len()),
        all_valid(items, heap.len(), store.len()),
        heap.len() + items.len() <= usize::MAX,
    ensures
        ({
            let (cells, list) = heap_list(heap, items);
            &&& cells.len() == heap.len() + items.len()
            &&& contents_valid(cells, store, cells.len(), store.len())
            &&& valid(list, cells.len(), store.len())
        }),
    decreases items.len(),
{
    if items.len() > 0 {
        let rest_items = items.drop_first();
        assert forall|i: int| 0 <= i < rest_items.len() implies valid(
            #[trigger] rest_items[i],
            heap.len(),
            store.len(),
        ) by {
            assert(rest_items[i] == items[i + 1]);
        }
        lemma_list_valid(heap, store, rest_items);
        let (rest_heap, rest) = heap_list(heap, rest_items);
        let (cells, list) = heap_list(heap, items);
        lemma_contents_grow(rest_heap, store, rest_heap.len(), store.len(), cells.len(), store.len());
        lemma_valid_grows(items[0], heap.len(), store.len(), cells.len(), store.len());
        lemma_valid_grows(rest, rest_heap.len(), store.len(), cells.len(), store.len());
        assert forall|i: int| 0 <= i < cells.len() implies valid(
            (#[trigger] cells[i]).car,
            cells.len(),
            store.len(),
        ) && valid(cells[i].cdr, cells.len(), store.len()) by {
            if i < rest_heap.len() {
                assert(cells[i] == rest_heap[i]);
            }
        }
    }
}

proof fn lemma_native_valid(m: InterpV, n: Native, args: Seq<ExprV>)
    requires
        store_valid(m.heap, m.frames),
        stack_valid(m.stack, m.heap.len(), m.frames.len()),
        all_valid(args, m.heap.len(), m.frames.len()),
        native_spec(m, n, args).heap.len() <= usize::MAX,
    ensures
        machine_valid(native_spec(m, n, args)),
{
    let cells = m.heap.len();
    let frames = m.frames.len();
    let next = native_spec(m, n, args);
    match n {
        Native::Cons => {
            if args.len() >= 2 {
                lemma_contents_grow(m.heap, m.frames, cells, frames, cells + 1, frames);
                lemma_stack_grows(m.stack, cells, frames, cells + 1, frames);
                lemma_valid_grows(args[0], cells, frames, cells + 1, frames);
                lemma_valid_grows(args[1], cells, frames, cells + 1, frames);
            }
        },
        Native::List => {
            lemma_heap_list_extends(m.heap, args);
            lemma_list_valid(m.heap, m.frames, args);
            lemma_stack_grows(m.stack, cells, frames, next.heap.len(), frames);
        },
        Native::Apply => {
            if args.len() >= 2 {
                lemma_list_items_valid(m.heap, m.frames, args[1], m.heap.len());
            }
        },
        _ => {},
    }
}

proof fn lemma_apply_valid(m: InterpV, callee: ExprV, args: Seq<ExprV>)
    requires
        store_valid(m.heap, m.frames),
        stack_valid(m.stack, m.heap.len(), m.frames.len()),
        valid(callee, m.heap.len(), m.frames.len()),
        all_valid(args, m.heap.len(), m.frames.len()),
        apply_procedure(m, callee, args).heap.len() <= usize::MAX,
        apply_procedure(m, callee, args).frames.len() <= usize::MAX,
    ensures
        machine_valid(apply_procedure(m, callee, args)),
{
    let cells = m.heap.len();
    let frames = m.frames.len();
    match callee {
        ExprV::Proc(p) => match *p {
            ProcV::Primitive(n) => lemma_native_valid(m, n, args),
            ProcV::Compound { params, body, env } => {
                if params.len() == args.len() {
                    let first = EnvV { parent: env, names: Seq::empty(), values: Seq::empty() };
                    assert(frame_valid(first, frames as int, cells, frames));
                    lemma_bind_all_valid(first, frames as int, params, args, 0, cells, frames);
                    let frame = bind_all(first, params, args, 0);
                    let (store, inner) = extend(m.frames, env, params, args);
                    lemma_contents_grow(m.heap, m.frames, cells, frames, cells, frames + 1);
                    lemma_all_grow(frame.values, cells, frames, cells, frames + 1);
                    lemma_stack_grows(m.stack, cells, frames, cells, frames + 1);
                    lemma_all_grow(body, cells, frames, cells, frames + 1);
                    assert forall|i: int| 0 <= i < store.len() implies frame_valid(
                        #[trigger] store[i],
                        i,
                        cells,
                        frames + 1,
                    ) by {
                        if i < frames {
                            assert(store[i] == m.frames[i]);
                        }
                    }
                }
            },
        },
        _ => {},
    }
}

/// A machine in order stays in order: where every reference of a machine
/// leads somewhere, the same holds after its next step, as long as the heap
/// and the frames do not outgrow what can be counted.
pub proof fn law_steps_keep_references_valid(m: InterpV)
    requires
        machine_valid(m),
        step_spec(m).heap.len() <= usize::MAX,
        step_spec(m).frames.len() <= usize::MAX,
    ensures
        machine_valid(step_spec(m)),
{
    if !terminal(m) {
        let rest = with_control(m, ControlV::Idle);
        match m.control {
            ControlV::Eval(e, env) => lemma_eval_valid(rest, e, env),
            ControlV::Apply(callee, args) => lemma_apply_valid(rest, callee, args),
            ControlV::Return(v) => {
                let popped = InterpV {
                    heap: m.heap,
                    frames: m.frames,
                    stack: m.stack.drop_last(),
                    control: ControlV::Idle,
                    output: m.output,
                };
                assert forall|i: int| 0 <= i < popped.stack.len() implies kont_valid(
                    #[trigger] popped.stack[i],
                    m.heap.len(),
                    m.frames.len(),
                ) by {
                    assert(popped.stack[i] == m.stack[i]);
                }
                lemma_continue_valid(popped, m.stack.last(), v);
            },
            _ => {},
        }
    }
}

/// An answer of the host, and a new expression to evaluate whose references
/// lead somewhere, leave a machine in order.
pub proof fn law_answers_and_loads_keep_references_valid(
    m: InterpV,
    n: crate::number::Number,
    e: ExprV,
    env: EnvRef,
)
    requires
        machine_valid(m),
    ensures
        machine_valid(answer_spec(m, n)),
        valid(e, m.heap.len(), m.frames.len()) && env_ok(env, m.frames.len()) ==> machine_valid(
            load_spec(m, e, env),
        ),
{
}


/// A machine with nothing in it is in order.
pub proof fn law_empty_machine_is_valid()
    ensures
        machine_valid(
            InterpV {
                heap: Seq::empty(),
                frames: Seq::empty(),
                stack: Seq::empty(),
                control: ControlV::Idle,
                output: Seq::empty(),
            },
        ),
{
}

proof fn lemma_natives_valid(frame: EnvV, index: int, natives: Seq<Native>, i: int, cells: nat, frames: nat)
    requires
        frame_valid(frame, index, cells, frames),
        0 <= i,
    ensures
        frame_valid(bind_natives(frame, natives, i), index, cells, frames),
    decreases natives.len() - i,
{
    if i < natives.len() {
        lemma_insert_valid(
            frame,
            index,
            native_name(natives[i]),
            native_value(natives[i]),
            cells,
            frames,
        );
        lemma_natives_valid(
            frame_insert(frame, native_name(natives[i]), native_value(natives[i])),
            index,
            natives,
            i + 1,
            cells,
            frames,
        );
    }
}

/// A global frame leaves a machine in order: with it as a new frame the heap
/// and the frames are in order as before, and so is the machine.
pub proof fn law_global_frame_is_valid(m: InterpV)
    requires
        machine_valid(m),
        m.frames.len() < usize::MAX,
    ensures
        machine_valid(
            InterpV {
                heap: m.heap,
                frames: m.frames.push(global_frame()),
                stack: m.stack,
                control: m.control,
                output: m.output,
            },
        ),
        env_ok(EnvRef(Some(m.frames.len() as usize)), m.frames.len() + 1),
{
    let cells = m.heap.len();
    let frames = m.frames.len();
    let first = EnvV { parent: EnvRef(None), names: Seq::empty(), values: Seq::empty() };
    lemma_natives_valid(first, frames as int, all_natives(), 0, cells, frames + 1);
    lemma_insert_valid(
        bind_natives(first, all_natives(), 0),
        frames as int,
        "eq?"@,
        native_value(Native::Equal),
        cells,
        frames + 1,
    );
    lemma_contents_grow(m.heap, m.frames, cells, frames, cells, frames + 1);
    lemma_stack_grows(m.stack, cells, frames, cells, frames + 1);
    let store = m.frames.push(global_frame());
    assert forall|i: int| 0 <= i < store.len() implies frame_valid(
        #[trigger] store[i],
        i,
        cells,
        frames + 1,
    ) by {
        if i < frames {
            assert(store[i] == m.frames[i]);
        }
    }
    match m.control {
        ControlV::Eval(e, env) => lemma_valid_grows(e, cells, frames, cells, frames + 1),
        ControlV::Apply(callee, args) => {
            lemma_valid_grows(callee, cells, frames, cells, frames + 1);
            lemma_all_grow(args, cells, frames, cells, frames + 1);
        },
        ControlV::Return(v) => lemma_valid_grows(v, cells, frames, cells, frames + 1),
        _ => {},
    }
}

/// In a machine in order every pair is found: `car`, `cdr`, `set-car!` and
/// `set-cdr!` of a reference that the machine holds give the field of its
/// cell, or set it, and do not fail.
pub proof fn law_valid_pairs_are_found(m: InterpV, p: ExprV, x: ExprV)
    requires
        p is Pair,
        valid(p, m.heap.len(), m.frames.len()),
    ensures
        car_spec(m, seq![p]) == ret(m, m.heap[p->Pair_0.index as int].car),
        cdr_spec(m, seq![p]) == ret(m, m.heap[p->Pair_0.index as int].cdr),
        set_car_spec(m, seq![p, x]).control == ControlV::Return(ExprV::Void),
        set_cdr_spec(m, seq![p, x]).control == ControlV::Return(ExprV::Void),
{
}


proof fn lemma_form_valid(keyword: TokenV, items: Seq<ExprV>, cells: nat, frames: nat)
    requires
        all_valid(items, cells, frames),
    ensures
        build_form(keyword, items) is Ok ==> valid(build_form(keyword, items)->Ok_0, cells, frames),
{
    reveal_with_fuel(valid, 2);
    if build_form(keyword, items) is Ok {
        match keyword {
            TokenV::If => {
                let form = SpecialFormV::If(items[0], items[1], items[2]);
                assert(valid(ExprV::SpecialForm(Box::new(form)), cells, frames));
                lemma_special_valid(form, cells, frames);
            },
            TokenV::Lambda => {
                lemma_tail_valid(items, 1, cells, frames);
                let form = SpecialFormV::Lambda(items[0], items.subrange(1, items.len() as int));
                assert(valid(ExprV::SpecialForm(Box::new(form)), cells, frames));
                lemma_special_valid(form, cells, frames);
            },
            TokenV::Define => {
                lemma_tail_valid(items, 1, cells, frames);
                match items[0] {
                    ExprV::Call(names) => {
                        assert(valid(items[0], cells, frames));
                        assert(all_valid(names, cells, frames));
                        lemma_tail_valid(names, 1, cells, frames);
                        let lambda = SpecialFormV::Lambda(
                            parameter_list(names),
                            items.subrange(1, items.len() as int),
                        );
                        assert(valid(parameter_list(names), cells, frames));
                        assert(valid(ExprV::SpecialForm(Box::new(lambda)), cells, frames));
                        lemma_special_valid(lambda, cells, frames);
                        let form = SpecialFormV::Define(names[0], special(lambda));
                        assert(valid(ExprV::SpecialForm(Box::new(form)), cells, frames));
                        lemma_special_valid(form, cells, frames);
                    },
                    identifier => {
                        let form = SpecialFormV::Define(identifier, items[1]);
                        assert(valid(ExprV::SpecialForm(Box::new(form)), cells, frames));
                        lemma_special_valid(form, cells, frames);
                    },
                }
            },
            TokenV::Assignment => {
                let form = SpecialFormV::Assignment(items[0], items[1]);
                assert(valid(ExprV::SpecialForm(Box::new(form)), cells, frames));
                lemma_special_valid(form, cells, frames);
            },
            TokenV::Cond => lemma_cond_valid(items, 0, cells, frames),
            TokenV::Let => {
                lemma_tail_valid(items, 1, cells, frames);
                lemma_let_valid(items[0], items.subrange(1, items.len() as int), cells, frames);
            },
            TokenV::And => {
                assert(valid(
                    ExprV::SpecialForm(Box::new(SpecialFormV::And(items))),
                    cells,
                    frames,
                ));
                lemma_special_valid(SpecialFormV::And(items), cells, frames);
            },
            TokenV::Or => {
                assert(valid(ExprV::SpecialForm(Box::new(SpecialFormV::Or(items))), cells, frames));
                lemma_special_valid(SpecialFormV::Or(items), cells, frames);
            },
            _ => {
                assert(valid(
                    ExprV::SpecialForm(Box::new(SpecialFormV::Begin(items))),
                    cells,
                    frames,
                ));
                lemma_special_valid(SpecialFormV::Begin(items), cells, frames);
            },
        }
    }
}

proof fn lemma_expr_valid(tokens: Seq<TokenV>, pos: int, heap: Seq<PairV>, store: Seq<EnvV>)
    requires
        contents_valid(heap, store, heap.len(), store.len()),
        parse_expr(tokens, pos, heap).heap.len() <= usize::MAX,
    ensures
        contents_valid(
            parse_expr(tokens, pos, heap).heap,
            store,
            parse_expr(tokens, pos, heap).heap.len(),
            store.len(),
        ),
        parse_expr(tokens, pos, heap).result is Ok ==> valid(
            parse_expr(tokens, pos, heap).result->Ok_0,
            parse_expr(tokens, pos, heap).heap.len(),
            store.len(),
        ),
    decreases tokens.len() - pos, 0int,
{
    reveal_with_fuel(valid, 2);
    if 0 <= pos < tokens.len() {
        match tokens[pos] {
            TokenV::LParen => lemma_list_valid_parse(tokens, pos + 1, heap, store),
            TokenV::QuoteTick => lemma_quote_valid(tokens, pos + 1, heap, store),
            _ => {},
        }
    }
}

proof fn lemma_list_valid_parse(tokens: Seq<TokenV>, pos: int, heap: Seq<PairV>, store: Seq<EnvV>)
    requires
        contents_valid(heap, store, heap.len(), store.len()),
        parse_list(tokens, pos, heap).heap.len() <= usize::MAX,
    ensures
        contents_valid(
            parse_list(tokens, pos, heap).heap,
            store,
            parse_list(tokens, pos, heap).heap.len(),
            store.len(),
        ),
        parse_list(tokens, pos, heap).result is Ok ==> valid(
            parse_list(tokens, pos, heap).result->Ok_0,
            parse_list(tokens, pos, heap).heap.len(),
            store.len(),
        ),
    decreases tokens.len() - pos, 5int,
{
    reveal_with_fuel(valid, 2);
    if 0 <= pos < tokens.len() {
        if tokens[pos] is QuoteProc {
            lemma_quote_valid(tokens, pos + 1, heap, store);
        } else if is_form_keyword(tokens[pos]) {
            let how = if tokens[pos] is Cond {
                Items::Clauses
            } else {
                Items::Plain
            };
            lemma_items_valid(tokens, pos + 1, heap, store, how);
            let items = parse_items(tokens, pos + 1, heap, how);
            if items.result is Ok {
                lemma_form_valid(tokens[pos], items.result->Ok_0, items.heap.len(), store.len());
            }
        } else {
            lemma_items_valid(tokens, pos, heap, store, Items::Plain);
        }
    }
}

proof fn lemma_quote_valid(tokens: Seq<TokenV>, pos: int, heap: Seq<PairV>, store: Seq<EnvV>)
    requires
        contents_valid(heap, store, heap.len(), store.len()),
        parse_quote(tokens, pos, heap).heap.len() <= usize::MAX,
    ensures
        contents_valid(
            parse_quote(tokens, pos, heap).heap,
            store,
            parse_quote(tokens, pos, heap).heap.len(),
            store.len(),
        ),
        parse_quote(tokens, pos, heap).result is Ok ==> valid(
            parse_quote(tokens, pos, heap).result->Ok_0,
            parse_quote(tokens, pos, heap).heap.len(),
            store.len(),
        ),
    decreases tokens.len() - pos, 0int,
{
    reveal_with_fuel(valid, 2);
    if 0 <= pos < tokens.len() {
        match tokens[pos] {
            TokenV::LParen => {
                let items = parse_items(tokens, pos + 1, heap, Items::Quoted);
                if items.result is Ok {
                    lemma_heap_list_extends(items.heap, items.result->Ok_0);
                    lemma_items_valid(tokens, pos + 1, heap, store, Items::Quoted);
                    lemma_list_valid(items.heap, store, items.result->Ok_0);
                } else {
                    lemma_items_valid(tokens, pos + 1, heap, store, Items::Quoted);
                }
            },
            TokenV::QuoteTick => lemma_quote_valid(tokens, pos + 1, heap, store),
            _ => {},
        }
    }
}

proof fn lemma_item_valid(
    tokens: Seq<TokenV>,
    pos: int,
    heap: Seq<PairV>,
    store: Seq<EnvV>,
    how: Items,
)
    requires
        contents_valid(heap, store, heap.len(), store.len()),
        parse_item(tokens, pos, heap, how).heap.len() <= usize::MAX,
    ensures
        contents_valid(
            parse_item(tokens, pos, heap, how).heap,
            store,
            parse_item(tokens, pos, heap, how).heap.len(),
            store.len(),
        ),
        parse_item(tokens, pos, heap, how).result is Ok ==> valid(
            parse_item(tokens, pos, heap, how).result->Ok_0,
            parse_item(tokens, pos, heap, how).heap.len(),
            store.len(),
        ),
    decreases tokens.len() - pos, 1int,
{
    reveal_with_fuel(valid, 2);
    if how == Items::Quoted {
        lemma_quote_valid(tokens, pos, heap, store);
    } else if how == Items::Clauses && 0 <= pos && pos + 1 < tokens.len() && tokens[pos] is LParen
        && tokens[pos + 1] is Else {
        lemma_items_valid(tokens, pos + 2, heap, store, Items::Plain);
        let body = parse_items(tokens, pos + 2, heap, Items::Plain);
        if body.result is Ok {
            let v = body.result->Ok_0;
            let clause = seq![ExprV::Atom(TokenV::Else)] + v;
            assert forall|j: int| 0 <= j < clause.len() implies valid(
                #[trigger] clause[j],
                body.heap.len(),
                store.len(),
            ) by {
                if j > 0 {
                    assert(clause[j] == v[j - 1]);
                }
            }
        }
    } else {
        lemma_expr_valid(tokens, pos, heap, store);
    }
}

proof fn lemma_items_valid(
    tokens: Seq<TokenV>,
    pos: int,
    heap: Seq<PairV>,
    store: Seq<EnvV>,
    how: Items,
)
    requires
        contents_valid(heap, store, heap.len(), store.len()),
        parse_items(tokens, pos, heap, how).heap.len() <= usize::MAX,
    ensures
        contents_valid(
            parse_items(tokens, pos, heap, how).heap,
            store,
            parse_items(tokens, pos, heap, how).heap.len(),
            store.len(),
        ),
        parse_items(tokens, pos, heap, how).result is Ok ==> all_valid(
            parse_items(tokens, pos, heap, how).result->Ok_0,
            parse_items(tokens, pos, heap, how).heap.len(),
            store.len(),
        ),
    decreases tokens.len() - pos, 2int,
{
    if 0 <= pos < tokens.len() && !(tokens[pos] is RParen) {
        let first = parse_item(tokens, pos, heap, how);
        lemma_item_extends(tokens, pos, heap, how);
        if first.result is Ok && pos < first.next <= tokens.len() {
            let rest = parse_items(tokens, first.next, first.heap, how);
            lemma_items_extend(tokens, first.next, first.heap, how);
            lemma_item_valid(tokens, pos, heap, store, how);
            lemma_items_valid(tokens, first.next, first.heap, store, how);
            if rest.result is Ok {
                let x = first.result->Ok_0;
                let v = rest.result->Ok_0;
                let all = seq![x] + v;
                lemma_valid_grows(x, first.heap.len(), store.len(), rest.heap.len(), store.len());
                assert forall|j: int| 0 <= j < all.len() implies valid(
                    #[trigger] all[j],
                    rest.heap.len(),
                    store.len(),
                ) by {
                    if j > 0 {
                        assert(all[j] == v[j - 1]);
                    }
                }
            }
        } else {
            lemma_item_valid(tokens, pos, heap, store, how);
        }
    } else {
        assert(all_valid(Seq::<ExprV>::empty(), heap.len(), store.len()));
    }
}

/// Parsing leaves a store in order: where the heap and the frames are in
/// order, so are the heap that the parser leaves and the frames, the cells
/// that were there are as they were, and every reference in the parsed
/// expressions leads to a cell.
pub proof fn law_parsing_keeps_references_valid(
    tokens: Seq<TokenV>,
    pos: int,
    heap: Seq<PairV>,
    store: Seq<EnvV>,
)
    requires
        contents_valid(heap, store, heap.len(), store.len()),
        parse_program(tokens, pos, heap).heap.len() <= usize::MAX,
    ensures
        extends(parse_program(tokens, pos, heap).heap, heap),
        contents_valid(
            parse_program(tokens, pos, heap).heap,
            store,
            parse_program(tokens, pos, heap).heap.len(),
            store.len(),
        ),
        parse_program(tokens, pos, heap).result is Ok ==> all_valid(
            parse_program(tokens, pos, heap).result->Ok_0,
            parse_program(tokens, pos, heap).heap.len(),
            store.len(),
        ),
    decreases tokens.len() - pos,
{
    lemma_program_extends(tokens, pos, heap);
    if 0 <= pos < tokens.len() {
        let first = parse_expr(tokens, pos, heap);
        lemma_expr_extends(tokens, pos, heap);
        if first.result is Ok && pos < first.next <= tokens.len() {
            let rest = parse_program(tokens, first.next, first.heap);
            lemma_program_extends(tokens, first.next, first.heap);
            lemma_expr_valid(tokens, pos, heap, store);
            law_parsing_keeps_references_valid(tokens, first.next, first.heap, store);
            if rest.result is Ok {
                let x = first.result->Ok_0;
                let v = rest.result->Ok_0;
                let all = seq![x] + v;
                lemma_valid_grows(x, first.heap.len(), store.len(), rest.heap.len(), store.len());
                assert forall|j: int| 0 <= j < all.len() implies valid(
                    #[trigger] all[j],
                    rest.heap.len(),
                    store.len(),
                ) by {
                    if j > 0 {
                        assert(all[j] == v[j - 1]);
                    }
                }
            }
        } else {
            lemma_expr_valid(tokens, pos, heap, store);
        }
    } else {
        assert(all_valid(Seq::<ExprV>::empty(), heap.len(), store.len()));
    }
}


/// A machine in order stays in order through all its work: where every
/// reference of a machine leads somewhere, the same holds after any number of
/// steps and answers, as long as the heap and the frames that it ends with
/// can be counted.
pub proof fn law_work_keeps_references_valid(
    m: InterpV,
    answers: Seq<crate::number::Number>,
    fuel: nat,
)
    requires
        machine_valid(m),
        drive_spec(m, answers, fuel).0.heap.len() <= usize::MAX,
        drive_spec(m, answers, fuel).0.frames.len() <= usize::MAX,
    ensures
        machine_valid(drive_spec(m, answers, fuel).0),
    decreases fuel,
{
    if fuel == 0 {
    } else if m.control is Await && answers.len() > 0 {
        law_work_keeps_references_valid(
            answer_spec(m, answers[0]),
            answers.drop_first(),
            (fuel - 1) as nat,
        );
    } else if terminal(m) {
    } else {
        law_work_only_grows(step_spec(m), answers, (fuel - 1) as nat);
        law_steps_keep_references_valid(m);
        law_work_keeps_references_valid(step_spec(m), answers, (fuel - 1) as nat);
    }
}

} // verus!
