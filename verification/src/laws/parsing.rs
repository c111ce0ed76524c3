//! Laws of the parser: what holds of every program and every quoted datum
//! that it gives.
use vstd::prelude::*;
use crate::laws::pairs::{extends, lemma_heap_list_extends};
use crate::lexer::TokenV;
use crate::number::Number;
use crate::parser::{
    ExprV, Items, build_form, cond_to_if_spec, is_form_keyword, parameter_list, parse_expr,
    parse_item, parse_items, parse_list, parse_program, parse_quote, special, unzip_spec,
};
use crate::primitives::pair::{PairV, heap_cons, heap_list};
use crate::special_form::SpecialFormV;

verus! {

/// Whether every expression of `items` is well formed.
pub open spec fn all_well_formed(items: Seq<ExprV>) -> bool
    decreases items,
{
    forall|i: int| 0 <= i < items.len() ==> well_formed(#[trigger] items[i])
}

/// Whether an expression is well formed for evaluation: no keyword stands in
/// it as an atom, outside of quoted data.
pub open spec fn well_formed(e: ExprV) -> bool
    decreases e,
{
    match e {
        ExprV::Atom(t) => t is Number || t is Str || t is Boolean || t is Symbol,
        ExprV::Call(items) => all_well_formed(items),
        ExprV::SpecialForm(f) => match *f {
            SpecialFormV::And(body) => all_well_formed(body),
            SpecialFormV::Assignment(identifier, value) => well_formed(identifier) && well_formed(
                value,
            ),
            SpecialFormV::Begin(exprs) => all_well_formed(exprs),
            SpecialFormV::Cond(clauses) => all_well_formed(clauses),
            SpecialFormV::Define(identifier, value) => well_formed(identifier) && well_formed(
                value,
            ),
            SpecialFormV::If(predicate, consequence, alternative) => well_formed(predicate)
                && well_formed(consequence) && well_formed(alternative),
            SpecialFormV::Lambda(params, body) => well_formed(params) && all_well_formed(body),
            SpecialFormV::Let(bindings, body) => well_formed(bindings) && all_well_formed(body),
            SpecialFormV::Or(body) => all_well_formed(body),
        },
        _ => true,
    }
}

/// Whether `e` can stand as a clause of a `cond` before the clauses are put
/// together: a well-formed expression, or an `else` before well-formed ones.
pub open spec fn clause_form(e: ExprV) -> bool {
    well_formed(e) || (e is Call && e->Call_0.len() >= 1 && e->Call_0[0] == ExprV::Atom(
        TokenV::Else,
    ) && all_well_formed(e->Call_0.subrange(1, e->Call_0.len() as int)))
}

/// What holds of items read in the given way.
pub open spec fn items_form(how: Items, items: Seq<ExprV>) -> bool {
    match how {
        Items::Plain => all_well_formed(items),
        Items::Clauses => forall|i: int| 0 <= i < items.len() ==> clause_form(#[trigger] items[i]),
        Items::Quoted => true,
    }
}

proof fn lemma_special_wf(f: SpecialFormV)
    requires
        well_formed(ExprV::SpecialForm(Box::new(f))),
    ensures
        well_formed(special(f)),
{
    reveal_with_fuel(well_formed, 2);
    reveal_with_fuel(all_well_formed, 2);
    assert(special(f)->Call_0[0] == ExprV::SpecialForm(Box::new(f)));
}

proof fn lemma_tail_wf(items: Seq<ExprV>, from: int)
    requires
        all_well_formed(items),
        0 <= from <= items.len(),
    ensures
        all_well_formed(items.subrange(from, items.len() as int)),
{
    let tail = items.subrange(from, items.len() as int);
    assert forall|i: int| 0 <= i < tail.len() implies well_formed(#[trigger] tail[i]) by {
        assert(tail[i] == items[from + i]);
    }
}

proof fn lemma_cond_wf(clauses: Seq<ExprV>, i: int)
    requires
        items_form(Items::Clauses, clauses),
        0 <= i,
    ensures
        cond_to_if_spec(clauses, i) is Ok ==> well_formed(cond_to_if_spec(clauses, i)->Ok_0),
    decreases clauses.len() - i,
{
    reveal_with_fuel(well_formed, 2);
    if i < clauses.len() {
        match clauses[i] {
            ExprV::Call(parts) => {
                if parts.len() > 0 {
                    assert(clause_form(clauses[i]));
                    let body = parts.subrange(1, parts.len() as int);
                    if parts[0] == ExprV::Atom(TokenV::Else) {
                        assert(!well_formed(parts[0]));
                        assert(all_well_formed(body));
                    } else {
                        assert(all_well_formed(parts));
                        lemma_tail_wf(parts, 1);
                        lemma_cond_wf(clauses, i + 1);
                    }
                    assert(well_formed(ExprV::SpecialForm(Box::new(SpecialFormV::Begin(body)))));
                    lemma_special_wf(SpecialFormV::Begin(body));
                    if cond_to_if_spec(clauses, i) is Ok && parts[0] != ExprV::Atom(TokenV::Else) {
                        let alternative = cond_to_if_spec(clauses, i + 1)->Ok_0;
                        let form = SpecialFormV::If(
                            parts[0],
                            special(SpecialFormV::Begin(body)),
                            alternative,
                        );
                        assert(well_formed(ExprV::SpecialForm(Box::new(form))));
                        lemma_special_wf(form);
                    }
                }
            },
            _ => {},
        }
    }
}

proof fn lemma_unzip_wf(bindings: Seq<ExprV>, i: int)
    requires
        all_well_formed(bindings),
        0 <= i,
    ensures
        unzip_spec(bindings, i) is Ok ==> all_well_formed(unzip_spec(bindings, i)->Ok_0.0)
            && all_well_formed(unzip_spec(bindings, i)->Ok_0.1),
    decreases bindings.len() - i,
{
    reveal_with_fuel(well_formed, 2);
    if i < bindings.len() {
        match bindings[i] {
            ExprV::Call(binding) => {
                if binding.len() == 2 {
                    lemma_unzip_wf(bindings, i + 1);
                    if unzip_spec(bindings, i + 1) is Ok {
                        let (names, values) = unzip_spec(bindings, i + 1)->Ok_0;
                        assert(well_formed(bindings[i]));
                        assert(well_formed(binding[0]) && well_formed(binding[1]));
                        assert forall|j: int| 0 <= j < (seq![binding[0]] + names).len() implies well_formed(
                            #[trigger] (seq![binding[0]] + names)[j],
                        ) by {
                            if j > 0 {
                                assert((seq![binding[0]] + names)[j] == names[j - 1]);
                            }
                        }
                        assert forall|j: int| 0 <= j < (seq![binding[1]] + values).len() implies well_formed(
                            #[trigger] (seq![binding[1]] + values)[j],
                        ) by {
                            if j > 0 {
                                assert((seq![binding[1]] + values)[j] == values[j - 1]);
                            }
                        }
                    }
                }
            },
            _ => {},
        }
    } else {
        assert(all_well_formed(Seq::<ExprV>::empty()));
    }
}

proof fn lemma_form_wf(keyword: TokenV, items: Seq<ExprV>)
    requires
        items_form(
            if keyword is Cond {
                Items::Clauses
            } else {
                Items::Plain
            },
            items,
        ),
    ensures
        build_form(keyword, items) is Ok ==> well_formed(build_form(keyword, items)->Ok_0),
{
    reveal_with_fuel(well_formed, 2);
    if build_form(keyword, items) is Ok {
        match keyword {
            TokenV::If => {
                let form = SpecialFormV::If(items[0], items[1], items[2]);
                assert(well_formed(ExprV::SpecialForm(Box::new(form))));
                lemma_special_wf(form);
            },
            TokenV::Lambda => {
                lemma_tail_wf(items, 1);
                let form = SpecialFormV::Lambda(items[0], items.subrange(1, items.len() as int));
                assert(well_formed(ExprV::SpecialForm(Box::new(form))));
                lemma_special_wf(form);
            },
            TokenV::Define => {
                lemma_tail_wf(items, 1);
                match items[0] {
                    ExprV::Call(names) => {
                        assert(well_formed(items[0]));
                        assert(all_well_formed(names));
                        lemma_tail_wf(names, 1);
                        let lambda = SpecialFormV::Lambda(
                            parameter_list(names),
                            items.subrange(1, items.len() as int),
                        );
                        assert(well_formed(parameter_list(names)));
                        assert(well_formed(ExprV::SpecialForm(Box::new(lambda))));
                        lemma_special_wf(lambda);
                        let form = SpecialFormV::Define(names[0], special(lambda));
                        assert(well_formed(ExprV::SpecialForm(Box::new(form))));
                        lemma_special_wf(form);
                    },
                    identifier => {
                        let form = SpecialFormV::Define(identifier, items[1]);
                        assert(well_formed(ExprV::SpecialForm(Box::new(form))));
                        lemma_special_wf(form);
                    },
                }
            },
            TokenV::Assignment => {
                let form = SpecialFormV::Assignment(items[0], items[1]);
                assert(well_formed(ExprV::SpecialForm(Box::new(form))));
                lemma_special_wf(form);
            },
            TokenV::Cond => {
                lemma_cond_wf(items, 0);
            },
            TokenV::Let => {
                lemma_tail_wf(items, 1);
                let body = items.subrange(1, items.len() as int);
                match items[0] {
                    ExprV::Call(list) => {
                        assert(well_formed(items[0]));
                        assert(all_well_formed(list));
                        lemma_unzip_wf(list, 0);
                        let (names, values) = unzip_spec(list, 0)->Ok_0;
                        let lambda = SpecialFormV::Lambda(ExprV::Call(names), body);
                        assert(well_formed(ExprV::Call(names)));
                        assert(well_formed(ExprV::SpecialForm(Box::new(lambda))));
                        lemma_special_wf(lambda);
                        let call = seq![special(lambda)] + values;
                        assert forall|j: int| 0 <= j < call.len() implies well_formed(
                            #[trigger] call[j],
                        ) by {
                            if j > 0 {
                                assert(call[j] == values[j - 1]);
                            }
                        }
                        assert(well_formed(ExprV::Call(call)));
                    },
                    _ => {},
                }
            },
            TokenV::And => {
                assert(well_formed(ExprV::SpecialForm(Box::new(SpecialFormV::And(items)))));
                lemma_special_wf(SpecialFormV::And(items));
            },
            TokenV::Or => {
                assert(well_formed(ExprV::SpecialForm(Box::new(SpecialFormV::Or(items)))));
                lemma_special_wf(SpecialFormV::Or(items));
            },
            _ => {
                assert(well_formed(ExprV::SpecialForm(Box::new(SpecialFormV::Begin(items)))));
                lemma_special_wf(SpecialFormV::Begin(items));
            },
        }
    }
}

proof fn lemma_expr_wf(tokens: Seq<TokenV>, pos: int, heap: Seq<PairV>)
    ensures
        parse_expr(tokens, pos, heap).result is Ok ==> well_formed(
            parse_expr(tokens, pos, heap).result->Ok_0,
        ),
    decreases tokens.len() - pos, 0int,
{
    reveal_with_fuel(well_formed, 2);
    if 0 <= pos < tokens.len() {
        match tokens[pos] {
            TokenV::LParen => lemma_list_wf(tokens, pos + 1, heap),
            _ => {},
        }
    }
}

proof fn lemma_list_wf(tokens: Seq<TokenV>, pos: int, heap: Seq<PairV>)
    ensures
        parse_list(tokens, pos, heap).result is Ok ==> well_formed(
            parse_list(tokens, pos, heap).result->Ok_0,
        ),
    decreases tokens.len() - pos, 5int,
{
    reveal_with_fuel(well_formed, 2);
    if 0 <= pos < tokens.len() {
        if tokens[pos] is QuoteProc {
        } else if is_form_keyword(tokens[pos]) {
            let how = if tokens[pos] is Cond {
                Items::Clauses
            } else {
                Items::Plain
            };
            lemma_items_wf(tokens, pos + 1, heap, how);
            let items = parse_items(tokens, pos + 1, heap, how);
            if items.result is Ok {
                lemma_form_wf(tokens[pos], items.result->Ok_0);
            }
        } else {
            lemma_items_wf(tokens, pos, heap, Items::Plain);
        }
    }
}

proof fn lemma_item_wf(tokens: Seq<TokenV>, pos: int, heap: Seq<PairV>, how: Items)
    ensures
        parse_item(tokens, pos, heap, how).result is Ok ==> match how {
            Items::Plain => well_formed(parse_item(tokens, pos, heap, how).result->Ok_0),
            Items::Clauses => clause_form(parse_item(tokens, pos, heap, how).result->Ok_0),
            Items::Quoted => true,
        },
    decreases tokens.len() - pos, 1int,
{
    if how == Items::Quoted {
    } else if how == Items::Clauses && 0 <= pos && pos + 1 < tokens.len() && tokens[pos] is LParen
        && tokens[pos + 1] is Else {
        lemma_items_wf(tokens, pos + 2, heap, Items::Plain);
        let body = parse_items(tokens, pos + 2, heap, Items::Plain);
        if body.result is Ok {
            let v = body.result->Ok_0;
            let clause = seq![ExprV::Atom(TokenV::Else)] + v;
            assert(clause.subrange(1, clause.len() as int) =~= v);
        }
    } else {
        lemma_expr_wf(tokens, pos, heap);
    }
}

proof fn lemma_items_wf(tokens: Seq<TokenV>, pos: int, heap: Seq<PairV>, how: Items)
    ensures
        parse_items(tokens, pos, heap, how).result is Ok ==> items_form(
            how,
            parse_items(tokens, pos, heap, how).result->Ok_0,
        ),
    decreases tokens.len() - pos, 2int,
{
    if 0 <= pos < tokens.len() && !(tokens[pos] is RParen) {
        lemma_item_wf(tokens, pos, heap, how);
        let first = parse_item(tokens, pos, heap, how);
        if first.result is Ok && pos < first.next <= tokens.len() {
            lemma_items_wf(tokens, first.next, first.heap, how);
            let rest = parse_items(tokens, first.next, first.heap, how);
            if rest.result is Ok {
                let x = first.result->Ok_0;
                let v = rest.result->Ok_0;
                let all = seq![x] + v;
                assert forall|j: int| 0 <= j < all.len() implies (match how {
                    Items::Plain => well_formed(#[trigger] all[j]),
                    Items::Clauses => clause_form(all[j]),
                    Items::Quoted => true,
                }) by {
                    if j > 0 {
                        assert(all[j] == v[j - 1]);
                    }
                }
            }
        }
    } else {
        assert(all_well_formed(Seq::<ExprV>::empty()));
    }
}

/// What the parser gives is well formed: in the expressions of a program no
/// keyword stands as an atom, outside of quoted data. An `else` where no
/// clause of a `cond` starts is refused, and one at the start of a clause
/// does not outlast the parsing of its `cond`.
pub proof fn law_parsed_programs_are_well_formed(tokens: Seq<TokenV>, pos: int, heap: Seq<PairV>)
    ensures
        parse_program(tokens, pos, heap).result is Ok ==> all_well_formed(
            parse_program(tokens, pos, heap).result->Ok_0,
        ),
    decreases tokens.len() - pos,
{
    if 0 <= pos < tokens.len() {
        lemma_expr_wf(tokens, pos, heap);
        let first = parse_expr(tokens, pos, heap);
        if first.result is Ok && pos < first.next <= tokens.len() {
            law_parsed_programs_are_well_formed(tokens, first.next, first.heap);
            let rest = parse_program(tokens, first.next, first.heap);
            if rest.result is Ok {
                let all = seq![first.result->Ok_0] + rest.result->Ok_0;
                assert forall|j: int| 0 <= j < all.len() implies well_formed(#[trigger] all[j]) by {
                    if j > 0 {
                        assert(all[j] == rest.result->Ok_0[j - 1]);
                    }
                }
            }
        }
    } else {
        assert(all_well_formed(Seq::<ExprV>::empty()));
    }
}

/// Whether `e` is a datum whose cells lie below `limit`: a literal or a
/// symbol, the empty list, a quoted datum, or a cell whose fields are data of
/// older cells. No call and no special form is a datum, nor is a keyword.
pub open spec fn is_datum(heap: Seq<PairV>, e: ExprV, limit: nat) -> bool
    decreases limit, e,
{
    match e {
        ExprV::Atom(t) => t is Number || t is Str || t is Boolean || t is Symbol,
        ExprV::EmptyList => true,
        ExprV::Quoted(x) => is_datum(heap, *x, limit),
        ExprV::Pair(r) => r.index < limit && r.index < heap.len() && is_datum(
            heap,
            heap[r.index as int].car,
            r.index as nat,
        ) && is_datum(heap, heap[r.index as int].cdr, r.index as nat),
        _ => false,
    }
}

proof fn lemma_datum_stays(heap: Seq<PairV>, later: Seq<PairV>, e: ExprV, limit: nat, bound: nat)
    requires
        is_datum(heap, e, limit),
        extends(later, heap),
        limit <= bound,
    ensures
        is_datum(later, e, bound),
    decreases limit, e,
{
    match e {
        ExprV::Quoted(x) => lemma_datum_stays(heap, later, *x, limit, bound),
        ExprV::Pair(r) => {
            let cell = heap[r.index as int];
            lemma_datum_stays(heap, later, cell.car, r.index as nat, r.index as nat);
            lemma_datum_stays(heap, later, cell.cdr, r.index as nat, r.index as nat);
        },
        _ => {},
    }
}

/// Whether all the items are data of the heap.
pub open spec fn all_data(heap: Seq<PairV>, items: Seq<ExprV>) -> bool {
    forall|i: int| 0 <= i < items.len() ==> is_datum(heap, #[trigger] items[i], heap.len())
}

proof fn lemma_list_of_data(heap: Seq<PairV>, items: Seq<ExprV>)
    requires
        all_data(heap, items),
        heap.len() + items.len() <= usize::MAX,
    ensures
        extends(heap_list(heap, items).0, heap),
        heap_list(heap, items).0.len() == heap.len() + items.len(),
        is_datum(heap_list(heap, items).0, heap_list(heap, items).1, heap_list(heap, items).0.len()),
    decreases items.len(),
{
    if items.len() > 0 {
        let rest_items = items.drop_first();
        assert forall|i: int| 0 <= i < rest_items.len() implies is_datum(
            heap,
            #[trigger] rest_items[i],
            heap.len(),
        ) by {
            assert(rest_items[i] == items[i + 1]);
        }
        lemma_list_of_data(heap, rest_items);
        let (rest_heap, rest) = heap_list(heap, rest_items);
        let (cells, list) = heap_cons(rest_heap, items[0], rest);
        let index = rest_heap.len();
        assert(extends(cells, rest_heap));
        lemma_datum_stays(heap, cells, items[0], heap.len(), index);
        lemma_datum_stays(rest_heap, cells, rest, index, index);
        assert(cells[index as int] == PairV { car: items[0], cdr: rest });
    }
}

/// To come after what comes after is to come after.
pub proof fn lemma_extends_twice(a: Seq<PairV>, b: Seq<PairV>, c: Seq<PairV>)
    requires
        extends(b, a),
        extends(c, b),
    ensures
        extends(c, a),
{
    assert forall|i: int| 0 <= i < a.len() implies #[trigger] c[i] == a[i] by {
        assert(b[i] == a[i]);
    }
}

/// Parsing an expression adds cells after those that are there.
pub proof fn lemma_expr_extends(tokens: Seq<TokenV>, pos: int, heap: Seq<PairV>)
    ensures
        extends(parse_expr(tokens, pos, heap).heap, heap),
    decreases tokens.len() - pos, 0int,
{
    if 0 <= pos < tokens.len() {
        match tokens[pos] {
            TokenV::LParen => lemma_list_extends(tokens, pos + 1, heap),
            TokenV::QuoteTick => lemma_quote_extends(tokens, pos + 1, heap),
            _ => {},
        }
    }
}

/// Parsing a list adds cells after those that are there.
pub proof fn lemma_list_extends(tokens: Seq<TokenV>, pos: int, heap: Seq<PairV>)
    ensures
        extends(parse_list(tokens, pos, heap).heap, heap),
    decreases tokens.len() - pos, 5int,
{
    if 0 <= pos < tokens.len() {
        if tokens[pos] is QuoteProc {
            lemma_quote_extends(tokens, pos + 1, heap);
        } else if is_form_keyword(tokens[pos]) {
            lemma_items_extend(
                tokens,
                pos + 1,
                heap,
                if tokens[pos] is Cond {
                    Items::Clauses
                } else {
                    Items::Plain
                },
            );
        } else {
            lemma_items_extend(tokens, pos, heap, Items::Plain);
        }
    }
}

/// Parsing a datum adds cells after those that are there.
pub proof fn lemma_quote_extends(tokens: Seq<TokenV>, pos: int, heap: Seq<PairV>)
    ensures
        extends(parse_quote(tokens, pos, heap).heap, heap),
    decreases tokens.len() - pos, 0int,
{
    if 0 <= pos < tokens.len() {
        match tokens[pos] {
            TokenV::LParen => {
                let items = parse_items(tokens, pos + 1, heap, Items::Quoted);
                lemma_items_extend(tokens, pos + 1, heap, Items::Quoted);
                if items.result is Ok {
                    lemma_heap_list_extends(items.heap, items.result->Ok_0);
                    lemma_extends_twice(heap, items.heap, parse_quote(tokens, pos, heap).heap);
                }
            },
            TokenV::QuoteTick => lemma_quote_extends(tokens, pos + 1, heap),
            _ => {},
        }
    }
}

/// Parsing an item adds cells after those that are there.
pub proof fn lemma_item_extends(tokens: Seq<TokenV>, pos: int, heap: Seq<PairV>, how: Items)
    ensures
        extends(parse_item(tokens, pos, heap, how).heap, heap),
    decreases tokens.len() - pos, 1int,
{
    if how == Items::Quoted {
        lemma_quote_extends(tokens, pos, heap);
    } else if how == Items::Clauses && 0 <= pos && pos + 1 < tokens.len() && tokens[pos] is LParen
        && tokens[pos + 1] is Else {
        lemma_items_extend(tokens, pos + 2, heap, Items::Plain);
    } else {
        lemma_expr_extends(tokens, pos, heap);
    }
}

/// Parsing items adds cells after those that are there.
pub proof fn lemma_items_extend(tokens: Seq<TokenV>, pos: int, heap: Seq<PairV>, how: Items)
    ensures
        extends(parse_items(tokens, pos, heap, how).heap, heap),
    decreases tokens.len() - pos, 2int,
{
    if 0 <= pos < tokens.len() && !(tokens[pos] is RParen) {
        let first = parse_item(tokens, pos, heap, how);
        lemma_item_extends(tokens, pos, heap, how);
        if first.result is Ok && pos < first.next <= tokens.len() {
            lemma_items_extend(tokens, first.next, first.heap, how);
            lemma_extends_twice(
                heap,
                first.heap,
                parse_items(tokens, first.next, first.heap, how).heap,
            );
        }
    }
}

/// Parsing a program adds cells after those that are there.
pub proof fn lemma_program_extends(tokens: Seq<TokenV>, pos: int, heap: Seq<PairV>)
    ensures
        extends(parse_program(tokens, pos, heap).heap, heap),
    decreases tokens.len() - pos,
{
    if 0 <= pos < tokens.len() {
        let first = parse_expr(tokens, pos, heap);
        lemma_expr_extends(tokens, pos, heap);
        if first.result is Ok && pos < first.next <= tokens.len() {
            lemma_program_extends(tokens, first.next, first.heap);
            lemma_extends_twice(heap, first.heap, parse_program(tokens, first.next, first.heap).heap);
        }
    }
}

proof fn lemma_quote_is_datum(tokens: Seq<TokenV>, pos: int, heap: Seq<PairV>)
    requires
        parse_quote(tokens, pos, heap).heap.len() <= usize::MAX,
    ensures
        parse_quote(tokens, pos, heap).result is Ok ==> is_datum(
            parse_quote(tokens, pos, heap).heap,
            parse_quote(tokens, pos, heap).result->Ok_0,
            parse_quote(tokens, pos, heap).heap.len(),
        ),
    decreases tokens.len() - pos, 0int,
{
    if 0 <= pos < tokens.len() {
        match tokens[pos] {
            TokenV::LParen => {
                let items = parse_items(tokens, pos + 1, heap, Items::Quoted);
                if items.result is Ok {
                    lemma_heap_list_extends(items.heap, items.result->Ok_0);
                    lemma_items_are_data(tokens, pos + 1, heap);
                    lemma_list_of_data(items.heap, items.result->Ok_0);
                }
            },
            TokenV::QuoteTick => {
                lemma_quote_is_datum(tokens, pos + 1, heap);
            },
            _ => {},
        }
    }
}

proof fn lemma_items_are_data(tokens: Seq<TokenV>, pos: int, heap: Seq<PairV>)
    requires
        parse_items(tokens, pos, heap, Items::Quoted).heap.len() <= usize::MAX,
    ensures
        parse_items(tokens, pos, heap, Items::Quoted).result is Ok ==> all_data(
            parse_items(tokens, pos, heap, Items::Quoted).heap,
            parse_items(tokens, pos, heap, Items::Quoted).result->Ok_0,
        ),
    decreases tokens.len() - pos, 2int,
{
    if 0 <= pos < tokens.len() && !(tokens[pos] is RParen) {
        let first = parse_quote(tokens, pos, heap);
        assert(parse_item(tokens, pos, heap, Items::Quoted) == first);
        if first.result is Ok && pos < first.next <= tokens.len() {
            let rest = parse_items(tokens, first.next, first.heap, Items::Quoted);
            assert(parse_items(tokens, pos, heap, Items::Quoted).heap == rest.heap);
            lemma_items_extend(tokens, first.next, first.heap, Items::Quoted);
            lemma_items_are_data(tokens, first.next, first.heap);
            lemma_quote_is_datum(tokens, pos, heap);
            if rest.result is Ok {
                let x = first.result->Ok_0;
                let v = rest.result->Ok_0;
                let all = seq![x] + v;
                lemma_datum_stays(first.heap, rest.heap, x, first.heap.len(), rest.heap.len());
                assert forall|j: int| 0 <= j < all.len() implies is_datum(
                    rest.heap,
                    #[trigger] all[j],
                    rest.heap.len(),
                ) by {
                    if j > 0 {
                        assert(all[j] == v[j - 1]);
                    }
                }
            }
        }
    }
}

/// Quoted data is data: what the parser reads after a quote holds no call, no
/// special form and no keyword, only literals, symbols, quotations and cells
/// of such, every cell allocated after the cells it refers to. The cells that
/// were there before stay as they were.
pub proof fn law_quoted_data_is_data(tokens: Seq<TokenV>, pos: int, heap: Seq<PairV>)
    requires
        parse_quote(tokens, pos, heap).heap.len() <= usize::MAX,
    ensures
        extends(parse_quote(tokens, pos, heap).heap, heap),
        parse_quote(tokens, pos, heap).result is Ok ==> is_datum(
            parse_quote(tokens, pos, heap).heap,
            parse_quote(tokens, pos, heap).result->Ok_0,
            parse_quote(tokens, pos, heap).heap.len(),
        ),
{
    lemma_quote_extends(tokens, pos, heap);
    lemma_quote_is_datum(tokens, pos, heap);
}

} // verus!
