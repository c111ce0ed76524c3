//! The printed form of tokens, procedures and expressions.
//!
//! A printed form is a sequence of fragments: pieces of text, and numbers,
//! which are left for the embedding program to write in decimal.
use vstd::prelude::*;
use crate::lexer::{Token, TokenV, names_view};
use crate::number::Number;
use crate::parser::{Expr, ExprV, exprs_view, nth, token_name, token_text};
use crate::primitives::pair::{Heap, PairRef, PairV, list_items};
use crate::procedure::{Proc, ProcV, native_name};
use crate::special_form::{SpecialForm, SpecialFormV};

verus! {

/// A piece of a printed form.
#[derive(Debug, PartialEq)]
pub enum Fragment {
    Text(String),
    Number(Number),
}

/// The mathematical value of a fragment.
pub ghost enum FragmentV {
    Text(Seq<char>),
    Number(Number),
}

impl View for Fragment {
    type V = FragmentV;

    open spec fn view(&self) -> FragmentV {
        match self {
            Fragment::Text(s) => FragmentV::Text(s@),
            Fragment::Number(n) => FragmentV::Number(*n),
        }
    }
}

/// The values of a vector of fragments.
pub open spec fn fragments_view(v: Vec<Fragment>) -> Seq<FragmentV> {
    Seq::new(v.len() as nat, |i: int| v[i]@)
}

/// How deep into nested expressions and pairs printing goes before it writes
/// an ellipsis instead.
pub const PRINT_DEPTH: usize = 64;

/// One fragment of text.
pub open spec fn text(s: Seq<char>) -> Seq<FragmentV> {
    seq![FragmentV::Text(s)]
}

/// The printed form of a token: a number as itself, a string between double
/// quotes, anything else as it is written.
pub open spec fn token_fragments(t: TokenV) -> Seq<FragmentV> {
    match t {
        TokenV::Number(n) => seq![FragmentV::Number(n)],
        TokenV::Str(s) => text("\""@) + text(s) + text("\""@),
        other => text(token_text(other)),
    }
}

/// The names from `i` on, with a blank between two of them.
pub open spec fn names_fragments(names: Seq<Seq<char>>, i: int) -> Seq<FragmentV>
    decreases names.len() - i,
{
    if i < 0 || i >= names.len() {
        Seq::empty()
    } else {
        (if i > 0 {
            text(" "@)
        } else {
            Seq::empty()
        }) + text(names[i]) + names_fragments(names, i + 1)
    }
}

/// The printed form of a list of names.
pub open spec fn name_list_fragments(names: Seq<Seq<char>>) -> Seq<FragmentV> {
    text("'("@) + names_fragments(names, 0) + text(")"@)
}

/// The printed form of a procedure.
pub open spec fn proc_fragments(p: ProcV) -> Seq<FragmentV> {
    match p {
        ProcV::Primitive(n) => text("#<primitive-"@) + text(native_name(n)) + text(">"@),
        ProcV::Compound { params, body, env } => text("#<closure-(#f"@) + name_list_fragments(
            params,
        ) + text(")>"@),
    }
}

/// The printed form of a special form: its keyword between `#<` and `>`.
pub open spec fn form_text(f: SpecialFormV) -> Seq<char> {
    match f {
        SpecialFormV::And(_) => "#<and>"@,
        SpecialFormV::Assignment(_, _) => "#<set!>"@,
        SpecialFormV::Begin(_) => "#<begin>"@,
        SpecialFormV::Cond(_) => "#<cond>"@,
        SpecialFormV::Define(_, _) => "#<define>"@,
        SpecialFormV::If(_, _, _) => "#<if>"@,
        SpecialFormV::Lambda(_, _) => "#<lambda>"@,
        SpecialFormV::Let(_, _) => "#<let>"@,
        SpecialFormV::Or(_) => "#<or>"@,
    }
}

/// The printed form of an expression, down to `depth` levels of nesting.
///
/// A call and a proper list are written as their items between `'(` and `)`,
/// another pair as `(car . cdr)`, a quotation as its datum, the empty list as
/// `'()` and the unspecified value as nothing. Below the last level stands an
/// ellipsis, so that a cyclic structure has a finite printed form.
pub open spec fn expr_fragments(heap: Seq<PairV>, e: ExprV, depth: nat) -> Seq<FragmentV>
    decreases depth, 0int,
{
    if depth == 0 {
        text("..."@)
    } else {
        match e {
            ExprV::EmptyList => text("'()"@),
            ExprV::Atom(t) => token_fragments(t),
            ExprV::Proc(p) => proc_fragments(*p),
            ExprV::Call(items) => list_fragments(heap, items, (depth - 1) as nat),
            ExprV::Pair(r) => match list_items(heap, e, heap.len()) {
                Some(items) => list_fragments(heap, items, (depth - 1) as nat),
                None => {
                    if r.index < heap.len() {
                        text("("@) + expr_fragments(
                            heap,
                            heap[r.index as int].car,
                            (depth - 1) as nat,
                        ) + text(" . "@) + expr_fragments(
                            heap,
                            heap[r.index as int].cdr,
                            (depth - 1) as nat,
                        ) + text(")"@)
                    } else {
                        text("#<pair>"@)
                    }
                },
            },
            ExprV::Quoted(q) => expr_fragments(heap, *q, (depth - 1) as nat),
            ExprV::Void => Seq::empty(),
            ExprV::SpecialForm(f) => text(form_text(*f)),
        }
    }
}

/// The printed form of a list of the given items.
pub open spec fn list_fragments(heap: Seq<PairV>, items: Seq<ExprV>, depth: nat) -> Seq<FragmentV>
    decreases depth, items.len() + 2,
{
    text("'("@) + items_fragments(heap, items, 0, depth) + text(")"@)
}

/// The printed forms of the items from `i` on, with a blank between two of them.
pub open spec fn items_fragments(heap: Seq<PairV>, items: Seq<ExprV>, i: int, depth: nat) -> Seq<
    FragmentV,
>
    decreases depth, items.len() - i + 1,
{
    if i < 0 || i >= items.len() {
        Seq::empty()
    } else {
        (if i > 0 {
            text(" "@)
        } else {
            Seq::empty()
        }) + expr_fragments(heap, items[i], depth) + items_fragments(heap, items, i + 1, depth)
    }
}

/// Appends a fragment of text.
pub fn push_text(out: &mut Vec<Fragment>, s: &str)
    ensures
        fragments_view(*final(out)) == fragments_view(*old(out)) + text(s@),
{
    out.push(Fragment::Text(String::from_str(s)));
    assert(fragments_view(*out) =~= fragments_view(*old(out)) + text(s@));
}

/// Appends a fragment of text.
pub fn push_string(out: &mut Vec<Fragment>, s: String)
    ensures
        fragments_view(*final(out)) == fragments_view(*old(out)) + text(s@),
{
    out.push(Fragment::Text(s));
    assert(fragments_view(*out) =~= fragments_view(*old(out)) + text(s@));
}

/// Appends the printed form of a token.
pub fn write_token(t: &Token, out: &mut Vec<Fragment>)
    ensures
        fragments_view(*final(out)) == fragments_view(*old(out)) + token_fragments(t@),
{
    match t {
        Token::Number(n) => {
            out.push(Fragment::Number(*n));
            assert(fragments_view(*out) =~= fragments_view(*old(out)) + token_fragments(t@));
        },
        Token::Str(s) => {
            push_text(out, "\"");
            push_string(out, s.clone());
            push_text(out, "\"");
            assert(fragments_view(*out) =~= fragments_view(*old(out)) + token_fragments(t@));
        },
        other => {
            push_string(out, token_name(other));
        },
    }
}

/// Appends the printed form of a list of names.
pub fn write_names(names: &Vec<String>, out: &mut Vec<Fragment>)
    ensures
        fragments_view(*final(out)) == fragments_view(*old(out)) + name_list_fragments(
            names_view(*names),
        ),
{
    push_text(out, "'(");
    let ghost start = fragments_view(*out);
    let ghost all = names_view(*names);
    let mut i: usize = 0;
    while i < names.len()
        invariant
            i <= names.len(),
            all == names_view(*names),
            start + names_fragments(all, 0) =~= fragments_view(*out) + names_fragments(
                all,
                i as int,
            ),
        decreases names.len() - i,
    {
        if i > 0 {
            push_text(out, " ");
        }
        push_string(out, names[i].clone());
        i += 1;
    }
    push_text(out, ")");
    assert(fragments_view(*out) =~= fragments_view(*old(out)) + name_list_fragments(all));
}

/// Appends the printed form of a procedure.
pub fn write_proc(p: &Proc, out: &mut Vec<Fragment>)
    ensures
        fragments_view(*final(out)) == fragments_view(*old(out)) + proc_fragments(p@),
{
    match p {
        Proc::Primitive(n) => {
            push_text(out, "#<primitive-");
            push_text(out, n.0.name());
            push_text(out, ">");
            assert(fragments_view(*out) =~= fragments_view(*old(out)) + proc_fragments(p@));
        },
        Proc::Compound(c) => {
            push_text(out, "#<closure-(#f");
            write_names(&c.params, out);
            push_text(out, ")>");
            assert(fragments_view(*out) =~= fragments_view(*old(out)) + proc_fragments(p@));
        },
    }
}

/// The printed form of a special form.
fn form_name(f: &SpecialForm) -> (r: &'static str)
    ensures
        r@ == form_text(f@),
{
    match f {
        SpecialForm::And(_) => "#<and>",
        SpecialForm::Assignment(_) => "#<set!>",
        SpecialForm::Begin(_) => "#<begin>",
        SpecialForm::Cond(_) => "#<cond>",
        SpecialForm::Define(_) => "#<define>",
        SpecialForm::If(_) => "#<if>",
        SpecialForm::Lambda(_) => "#<lambda>",
        SpecialForm::Let(_) => "#<let>",
        SpecialForm::Or(_) => "#<or>",
    }
}

/// Appends the printed form of an expression, down to `depth` levels.
pub fn write_expr(e: &Expr, heap: &Heap, depth: usize, out: &mut Vec<Fragment>)
    ensures
        fragments_view(*final(out)) == fragments_view(*old(out)) + expr_fragments(
            heap@,
            e@,
            depth as nat,
        ),
    decreases depth, 0int,
{
    if depth == 0 {
        push_text(out, "...");
        return ;
    }
    match e {
        Expr::EmptyList => push_text(out, "'()"),
        Expr::Atom(t) => write_token(t, out),
        Expr::Proc(p) => write_proc(p, out),
        Expr::Call(items) => write_list(items, heap, depth - 1, out),
        Expr::Pair(r) => match heap.try_list(e) {
            Some(items) => write_list(&items, heap, depth - 1, out),
            None => match heap.get(*r) {
                Some(cell) => {
                    push_text(out, "(");
                    write_expr(&cell.car, heap, depth - 1, out);
                    push_text(out, " . ");
                    write_expr(&cell.cdr, heap, depth - 1, out);
                    push_text(out, ")");
                    assert(fragments_view(*out) =~= fragments_view(*old(out)) + expr_fragments(
                        heap@,
                        e@,
                        depth as nat,
                    ));
                },
                None => push_text(out, "#<pair>"),
            },
        },
        Expr::Quoted(q) => write_expr(q, heap, depth - 1, out),
        Expr::Void => {
            assert(fragments_view(*out) + Seq::<FragmentV>::empty() =~= fragments_view(*out));
        },
        Expr::SpecialForm(f) => push_text(out, form_name(f)),
    }
}

/// Appends the printed form of a list of the given items.
pub fn write_list(items: &Vec<Expr>, heap: &Heap, depth: usize, out: &mut Vec<Fragment>)
    ensures
        fragments_view(*final(out)) == fragments_view(*old(out)) + list_fragments(
            heap@,
            exprs_view(*items),
            depth as nat,
        ),
    decreases depth, 1int,
{
    push_text(out, "'(");
    let ghost start = fragments_view(*out);
    let ghost all = exprs_view(*items);
    let mut i: usize = 0;
    while i < items.len()
        invariant
            i <= items.len(),
            all == exprs_view(*items),
            start + items_fragments(heap@, all, 0, depth as nat) =~= fragments_view(*out)
                + items_fragments(heap@, all, i as int, depth as nat),
        decreases items.len() - i,
    {
        if i > 0 {
            push_text(out, " ");
        }
        write_expr(nth(items, i), heap, depth, out);
        i += 1;
    }
    push_text(out, ")");
    assert(fragments_view(*out) =~= fragments_view(*old(out)) + list_fragments(
        heap@,
        all,
        depth as nat,
    ));
}

/// What has a printed form.
pub trait Printable {
    /// The printed form of `self`, read against the given heap.
    spec fn printed(&self, heap: Seq<PairV>) -> Seq<FragmentV>;

    /// The printed form of `self`.
    fn printable(&self, heap: &Heap) -> (r: Vec<Fragment>)
        ensures
            fragments_view(r) == self.printed(heap@),
    ;
}

impl Printable for Token {
    open spec fn printed(&self, heap: Seq<PairV>) -> Seq<FragmentV> {
        token_fragments(self@)
    }

    fn printable(&self, heap: &Heap) -> (r: Vec<Fragment>) {
        let mut out: Vec<Fragment> = Vec::new();
        write_token(self, &mut out);
        assert(fragments_view(out) =~= token_fragments(self@));
        out
    }
}

impl Printable for Proc {
    open spec fn printed(&self, heap: Seq<PairV>) -> Seq<FragmentV> {
        proc_fragments(self@)
    }

    fn printable(&self, heap: &Heap) -> (r: Vec<Fragment>) {
        let mut out: Vec<Fragment> = Vec::new();
        write_proc(self, &mut out);
        assert(fragments_view(out) =~= proc_fragments(self@));
        out
    }
}

impl Printable for Expr {
    open spec fn printed(&self, heap: Seq<PairV>) -> Seq<FragmentV> {
        expr_fragments(heap, self@, PRINT_DEPTH as nat)
    }

    fn printable(&self, heap: &Heap) -> (r: Vec<Fragment>) {
        let mut out: Vec<Fragment> = Vec::new();
        write_expr(self, heap, PRINT_DEPTH, &mut out);
        assert(fragments_view(out) =~= expr_fragments(heap@, self@, PRINT_DEPTH as nat));
        out
    }
}

impl Printable for Vec<Expr> {
    open spec fn printed(&self, heap: Seq<PairV>) -> Seq<FragmentV> {
        list_fragments(heap, exprs_view(*self), (PRINT_DEPTH - 1) as nat)
    }

    fn printable(&self, heap: &Heap) -> (r: Vec<Fragment>) {
        let mut out: Vec<Fragment> = Vec::new();
        write_list(self, heap, PRINT_DEPTH - 1, &mut out);
        assert(fragments_view(out) =~= self.printed(heap@));
        out
    }
}

impl Printable for Vec<String> {
    open spec fn printed(&self, heap: Seq<PairV>) -> Seq<FragmentV> {
        name_list_fragments(names_view(*self))
    }

    fn printable(&self, heap: &Heap) -> (r: Vec<Fragment>) {
        let mut out: Vec<Fragment> = Vec::new();
        write_names(self, &mut out);
        assert(fragments_view(out) =~= self.printed(heap@));
        out
    }
}

impl Printable for PairRef {
    open spec fn printed(&self, heap: Seq<PairV>) -> Seq<FragmentV> {
        expr_fragments(heap, ExprV::Pair(*self), PRINT_DEPTH as nat)
    }

    fn printable(&self, heap: &Heap) -> (r: Vec<Fragment>) {
        Expr::Pair(*self).printable(heap)
    }
}

} // verus!
