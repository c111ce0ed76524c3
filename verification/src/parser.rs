//! Expressions, and the parser that builds them from tokens.
use vstd::prelude::*;
use std::rc::Rc;
use crate::error::{EvalErr, EvalErrV};
use crate::lexer::{MutCell, Token, TokenV, names_view, tokens_view};
use crate::primitives::pair::{Heap, PairRef, PairV, heap_list};
use crate::procedure::{Proc, ProcV};
use crate::special_form::{
    And, Assignment, Begin, Define, If, Lambda, Or, SpecialForm, SpecialFormV,
};

verus! {

/// `Rc::clone`: another pointer to the same allocation, so to the same value.
#[verifier::external_body]
pub(crate) fn share<T>(rc: &Rc<T>) -> (res: Rc<T>)
    ensures
        res == *rc,
{
    Rc::clone(rc)
}

/// An expression: syntax before evaluation and value after it.
#[derive(Debug, PartialEq)]
pub enum Expr {
    Call(Vec<Expr>),
    Pair(PairRef),
    Proc(Rc<Proc>),
    SpecialForm(Rc<SpecialForm>),
    Quoted(Box<Expr>),
    Atom(Token),
    EmptyList,
    Void,
}

/// The mathematical value of an expression.
pub ghost enum ExprV {
    Call(Seq<ExprV>),
    Pair(PairRef),
    Proc(Box<ProcV>),
    SpecialForm(Box<SpecialFormV>),
    Quoted(Box<ExprV>),
    Atom(TokenV),
    EmptyList,
    Void,
}

/// The value of an expression.
pub open spec fn expr_view(e: Expr) -> ExprV
    decreases e,
{
    match e {
        Expr::Call(v) => ExprV::Call(seq_view(v@)),
        Expr::Pair(p) => ExprV::Pair(p),
        Expr::Proc(p) => ExprV::Proc(
            Box::new(
                match *p {
                    Proc::Primitive(n) => ProcV::Primitive(n.0),
                    Proc::Compound(c) => ProcV::Compound {
                        params: names_view(c.params),
                        body: seq_view(c.body@),
                        env: c.env,
                    },
                },
            ),
        ),
        Expr::SpecialForm(f) => ExprV::SpecialForm(
            Box::new(
                match *f {
                    SpecialForm::And(x) => SpecialFormV::And(seq_view(x.body@)),
                    SpecialForm::Assignment(x) => SpecialFormV::Assignment(
                        expr_view(x.identifier),
                        expr_view(x.value),
                    ),
                    SpecialForm::Begin(x) => SpecialFormV::Begin(seq_view(x.exprs@)),
                    SpecialForm::Cond(x) => SpecialFormV::Cond(seq_view(x.clauses@)),
                    SpecialForm::Define(x) => SpecialFormV::Define(
                        expr_view(x.identifier),
                        expr_view(x.value),
                    ),
                    SpecialForm::If(x) => SpecialFormV::If(
                        expr_view(x.predicate),
                        expr_view(x.consequence),
                        expr_view(x.alternative),
                    ),
                    SpecialForm::Lambda(x) => SpecialFormV::Lambda(
                        expr_view(x.params),
                        seq_view(x.body@),
                    ),
                    SpecialForm::Let(x) => SpecialFormV::Let(
                        expr_view(x.bindings),
                        seq_view(x.body@),
                    ),
                    SpecialForm::Or(x) => SpecialFormV::Or(seq_view(x.body@)),
                },
            ),
        ),
        Expr::Quoted(b) => ExprV::Quoted(Box::new(expr_view(*b))),
        Expr::Atom(t) => ExprV::Atom(t@),
        Expr::EmptyList => ExprV::EmptyList,
        Expr::Void => ExprV::Void,
    }
}

/// The values of a sequence of expressions.
pub open spec fn seq_view(s: Seq<Expr>) -> Seq<ExprV>
    decreases s,
{
    Seq::new(
        s.len(),
        |i: int|
            if 0 <= i < s.len() {
                expr_view(s[i])
            } else {
                ExprV::Void
            },
    )
}

/// Appending an expression appends its value.
pub proof fn lemma_push_view(s: Seq<Expr>, x: Expr)
    ensures
        seq_view(s.push(x)) == seq_view(s).push(x@),
{
    assert(seq_view(s.push(x)) =~= seq_view(s).push(x@));
}

/// The values of a vector of expressions.
pub open spec fn exprs_view(v: Vec<Expr>) -> Seq<ExprV> {
    seq_view(v@)
}

/// The value of a procedure.
pub open spec fn proc_view(p: Proc) -> ProcV {
    match p {
        Proc::Primitive(n) => ProcV::Primitive(n.0),
        Proc::Compound(c) => ProcV::Compound {
            params: names_view(c.params),
            body: seq_view(c.body@),
            env: c.env,
        },
    }
}

/// The value of a special form.
pub open spec fn form_view(f: SpecialForm) -> SpecialFormV {
    match f {
        SpecialForm::And(x) => SpecialFormV::And(seq_view(x.body@)),
        SpecialForm::Assignment(x) => SpecialFormV::Assignment(
            expr_view(x.identifier),
            expr_view(x.value),
        ),
        SpecialForm::Begin(x) => SpecialFormV::Begin(seq_view(x.exprs@)),
        SpecialForm::Cond(x) => SpecialFormV::Cond(seq_view(x.clauses@)),
        SpecialForm::Define(x) => SpecialFormV::Define(expr_view(x.identifier), expr_view(x.value)),
        SpecialForm::If(x) => SpecialFormV::If(
            expr_view(x.predicate),
            expr_view(x.consequence),
            expr_view(x.alternative),
        ),
        SpecialForm::Lambda(x) => SpecialFormV::Lambda(expr_view(x.params), seq_view(x.body@)),
        SpecialForm::Let(x) => SpecialFormV::Let(expr_view(x.bindings), seq_view(x.body@)),
        SpecialForm::Or(x) => SpecialFormV::Or(seq_view(x.body@)),
    }
}

impl View for Proc {
    type V = ProcV;

    open spec fn view(&self) -> ProcV {
        proc_view(*self)
    }
}

impl View for SpecialForm {
    type V = SpecialFormV;

    open spec fn view(&self) -> SpecialFormV {
        form_view(*self)
    }
}

impl Clone for Expr {
    #[verifier::loop_isolation(false)]
    fn clone(&self) -> (r: Expr)
        ensures
            r@ == self@,
        decreases self,
    {
        match self {
            Expr::Call(v) => {
                let mut out: Vec<Expr> = Vec::new();
                let mut i: usize = 0;
                while i < v.len()
                    invariant
                        i <= v.len(),
                        out.len() == i,
                        forall|j: int| 0 <= j < i ==> out[j]@ == v[j]@,
                    decreases v.len() - i,
                {
                    out.push(v[i].clone());
                    i += 1;
                }
                assert(seq_view(out@) =~= seq_view(v@));
                Expr::Call(out)
            },
            Expr::Pair(p) => Expr::Pair(*p),
            Expr::Proc(p) => Expr::Proc(share(p)),
            Expr::SpecialForm(f) => Expr::SpecialForm(share(f)),
            Expr::Quoted(b) => Expr::Quoted(Box::new((**b).clone())),
            Expr::Atom(t) => Expr::Atom(t.clone()),
            Expr::EmptyList => Expr::EmptyList,
            Expr::Void => Expr::Void,
        }
    }
}

impl View for Expr {
    type V = ExprV;

    open spec fn view(&self) -> ExprV {
        expr_view(*self)
    }
}

/// The value of the result of a computation that gives an expression.
pub open spec fn expr_result_view(r: Result<Expr, EvalErr>) -> Result<ExprV, EvalErrV> {
    match r {
        Ok(x) => Ok(x@),
        Err(e) => Err(e@),
    }
}

/// The value of the result of a computation that gives expressions.
pub open spec fn exprs_result_view(r: Result<Vec<Expr>, EvalErr>) -> Result<Seq<ExprV>, EvalErrV> {
    match r {
        Ok(x) => Ok(exprs_view(x)),
        Err(e) => Err(e@),
    }
}

/// A special form as the parser emits it: alone in a call.
pub open spec fn special(form: SpecialFormV) -> ExprV {
    ExprV::Call(seq![ExprV::SpecialForm(Box::new(form))])
}

/// `(if predicate consequence alternative)`.
pub open spec fn build_if(items: Seq<ExprV>) -> Result<ExprV, EvalErrV> {
    if items.len() == 3 {
        Ok(special(SpecialFormV::If(items[0], items[1], items[2])))
    } else {
        Err(
            EvalErrV::InvalidArgs(
                "'if' expression. expected condition, predicate, and consequence"@,
            ),
        )
    }
}

/// `(lambda parameters body...)`, the body not empty.
pub open spec fn build_lambda(items: Seq<ExprV>) -> Result<ExprV, EvalErrV> {
    if items.len() >= 2 {
        Ok(special(SpecialFormV::Lambda(items[0], items.subrange(1, items.len() as int))))
    } else {
        Err(EvalErrV::InvalidArgs("'lambda' expression. expected parameters and body"@))
    }
}

/// The parameter list of a procedure definition: what follows the name.
pub open spec fn parameter_list(names: Seq<ExprV>) -> ExprV {
    if names.len() <= 1 {
        ExprV::EmptyList
    } else {
        ExprV::Call(names.subrange(1, names.len() as int))
    }
}

/// `(define identifier value)`, and `(define (identifier parameters...) body...)`,
/// which defines the identifier as the lambda of the parameters and the body.
pub open spec fn build_define(items: Seq<ExprV>) -> Result<ExprV, EvalErrV> {
    if items.len() == 0 {
        Err(EvalErrV::InvalidArgs("'define' expression. expected identifier and value"@))
    } else {
        match items[0] {
            ExprV::Call(names) => {
                if names.len() == 0 || items.len() < 2 {
                    Err(EvalErrV::InvalidArgs("'define' procedure. expected parameters and body"@))
                } else {
                    Ok(
                        special(
                            SpecialFormV::Define(
                                names[0],
                                special(
                                    SpecialFormV::Lambda(
                                        parameter_list(names),
                                        items.subrange(1, items.len() as int),
                                    ),
                                ),
                            ),
                        ),
                    )
                }
            },
            identifier => {
                if items.len() == 2 {
                    Ok(special(SpecialFormV::Define(identifier, items[1])))
                } else {
                    Err(
                        EvalErrV::InvalidArgs(
                            "'define' expression. expected identifier and value"@,
                        ),
                    )
                }
            },
        }
    }
}

/// `(set! identifier value)`.
pub open spec fn build_assignment(items: Seq<ExprV>) -> Result<ExprV, EvalErrV> {
    if items.len() == 2 {
        Ok(special(SpecialFormV::Assignment(items[0], items[1])))
    } else {
        Err(EvalErrV::InvalidArgs("'set!' expression. expected identifier and value"@))
    }
}

/// The nested `if` that the clauses from `i` on stand for. A clause
/// `(predicate body...)` becomes an `if` whose consequence is the body in a
/// `begin` and whose alternative stands for the clauses after it, or is the
/// empty list after the last. A last clause `(else body...)` is its body in a
/// `begin`; an `else` clause elsewhere is refused.
pub open spec fn cond_to_if_spec(clauses: Seq<ExprV>, i: int) -> Result<ExprV, EvalErrV>
    decreases clauses.len() - i,
{
    if i < 0 || i >= clauses.len() {
        Ok(ExprV::EmptyList)
    } else {
        match clauses[i] {
            ExprV::Call(parts) => {
                if parts.len() == 0 {
                    Err(
                        EvalErrV::InvalidArgs(
                            "'cond'. clauses expcted two be lists of two values"@,
                        ),
                    )
                } else {
                    let consequence = special(
                        SpecialFormV::Begin(parts.subrange(1, parts.len() as int)),
                    );
                    if parts[0] == ExprV::Atom(TokenV::Else) {
                        if i + 1 == clauses.len() {
                            Ok(consequence)
                        } else {
                            Err(EvalErrV::UnexpectedToken(ExprV::Atom(TokenV::Else)))
                        }
                    } else {
                        match cond_to_if_spec(clauses, i + 1) {
                            Ok(alternative) => Ok(
                                special(SpecialFormV::If(parts[0], consequence, alternative)),
                            ),
                            Err(e) => Err(e),
                        }
                    }
                }
            },
            clause => Err(EvalErrV::UnexpectedToken(clause)),
        }
    }
}

/// `(cond clause...)` with at least one clause.
pub open spec fn build_cond(items: Seq<ExprV>) -> Result<ExprV, EvalErrV> {
    if items.len() == 0 {
        Err(EvalErrV::InvalidArgs("'cond' expression. expected clauses."@))
    } else {
        cond_to_if_spec(items, 0)
    }
}

/// The names and the values of the bindings `(name value)` from `i` on, or the
/// error in the first of them that is no such list.
pub open spec fn unzip_spec(bindings: Seq<ExprV>, i: int) -> Result<
    (Seq<ExprV>, Seq<ExprV>),
    EvalErrV,
>
    decreases bindings.len() - i,
{
    if i < 0 || i >= bindings.len() {
        Ok((Seq::empty(), Seq::empty()))
    } else {
        match bindings[i] {
            ExprV::Call(binding) => {
                if binding.len() != 2 {
                    Err(EvalErrV::InvalidArgs("'let' expression. expected bindings as pairs"@))
                } else {
                    match unzip_spec(bindings, i + 1) {
                        Ok((names, values)) => Ok(
                            (seq![binding[0]] + names, seq![binding[1]] + values),
                        ),
                        Err(e) => Err(e),
                    }
                }
            },
            other => Err(EvalErrV::TypeError("list"@, other)),
        }
    }
}

/// The call that a `let` stands for: the lambda of the bound names and the
/// body, applied to the bound values.
pub open spec fn let_to_lambda_spec(bindings: ExprV, body: Seq<ExprV>) -> Result<
    Seq<ExprV>,
    EvalErrV,
> {
    match bindings {
        ExprV::Call(list) => match unzip_spec(list, 0) {
            Ok((names, values)) => Ok(
                seq![special(SpecialFormV::Lambda(ExprV::Call(names), body))] + values,
            ),
            Err(e) => Err(e),
        },
        other => Err(EvalErrV::TypeError("list"@, other)),
    }
}

/// `(let ((name value)...) body...)`, the body not empty.
pub open spec fn build_let(items: Seq<ExprV>) -> Result<ExprV, EvalErrV> {
    if items.len() >= 2 {
        match let_to_lambda_spec(items[0], items.subrange(1, items.len() as int)) {
            Ok(call) => Ok(ExprV::Call(call)),
            Err(e) => Err(e),
        }
    } else {
        Err(EvalErrV::InvalidArgs("'let' expression. expected bindings and body"@))
    }
}

/// Whether a list that starts with this token is a special form.
pub open spec fn is_form_keyword(t: TokenV) -> bool {
    t is If || t is Lambda || t is Define || t is And || t is Or || t is Assignment || t is Begin
        || t is Cond || t is Let
}

/// The expression for the special form of the given keyword and sub-expressions.
pub open spec fn build_form(keyword: TokenV, items: Seq<ExprV>) -> Result<ExprV, EvalErrV> {
    match keyword {
        TokenV::If => build_if(items),
        TokenV::Lambda => build_lambda(items),
        TokenV::Define => build_define(items),
        TokenV::Assignment => build_assignment(items),
        TokenV::Cond => build_cond(items),
        TokenV::Let => build_let(items),
        TokenV::And => Ok(special(SpecialFormV::And(items))),
        TokenV::Or => Ok(special(SpecialFormV::Or(items))),
        _ => Ok(special(SpecialFormV::Begin(items))),
    }
}

/// The text of a token that is written as a word or a sign.
pub open spec fn token_text(t: TokenV) -> Seq<char> {
    match t {
        TokenV::LParen => "("@,
        TokenV::RParen => ")"@,
        TokenV::If => "if"@,
        TokenV::And => "and"@,
        TokenV::Or => "or"@,
        TokenV::Define => "define"@,
        TokenV::Lambda => "lambda"@,
        TokenV::Cond => "cond"@,
        TokenV::Else => "else"@,
        TokenV::Assignment => "set!"@,
        TokenV::Let => "let"@,
        TokenV::Begin => "begin"@,
        TokenV::QuoteTick => "'"@,
        TokenV::QuoteProc => "quote"@,
        TokenV::MutatePair(MutCell::Car) => "set-car!"@,
        TokenV::MutatePair(MutCell::Cdr) => "set-cdr!"@,
        TokenV::Boolean(true) => "#t"@,
        TokenV::Boolean(false) => "#f"@,
        TokenV::Str(s) => s,
        TokenV::Symbol(s) => s,
        TokenV::Number(_) => Seq::empty(),
    }
}

/// What parsing gives: the result, the position after what was read, and the
/// heap with the cells of the quoted lists that were read.
pub ghost struct Parsed<T> {
    pub result: Result<T, EvalErrV>,
    pub next: int,
    pub heap: Seq<PairV>,
}

/// How the items of a list are read.
#[derive(Clone, Copy, Debug, PartialEq, Eq)]
pub enum Items {
    /// As expressions.
    Plain,
    /// As the clauses of a `cond`: expressions, but for a list that starts
    /// with `else`.
    Clauses,
    /// As quoted data.
    Quoted,
}

/// The failure `e` at position `next`.
pub open spec fn failed<T>(e: EvalErrV, next: int, heap: Seq<PairV>) -> Parsed<T> {
    Parsed { result: Err(e), next, heap }
}

/// The parse `p` with its datum quoted.
pub open spec fn quoted(p: Parsed<ExprV>) -> Parsed<ExprV> {
    Parsed {
        result: match p.result {
            Ok(d) => Ok(ExprV::Quoted(Box::new(d))),
            Err(e) => Err(e),
        },
        next: p.next,
        heap: p.heap,
    }
}

/// The expression that starts at `pos`.
pub open spec fn parse_expr(tokens: Seq<TokenV>, pos: int, heap: Seq<PairV>) -> Parsed<ExprV>
    decreases tokens.len() - pos, 0int,
{
    if pos < 0 || pos >= tokens.len() {
        failed(EvalErrV::UnexpectedEnd, pos, heap)
    } else {
        match tokens[pos] {
            TokenV::LParen => parse_list(tokens, pos + 1, heap),
            TokenV::QuoteTick => quoted(parse_quote(tokens, pos + 1, heap)),
            TokenV::Number(n) => Parsed {
                result: Ok(ExprV::Atom(TokenV::Number(n))),
                next: pos + 1,
                heap,
            },
            TokenV::Str(s) => Parsed { result: Ok(ExprV::Atom(TokenV::Str(s))), next: pos + 1, heap },
            TokenV::Boolean(b) => Parsed {
                result: Ok(ExprV::Atom(TokenV::Boolean(b))),
                next: pos + 1,
                heap,
            },
            TokenV::Symbol(s) => Parsed {
                result: Ok(ExprV::Atom(TokenV::Symbol(s))),
                next: pos + 1,
                heap,
            },
            TokenV::MutatePair(c) => Parsed {
                result: Ok(ExprV::Atom(TokenV::Symbol(token_text(TokenV::MutatePair(c))))),
                next: pos + 1,
                heap,
            },
            t => failed(EvalErrV::UnexpectedToken(ExprV::Atom(t)), pos + 1, heap),
        }
    }
}

/// The list whose opening parenthesis stands before `pos`: a quotation, a
/// special form or a call, by its first token.
pub open spec fn parse_list(tokens: Seq<TokenV>, pos: int, heap: Seq<PairV>) -> Parsed<ExprV>
    decreases tokens.len() - pos, 5int,
{
    if pos < 0 || pos >= tokens.len() {
        failed(EvalErrV::UnexpectedEnd, pos, heap)
    } else if tokens[pos] is QuoteProc {
        parse_quotation(tokens, pos + 1, heap)
    } else if is_form_keyword(tokens[pos]) {
        parse_form(tokens, pos + 1, heap, tokens[pos])
    } else {
        parse_call(tokens, pos, heap)
    }
}

/// The quotation `(quote datum)` whose datum starts at `pos`.
pub open spec fn parse_quotation(tokens: Seq<TokenV>, pos: int, heap: Seq<PairV>) -> Parsed<ExprV>
    decreases tokens.len() - pos, 1int,
{
    let datum = parse_quote(tokens, pos, heap);
    match datum.result {
        Err(e) => failed(e, datum.next, datum.heap),
        Ok(d) => {
            if datum.next < 0 || datum.next >= tokens.len() {
                failed(EvalErrV::UnexpectedEnd, datum.next, datum.heap)
            } else if !(tokens[datum.next] is RParen) {
                failed(
                    EvalErrV::UnexpectedToken(ExprV::Atom(tokens[datum.next])),
                    datum.next + 1,
                    datum.heap,
                )
            } else {
                Parsed {
                    result: Ok(ExprV::Quoted(Box::new(d))),
                    next: datum.next + 1,
                    heap: datum.heap,
                }
            }
        },
    }
}

/// The call whose items start at `pos`, or the empty list where there is none.
pub open spec fn parse_call(tokens: Seq<TokenV>, pos: int, heap: Seq<PairV>) -> Parsed<ExprV>
    decreases tokens.len() - pos, 3int,
{
    let items = parse_items(tokens, pos, heap, Items::Plain);
    match items.result {
        Err(e) => failed(e, items.next, items.heap),
        Ok(v) => Parsed {
            result: Ok(
                if v.len() == 0 {
                    ExprV::EmptyList
                } else {
                    ExprV::Call(v)
                },
            ),
            next: items.next,
            heap: items.heap,
        },
    }
}

/// The special form of the given keyword whose sub-expressions start at `pos`.
pub open spec fn parse_form(tokens: Seq<TokenV>, pos: int, heap: Seq<PairV>, keyword: TokenV) -> Parsed<
    ExprV,
>
    decreases tokens.len() - pos, 3int,
{
    let items = parse_items(
        tokens,
        pos,
        heap,
        if keyword is Cond {
            Items::Clauses
        } else {
            Items::Plain
        },
    );
    match items.result {
        Err(e) => failed(e, items.next, items.heap),
        Ok(v) => Parsed { result: build_form(keyword, v), next: items.next, heap: items.heap },
    }
}

/// The quoted datum that starts at `pos`: a list becomes a chain of cells, a
/// keyword the symbol of its text, and a quote tick quotes the datum after it.
pub open spec fn parse_quote(tokens: Seq<TokenV>, pos: int, heap: Seq<PairV>) -> Parsed<ExprV>
    decreases tokens.len() - pos, 0int,
{
    if pos < 0 || pos >= tokens.len() {
        failed(EvalErrV::UnexpectedEnd, pos, heap)
    } else {
        match tokens[pos] {
            TokenV::LParen => {
                let items = parse_items(tokens, pos + 1, heap, Items::Quoted);
                match items.result {
                    Err(e) => failed(e, items.next, items.heap),
                    Ok(v) => {
                        let (cells, list) = heap_list(items.heap, v);
                        Parsed { result: Ok(list), next: items.next, heap: cells }
                    },
                }
            },
            TokenV::QuoteTick => quoted(parse_quote(tokens, pos + 1, heap)),
            TokenV::RParen => failed(
                EvalErrV::UnexpectedToken(ExprV::Atom(TokenV::RParen)),
                pos + 1,
                heap,
            ),
            TokenV::Number(n) => Parsed {
                result: Ok(ExprV::Atom(TokenV::Number(n))),
                next: pos + 1,
                heap,
            },
            TokenV::Str(s) => Parsed { result: Ok(ExprV::Atom(TokenV::Str(s))), next: pos + 1, heap },
            TokenV::Boolean(b) => Parsed {
                result: Ok(ExprV::Atom(TokenV::Boolean(b))),
                next: pos + 1,
                heap,
            },
            t => Parsed {
                result: Ok(ExprV::Atom(TokenV::Symbol(token_text(t)))),
                next: pos + 1,
                heap,
            },
        }
    }
}

/// The item that starts at `pos`, read in the given way.
pub open spec fn parse_item(tokens: Seq<TokenV>, pos: int, heap: Seq<PairV>, how: Items) -> Parsed<
    ExprV,
>
    decreases tokens.len() - pos, 1int,
{
    if how == Items::Quoted {
        parse_quote(tokens, pos, heap)
    } else if how == Items::Clauses && 0 <= pos && pos + 1 < tokens.len() && tokens[pos] is LParen
        && tokens[pos + 1] is Else {
        let body = parse_items(tokens, pos + 2, heap, Items::Plain);
        match body.result {
            Err(e) => failed(e, body.next, body.heap),
            Ok(v) => Parsed {
                result: Ok(ExprV::Call(seq![ExprV::Atom(TokenV::Else)] + v)),
                next: body.next,
                heap: body.heap,
            },
        }
    } else {
        parse_expr(tokens, pos, heap)
    }
}

/// The items from `pos` up to the closing parenthesis, which is read too.
/// An item is at least one token long (`law_item_goes_forward`), so the test
/// that the position went forward never fails; it is there to show that the
/// items come to an end.
pub open spec fn parse_items(tokens: Seq<TokenV>, pos: int, heap: Seq<PairV>, how: Items) -> Parsed<
    Seq<ExprV>,
>
    decreases tokens.len() - pos, 2int,
{
    if pos < 0 || pos >= tokens.len() {
        failed(EvalErrV::UnexpectedEnd, pos, heap)
    } else if tokens[pos] is RParen {
        Parsed { result: Ok(Seq::empty()), next: pos + 1, heap }
    } else {
        let first = parse_item(tokens, pos, heap, how);
        match first.result {
            Err(e) => failed(e, first.next, first.heap),
            Ok(x) => {
                if first.next <= pos || first.next > tokens.len() {
                    failed(EvalErrV::UnexpectedEnd, first.next, first.heap)
                } else {
                    let rest = parse_items(tokens, first.next, first.heap, how);
                    match rest.result {
                        Err(e) => failed(e, rest.next, rest.heap),
                        Ok(v) => Parsed {
                            result: Ok(seq![x] + v),
                            next: rest.next,
                            heap: rest.heap,
                        },
                    }
                }
            },
        }
    }
}

/// The expressions from `pos` to the end of the tokens.
pub open spec fn parse_program(tokens: Seq<TokenV>, pos: int, heap: Seq<PairV>) -> Parsed<
    Seq<ExprV>,
>
    decreases tokens.len() - pos,
{
    if pos < 0 || pos >= tokens.len() {
        Parsed { result: Ok(Seq::empty()), next: pos, heap }
    } else {
        let first = parse_expr(tokens, pos, heap);
        match first.result {
            Err(e) => failed(e, first.next, first.heap),
            Ok(x) => {
                if first.next <= pos || first.next > tokens.len() {
                    failed(EvalErrV::UnexpectedEnd, first.next, first.heap)
                } else {
                    let rest = parse_program(tokens, first.next, first.heap);
                    match rest.result {
                        Err(e) => failed(e, rest.next, rest.heap),
                        Ok(v) => Parsed {
                            result: Ok(seq![x] + v),
                            next: rest.next,
                            heap: rest.heap,
                        },
                    }
                }
            },
        }
    }
}

/// The element at position `i`.
pub fn nth(items: &Vec<Expr>, i: usize) -> (r: &Expr)
    requires
        i < items.len(),
    ensures
        *r == items[i as int],
        r@ == exprs_view(*items)[i as int],
{
    &items[i]
}

/// The only item of a call.
fn single(item: Expr) -> (r: Expr)
    ensures
        r@ == ExprV::Call(seq![item@]),
{
    let v = vec![item];
    assert(exprs_view(v) =~= seq![item@]);
    Expr::Call(v)
}

impl Expr {
    /// The call that holds this expression alone.
    pub fn into_call(self) -> (r: Result<Expr, EvalErr>)
        ensures
            expr_result_view(r) == Ok::<ExprV, EvalErrV>(ExprV::Call(seq![self@])),
    {
        Ok(single(self))
    }
}

/// The elements of `items` from `from` on.
pub fn rest_of(items: &Vec<Expr>, from: usize) -> (r: Vec<Expr>)
    ensures
        exprs_view(r) == if from <= items.len() {
            exprs_view(*items).subrange(from as int, items.len() as int)
        } else {
            Seq::empty()
        },
{
    let mut out: Vec<Expr> = Vec::new();
    let mut i: usize = from;
    if from > items.len() {
        assert(exprs_view(out) =~= Seq::<ExprV>::empty());
        return out;
    }
    while i < items.len()
        invariant
            from <= i <= items.len(),
            exprs_view(out) =~= exprs_view(*items).subrange(from as int, i as int),
        decreases items.len() - i,
    {
        let item = items[i].clone();
        proof {
            assert(seq_view(out@.push(item)) =~= seq_view(out@).push(item@));
            assert(exprs_view(*items).subrange(from as int, i + 1) =~= exprs_view(
                *items,
            ).subrange(from as int, i as int).push(items[i as int]@));
        }
        out.push(item);
        i += 1;
    }
    out
}

/// A copy of all the elements.
pub fn clone_all(items: &Vec<Expr>) -> (r: Vec<Expr>)
    ensures
        exprs_view(r) == exprs_view(*items),
{
    let r = rest_of(items, 0);
    assert(exprs_view(*items).subrange(0, items.len() as int) =~= exprs_view(*items));
    r
}

fn lambda_expr(params: Expr, body: Vec<Expr>) -> (r: Expr)
    ensures
        r@ == special(SpecialFormV::Lambda(params@, exprs_view(body))),
{
    single(Expr::SpecialForm(Rc::new(SpecialForm::Lambda(Lambda::new(params, body)))))
}

fn begin_expr(exprs: Vec<Expr>) -> (r: Expr)
    ensures
        r@ == special(SpecialFormV::Begin(exprs_view(exprs))),
{
    single(Expr::SpecialForm(Rc::new(SpecialForm::Begin(Begin::new(exprs)))))
}

fn if_expr(predicate: Expr, consequence: Expr, alternative: Expr) -> (r: Expr)
    ensures
        r@ == special(SpecialFormV::If(predicate@, consequence@, alternative@)),
{
    single(
        Expr::SpecialForm(Rc::new(SpecialForm::If(If::new(predicate, consequence, alternative)))),
    )
}

fn define_expr(identifier: Expr, value: Expr) -> (r: Expr)
    ensures
        r@ == special(SpecialFormV::Define(identifier@, value@)),
{
    single(Expr::SpecialForm(Rc::new(SpecialForm::Define(Define::new(identifier, value)))))
}

fn build_if_expr(items: Vec<Expr>) -> (r: Result<Expr, EvalErr>)
    ensures
        expr_result_view(r) == build_if(exprs_view(items)),
{
    if items.len() == 3 {
        Ok(if_expr(items[0].clone(), items[1].clone(), items[2].clone()))
    } else {
        Err(EvalErr::InvalidArgs("'if' expression. expected condition, predicate, and consequence"))
    }
}

fn build_lambda_expr(items: Vec<Expr>) -> (r: Result<Expr, EvalErr>)
    ensures
        expr_result_view(r) == build_lambda(exprs_view(items)),
{
    if items.len() >= 2 {
        Ok(lambda_expr(items[0].clone(), rest_of(&items, 1)))
    } else {
        Err(EvalErr::InvalidArgs("'lambda' expression. expected parameters and body"))
    }
}

fn build_define_expr(items: Vec<Expr>) -> (r: Result<Expr, EvalErr>)
    ensures
        expr_result_view(r) == build_define(exprs_view(items)),
{
    if items.len() == 0 {
        return Err(EvalErr::InvalidArgs("'define' expression. expected identifier and value"));
    }
    match nth(&items, 0) {
        Expr::Call(names) => {
            assert(items[0]@ == ExprV::Call(seq_view(names@)));
            if names.len() == 0 || items.len() < 2 {
                Err(EvalErr::InvalidArgs("'define' procedure. expected parameters and body"))
            } else {
                let params = if names.len() <= 1 {
                    Expr::EmptyList
                } else {
                    Expr::Call(rest_of(names, 1))
                };
                let value = lambda_expr(params, rest_of(&items, 1));
                Ok(define_expr(names[0].clone(), value))
            }
        },
        identifier => {
            assert(!(items[0]@ is Call));
            if items.len() == 2 {
                Ok(define_expr(identifier.clone(), items[1].clone()))
            } else {
                Err(EvalErr::InvalidArgs("'define' expression. expected identifier and value"))
            }
        },
    }
}

fn build_assignment_expr(items: Vec<Expr>) -> (r: Result<Expr, EvalErr>)
    ensures
        expr_result_view(r) == build_assignment(exprs_view(items)),
{
    if items.len() == 2 {
        let form = Assignment::new(items[0].clone(), items[1].clone());
        Ok(single(Expr::SpecialForm(Rc::new(SpecialForm::Assignment(form)))))
    } else {
        Err(EvalErr::InvalidArgs("'set!' expression. expected identifier and value"))
    }
}

/// The nested `if` that the clauses from `i` on stand for.
pub fn cond_to_if(clauses: &Vec<Expr>, i: usize) -> (r: Result<Expr, EvalErr>)
    ensures
        expr_result_view(r) == cond_to_if_spec(exprs_view(*clauses), i as int),
    decreases clauses.len() - i,
{
    if i >= clauses.len() {
        return Ok(Expr::EmptyList);
    }
    match nth(clauses, i) {
        Expr::Call(parts) => {
            assert(clauses[i as int]@ == ExprV::Call(seq_view(parts@)));
            if parts.len() == 0 {
                return Err(
                    EvalErr::InvalidArgs("'cond'. clauses expcted two be lists of two values"),
                );
            }
            let consequence = begin_expr(rest_of(parts, 1));
            let is_else = match nth(parts, 0) {
                Expr::Atom(Token::Else) => true,
                _ => false,
            };
            if is_else {
                if i + 1 == clauses.len() {
                    Ok(consequence)
                } else {
                    Err(EvalErr::UnexpectedToken(Expr::Atom(Token::Else)))
                }
            } else {
                match cond_to_if(clauses, i + 1) {
                    Ok(alternative) => Ok(if_expr(parts[0].clone(), consequence, alternative)),
                    Err(e) => Err(e),
                }
            }
        },
        clause => Err(EvalErr::UnexpectedToken(clause.clone())),
    }
}

fn build_cond_expr(items: Vec<Expr>) -> (r: Result<Expr, EvalErr>)
    ensures
        expr_result_view(r) == build_cond(exprs_view(items)),
{
    if items.len() == 0 {
        Err(EvalErr::InvalidArgs("'cond' expression. expected clauses."))
    } else {
        cond_to_if(&items, 0)
    }
}

/// The value of the result of unzipping bindings.
pub open spec fn unzipped_view(r: Result<(Vec<Expr>, Vec<Expr>), EvalErr>) -> Result<
    (Seq<ExprV>, Seq<ExprV>),
    EvalErrV,
> {
    match r {
        Ok((names, values)) => Ok((exprs_view(names), exprs_view(values))),
        Err(e) => Err(e@),
    }
}

/// What unzipping gives after the names and values in `done` were found.
pub open spec fn unzip_after(
    done: (Seq<ExprV>, Seq<ExprV>),
    rest: Result<(Seq<ExprV>, Seq<ExprV>), EvalErrV>,
) -> Result<(Seq<ExprV>, Seq<ExprV>), EvalErrV> {
    match rest {
        Ok((names, values)) => Ok((done.0 + names, done.1 + values)),
        Err(e) => Err(e),
    }
}

/// The names and the values of a list of bindings.
pub fn try_unzip_list(exprs: &Vec<Expr>) -> (r: Result<(Vec<Expr>, Vec<Expr>), EvalErr>)
    ensures
        unzipped_view(r) == unzip_spec(exprs_view(*exprs), 0),
{
    let mut names: Vec<Expr> = Vec::new();
    let mut values: Vec<Expr> = Vec::new();
    let mut i: usize = 0;
    let ghost all = exprs_view(*exprs);
    assert(unzip_after((exprs_view(names), exprs_view(values)), unzip_spec(all, 0)) =~= unzip_spec(
        all,
        0,
    )) by {
        assert(exprs_view(names) =~= Seq::<ExprV>::empty());
        assert(exprs_view(values) =~= Seq::<ExprV>::empty());
        match unzip_spec(all, 0) {
            Ok((n, v)) => {
                assert(Seq::<ExprV>::empty() + n =~= n);
                assert(Seq::<ExprV>::empty() + v =~= v);
            },
            Err(e) => {},
        }
    }
    while i < exprs.len()
        invariant
            i <= exprs.len(),
            all == exprs_view(*exprs),
            unzip_spec(all, 0) == unzip_after(
                (exprs_view(names), exprs_view(values)),
                unzip_spec(all, i as int),
            ),
        decreases exprs.len() - i,
    {
        match nth(exprs, i) {
            Expr::Call(binding) => {
                assert(exprs[i as int]@ == ExprV::Call(seq_view(binding@)));
                if binding.len() != 2 {
                    return Err(
                        EvalErr::InvalidArgs("'let' expression. expected bindings as pairs"),
                    );
                }
                let name = binding[0].clone();
                let value = binding[1].clone();
                proof {
                    lemma_push_view(names@, name);
                    lemma_push_view(values@, value);
                    match unzip_spec(all, i + 1) {
                        Ok((n, v)) => {
                            assert(exprs_view(names) + (seq![name@] + n) =~= exprs_view(
                                names,
                            ).push(name@) + n);
                            assert(exprs_view(values) + (seq![value@] + v) =~= exprs_view(
                                values,
                            ).push(value@) + v);
                        },
                        Err(e) => {},
                    }
                }
                names.push(name);
                values.push(value);
            },
            other => {
                assert(!(exprs[i as int]@ is Call));
                return Err(EvalErr::TypeError("list", other.clone()));
            },
        }
        i += 1;
    }
    proof {
        assert(exprs_view(names) + Seq::<ExprV>::empty() =~= exprs_view(names));
        assert(exprs_view(values) + Seq::<ExprV>::empty() =~= exprs_view(values));
    }
    Ok((names, values))
}

/// The call that a `let` stands for.
pub fn let_to_lambda(bindings: &Expr, body: Vec<Expr>) -> (r: Result<Vec<Expr>, EvalErr>)
    ensures
        exprs_result_view(r) == let_to_lambda_spec(bindings@, exprs_view(body)),
{
    match bindings {
        Expr::Call(list) => match try_unzip_list(list) {
            Ok((names, values)) => {
                let mut call: Vec<Expr> = Vec::new();
                call.push(lambda_expr(Expr::Call(names), body));
                let ghost head = exprs_view(call);
                assert(head =~= seq![
                    special(SpecialFormV::Lambda(ExprV::Call(exprs_view(names)), exprs_view(body))),
                ]);
                let mut i: usize = 0;
                while i < values.len()
                    invariant
                        i <= values.len(),
                        exprs_view(call) =~= head + exprs_view(values).take(i as int),
                    decreases values.len() - i,
                {
                    let value = values[i].clone();
                    proof {
                        lemma_push_view(call@, value);
                        assert(exprs_view(values).take(i + 1) =~= exprs_view(values).take(
                            i as int,
                        ).push(value@));
                    }
                    call.push(value);
                    i += 1;
                }
                assert(exprs_view(values).take(values.len() as int) =~= exprs_view(values));
                Ok(call)
            },
            Err(e) => Err(e),
        },
        other => Err(EvalErr::TypeError("list", other.clone())),
    }
}

fn build_let_expr(items: Vec<Expr>) -> (r: Result<Expr, EvalErr>)
    ensures
        expr_result_view(r) == build_let(exprs_view(items)),
{
    if items.len() >= 2 {
        match let_to_lambda(nth(&items, 0), rest_of(&items, 1)) {
            Ok(call) => Ok(Expr::Call(call)),
            Err(e) => Err(e),
        }
    } else {
        Err(EvalErr::InvalidArgs("'let' expression. expected bindings and body"))
    }
}

/// The expression for the special form of the given keyword and sub-expressions.
fn build_form_expr(keyword: &Token, items: Vec<Expr>) -> (r: Result<Expr, EvalErr>)
    ensures
        expr_result_view(r) == build_form(keyword@, exprs_view(items)),
{
    match keyword {
        Token::If => build_if_expr(items),
        Token::Lambda => build_lambda_expr(items),
        Token::Define => build_define_expr(items),
        Token::Assignment => build_assignment_expr(items),
        Token::Cond => build_cond_expr(items),
        Token::Let => build_let_expr(items),
        Token::And => Ok(single(Expr::SpecialForm(Rc::new(SpecialForm::And(And::new(items)))))),
        Token::Or => Ok(single(Expr::SpecialForm(Rc::new(SpecialForm::Or(Or::new(items)))))),
        _ => Ok(begin_expr(items)),
    }
}

/// A parser over a vector of tokens.
pub struct Parser {
    tokens: Vec<Token>,
    pos: usize,
}

impl Parser {
    /// The tokens.
    pub closed spec fn tokens(self) -> Seq<TokenV> {
        tokens_view(self.tokens)
    }

    /// The position of the next token to read.
    pub closed spec fn position(self) -> int {
        self.pos as int
    }

    /// What a parsing function gave: its result, the position it stopped at
    /// and the heap it left.
    pub open spec fn outcome(r: Result<Expr, EvalErr>, after: Parser, heap: Heap) -> Parsed<
        ExprV,
    > {
        Parsed { result: expr_result_view(r), next: after.position(), heap: heap@ }
    }

    /// What a function that parses several items gave.
    pub open spec fn outcomes(
        r: Result<Vec<Expr>, EvalErr>,
        after: Parser,
        heap: Heap,
    ) -> Parsed<Seq<ExprV>> {
        Parsed { result: exprs_result_view(r), next: after.position(), heap: heap@ }
    }

    /// A parser at the start of `tokens`.
    pub fn new(tokens: Vec<Token>) -> (parser: Parser)
        ensures
            parser.tokens() == tokens_view(tokens),
            parser.position() == 0,
    {
        Parser { tokens, pos: 0 }
    }

    /// The token at position `i`.
    fn token(&self, i: usize) -> (t: Token)
        requires
            i < self.tokens().len(),
        ensures
            t@ == self.tokens()[i as int],
    {
        self.tokens[i].clone()
    }

    /// Parses all the tokens: the expressions in order, or the first error.
    /// The cells of quoted lists are allocated in `heap`.
    pub fn parse(self, heap: &mut Heap) -> (r: Result<Vec<Expr>, EvalErr>)
        ensures
            exprs_result_view(r) == parse_program(
                self.tokens(),
                self.position(),
                old(heap)@,
            ).result,
            final(heap)@ == parse_program(self.tokens(), self.position(), old(heap)@).heap,
    {
        let mut parser = self;
        let mut parsed_exprs: Vec<Expr> = Vec::new();
        let ghost tokens = parser.tokens();
        let ghost start = parser.position();
        let ghost heap0 = heap@;
        assert(exprs_view(parsed_exprs) =~= Seq::<ExprV>::empty());
        proof {
            lemma_after_empty(parse_program(tokens, start, heap0));
        }
        while parser.pos < parser.tokens.len()
            invariant
                parser.tokens() == tokens,
                tokens == self.tokens(),
                start == self.position(),
                heap0 == old(heap)@,
                parse_program(tokens, start, heap0) == after(
                    exprs_view(parsed_exprs),
                    parse_program(tokens, parser.position(), heap@),
                ),
            decreases parser.tokens.len() - parser.pos,
        {
            match parser.parse_from_token(heap) {
                Ok(expr) => {
                    proof {
                        lemma_push_view(parsed_exprs@, expr);
                        lemma_after_push(
                            exprs_view(parsed_exprs),
                            expr@,
                            parse_program(tokens, parser.position(), heap@),
                        );
                    }
                    parsed_exprs.push(expr);
                },
                Err(e) => {
                    return Err(e);
                },
            }
        }
        proof {
            assert(exprs_view(parsed_exprs) + Seq::<ExprV>::empty() =~= exprs_view(parsed_exprs));
        }
        Ok(parsed_exprs)
    }

    /// Parses the expression at the position.
    fn parse_from_token(&mut self, heap: &mut Heap) -> (r: Result<Expr, EvalErr>)
        ensures
            final(self).tokens() == old(self).tokens(),
            Self::outcome(r, *final(self), *final(heap)) == parse_expr(
                old(self).tokens(),
                old(self).position(),
                old(heap)@,
            ),
            r is Ok ==> old(self).position() < final(self).position() <= old(self).tokens().len(),
        decreases old(self).tokens().len() - old(self).position(), 0int,
    {
        if self.pos >= self.tokens.len() {
            return Err(EvalErr::UnexpectedEnd);
        }
        let token = self.token(self.pos);
        self.pos += 1;
        match token {
            Token::LParen => self.parse_list(heap),
            Token::QuoteTick => match self.parse_quote(heap) {
                Ok(datum) => Ok(Expr::Quoted(Box::new(datum))),
                Err(e) => Err(e),
            },
            Token::Number(n) => Ok(Expr::Atom(Token::Number(n))),
            Token::Str(s) => Ok(Expr::Atom(Token::Str(s))),
            Token::Boolean(b) => Ok(Expr::Atom(Token::Boolean(b))),
            Token::Symbol(s) => Ok(Expr::Atom(Token::Symbol(s))),
            Token::MutatePair(c) => Ok(
                Expr::Atom(Token::Symbol(token_name(&Token::MutatePair(c)))),
            ),
            t => Err(EvalErr::UnexpectedToken(Expr::Atom(t))),
        }
    }

    /// Parses the list whose opening parenthesis was just read.
    fn parse_list(&mut self, heap: &mut Heap) -> (r: Result<Expr, EvalErr>)
        ensures
            final(self).tokens() == old(self).tokens(),
            Self::outcome(r, *final(self), *final(heap)) == parse_list(
                old(self).tokens(),
                old(self).position(),
                old(heap)@,
            ),
            r is Ok ==> old(self).position() < final(self).position() <= old(self).tokens().len(),
        decreases old(self).tokens().len() - old(self).position(), 5int,
    {
        if self.pos >= self.tokens.len() {
            return Err(EvalErr::UnexpectedEnd);
        }
        match self.token(self.pos) {
            Token::If => {
                self.pos += 1;
                self.parse_if(heap)
            },
            Token::Cond => {
                self.pos += 1;
                self.parse_cond(heap)
            },
            Token::Lambda => {
                self.pos += 1;
                self.parse_lambda(heap)
            },
            Token::Define => {
                self.pos += 1;
                self.parse_define(heap)
            },
            Token::Assignment => {
                self.pos += 1;
                self.parse_assignment(heap)
            },
            Token::Let => {
                self.pos += 1;
                self.parse_let(heap)
            },
            Token::Begin => {
                self.pos += 1;
                self.parse_begin(heap)
            },
            Token::And => {
                self.pos += 1;
                self.parse_and(heap)
            },
            Token::Or => {
                self.pos += 1;
                self.parse_or(heap)
            },
            Token::QuoteProc => {
                self.pos += 1;
                self.parse_quotation(heap)
            },
            _ => self.parse_proc_call(heap),
        }
    }

    /// Parses the datum of a quotation and its closing parenthesis.
    fn parse_quotation(&mut self, heap: &mut Heap) -> (r: Result<Expr, EvalErr>)
        ensures
            final(self).tokens() == old(self).tokens(),
            Self::outcome(r, *final(self), *final(heap)) == parse_quotation(
                old(self).tokens(),
                old(self).position(),
                old(heap)@,
            ),
            r is Ok ==> old(self).position() < final(self).position() <= old(self).tokens().len(),
        decreases old(self).tokens().len() - old(self).position(), 1int,
    {
        match self.parse_quote(heap) {
            Ok(datum) => {
                if self.pos >= self.tokens.len() {
                    return Err(EvalErr::UnexpectedEnd);
                }
                let closing = self.token(self.pos);
                self.pos += 1;
                match closing {
                    Token::RParen => Ok(Expr::Quoted(Box::new(datum))),
                    t => Err(EvalErr::UnexpectedToken(Expr::Atom(t))),
                }
            },
            Err(e) => Err(e),
        }
    }

    /// Parses the items of a procedure call: the call, or the empty list
    /// where there is no item.
    fn parse_proc_call(&mut self, heap: &mut Heap) -> (r: Result<Expr, EvalErr>)
        ensures
            final(self).tokens() == old(self).tokens(),
            Self::outcome(r, *final(self), *final(heap)) == parse_call(
                old(self).tokens(),
                old(self).position(),
                old(heap)@,
            ),
            r is Ok ==> old(self).position() < final(self).position() <= old(self).tokens().len(),
        decreases old(self).tokens().len() - old(self).position(), 3int,
    {
        match self.parse_inner_call(heap, Items::Plain) {
            Ok(list) => {
                if list.len() > 0 {
                    Ok(Expr::Call(list))
                } else {
                    Ok(Expr::EmptyList)
                }
            },
            Err(e) => Err(e),
        }
    }

    /// Reads the sub-expressions of the special form of `keyword` and builds it.
    fn parse_form(&mut self, heap: &mut Heap, keyword: &Token) -> (r: Result<Expr, EvalErr>)
        ensures
            final(self).tokens() == old(self).tokens(),
            Self::outcome(r, *final(self), *final(heap)) == parse_form(
                old(self).tokens(),
                old(self).position(),
                old(heap)@,
                keyword@,
            ),
            r is Ok ==> old(self).position() < final(self).position() <= old(self).tokens().len(),
        decreases old(self).tokens().len() - old(self).position(), 3int,
    {
        let how = match keyword {
            Token::Cond => Items::Clauses,
            _ => Items::Plain,
        };
        match self.parse_inner_call(heap, how) {
            Ok(items) => build_form_expr(keyword, items),
            Err(e) => Err(e),
        }
    }

    /// Reads the sub-expressions of an `if` and builds the form.
    fn parse_if(&mut self, heap: &mut Heap) -> (r: Result<Expr, EvalErr>)
        ensures
            final(self).tokens() == old(self).tokens(),
            Self::outcome(r, *final(self), *final(heap)) == parse_form(
                old(self).tokens(),
                old(self).position(),
                old(heap)@,
                TokenV::If,
            ),
            r is Ok ==> old(self).position() < final(self).position() <= old(self).tokens().len(),
        decreases old(self).tokens().len() - old(self).position(), 4int,
    {
        self.parse_form(heap, &Token::If)
    }

    /// Reads the sub-expressions of a `cond` and builds the form.
    fn parse_cond(&mut self, heap: &mut Heap) -> (r: Result<Expr, EvalErr>)
        ensures
            final(self).tokens() == old(self).tokens(),
            Self::outcome(r, *final(self), *final(heap)) == parse_form(
                old(self).tokens(),
                old(self).position(),
                old(heap)@,
                TokenV::Cond,
            ),
            r is Ok ==> old(self).position() < final(self).position() <= old(self).tokens().len(),
        decreases old(self).tokens().len() - old(self).position(), 4int,
    {
        self.parse_form(heap, &Token::Cond)
    }

    /// Reads the sub-expressions of a `lambda` and builds the form.
    fn parse_lambda(&mut self, heap: &mut Heap) -> (r: Result<Expr, EvalErr>)
        ensures
            final(self).tokens() == old(self).tokens(),
            Self::outcome(r, *final(self), *final(heap)) == parse_form(
                old(self).tokens(),
                old(self).position(),
                old(heap)@,
                TokenV::Lambda,
            ),
            r is Ok ==> old(self).position() < final(self).position() <= old(self).tokens().len(),
        decreases old(self).tokens().len() - old(self).position(), 4int,
    {
        self.parse_form(heap, &Token::Lambda)
    }

    /// Reads the sub-expressions of a `define` and builds the form.
    fn parse_define(&mut self, heap: &mut Heap) -> (r: Result<Expr, EvalErr>)
        ensures
            final(self).tokens() == old(self).tokens(),
            Self::outcome(r, *final(self), *final(heap)) == parse_form(
                old(self).tokens(),
                old(self).position(),
                old(heap)@,
                TokenV::Define,
            ),
            r is Ok ==> old(self).position() < final(self).position() <= old(self).tokens().len(),
        decreases old(self).tokens().len() - old(self).position(), 4int,
    {
        self.parse_form(heap, &Token::Define)
    }

    /// Reads the sub-expressions of a `set!` and builds the form.
    fn parse_assignment(&mut self, heap: &mut Heap) -> (r: Result<Expr, EvalErr>)
        ensures
            final(self).tokens() == old(self).tokens(),
            Self::outcome(r, *final(self), *final(heap)) == parse_form(
                old(self).tokens(),
                old(self).position(),
                old(heap)@,
                TokenV::Assignment,
            ),
            r is Ok ==> old(self).position() < final(self).position() <= old(self).tokens().len(),
        decreases old(self).tokens().len() - old(self).position(), 4int,
    {
        self.parse_form(heap, &Token::Assignment)
    }

    /// Reads the sub-expressions of a `let` and builds the form.
    fn parse_let(&mut self, heap: &mut Heap) -> (r: Result<Expr, EvalErr>)
        ensures
            final(self).tokens() == old(self).tokens(),
            Self::outcome(r, *final(self), *final(heap)) == parse_form(
                old(self).tokens(),
                old(self).position(),
                old(heap)@,
                TokenV::Let,
            ),
            r is Ok ==> old(self).position() < final(self).position() <= old(self).tokens().len(),
        decreases old(self).tokens().len() - old(self).position(), 4int,
    {
        self.parse_form(heap, &Token::Let)
    }

    /// Reads the sub-expressions of a `begin` and builds the form.
    fn parse_begin(&mut self, heap: &mut Heap) -> (r: Result<Expr, EvalErr>)
        ensures
            final(self).tokens() == old(self).tokens(),
            Self::outcome(r, *final(self), *final(heap)) == parse_form(
                old(self).tokens(),
                old(self).position(),
                old(heap)@,
                TokenV::Begin,
            ),
            r is Ok ==> old(self).position() < final(self).position() <= old(self).tokens().len(),
        decreases old(self).tokens().len() - old(self).position(), 4int,
    {
        self.parse_form(heap, &Token::Begin)
    }

    /// Reads the sub-expressions of an `and` and builds the form.
    fn parse_and(&mut self, heap: &mut Heap) -> (r: Result<Expr, EvalErr>)
        ensures
            final(self).tokens() == old(self).tokens(),
            Self::outcome(r, *final(self), *final(heap)) == parse_form(
                old(self).tokens(),
                old(self).position(),
                old(heap)@,
                TokenV::And,
            ),
            r is Ok ==> old(self).position() < final(self).position() <= old(self).tokens().len(),
        decreases old(self).tokens().len() - old(self).position(), 4int,
    {
        self.parse_form(heap, &Token::And)
    }

    /// Reads the sub-expressions of an `or` and builds the form.
    fn parse_or(&mut self, heap: &mut Heap) -> (r: Result<Expr, EvalErr>)
        ensures
            final(self).tokens() == old(self).tokens(),
            Self::outcome(r, *final(self), *final(heap)) == parse_form(
                old(self).tokens(),
                old(self).position(),
                old(heap)@,
                TokenV::Or,
            ),
            r is Ok ==> old(self).position() < final(self).position() <= old(self).tokens().len(),
        decreases old(self).tokens().len() - old(self).position(), 4int,
    {
        self.parse_form(heap, &Token::Or)
    }

    /// Parses the quoted datum at the position.
    fn parse_quote(&mut self, heap: &mut Heap) -> (r: Result<Expr, EvalErr>)
        ensures
            final(self).tokens() == old(self).tokens(),
            Self::outcome(r, *final(self), *final(heap)) == parse_quote(
                old(self).tokens(),
                old(self).position(),
                old(heap)@,
            ),
            r is Ok ==> old(self).position() < final(self).position() <= old(self).tokens().len(),
        decreases old(self).tokens().len() - old(self).position(), 0int,
    {
        if self.pos >= self.tokens.len() {
            return Err(EvalErr::UnexpectedEnd);
        }
        let token = self.token(self.pos);
        self.pos += 1;
        match token {
            Token::LParen => match self.parse_inner_call(heap, Items::Quoted) {
                Ok(items) => Ok(heap.list(&items)),
                Err(e) => Err(e),
            },
            Token::QuoteTick => match self.parse_quote(heap) {
                Ok(quoted) => Ok(Expr::Quoted(Box::new(quoted))),
                Err(e) => Err(e),
            },
            Token::RParen => Err(EvalErr::UnexpectedToken(Expr::Atom(Token::RParen))),
            Token::Number(n) => Ok(Expr::Atom(Token::Number(n))),
            Token::Str(s) => Ok(Expr::Atom(Token::Str(s))),
            Token::Boolean(b) => Ok(Expr::Atom(Token::Boolean(b))),
            t => Ok(Expr::Atom(Token::Symbol(token_name(&t)))),
        }
    }

    /// Parses the item at the position, read in the given way.
    fn parse_item(&mut self, heap: &mut Heap, how: Items) -> (r: Result<Expr, EvalErr>)
        ensures
            final(self).tokens() == old(self).tokens(),
            Self::outcome(r, *final(self), *final(heap)) == parse_item(
                old(self).tokens(),
                old(self).position(),
                old(heap)@,
                how,
            ),
            r is Ok ==> old(self).position() < final(self).position() <= old(self).tokens().len(),
        decreases old(self).tokens().len() - old(self).position(), 1int,
    {
        match how {
            Items::Quoted => self.parse_quote(heap),
            Items::Clauses => {
                if self.pos < self.tokens.len() && self.pos + 1 < self.tokens.len()
                    && self.starts_else_clause() {
                    self.pos += 2;
                    match self.parse_inner_call(heap, Items::Plain) {
                        Ok(body) => {
                            let mut clause: Vec<Expr> = Vec::new();
                            clause.push(Expr::Atom(Token::Else));
                            let ghost head = exprs_view(clause);
                            assert(head =~= seq![ExprV::Atom(TokenV::Else)]);
                            let mut i: usize = 0;
                            while i < body.len()
                                invariant
                                    i <= body.len(),
                                    exprs_view(clause) =~= head + exprs_view(body).take(i as int),
                                decreases body.len() - i,
                            {
                                let item = body[i].clone();
                                proof {
                                    lemma_push_view(clause@, item);
                                    assert(exprs_view(body).take(i + 1) =~= exprs_view(body).take(
                                        i as int,
                                    ).push(item@));
                                }
                                clause.push(item);
                                i += 1;
                            }
                            assert(exprs_view(body).take(body.len() as int) =~= exprs_view(body));
                            Ok(Expr::Call(clause))
                        },
                        Err(e) => Err(e),
                    }
                } else {
                    self.parse_from_token(heap)
                }
            },
            Items::Plain => self.parse_from_token(heap),
        }
    }

    /// Whether the tokens at the position are `(` and `else`.
    fn starts_else_clause(&self) -> (r: bool)
        requires
            self.position() + 1 < self.tokens().len(),
        ensures
            r == (self.tokens()[self.position()] is LParen && self.tokens()[self.position() + 1]
                is Else),
    {
        let first = match self.token(self.pos) {
            Token::LParen => true,
            _ => false,
        };
        let second = match self.token(self.pos + 1) {
            Token::Else => true,
            _ => false,
        };
        first && second
    }

    /// Parses items up to the closing parenthesis and reads it too.
    fn parse_inner_call(&mut self, heap: &mut Heap, how: Items) -> (r: Result<Vec<Expr>, EvalErr>)
        ensures
            final(self).tokens() == old(self).tokens(),
            Self::outcomes(r, *final(self), *final(heap)) == parse_items(
                old(self).tokens(),
                old(self).position(),
                old(heap)@,
                how,
            ),
            r is Ok ==> old(self).position() < final(self).position() <= old(self).tokens().len(),
        decreases old(self).tokens().len() - old(self).position(), 2int,
    {
        let mut parsed_exprs: Vec<Expr> = Vec::new();
        let ghost tokens = self.tokens();
        let ghost start = self.position();
        let ghost heap0 = heap@;
        assert(exprs_view(parsed_exprs) =~= Seq::<ExprV>::empty());
        proof {
            lemma_after_empty(parse_items(tokens, start, heap0, how));
        }
        loop
            invariant
                self.tokens() == tokens,
                tokens == old(self).tokens(),
                start == old(self).position(),
                heap0 == old(heap)@,
                start <= self.position(),
                parse_items(tokens, start, heap0, how) == after(
                    exprs_view(parsed_exprs),
                    parse_items(tokens, self.position(), heap@, how),
                ),
            decreases tokens.len() - self.position(),
        {
            if self.pos >= self.tokens.len() {
                return Err(EvalErr::UnexpectedEnd);
            }
            let closing = match self.token(self.pos) {
                Token::RParen => true,
                _ => false,
            };
            if closing {
                self.pos += 1;
                proof {
                    assert(exprs_view(parsed_exprs) + Seq::<ExprV>::empty() =~= exprs_view(
                        parsed_exprs,
                    ));
                }
                return Ok(parsed_exprs);
            }
            match self.parse_item(heap, how) {
                Ok(expr) => {
                    proof {
                        lemma_push_view(parsed_exprs@, expr);
                        lemma_after_push(
                            exprs_view(parsed_exprs),
                            expr@,
                            parse_items(tokens, self.position(), heap@, how),
                        );
                    }
                    parsed_exprs.push(expr);
                },
                Err(e) => {
                    return Err(e);
                },
            }
        }
    }
}

/// What parsing several items gives where the items `done` were read before.
pub open spec fn after(done: Seq<ExprV>, rest: Parsed<Seq<ExprV>>) -> Parsed<Seq<ExprV>> {
    Parsed {
        result: match rest.result {
            Ok(v) => Ok(done + v),
            Err(e) => Err(e),
        },
        next: rest.next,
        heap: rest.heap,
    }
}

proof fn lemma_after_empty(rest: Parsed<Seq<ExprV>>)
    ensures
        after(Seq::empty(), rest) == rest,
{
    match rest.result {
        Ok(v) => {
            assert(Seq::<ExprV>::empty() + v =~= v);
        },
        Err(e) => {},
    }
}

proof fn lemma_after_push(done: Seq<ExprV>, x: ExprV, rest: Parsed<Seq<ExprV>>)
    ensures
        after(
            done,
            Parsed {
                result: match rest.result {
                    Ok(v) => Ok(seq![x] + v),
                    Err(e) => Err(e),
                },
                next: rest.next,
                heap: rest.heap,
            },
        ) == after(done.push(x), rest),
{
    match rest.result {
        Ok(v) => {
            assert(done + (seq![x] + v) =~= done.push(x) + v);
        },
        Err(e) => {},
    }
}

/// The text of a token that is written as a word or a sign.
pub fn token_name(t: &Token) -> (r: String)
    ensures
        r@ == token_text(t@),
{
    match t {
        Token::LParen => String::from_str("("),
        Token::RParen => String::from_str(")"),
        Token::If => String::from_str("if"),
        Token::And => String::from_str("and"),
        Token::Or => String::from_str("or"),
        Token::Define => String::from_str("define"),
        Token::Lambda => String::from_str("lambda"),
        Token::Cond => String::from_str("cond"),
        Token::Else => String::from_str("else"),
        Token::Assignment => String::from_str("set!"),
        Token::Let => String::from_str("let"),
        Token::Begin => String::from_str("begin"),
        Token::QuoteTick => String::from_str("'"),
        Token::QuoteProc => String::from_str("quote"),
        Token::MutatePair(MutCell::Car) => String::from_str("set-car!"),
        Token::MutatePair(MutCell::Cdr) => String::from_str("set-cdr!"),
        Token::Boolean(true) => String::from_str("#t"),
        Token::Boolean(false) => String::from_str("#f"),
        Token::Str(s) => s.clone(),
        Token::Symbol(s) => s.clone(),
        Token::Number(_) => String::new(),
    }
}

/// Whether a parse that succeeded from `pos` went forward and stayed within
/// the tokens.
pub open spec fn went_forward<T>(tokens: Seq<TokenV>, pos: int, p: Parsed<T>) -> bool {
    p.result is Ok ==> pos < p.next <= tokens.len()
}

proof fn lemma_expr_goes_forward(tokens: Seq<TokenV>, pos: int, heap: Seq<PairV>)
    ensures
        went_forward(tokens, pos, parse_expr(tokens, pos, heap)),
    decreases tokens.len() - pos, 0int,
{
    if 0 <= pos < tokens.len() {
        match tokens[pos] {
            TokenV::LParen => lemma_list_goes_forward(tokens, pos + 1, heap),
            TokenV::QuoteTick => lemma_quote_goes_forward(tokens, pos + 1, heap),
            _ => {},
        }
    }
}

proof fn lemma_list_goes_forward(tokens: Seq<TokenV>, pos: int, heap: Seq<PairV>)
    ensures
        went_forward(tokens, pos, parse_list(tokens, pos, heap)),
    decreases tokens.len() - pos, 5int,
{
    if 0 <= pos < tokens.len() {
        if tokens[pos] is QuoteProc {
            lemma_quote_goes_forward(tokens, pos + 1, heap);
        } else if is_form_keyword(tokens[pos]) {
            lemma_items_go_forward(
                tokens,
                pos + 1,
                heap,
                if tokens[pos] is Cond {
                    Items::Clauses
                } else {
                    Items::Plain
                },
            );
        } else {
            lemma_items_go_forward(tokens, pos, heap, Items::Plain);
        }
    }
}

proof fn lemma_quote_goes_forward(tokens: Seq<TokenV>, pos: int, heap: Seq<PairV>)
    ensures
        went_forward(tokens, pos, parse_quote(tokens, pos, heap)),
    decreases tokens.len() - pos, 0int,
{
    if 0 <= pos < tokens.len() {
        match tokens[pos] {
            TokenV::LParen => lemma_items_go_forward(tokens, pos + 1, heap, Items::Quoted),
            TokenV::QuoteTick => lemma_quote_goes_forward(tokens, pos + 1, heap),
            _ => {},
        }
    }
}

/// An item is at least one token long: where the item at `pos` is read, the
/// position after it lies beyond `pos` and within the tokens. So the items of
/// a list, and the expressions of a program, are read one after the other
/// until none is left.
pub proof fn law_item_goes_forward(tokens: Seq<TokenV>, pos: int, heap: Seq<PairV>, how: Items)
    ensures
        went_forward(tokens, pos, parse_item(tokens, pos, heap, how)),
        went_forward(tokens, pos, parse_expr(tokens, pos, heap)),
    decreases tokens.len() - pos, 1int,
{
    lemma_expr_goes_forward(tokens, pos, heap);
    if how == Items::Quoted {
        lemma_quote_goes_forward(tokens, pos, heap);
    } else if how == Items::Clauses && 0 <= pos && pos + 1 < tokens.len() && tokens[pos] is LParen
        && tokens[pos + 1] is Else {
        lemma_items_go_forward(tokens, pos + 2, heap, Items::Plain);
    }
}

proof fn lemma_items_go_forward(tokens: Seq<TokenV>, pos: int, heap: Seq<PairV>, how: Items)
    ensures
        went_forward(tokens, pos, parse_items(tokens, pos, heap, how)),
    decreases tokens.len() - pos, 2int,
{
    if 0 <= pos < tokens.len() && !(tokens[pos] is RParen) {
        law_item_goes_forward(tokens, pos, heap, how);
        let first = parse_item(tokens, pos, heap, how);
        if first.result is Ok {
            lemma_items_go_forward(tokens, first.next, first.heap, how);
        }
    }
}

} // verus!
