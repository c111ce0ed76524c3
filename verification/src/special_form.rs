//! The special forms, each with the sub-expressions it was parsed from.
use vstd::prelude::*;
use crate::enviroment::EnvRef;
use crate::error::EvalErr;
use crate::evaluator::{Control, Interp, Kont, Sequel, eval_form};
use crate::lexer::Token;
use crate::parser::{Expr, ExprV, clone_all, cond_to_if, exprs_view, let_to_lambda};

verus! {

/// A parsed special form.
#[derive(Debug, PartialEq)]
pub enum SpecialForm {
    And(And),
    Assignment(Assignment),
    Begin(Begin),
    Cond(Cond),
    Define(Define),
    If(If),
    Lambda(Lambda),
    Let(Let),
    Or(Or),
}

/// `(define identifier value)`.
#[derive(Debug, PartialEq)]
pub struct Define {
    pub identifier: Expr,
    pub value: Expr,
}

/// `(lambda params body...)`.
#[derive(Debug, PartialEq)]
pub struct Lambda {
    pub params: Expr,
    pub body: Vec<Expr>,
}

/// `(if predicate consequence alternative)`.
#[derive(Debug, PartialEq)]
pub struct If {
    pub predicate: Expr,
    pub consequence: Expr,
    pub alternative: Expr,
}

/// `(cond clause...)`, each clause a list of a predicate, or `else`, and a
/// body.
#[derive(Debug, PartialEq)]
pub struct Cond {
    pub clauses: Vec<Expr>,
}

/// `(let bindings body...)`, the bindings a list of lists `(name value)`.
#[derive(Debug, PartialEq)]
pub struct Let {
    pub bindings: Expr,
    pub body: Vec<Expr>,
}

/// `(set! identifier value)`.
#[derive(Debug, PartialEq)]
pub struct Assignment {
    pub identifier: Expr,
    pub value: Expr,
}

/// `(begin exprs...)`.
#[derive(Debug, PartialEq)]
pub struct Begin {
    pub exprs: Vec<Expr>,
}

/// `(and body...)`.
#[derive(Debug, PartialEq)]
pub struct And {
    pub body: Vec<Expr>,
}

/// `(or body...)`.
#[derive(Debug, PartialEq)]
pub struct Or {
    pub body: Vec<Expr>,
}

/// The mathematical value of a special form.
pub ghost enum SpecialFormV {
    And(Seq<ExprV>),
    Assignment(ExprV, ExprV),
    Begin(Seq<ExprV>),
    Cond(Seq<ExprV>),
    Define(ExprV, ExprV),
    If(ExprV, ExprV, ExprV),
    Lambda(ExprV, Seq<ExprV>),
    Let(ExprV, Seq<ExprV>),
    Or(Seq<ExprV>),
}

impl Define {
    /// The form of the given parts.
    pub fn new(identifier: Expr, value: Expr) -> (r: Define)
        ensures
            r.identifier == identifier,
            r.value == value,
    {
        Define { identifier, value }
    }
}

impl Lambda {
    /// The form of the given parts.
    pub fn new(params: Expr, body: Vec<Expr>) -> (r: Lambda)
        ensures
            r.params == params,
            r.body == body,
    {
        Lambda { params, body }
    }
}

impl If {
    /// The form of the given parts.
    pub fn new(predicate: Expr, consequence: Expr, alternative: Expr) -> (r: If)
        ensures
            r.predicate == predicate,
            r.consequence == consequence,
            r.alternative == alternative,
    {
        If { predicate, consequence, alternative }
    }
}

impl Cond {
    /// The form of the given parts.
    pub fn new(clauses: Vec<Expr>) -> (r: Cond)
        ensures
            r.clauses == clauses,
    {
        Cond { clauses }
    }
}

impl Let {
    /// The form of the given parts.
    pub fn new(bindings: Expr, body: Vec<Expr>) -> (r: Let)
        ensures
            r.bindings == bindings,
            r.body == body,
    {
        Let { bindings, body }
    }
}

impl Assignment {
    /// The form of the given parts.
    pub fn new(identifier: Expr, value: Expr) -> (r: Assignment)
        ensures
            r.identifier == identifier,
            r.value == value,
    {
        Assignment { identifier, value }
    }
}

impl Begin {
    /// The form of the given parts.
    pub fn new(exprs: Vec<Expr>) -> (r: Begin)
        ensures
            r.exprs == exprs,
    {
        Begin { exprs }
    }
}

impl And {
    /// The form of the given parts.
    pub fn new(body: Vec<Expr>) -> (r: And)
        ensures
            r.body == body,
    {
        And { body }
    }
}

impl Or {
    /// The form of the given parts.
    pub fn new(body: Vec<Expr>) -> (r: Or)
        ensures
            r.body == body,
    {
        Or { body }
    }
}

/// What can be evaluated as a special form.
pub trait Eval {
    /// The special form that `self` is.
    spec fn form(&self) -> SpecialFormV;

    /// Sets the machine on evaluating the form in `env`.
    fn eval(&self, interp: &mut Interp, env: &EnvRef)
        ensures
            final(interp)@ == eval_form(old(interp)@, self.form(), *env),
    ;
}

impl Eval for SpecialForm {
    open spec fn form(&self) -> SpecialFormV {
        self@
    }

    fn eval(&self, interp: &mut Interp, env: &EnvRef) {
        match self {
            SpecialForm::And(and_x) => and_x.eval(interp, env),
            SpecialForm::Assignment(ass_x) => ass_x.eval(interp, env),
            SpecialForm::Begin(beg_x) => beg_x.eval(interp, env),
            SpecialForm::Cond(cond_x) => cond_x.eval(interp, env),
            SpecialForm::Define(def_x) => def_x.eval(interp, env),
            SpecialForm::If(if_x) => if_x.eval(interp, env),
            SpecialForm::Lambda(lam_x) => lam_x.eval(interp, env),
            SpecialForm::Let(let_x) => let_x.eval(interp, env),
            SpecialForm::Or(or_x) => or_x.eval(interp, env),
        }
    }
}

impl Eval for Define {
    open spec fn form(&self) -> SpecialFormV {
        SpecialFormV::Define(self.identifier@, self.value@)
    }

    fn eval(&self, interp: &mut Interp, env: &EnvRef) {
        match &self.identifier {
            Expr::Atom(Token::Symbol(identifier)) => interp.descend(
                Kont::Define { name: identifier.clone(), env: *env },
                self.value.clone(),
                *env,
            ),
            identifier => interp.fail(EvalErr::TypeError("symbol or list", identifier.clone())),
        }
    }
}

impl Eval for Lambda {
    open spec fn form(&self) -> SpecialFormV {
        SpecialFormV::Lambda(self.params@, exprs_view(self.body))
    }

    fn eval(&self, interp: &mut Interp, env: &EnvRef) {
        interp.eval_lambda(&self.params, &self.body, *env)
    }
}

impl Eval for If {
    open spec fn form(&self) -> SpecialFormV {
        SpecialFormV::If(self.predicate@, self.consequence@, self.alternative@)
    }

    fn eval(&self, interp: &mut Interp, env: &EnvRef) {
        interp.descend(
            Kont::If {
                consequence: self.consequence.clone(),
                alternative: self.alternative.clone(),
                env: *env,
            },
            self.predicate.clone(),
            *env,
        )
    }
}

impl Eval for Cond {
    open spec fn form(&self) -> SpecialFormV {
        SpecialFormV::Cond(exprs_view(self.clauses))
    }

    fn eval(&self, interp: &mut Interp, env: &EnvRef) {
        match cond_to_if(&self.clauses, 0) {
            Ok(e) => {
                interp.control = Control::Eval(e, *env);
            },
            Err(e) => interp.fail(e),
        }
    }
}

impl Eval for Let {
    open spec fn form(&self) -> SpecialFormV {
        SpecialFormV::Let(self.bindings@, exprs_view(self.body))
    }

    fn eval(&self, interp: &mut Interp, env: &EnvRef) {
        match let_to_lambda(&self.bindings, clone_all(&self.body)) {
            Ok(call) => {
                interp.control = Control::Eval(Expr::Call(call), *env);
            },
            Err(e) => interp.fail(e),
        }
    }
}

impl Eval for Assignment {
    open spec fn form(&self) -> SpecialFormV {
        SpecialFormV::Assignment(self.identifier@, self.value@)
    }

    fn eval(&self, interp: &mut Interp, env: &EnvRef) {
        match &self.identifier {
            Expr::Atom(Token::Symbol(identifier)) => interp.descend(
                Kont::Assign { name: identifier.clone(), env: *env },
                self.value.clone(),
                *env,
            ),
            expr => interp.fail(EvalErr::TypeError("symbol", expr.clone())),
        }
    }
}

impl Eval for Begin {
    open spec fn form(&self) -> SpecialFormV {
        SpecialFormV::Begin(exprs_view(self.exprs))
    }

    fn eval(&self, interp: &mut Interp, env: &EnvRef) {
        interp.start_sequence(Sequel::Begin, clone_all(&self.exprs), *env)
    }
}

impl Eval for And {
    open spec fn form(&self) -> SpecialFormV {
        SpecialFormV::And(exprs_view(self.body))
    }

    fn eval(&self, interp: &mut Interp, env: &EnvRef) {
        interp.start_sequence(Sequel::And, clone_all(&self.body), *env)
    }
}

impl Eval for Or {
    open spec fn form(&self) -> SpecialFormV {
        SpecialFormV::Or(exprs_view(self.body))
    }

    fn eval(&self, interp: &mut Interp, env: &EnvRef) {
        interp.start_sequence(Sequel::Or, clone_all(&self.body), *env)
    }
}

} // verus!
