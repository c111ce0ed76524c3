//! Conversions into expressions.
use vstd::prelude::*;
use std::rc::Rc;
use crate::error::{EvalErr, EvalErrV};
use crate::evaluator::symbols;
use crate::lexer::{Token, TokenV, names_view};
use crate::number::Number;
use crate::parser::{Expr, ExprV, exprs_view};
use crate::primitives::numeric::to_nums;
use crate::procedure::Proc;
use crate::special_form::{
    And, Assignment, Begin, Cond, Define, If, Lambda, Let, Or, SpecialForm, SpecialFormV,
};

verus! {

/// What can be made an expression.
pub trait ToExpr: Sized {
    /// The value of the expression that `self` becomes.
    spec fn expr_of(self) -> ExprV;

    /// `self` as an expression.
    fn to_expr(self) -> (r: Expr)
        ensures
            r@ == self.expr_of(),
    ;
}

impl ToExpr for Number {
    open spec fn expr_of(self) -> ExprV {
        ExprV::Atom(TokenV::Number(self))
    }

    fn to_expr(self) -> (r: Expr) {
        Expr::Atom(Token::Number(self))
    }
}

impl ToExpr for bool {
    open spec fn expr_of(self) -> ExprV {
        ExprV::Atom(TokenV::Boolean(self))
    }

    fn to_expr(self) -> (r: Expr) {
        Expr::Atom(Token::Boolean(self))
    }
}

impl ToExpr for &str {
    open spec fn expr_of(self) -> ExprV {
        ExprV::Atom(TokenV::Symbol(self@))
    }

    fn to_expr(self) -> (r: Expr) {
        Expr::Atom(Token::Symbol(String::from_str(self)))
    }
}

impl ToExpr for Proc {
    open spec fn expr_of(self) -> ExprV {
        Expr::Proc(Rc::new(self))@
    }

    fn to_expr(self) -> (r: Expr) {
        Expr::Proc(Rc::new(self))
    }
}

impl ToExpr for Vec<Expr> {
    open spec fn expr_of(self) -> ExprV {
        ExprV::Call(exprs_view(self))
    }

    fn to_expr(self) -> (r: Expr) {
        Expr::Call(self)
    }
}

impl ToExpr for If {
    open spec fn expr_of(self) -> ExprV {
        ExprV::SpecialForm(
            Box::new(SpecialFormV::If(self.predicate@, self.consequence@, self.alternative@)),
        )
    }

    fn to_expr(self) -> (r: Expr) {
        Expr::SpecialForm(Rc::new(SpecialForm::If(self)))
    }
}

impl ToExpr for Lambda {
    open spec fn expr_of(self) -> ExprV {
        ExprV::SpecialForm(Box::new(SpecialFormV::Lambda(self.params@, exprs_view(self.body))))
    }

    fn to_expr(self) -> (r: Expr) {
        Expr::SpecialForm(Rc::new(SpecialForm::Lambda(self)))
    }
}

impl ToExpr for Define {
    open spec fn expr_of(self) -> ExprV {
        ExprV::SpecialForm(Box::new(SpecialFormV::Define(self.identifier@, self.value@)))
    }

    fn to_expr(self) -> (r: Expr) {
        Expr::SpecialForm(Rc::new(SpecialForm::Define(self)))
    }
}

impl ToExpr for Assignment {
    open spec fn expr_of(self) -> ExprV {
        ExprV::SpecialForm(Box::new(SpecialFormV::Assignment(self.identifier@, self.value@)))
    }

    fn to_expr(self) -> (r: Expr) {
        Expr::SpecialForm(Rc::new(SpecialForm::Assignment(self)))
    }
}

impl ToExpr for And {
    open spec fn expr_of(self) -> ExprV {
        ExprV::SpecialForm(Box::new(SpecialFormV::And(exprs_view(self.body))))
    }

    fn to_expr(self) -> (r: Expr) {
        Expr::SpecialForm(Rc::new(SpecialForm::And(self)))
    }
}

impl ToExpr for Or {
    open spec fn expr_of(self) -> ExprV {
        ExprV::SpecialForm(Box::new(SpecialFormV::Or(exprs_view(self.body))))
    }

    fn to_expr(self) -> (r: Expr) {
        Expr::SpecialForm(Rc::new(SpecialForm::Or(self)))
    }
}

impl ToExpr for Begin {
    open spec fn expr_of(self) -> ExprV {
        ExprV::SpecialForm(Box::new(SpecialFormV::Begin(exprs_view(self.exprs))))
    }

    fn to_expr(self) -> (r: Expr) {
        Expr::SpecialForm(Rc::new(SpecialForm::Begin(self)))
    }
}

impl ToExpr for Cond {
    open spec fn expr_of(self) -> ExprV {
        ExprV::SpecialForm(Box::new(SpecialFormV::Cond(exprs_view(self.clauses))))
    }

    fn to_expr(self) -> (r: Expr) {
        Expr::SpecialForm(Rc::new(SpecialForm::Cond(self)))
    }
}

impl ToExpr for Let {
    open spec fn expr_of(self) -> ExprV {
        ExprV::SpecialForm(Box::new(SpecialFormV::Let(self.bindings@, exprs_view(self.body))))
    }

    fn to_expr(self) -> (r: Expr) {
        Expr::SpecialForm(Rc::new(SpecialForm::Let(self)))
    }
}

/// Expressions taken as the numbers or the names that they are.
pub trait IterInnerVal: Sized {
    /// The expressions.
    spec fn items(self) -> Seq<ExprV>;

    /// The numbers that the expressions are, or the error of the first that
    /// is none.
    fn into_nums(self) -> (r: Result<Vec<Number>, EvalErr>)
        ensures
            match r {
                Ok(nums) => to_nums(self.items(), 0) == Ok::<Seq<Number>, EvalErrV>(nums@),
                Err(e) => to_nums(self.items(), 0) == Err::<Seq<Number>, EvalErrV>(e@),
            },
    ;

    /// The names of the symbols that the expressions are, or the error of the
    /// first that is none.
    fn into_strings(self) -> (r: Result<Vec<String>, EvalErr>)
        ensures
            match r {
                Ok(names) => symbols(self.items(), 0) == Ok::<Seq<Seq<char>>, EvalErrV>(
                    names_view(names),
                ),
                Err(e) => symbols(self.items(), 0) == Err::<Seq<Seq<char>>, EvalErrV>(e@),
            },
    ;
}

impl IterInnerVal for Vec<Expr> {
    open spec fn items(self) -> Seq<ExprV> {
        exprs_view(self)
    }

    fn into_nums(self) -> (r: Result<Vec<Number>, EvalErr>) {
        crate::primitives::numeric::into_nums(&self)
    }

    fn into_strings(self) -> (r: Result<Vec<String>, EvalErr>) {
        crate::evaluator::into_strings(&self)
    }
}

} // verus!
