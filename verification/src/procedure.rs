//! Procedures: the native ones and the closures that `lambda` makes.
use vstd::prelude::*;
use crate::enviroment::EnvRef;
use crate::error::EvalErr;
use crate::evaluator::{Args, Interp, Sequel, apply_procedure};
use crate::lexer::names_view;
use crate::parser::{Expr, ExprV, clone_all, exprs_view};
use crate::primitives::{call_native, native_spec};

verus! {

/// The native procedures.
#[derive(Clone, Copy, Debug, PartialEq, Eq, Hash)]
pub enum Native {
    Apply,
    Add,
    Subtract,
    Multiply,
    Divide,
    Equality,
    GreaterThan,
    GreaterThanOrEq,
    LessThan,
    LessThanOrEq,
    Remainder,
    Modulo,
    Cons,
    Car,
    Cdr,
    SetCar,
    SetCdr,
    List,
    Display,
    Error,
    Equal,
    Not,
    Symbol,
    String,
    Number,
    Pair,
    Null,
}

/// The name under which a native procedure is known.
pub open spec fn native_name(n: Native) -> Seq<char> {
    match n {
        Native::Apply => "apply"@,
        Native::Add => "+"@,
        Native::Subtract => "-"@,
        Native::Multiply => "*"@,
        Native::Divide => "/"@,
        Native::Equality => "="@,
        Native::GreaterThan => ">"@,
        Native::GreaterThanOrEq => ">="@,
        Native::LessThan => "<"@,
        Native::LessThanOrEq => "<="@,
        Native::Remainder => "remainder"@,
        Native::Modulo => "modulo"@,
        Native::Cons => "cons"@,
        Native::Car => "car"@,
        Native::Cdr => "cdr"@,
        Native::SetCar => "set-car!"@,
        Native::SetCdr => "set-cdr!"@,
        Native::List => "list"@,
        Native::Display => "display"@,
        Native::Error => "error"@,
        Native::Equal => "equal?"@,
        Native::Not => "not"@,
        Native::Symbol => "symbol?"@,
        Native::String => "string?"@,
        Native::Number => "number?"@,
        Native::Pair => "pair?"@,
        Native::Null => "null?"@,
    }
}

impl Native {
    /// The name under which this procedure is known.
    pub fn name(&self) -> (r: &'static str)
        ensures
            r@ == native_name(*self),
    {
        match self {
            Native::Apply => "apply",
            Native::Add => "+",
            Native::Subtract => "-",
            Native::Multiply => "*",
            Native::Divide => "/",
            Native::Equality => "=",
            Native::GreaterThan => ">",
            Native::GreaterThanOrEq => ">=",
            Native::LessThan => "<",
            Native::LessThanOrEq => "<=",
            Native::Remainder => "remainder",
            Native::Modulo => "modulo",
            Native::Cons => "cons",
            Native::Car => "car",
            Native::Cdr => "cdr",
            Native::SetCar => "set-car!",
            Native::SetCdr => "set-cdr!",
            Native::List => "list",
            Native::Display => "display",
            Native::Error => "error",
            Native::Equal => "equal?",
            Native::Not => "not",
            Native::Symbol => "symbol?",
            Native::String => "string?",
            Native::Number => "number?",
            Native::Pair => "pair?",
            Native::Null => "null?",
        }
    }
}

/// A procedure value.
#[derive(Debug, PartialEq)]
pub enum Proc {
    Primitive(Primitive),
    Compound(Compound),
}

/// A native procedure.
#[derive(Clone, Copy, Debug, PartialEq, Eq, Hash)]
pub struct Primitive(pub Native);

/// A closure: parameters, body and the environment it was made in.
#[derive(Debug, PartialEq)]
pub struct Compound {
    pub params: Vec<String>,
    pub body: Vec<Expr>,
    pub env: EnvRef,
}

/// The mathematical value of a procedure.
pub ghost enum ProcV {
    Primitive(Native),
    Compound { params: Seq<Seq<char>>, body: Seq<ExprV>, env: EnvRef },
}


#[allow(clippy::new_ret_no_self)]
impl Primitive {
    /// The procedure value for a native procedure.
    pub fn new(native: Native) -> (p: Proc)
        ensures
            p@ == ProcV::Primitive(native),
    {
        Proc::Primitive(Primitive(native))
    }

    /// Applies the native procedure to the arguments.
    pub fn call(&self, interp: &mut Interp, args: Args)
        ensures
            final(interp)@ == native_spec(old(interp)@, self.0, args@),
    {
        call_native(interp, self.0, args)
    }

    /// Which native procedure this is.
    pub fn inner(&self) -> (n: Native)
        ensures
            n == self.0,
    {
        self.0
    }
}

#[allow(clippy::new_ret_no_self)]
impl Compound {
    /// The closure with the given body and parameters, made in `env`.
    pub fn new(body: Vec<Expr>, params: Vec<String>, env: EnvRef) -> (p: Proc)
        ensures
            p@ == (ProcV::Compound {
                params: names_view(params),
                body: exprs_view(body),
                env,
            }),
    {
        Proc::Compound(Compound { params, body, env })
    }

    /// Applies the closure to the arguments: as many as it has parameters.
    pub fn call(&self, interp: &mut Interp, args: Args)
        ensures
            final(interp)@ == apply_procedure(
                old(interp)@,
                ExprV::Proc(Box::new(Proc::Compound(*self)@)),
                args@,
            ),
    {
        if self.params.len() != args.args.len() {
            interp.fail(EvalErr::InvalidArgs("amount of args does not match function pararms"));
            return ;
        }
        let inner = self.env.extend(&mut interp.frames, &self.params, &args.args);
        interp.start_sequence(Sequel::Body, clone_all(&self.body), inner);
    }

    /// The parameters.
    pub fn params(&self) -> (r: &Vec<String>)
        ensures
            *r == self.params,
    {
        &self.params
    }
}

} // verus!
