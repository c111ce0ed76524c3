use schemeish::enviroment::{Env, EnvRef};
use schemeish::error::EvalErr;
use schemeish::evaluator::{apply, eval, Args, Arith, ArithOp, Interp, Outcome};
use schemeish::lexer::{end_of_token, Token, TokenStream};
use schemeish::number::Number;
use schemeish::parser::{Expr, Parser};
use schemeish::primitives::compare::{atoms_equal, structurally_equal};
use schemeish::primitives::pair::{Heap, PairRef};
use schemeish::procedure::{Native, Primitive};
use schemeish::special_form::{Cond, Eval, Let, SpecialForm};
use schemeish::utils::{IterInnerVal, ToExpr};

fn number(x: f64) -> Number {
    Number::from_bits(x.to_bits())
}

fn num(x: f64) -> Expr {
    number(x).to_expr()
}

fn parse_one(interp: &mut Interp, scm: &str) -> Expr {
    let tokens = TokenStream::new(scm).collect_tokens().unwrap();
    let mut exprs = Parser::new(tokens).parse(&mut interp.heap).unwrap();
    assert_eq!(exprs.len(), 1);
    exprs.remove(0)
}

#[test]
fn numbers_compare_as_doubles_do() {
    let values = [
        f64::NEG_INFINITY,
        -1e300,
        -2.5,
        -1.0,
        -f64::MIN_POSITIVE,
        -0.0,
        0.0,
        5e-324,
        f64::MIN_POSITIVE,
        0.5,
        1.0,
        2.0,
        9007199254740993.0,
        1e300,
        f64::INFINITY,
        f64::NAN,
    ];
    for a in values {
        for b in values {
            let (x, y) = (number(a), number(b));
            assert_eq!(x.equals(&y), a == b, "{} == {}", a, b);
            assert_eq!(x.less_than(&y), a < b, "{} < {}", a, b);
            assert_eq!(x.less_or_equal(&y), a <= b, "{} <= {}", a, b);
        }
        let x = number(a);
        assert_eq!(x.is_nan(), a.is_nan());
        assert_eq!(x.is_negative(), a.is_sign_negative());
        assert_eq!(x.is_zero(), a == 0.0);
        assert_eq!(x.to_bits(), a.to_bits());
    }
    assert_eq!(Number::zero(), number(0.0));
    assert_eq!(Number::one(), number(1.0));
}

#[test]
fn digits_become_the_nearest_double() {
    let chars: Vec<char> = "x123456y".chars().collect();
    assert_eq!(Number::from_decimal(&chars, 1, 7), Some(number(123456.0)));
    assert_eq!(Number::from_decimal(&chars, 1, 1), Some(number(0.0)));
    assert_eq!(Number::from_decimal(&chars, 0, 3), None);
    assert_eq!(Number::from_decimal(&chars, 3, 2), None);
    assert_eq!(Number::from_decimal(&chars, 1, 9), None);
}

#[test]
fn white_space_and_parentheses_end_a_token() {
    for c in [' ', '\n', '\t', '(', ')', ';', '\u{a0}'] {
        assert!(end_of_token(&c), "{:?}", c);
    }
    for c in ['a', '1', '#', '"', '\'', '-'] {
        assert!(!end_of_token(&c), "{:?}", c);
    }
}

#[test]
fn the_stream_moves_over_comments_and_blanks() {
    let mut stream = TokenStream::new("; one\n  ; two\n x");
    stream.consume_comment();
    assert_eq!(stream.advance_to_token(), Some('x'));
    stream.consume_comment();
    assert_eq!(stream.advance_to_token(), Some('x'));
    let mut stream = TokenStream::new("  ; only a comment");
    assert_eq!(stream.advance_to_token(), None);
}

#[test]
fn frames_bind_look_up_and_assign() {
    let mut frames: Vec<Env> = vec![];
    let outer = EnvRef::new(Env::new(EnvRef::nil()), &mut frames);
    let inner = EnvRef::new(Env::new(outer), &mut frames);
    assert_eq!(outer.insert_val(&mut frames, "x".to_string(), num(1.0)), Ok(()));
    assert_eq!(outer.insert_val(&mut frames, "y".to_string(), num(2.0)), Ok(()));
    assert_eq!(inner.insert_val(&mut frames, "x".to_string(), num(3.0)), Ok(()));
    assert_eq!(inner.get_val(&frames, "x"), Ok(num(3.0)));
    assert_eq!(outer.get_val(&frames, "x"), Ok(num(1.0)));
    assert_eq!(inner.get_val(&frames, "y"), Ok(num(2.0)));
    assert_eq!(
        inner.get_val(&frames, "z"),
        Err(EvalErr::UnboundVar("z".to_string()))
    );
    assert_eq!(inner.update_val(&mut frames, "y".to_string(), num(4.0)), Ok(()));
    assert_eq!(outer.get_val(&frames, "y"), Ok(num(4.0)));
    assert_eq!(inner.update_val(&mut frames, "x".to_string(), num(5.0)), Ok(()));
    assert_eq!(inner.get_val(&frames, "x"), Ok(num(5.0)));
    assert_eq!(outer.get_val(&frames, "x"), Ok(num(1.0)));
    assert_eq!(
        inner.update_val(&mut frames, "z".to_string(), num(6.0)),
        Err(EvalErr::UnboundVar("z".to_string()))
    );
    assert_eq!(outer.insert_val(&mut frames, "x".to_string(), num(7.0)), Ok(()));
    assert_eq!(outer.get_val(&frames, "x"), Ok(num(7.0)));
    assert_eq!(inner.get_env(&frames).unwrap().get_val("x"), Some(num(5.0)));
    assert_eq!(inner.get_env(&frames).unwrap().get_val("y"), None);
    assert_eq!(inner.clone_rc(), Ok(inner));
}

#[test]
fn no_frame_binds_nothing() {
    let mut frames: Vec<Env> = vec![];
    let nil = EnvRef::nil();
    assert_eq!(nil.clone_rc(), Err(EvalErr::NilEnv));
    assert!(nil.get_env(&frames).is_none());
    assert_eq!(
        nil.get_val(&frames, "x"),
        Err(EvalErr::UnboundVar("x".to_string()))
    );
    assert_eq!(
        nil.insert_val(&mut frames, "x".to_string(), num(1.0)),
        Err(EvalErr::NilEnv)
    );
    assert_eq!(
        nil.update_val(&mut frames, "x".to_string(), num(1.0)),
        Err(EvalErr::UnboundVar("x".to_string()))
    );
    let dangling = EnvRef(Some(3));
    assert_eq!(
        dangling.insert_val(&mut frames, "x".to_string(), num(1.0)),
        Err(EvalErr::NilEnv)
    );
    assert!(Args::new(vec![], &nil).is_err());
    let mut interp = Interp::new();
    let call = parse_one(&mut interp, "(f)");
    assert_eq!(
        eval(&mut interp, &call, &nil, 10),
        Outcome::Failed(EvalErr::NilEnv)
    );
    let lambda = parse_one(&mut interp, "(lambda (x) x)");
    assert_eq!(
        eval(&mut interp, &lambda, &nil, 10),
        Outcome::Failed(EvalErr::NilEnv)
    );
}

#[test]
fn extending_binds_the_parameters() {
    let mut frames: Vec<Env> = vec![];
    let outer = EnvRef::global(&mut frames);
    let params = vec!["a".to_string(), "b".to_string(), "a".to_string()];
    let args = vec![num(1.0), num(2.0), num(3.0)];
    let inner = outer.extend(&mut frames, &params, &args);
    assert_eq!(inner, EnvRef(Some(1)));
    assert_eq!(inner.get_val(&frames, "a"), Ok(num(3.0)));
    assert_eq!(inner.get_val(&frames, "b"), Ok(num(2.0)));
    assert_eq!(
        inner.get_val(&frames, "car"),
        Ok(Primitive::new(Native::Car).to_expr())
    );
    assert_eq!(
        inner.get_val(&frames, "eq?"),
        Ok(Primitive::new(Native::Equal).to_expr())
    );
    assert_eq!(
        inner.get_val(&frames, "equal?"),
        Ok(Primitive::new(Native::Equal).to_expr())
    );
}

#[test]
fn arguments_know_their_number() {
    let mut frames: Vec<Env> = vec![];
    let env = EnvRef::global(&mut frames);
    let args = Args::new(vec![num(1.0), num(2.0)], &env).unwrap();
    assert_eq!(args.len(), 2);
    assert!(!args.is_empty());
    assert_eq!(args.env(), Ok(env));
    assert!(Args::new(vec![], &env).unwrap().is_empty());
}

#[test]
fn a_procedure_can_be_applied_directly() {
    let mut interp = Interp::new();
    let global = EnvRef::global(&mut interp.frames);
    let args = Args::new(vec![num(1.0), num(2.0)], &global).unwrap();
    apply(&mut interp, Primitive::new(Native::Cons).to_expr(), args);
    match interp.run(10) {
        Outcome::Done(Expr::Pair(p)) => {
            let cell = interp.heap.get(p).unwrap();
            assert_eq!(cell.car, num(1.0));
            assert_eq!(cell.cdr, num(2.0));
        }
        other => panic!("no pair: {:?}", other),
    }
    let args = Args::new(vec![num(4.0), num(2.0)], &global).unwrap();
    apply(&mut interp, Primitive::new(Native::Divide).to_expr(), args);
    assert_eq!(
        interp.run(10),
        Outcome::Needs(Arith {
            op: ArithOp::Div,
            lhs: number(4.0),
            rhs: number(2.0)
        })
    );
    assert_eq!(Primitive(Native::Divide).inner(), Native::Divide);
    assert_eq!(Native::Divide.name(), "/");
}

#[test]
fn expressions_give_their_numbers_and_names() {
    assert_eq!(
        vec![num(1.0), num(2.0)].into_nums(),
        Ok(vec![number(1.0), number(2.0)])
    );
    assert_eq!(
        vec![num(1.0), "a".to_expr(), true.to_expr()].into_nums(),
        Err(EvalErr::TypeError("number", "a".to_expr()))
    );
    assert_eq!(
        vec!["a".to_expr(), "b".to_expr()].into_strings(),
        Ok(vec!["a".to_string(), "b".to_string()])
    );
    assert_eq!(
        vec!["a".to_expr(), num(1.0)].into_strings(),
        Err(EvalErr::TypeError("symbol", num(1.0)))
    );
}

#[test]
fn lambda_wants_symbols_in_a_list() {
    let mut interp = Interp::new();
    let global = EnvRef::global(&mut interp.frames);
    let bad = parse_one(&mut interp, "(lambda (x 1) x)");
    assert_eq!(
        eval(&mut interp, &bad, &global, 10),
        Outcome::Failed(EvalErr::TypeError("symbol", num(1.0)))
    );
    let bad = parse_one(&mut interp, "(lambda x x)");
    assert_eq!(
        eval(&mut interp, &bad, &global, 10),
        Outcome::Failed(EvalErr::TypeError("list", "x".to_expr()))
    );
    let bad = parse_one(&mut interp, "(set! 1 2)");
    assert_eq!(
        eval(&mut interp, &bad, &global, 10),
        Outcome::Failed(EvalErr::TypeError("symbol", num(1.0)))
    );
    let bad = parse_one(&mut interp, "(define 1 2)");
    assert_eq!(
        eval(&mut interp, &bad, &global, 10),
        Outcome::Failed(EvalErr::TypeError("symbol or list", num(1.0)))
    );
    assert_eq!(
        eval(&mut interp, &Expr::Call(vec![]), &global, 10),
        Outcome::Failed(EvalErr::InvalidArgs("expected operation"))
    );
}

#[test]
fn cond_and_let_can_also_be_evaluated_as_forms() {
    let mut interp = Interp::new();
    let global = EnvRef::global(&mut interp.frames);
    let clause = vec![false.to_expr(), num(1.0)].to_expr();
    let other = vec![Expr::Atom(Token::Else), num(2.0)].to_expr();
    let cond = Cond::new(vec![clause, other]).to_expr();
    assert_eq!(eval(&mut interp, &cond, &global, 100), Outcome::Done(num(2.0)));
    let binding = vec!["x".to_expr(), num(5.0)].to_expr();
    let form = Let::new(vec![binding].to_expr(), vec!["x".to_expr()]);
    assert_eq!(
        eval(&mut interp, &form.to_expr(), &global, 100),
        Outcome::Done(num(5.0))
    );
    let form = SpecialForm::Let(Let::new(num(1.0), vec![]));
    form.eval(&mut interp, &global);
    assert_eq!(
        interp.outcome(),
        Outcome::Failed(EvalErr::TypeError("list", num(1.0)))
    );
}

#[test]
fn closures_keep_their_environment() {
    let mut interp = Interp::new();
    let global = EnvRef::global(&mut interp.frames);
    let tokens = TokenStream::new(
        "(define (make) (define held 0) (lambda (v) (set! held v) held))
         (define keep (make))
         (keep 3)
         (define held 9)
         (keep 4)
         held",
    )
    .collect_tokens()
    .unwrap();
    let exprs = Parser::new(tokens).parse(&mut interp.heap).unwrap();
    let outcomes: Vec<Outcome> = exprs
        .iter()
        .map(|e| eval(&mut interp, e, &global, 1000))
        .collect();
    assert_eq!(outcomes[2], Outcome::Done(num(3.0)));
    assert_eq!(outcomes[4], Outcome::Done(num(4.0)));
    assert_eq!(outcomes[5], Outcome::Done(num(9.0)));
}

#[test]
fn set_bang_gives_the_unspecified_value() {
    let mut interp = Interp::new();
    let global = EnvRef::global(&mut interp.frames);
    let define = parse_one(&mut interp, "(define x 1)");
    let set = parse_one(&mut interp, "(set! x 2)");
    let x = parse_one(&mut interp, "x");
    assert_eq!(eval(&mut interp, &define, &global, 10), Outcome::Done(Expr::Void));
    assert_eq!(eval(&mut interp, &set, &global, 10), Outcome::Done(Expr::Void));
    assert_eq!(eval(&mut interp, &x, &global, 10), Outcome::Done(num(2.0)));
}

#[test]
fn heap_cells_are_read_and_written_by_reference() {
    let mut heap = Heap::new();
    assert_eq!(heap.len(), 0);
    let cell = heap.cons(num(1.0), Expr::EmptyList);
    let p = match cell {
        Expr::Pair(p) => p,
        other => panic!("no pair: {:?}", other),
    };
    assert_eq!(p, PairRef { index: 0 });
    assert!(heap.set_car(p, num(2.0)));
    assert!(heap.set_cdr(p, num(3.0)));
    assert_eq!(heap.get(p).unwrap().car, num(2.0));
    assert_eq!(heap.get(p).unwrap().cdr, num(3.0));
    let missing = PairRef { index: 7 };
    assert!(!heap.set_car(missing, num(0.0)));
    assert!(!heap.set_cdr(missing, num(0.0)));
    assert!(heap.get(missing).is_none());
    assert_eq!(heap.try_list(&Expr::Pair(p)), None);
    assert_eq!(heap.try_list(&Expr::Pair(missing)), None);
    assert_eq!(heap.try_list(&num(1.0)), None);
    assert_eq!(heap.try_list(&Expr::EmptyList), Some(vec![]));
    let list = heap.list(&vec![num(1.0), num(2.0)]);
    assert_eq!(heap.try_list(&list), Some(vec![num(1.0), num(2.0)]));
    assert_eq!(heap.list(&vec![]), Expr::EmptyList);
}

#[test]
fn structural_equality_of_values() {
    let mut heap = Heap::new();
    let a = heap.list(&vec![num(1.0), "x".to_expr()]);
    let b = heap.list(&vec![num(1.0), Expr::Atom(Token::Str("x".to_string()))]);
    let c = heap.list(&vec![num(1.0)]);
    assert!(structurally_equal(&heap, &a, &a));
    assert!(structurally_equal(&heap, &a, &b));
    assert!(!structurally_equal(&heap, &a, &c));
    assert!(!structurally_equal(&heap, &a, &Expr::EmptyList));
    assert!(structurally_equal(&heap, &Expr::Void, &Expr::Void));
    assert!(structurally_equal(
        &heap,
        &Expr::Quoted(Box::new(num(1.0))),
        &Expr::Quoted(Box::new(num(1.0)))
    ));
    assert!(!structurally_equal(
        &heap,
        &Primitive::new(Native::Car).to_expr(),
        &Primitive::new(Native::Car).to_expr()
    ));
    assert!(structurally_equal(&heap, &num(0.0), &num(-0.0)));
    assert!(!structurally_equal(&heap, &num(f64::NAN), &num(f64::NAN)));
    assert!(!atoms_equal(&Token::If, &Token::If));
    assert!(atoms_equal(&Token::Boolean(true), &Token::Boolean(true)));
    assert!(!atoms_equal(&Token::Boolean(true), &Token::Boolean(false)));
    let missing = Expr::Pair(PairRef { index: 99 });
    let other = Expr::Pair(PairRef { index: 98 });
    assert!(structurally_equal(&heap, &missing, &missing));
    assert!(!structurally_equal(&heap, &missing, &other));
}
