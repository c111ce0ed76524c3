use schemeish::enviroment::EnvRef;
use schemeish::error::EvalErr;
use schemeish::evaluator::{drive as replay, eval, resume, Arith, ArithOp, Interp, Outcome};
use schemeish::lexer::{Token, TokenStream};
use schemeish::number::Number;
use schemeish::parser::{Expr, Parser};
use schemeish::primitives::compare::structurally_equal;

const FUEL: usize = 1_000_000;

fn num(x: f64) -> Expr {
    Expr::Atom(Token::Number(Number::from_bits(x.to_bits())))
}

fn boolean(b: bool) -> Expr {
    Expr::Atom(Token::Boolean(b))
}

fn compute(request: Arith) -> Number {
    let x = f64::from_bits(request.lhs.to_bits());
    let y = f64::from_bits(request.rhs.to_bits());
    let r = match request.op {
        ArithOp::Add => x + y,
        ArithOp::Sub => x - y,
        ArithOp::Mul => x * y,
        ArithOp::Div => x / y,
        ArithOp::Rem => x % y,
    };
    Number::from_bits(r.to_bits())
}

fn drive(interp: &mut Interp, first: Outcome) -> Result<Expr, EvalErr> {
    let mut outcome = first;
    loop {
        outcome = match outcome {
            Outcome::Done(v) => return Ok(v),
            Outcome::Failed(e) => return Err(e),
            Outcome::Needs(request) => resume(interp, compute(request), FUEL),
            Outcome::Paused => interp.run(FUEL),
            Outcome::Idle => panic!("nothing to evaluate"),
        };
    }
}

fn machine() -> (Interp, EnvRef) {
    let mut interp = Interp::new();
    let global = EnvRef::global(&mut interp.frames);
    let outcomes = global.import_prelude(&mut interp, FUEL).unwrap();
    for outcome in outcomes {
        assert!(matches!(outcome, Outcome::Done(_)), "{:?}", outcome);
    }
    (interp, global)
}

fn eval_err_in(interp: &mut Interp, global: &EnvRef, scm: &str) -> Vec<Result<Expr, EvalErr>> {
    let tokens = TokenStream::new(scm).collect_tokens().unwrap();
    let exprs = Parser::new(tokens).parse(&mut interp.heap).unwrap();
    let mut results = vec![];
    for e in exprs.iter() {
        let first = eval(interp, e, global, FUEL);
        results.push(drive(interp, first));
    }
    results
}

fn eval_in(interp: &mut Interp, global: &EnvRef, scm: &str) -> Vec<Expr> {
    eval_err_in(interp, global, scm)
        .into_iter()
        .map(|r| r.unwrap_or_else(|err| panic!("{:?}", err)))
        .collect()
}

fn eval_test(scm: &str) -> Vec<Expr> {
    let (mut interp, global) = machine();
    eval_in(&mut interp, &global, scm)
}

fn eval_err_test(scm: &str) -> Vec<Result<Expr, EvalErr>> {
    let (mut interp, global) = machine();
    eval_err_in(&mut interp, &global, scm)
}

fn list_of(interp: &mut Interp, items: &[f64]) -> Expr {
    let items: Vec<Expr> = items.iter().map(|x| num(*x)).collect();
    interp.heap.list(&items)
}

#[test]
fn arithemtic() {
    let scm = "
            (+ 1 (+ (+ 1 2)(- 2 1) 6 7 8 (- 3 2)))";

    let evalulated = eval_test(scm);
    let res = evalulated.get(0).unwrap();
    assert_eq!(*res, num(27.0));
}

#[test]
fn if_cmp() {
    let scm = "
            (define (test-if x y)
              (if (= x y)
                10
                20))
            (test-if 1 2)
            (test-if 1 1)";

    let evalulated = eval_test(scm);
    let res1 = evalulated.get(1).unwrap();
    let res2 = evalulated.get(2).unwrap();
    assert_eq!(*res1, num(20.0));
    assert_eq!(*res2, num(10.0));
}

#[test]
fn simple_let() {
    let scm = "(let ((x 2) (y 3)) (* x y))";

    let evalulated = eval_test(scm);
    let res = evalulated.get(0).unwrap();
    assert_eq!(*res, num(6.0));
}

#[test]
fn curry_and_comment() {
    let scm = "
            (((lambda (x) ;this has a comment
                (lambda (y)
                  (+ x y)))
              3)
             4)";

    let evalulated = eval_test(scm);
    let res = evalulated.get(0).unwrap();
    assert_eq!(*res, num(7.0));
}

#[test]
fn nested_proc_w_comments() {
    let scm = "
            ; comment much?
            (define (add-with-ten x y) ; yoo
                ; we got a comment here mate
              (define (add b c) (+ 10 b c))
              (+ (add x x) (add y y)));morestuff
;commmentttimte!;haha
            (- (add-with-ten 1 1) 5 5); also end w comment";

    let evalulated = eval_test(scm);
    let res = evalulated.get(1).unwrap();
    assert_eq!(*res, num(14.0));
}

#[test]
fn factorial() {
    let scm = "
            (define (product term a next b)
              (if (> a b)
                  1
                  (* (term a)
                     (product term (next a) next b))))
            (define (factorial x)
              (define (id x) x)
              (define (inc x) (+ x 1))
              (product id 1 inc x))
            (factorial 10)";

    let evalulated = eval_test(scm);
    let res = evalulated.get(2).unwrap();
    assert_eq!(*res, num(3628800.0));
}

#[test]
fn iter_list() {
    let scm = "
            (define (last-pair list)
              (if (null? (cdr list))
                  (car list)
                  (last-pair (cdr list))))
            (define ls (cons 23 (cons 72 (cons 149 ()))))
            (last-pair ls)";

    let evalulated = eval_test(scm);
    let res = evalulated.get(2).unwrap();
    assert_eq!(*res, num(149.0));
}

#[test]
fn map_list() {
    let scm = "
            (define (map ls fn)
              (if (null? ls)
                '()
                (cons (fn (car ls))
                      (map (cdr ls) fn))))

            (define ls (list 1 2 (+ 1 2)))
            (map ls (lambda (x) (* x 2)))";

    let (mut interp, global) = machine();
    let evalulated = eval_in(&mut interp, &global, scm);
    let res = evalulated.get(2).unwrap();
    let expected = list_of(&mut interp, &[2.0, 4.0, 6.0]);
    assert!(structurally_equal(&interp.heap, res, &expected));
}

#[test]
fn reassign_var() {
    let scm = "
            (define x 2)
            (define (new-scope depth) 
                (if (= 0 depth) 
                    (set! x 1) 
                    (new-scope (- depth 1))))
            (new-scope 5)
            x";

    let evalulated = eval_test(scm);
    let res = evalulated.get(3).unwrap();
    assert_eq!(*res, num(1.0));
}

#[test]
fn or_true() {
    let scm = "(or (= 1 2) #f #t #f)";

    let evalulated = eval_test(scm);
    let res = evalulated.get(0).unwrap();
    assert_eq!(*res, boolean(true));
}

#[test]
fn or_false() {
    let scm = "(or (= 1 2) #f #f)";

    let evalulated = eval_test(scm);
    let res = evalulated.get(0).unwrap();
    assert_eq!(*res, boolean(false));
}

#[test]
fn and_true() {
    let scm = "(and (= 2 2) #t (= 1 1))";

    let evalulated = eval_test(scm);
    let res = evalulated.get(0).unwrap();
    assert_eq!(*res, boolean(true));
}

#[test]
fn and_false() {
    let scm = "(and (= 1 1) (= 0 0) #f (= 5 5))";

    let evalulated = eval_test(scm);
    let res = evalulated.get(0).unwrap();
    assert_eq!(*res, boolean(false));
}

#[test]
fn cond_t() {
    let scm = "(cond (#t 1))";

    let evalulated = eval_test(scm);
    let res = evalulated.get(0).unwrap();
    assert_eq!(*res, num(1.0));
}

#[test]
fn cond_f() {
    let scm = "(cond (#f 1))";

    let evalulated = eval_test(scm);
    let res = evalulated.get(0).unwrap();
    assert_eq!(*res, Expr::EmptyList);
}

#[test]
fn else_ls() {
    let scm = "(cond (#f 1) (#f 3) (else (list 1)))";

    let (mut interp, global) = machine();
    let evalulated = eval_in(&mut interp, &global, scm);
    let res = evalulated.get(0).unwrap();
    let expected = list_of(&mut interp, &[1.0]);
    assert!(structurally_equal(&interp.heap, res, &expected));
}

#[test]
fn coin_combo() {
    let scm = "(define (first-denomination coins)
                      (car coins))
                    (define (except-first-denomination coins)
                      (cdr coins))
                    (define (no-more? coins)
                      (null? coins))

                    (define (cc amount coin-values)
                      (cond ((= amount 0) 1)
                            ((or (< amount 0) (no-more? coin-values)) 0)
                            (else
                             (+ (cc amount
                                    (except-first-denomination coin-values))
                                (cc (- amount
                                       (first-denomination coin-values))
                                    coin-values)))))

                    (define us-coins (list 25 10 5 1))
                    (cc 45 us-coins)";

    let evalulated = eval_test(scm);
    let res = evalulated.get(5).unwrap();
    assert_eq!(*res, num(39.0));
}

#[test]
fn type_error() {
    let scm = "(define 1 2)";

    let evalulated = eval_err_test(scm);
    let res = evalulated.get(0).unwrap();
    match res {
        Err(e) => {
            let x = match e {
                EvalErr::TypeError(_, _) => true,
                _ => false,
            };
            assert!(x)
        }
        Ok(e) => panic!("Expected error, got {:?}", e),
    }
}

#[test]
fn reassign_unassigned() {
    let scm = "
            (define (new-scope) (set! x 1))
            (new-scope)
            x";

    let evalulated = eval_err_test(scm);
    let res = evalulated.get(2).unwrap();
    match res {
        Err(e) => {
            let x = match e {
                EvalErr::UnboundVar(_) => true,
                _ => false,
            };
            assert!(x)
        }
        Ok(e) => panic!("Expected error, got {:?}", e),
    }
}

#[test]
fn mut_list_uses_ref() {
    let scm = "(define x (list 1 2))
                    (set-cdr! (cdr x) (list 3 4))
                    x
                    (set-cdr! x (list 4 5 6))
                    x";

    let (mut interp, global) = machine();
    let evalulated = eval_in(&mut interp, &global, scm);
    let res = evalulated.get(2).unwrap();
    let expected = list_of(&mut interp, &[1.0, 4.0, 5.0, 6.0]);
    assert!(structurally_equal(&interp.heap, res, &expected));
    let res_new = evalulated.get(4).unwrap();
    assert_eq!(res, res_new);
}

#[test]
fn mutation_is_seen_step_by_step() {
    let (mut interp, global) = machine();
    let first = eval_in(
        &mut interp,
        &global,
        "(define x (list 1 2))
         (set-cdr! (cdr x) (list 3 4))
         x",
    );
    let expected = list_of(&mut interp, &[1.0, 2.0, 3.0, 4.0]);
    assert!(structurally_equal(&interp.heap, &first[2], &expected));
    let second = eval_in(&mut interp, &global, "(set-cdr! x (list 4 5 6)) x");
    let expected = list_of(&mut interp, &[1.0, 4.0, 5.0, 6.0]);
    assert!(structurally_equal(&interp.heap, &second[1], &expected));
    assert!(structurally_equal(&interp.heap, &first[2], &expected));
}

#[test]
fn mut_list_can_create_cycle_without_panic() {
    let scm = "(define x (list 1 2 3))
                    (set-cdr! (cdr (cdr x)) x)";
    eval_test(scm);
}

#[test]
fn a_cycle_can_be_compared_and_printed() {
    let (mut interp, global) = machine();
    let values = eval_in(
        &mut interp,
        &global,
        "(define x (list 1 2 3))
         (set-cdr! (cdr (cdr x)) x)
         (equal? x x)
         (equal? x (list 1 2 3))
         (display x)",
    );
    assert_eq!(values[2], boolean(true));
    assert_eq!(values[3], boolean(false));
    assert_eq!(interp.output.len(), 1);
}

#[test]
fn unbound_assignment_is_an_error() {
    let results = eval_err_test("(set! x 1)");
    assert_eq!(results[0], Err(EvalErr::UnboundVar("x".to_string())));
}

#[test]
fn define_then_lookup() {
    let values = eval_test("(define x (+ 2 3)) x (define y x) y");
    assert_eq!(values[0], Expr::Void);
    assert_eq!(values[1], num(5.0));
    assert_eq!(values[3], num(5.0));
}

#[test]
fn pairs_hold_what_they_were_made_of() {
    let values = eval_test(
        "(define p (cons 1 2))
         (car p)
         (cdr p)
         (define q p)
         (set-car! p 9)
         (car p)
         (car q)
         (cdr q)",
    );
    assert_eq!(values[1], num(1.0));
    assert_eq!(values[2], num(2.0));
    assert_eq!(values[4], Expr::Void);
    assert_eq!(values[5], num(9.0));
    assert_eq!(values[6], num(9.0));
    assert_eq!(values[7], num(2.0));
}

#[test]
fn short_circuit_leaves_the_rest_alone() {
    let results = eval_err_test(
        "(and #f (error \"never\"))
         (or #t (error \"never\"))
         (and #t (error \"reached\"))
         (or 5 (error \"never\"))
         (and)
         (or)
         (and 1 2)",
    );
    assert_eq!(results[0], Ok(boolean(false)));
    assert_eq!(results[1], Ok(boolean(true)));
    assert_eq!(
        results[2],
        Err(EvalErr::RuntimeException("reached".to_string()))
    );
    assert_eq!(results[3], Ok(num(5.0)));
    assert_eq!(results[4], Ok(boolean(true)));
    assert_eq!(results[5], Ok(boolean(false)));
    assert_eq!(results[6], Ok(boolean(true)));
}

#[test]
fn every_value_but_false_is_true() {
    let values = eval_test("(if 0 1 2) (if '() 1 2) (if \"\" 1 2) (if #f 1 2)");
    assert_eq!(values[0], num(1.0));
    assert_eq!(values[1], num(1.0));
    assert_eq!(values[2], num(1.0));
    assert_eq!(values[3], num(2.0));
}

#[test]
fn arithmetic_folds_from_the_left() {
    let values = eval_test(
        "(+) (*) (- 10 1 2) (/ 8 2 2) (- 5) (/ 4) (remainder 7 2) (+ 1 2 3) (* 2 3 4)",
    );
    assert_eq!(values[0], num(0.0));
    assert_eq!(values[1], num(1.0));
    assert_eq!(values[2], num(7.0));
    assert_eq!(values[3], num(2.0));
    assert_eq!(values[4], num(5.0));
    assert_eq!(values[5], num(4.0));
    assert_eq!(values[6], num(1.0));
    assert_eq!(values[7], num(6.0));
    assert_eq!(values[8], num(24.0));
}

#[test]
fn a_sign_makes_a_symbol() {
    let results = eval_err_test("-7");
    assert_eq!(results[0], Err(EvalErr::UnboundVar("-7".to_string())));
}

#[test]
fn negative_numbers_come_from_arithmetic() {
    let values = eval_test(
        "(define m (- 0 7))
         (remainder m 2)
         (modulo m 2)
         (modulo 7 (- 0 2))
         (modulo 6 3)
         (/ 1 2)
         (< m 0)
         (> 0 m)",
    );
    assert_eq!(values[1], num(-1.0));
    assert_eq!(values[2], num(1.0));
    assert_eq!(values[3], num(-1.0));
    assert_eq!(values[4], num(0.0));
    assert_eq!(values[5], num(0.5));
    assert_eq!(values[6], boolean(true));
    assert_eq!(values[7], boolean(true));
}

#[test]
fn comparisons_take_the_sum_of_the_rest() {
    let values = eval_test("(= 3 1 2) (< 2 1 2) (> 2 1 2) (<= 3 1 2) (>= 3 1 2) (= 1 1) (< 1 2)");
    assert_eq!(values[0], boolean(true));
    assert_eq!(values[1], boolean(true));
    assert_eq!(values[2], boolean(false));
    assert_eq!(values[3], boolean(true));
    assert_eq!(values[4], boolean(true));
    assert_eq!(values[5], boolean(true));
    assert_eq!(values[6], boolean(true));
}

#[test]
fn arity_and_type_errors_of_the_numeric_procedures() {
    let results = eval_err_test("(-) (/) (< 1) (remainder 1) (+ 1 \"a\") (modulo 1 2 3)");
    assert_eq!(
        results[0],
        Err(EvalErr::InvalidArgs("Procedure requires at least one argument"))
    );
    assert_eq!(
        results[1],
        Err(EvalErr::InvalidArgs("Procedure requires at least one argument"))
    );
    assert_eq!(
        results[2],
        Err(EvalErr::InvalidArgs("Procedure requires at least two arguments"))
    );
    assert_eq!(
        results[3],
        Err(EvalErr::InvalidArgs("Procedure requires two arguments"))
    );
    assert_eq!(
        results[4],
        Err(EvalErr::TypeError(
            "number",
            Expr::Atom(Token::Str("a".to_string()))
        ))
    );
    assert_eq!(
        results[5],
        Err(EvalErr::InvalidArgs("Procedure requires two arguments"))
    );
}

#[test]
fn errors_of_pairs_and_application() {
    let results = eval_err_test(
        "(car '()) (cdr 1) (cons 1) (1 2) ((lambda (x) x)) (apply + 1) (apply +) (error 1) (error)
         (set-car! 1 2) y (car) (display) (not) (equal? 1)",
    );
    assert_eq!(
        results[0],
        Err(EvalErr::InvalidArgs("cannot access car of empty list"))
    );
    assert_eq!(results[1], Err(EvalErr::TypeError("pair", num(1.0))));
    assert_eq!(
        results[2],
        Err(EvalErr::InvalidArgs("'cons'. expected two arguments."))
    );
    assert_eq!(results[3], Err(EvalErr::TypeError("procedure", num(1.0))));
    assert_eq!(
        results[4],
        Err(EvalErr::InvalidArgs(
            "amount of args does not match function pararms"
        ))
    );
    assert_eq!(
        results[5],
        Err(EvalErr::InvalidArgs(
            "'apply'. expected list as second argument"
        ))
    );
    assert_eq!(
        results[6],
        Err(EvalErr::InvalidArgs(
            "'apply'. expected operation and list of arguments"
        ))
    );
    assert_eq!(
        results[7],
        Err(EvalErr::InvalidArgs(
            "'error'. expected string as argument."
        ))
    );
    assert_eq!(
        results[8],
        Err(EvalErr::InvalidArgs("'error'. expected argument"))
    );
    assert_eq!(results[9], Err(EvalErr::TypeError("pair", num(1.0))));
    assert_eq!(results[10], Err(EvalErr::UnboundVar("y".to_string())));
    assert_eq!(
        results[11],
        Err(EvalErr::InvalidArgs("'car'. expected argument"))
    );
    assert_eq!(
        results[12],
        Err(EvalErr::InvalidArgs("'display'. expected argument"))
    );
    assert_eq!(
        results[13],
        Err(EvalErr::InvalidArgs("'not'. expected argument"))
    );
    assert_eq!(
        results[14],
        Err(EvalErr::InvalidArgs("'equal?'. expected two arguments."))
    );
}

#[test]
fn apply_takes_a_proper_list() {
    let values = eval_test("(apply + (list 1 2 3)) (apply + '()) (apply (lambda (x y) (- x y)) '(5 3))");
    assert_eq!(values[0], num(6.0));
    assert_eq!(values[1], num(0.0));
    assert_eq!(values[2], num(2.0));
}

#[test]
fn predicates_and_equality() {
    let values = eval_test(
        "(symbol? 'a) (symbol? 1) (string? \"s\") (number? 1) (pair? (cons 1 2)) (pair? '())
         (null? '()) (null? 1) (not #f) (not 1) (equal? 'a 'a) (equal? \"a\" 'a) (equal? 1 1)
         (equal? #t #t) (equal? '(1 (2 3)) (list 1 (list 2 3))) (equal? '(1 2) '(1 3)) (eq? 1 2)
         (equal? '() '())",
    );
    let expected = [
        true, false, true, true, true, false, true, false, true, false, true, true, true, true,
        true, false, false, true,
    ];
    for (i, b) in expected.iter().enumerate() {
        assert_eq!(values[i], boolean(*b), "{}", i);
    }
}

#[test]
fn the_prelude_defines_list_helpers() {
    let (mut interp, global) = machine();
    let values = eval_in(
        &mut interp,
        &global,
        "(map (lambda (x) (* x x)) (list 1 2 3))
         (filter (lambda (x) (< 1 x)) (list 1 2 3))
         (length (list 1 2 3))
         (foldl + 0 (list 1 2 3))
         (cadr (list 1 2 3))
         (id 4)",
    );
    let squares = list_of(&mut interp, &[1.0, 4.0, 9.0]);
    assert!(structurally_equal(&interp.heap, &values[0], &squares));
    let big = list_of(&mut interp, &[2.0, 3.0]);
    assert!(structurally_equal(&interp.heap, &values[1], &big));
    assert_eq!(values[2], num(3.0));
    assert_eq!(values[3], num(6.0));
    assert_eq!(values[4], num(2.0));
    assert_eq!(values[5], num(4.0));
}

#[test]
fn define_in_a_body_binds_in_the_call_frame() {
    let results = eval_err_test(
        "(define (f) (define inner 1) inner)
         (f)
         inner",
    );
    assert_eq!(results[1], Ok(num(1.0)));
    assert_eq!(results[2], Err(EvalErr::UnboundVar("inner".to_string())));
}

#[test]
fn begin_gives_the_last_value() {
    let values = eval_test("(begin) (begin 1 2 3) (define x 0) (begin (set! x 5) x)");
    assert_eq!(values[0], Expr::Void);
    assert_eq!(values[1], num(3.0));
    assert_eq!(values[3], num(5.0));
}

#[test]
fn an_endless_loop_pauses() {
    let (mut interp, global) = machine();
    let tokens = TokenStream::new("(define (loop) (loop)) (loop)")
        .collect_tokens()
        .unwrap();
    let exprs = Parser::new(tokens).parse(&mut interp.heap).unwrap();
    assert_eq!(eval(&mut interp, &exprs[0], &global, 100), Outcome::Done(Expr::Void));
    assert_eq!(eval(&mut interp, &exprs[1], &global, 100), Outcome::Paused);
    assert_eq!(interp.run(100), Outcome::Paused);
}

#[test]
fn the_machine_asks_for_each_operation() {
    let (mut interp, global) = machine();
    let tokens = TokenStream::new("(+ 1 2)").collect_tokens().unwrap();
    let exprs = Parser::new(tokens).parse(&mut interp.heap).unwrap();
    let one = Number::from_bits(1.0f64.to_bits());
    let two = Number::from_bits(2.0f64.to_bits());
    let first = eval(&mut interp, &exprs[0], &global, FUEL);
    assert_eq!(
        first,
        Outcome::Needs(Arith { op: ArithOp::Add, lhs: Number::zero(), rhs: one })
    );
    let second = resume(&mut interp, one, FUEL);
    assert_eq!(
        second,
        Outcome::Needs(Arith { op: ArithOp::Add, lhs: one, rhs: two })
    );
    let third = resume(&mut interp, Number::from_bits(42.0f64.to_bits()), FUEL);
    assert_eq!(third, Outcome::Done(num(42.0)));
}

#[test]
fn running_in_slices_gives_the_same_as_running_at_once() {
    let source = "(define (count n) (if (null? n) 0 (count (cdr n)))) (count (list 1 2 3 4 5))";
    let (mut whole, global) = machine();
    let tokens = TokenStream::new(source).collect_tokens().unwrap();
    let exprs = Parser::new(tokens).parse(&mut whole.heap).unwrap();
    eval(&mut whole, &exprs[0], &global, FUEL);
    let at_once = eval(&mut whole, &exprs[1], &global, FUEL);
    assert_eq!(at_once, Outcome::Done(num(0.0)));

    let (mut sliced, global) = machine();
    let tokens = TokenStream::new(source).collect_tokens().unwrap();
    let exprs = Parser::new(tokens).parse(&mut sliced.heap).unwrap();
    eval(&mut sliced, &exprs[0], &global, FUEL);
    let mut outcome = eval(&mut sliced, &exprs[1], &global, 7);
    let mut slices = 1;
    while outcome == Outcome::Paused {
        outcome = sliced.run(7);
        slices += 1;
    }
    assert!(slices > 3);
    assert_eq!(outcome, at_once);
    assert_eq!(sliced, whole);
    assert_eq!(sliced.run(1000), at_once);
}

#[test]
fn a_symbol_evaluates_in_one_step_and_changes_nothing() {
    let (mut interp, global) = machine();
    eval_in(&mut interp, &global, "(define x (list 1 2))");
    let x = Expr::Atom(Token::Symbol("x".to_string()));
    let first = eval(&mut interp, &x, &global, 1);
    let heap_size = interp.heap.len();
    let frames = interp.frames.len();
    let second = eval(&mut interp, &x, &global, 1);
    assert!(matches!(first, Outcome::Done(Expr::Pair(_))));
    assert_eq!(first, second);
    assert_eq!(interp.heap.len(), heap_size);
    assert_eq!(interp.frames.len(), frames);
}

#[test]
fn known_answers_can_be_replayed() {
    let (mut interp, global) = machine();
    let tokens = TokenStream::new("(if (< 1 2) (+ 1 2) 0)").collect_tokens().unwrap();
    let exprs = Parser::new(tokens).parse(&mut interp.heap).unwrap();
    interp.load(exprs[0].clone(), global);
    let answers: Vec<Number> = [2.0, 1.0, 3.0, 99.0]
        .iter()
        .map(|x: &f64| Number::from_bits(x.to_bits()))
        .collect();
    let used = replay(&mut interp, &answers, FUEL);
    assert_eq!(used, 3);
    assert_eq!(interp.outcome(), Outcome::Done(num(3.0)));

    interp.load(exprs[0].clone(), global);
    let used = replay(&mut interp, &answers[..1].to_vec(), FUEL);
    assert_eq!(used, 1);
    assert!(matches!(interp.outcome(), Outcome::Needs(_)));

    interp.load(exprs[0].clone(), global);
    assert_eq!(replay(&mut interp, &answers, 2), 0);
    assert_eq!(interp.outcome(), Outcome::Paused);
}

#[test]
fn and_stops_where_its_first_expression_is_false() {
    let results = eval_err_test(
        "(define calls 0)
         (define (no) (set! calls (+ calls 1)) #f)
         (and (no) (error \"never\"))
         (or (not (no)) (error \"never\"))
         calls",
    );
    assert_eq!(results[2], Ok(boolean(false)));
    assert_eq!(results[3], Ok(boolean(true)));
    assert_eq!(results[4], Ok(num(2.0)));
}
