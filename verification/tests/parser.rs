use schemeish::error::EvalErr;
use schemeish::lexer::{Token, TokenStream};
use schemeish::number::Number;
use schemeish::parser::{Expr, Parser};
use schemeish::primitives::compare::structurally_equal;
use schemeish::primitives::pair::Heap;
use schemeish::special_form::{Begin, Define, If, Lambda, SpecialForm};
use schemeish::utils::ToExpr;

fn num(x: f64) -> Expr {
    Number::from_bits(x.to_bits()).to_expr()
}

fn parse_in(heap: &mut Heap, scm: &str) -> Result<Vec<Expr>, EvalErr> {
    let tokens = TokenStream::new(scm).collect_tokens().unwrap();
    Parser::new(tokens).parse(heap)
}

fn parse(scm: &str) -> Result<Vec<Expr>, EvalErr> {
    parse_in(&mut Heap::new(), scm)
}

fn form(e: &Expr) -> &SpecialForm {
    match e {
        Expr::Call(items) if items.len() == 1 => match &items[0] {
            Expr::SpecialForm(f) => f,
            other => panic!("no special form: {:?}", other),
        },
        other => panic!("no special form: {:?}", other),
    }
}

#[test]
fn valid_parse() {
    let scm = "1 (+ 1 (+ 1 2))";
    let res: Vec<Expr> = vec![
        num(1.0),
        vec![
            "+".to_expr(),
            num(1.0),
            vec!["+".to_expr(), num(1.0), num(2.0)].to_expr(),
        ]
        .to_expr(),
    ];
    let exprs = parse(scm).unwrap();
    assert_eq!(res, exprs);
}

#[test]
fn quoted() {
    let scm = "'(+ 1)";
    let mut heap = Heap::new();
    let exprs = parse_in(&mut heap, scm).unwrap();
    let tail = heap.cons(num(1.0), Expr::EmptyList);
    let list = heap.cons("+".to_expr(), tail);
    assert_eq!(exprs.len(), 1);
    match &exprs[0] {
        Expr::Quoted(datum) => assert!(structurally_equal(&heap, datum, &list)),
        other => panic!("no quotation: {:?}", other),
    }
}

#[test]
fn quoted_fn() {
    let scm = "(quote (+ 1))";
    let mut heap = Heap::new();
    let exprs = parse_in(&mut heap, scm).unwrap();
    let tail = heap.cons(num(1.0), Expr::EmptyList);
    let list = heap.cons(Expr::Atom(Token::Symbol("+".to_string())), tail);
    assert_eq!(exprs.len(), 1);
    match &exprs[0] {
        Expr::Quoted(datum) => assert!(structurally_equal(&heap, datum, &list)),
        other => panic!("no quotation: {:?}", other),
    }
}

#[test]
#[should_panic]
fn extra_paren() {
    let scm = "(+ 1 2) (1))";
    parse(scm).unwrap();
}

#[test]
#[should_panic]
fn opening_rparen() {
    let scm = ")(yo)";
    parse(scm).unwrap();
}

#[test]
#[should_panic]
fn no_close() {
    let scm = "(+ 1 (1)";
    parse(scm).unwrap();
}

#[test]
fn parse_errors_have_their_kinds() {
    assert_eq!(parse("(+ 1"), Err(EvalErr::UnexpectedEnd));
    assert_eq!(
        parse(")"),
        Err(EvalErr::UnexpectedToken(Expr::Atom(Token::RParen)))
    );
    assert_eq!(
        parse("else"),
        Err(EvalErr::UnexpectedToken(Expr::Atom(Token::Else)))
    );
    assert_eq!(
        parse("(if 1 2)"),
        Err(EvalErr::InvalidArgs(
            "'if' expression. expected condition, predicate, and consequence"
        ))
    );
    assert_eq!(
        parse("(lambda (x))"),
        Err(EvalErr::InvalidArgs(
            "'lambda' expression. expected parameters and body"
        ))
    );
    assert_eq!(
        parse("(define x)"),
        Err(EvalErr::InvalidArgs(
            "'define' expression. expected identifier and value"
        ))
    );
    assert_eq!(
        parse("(define (f x))"),
        Err(EvalErr::InvalidArgs(
            "'define' procedure. expected parameters and body"
        ))
    );
    assert_eq!(
        parse("(set! x)"),
        Err(EvalErr::InvalidArgs(
            "'set!' expression. expected identifier and value"
        ))
    );
    assert_eq!(
        parse("(cond)"),
        Err(EvalErr::InvalidArgs("'cond' expression. expected clauses."))
    );
    assert_eq!(parse("(cond 1)"), Err(EvalErr::UnexpectedToken(num(1.0))));
    assert_eq!(
        parse("(let ((x)) x)"),
        Err(EvalErr::InvalidArgs(
            "'let' expression. expected bindings as pairs"
        ))
    );
    assert_eq!(
        parse("(let (x) x)"),
        Err(EvalErr::TypeError("list", "x".to_expr()))
    );
    assert_eq!(
        parse("(let x x)"),
        Err(EvalErr::TypeError("list", "x".to_expr()))
    );
    assert_eq!(
        parse("(let ((x 1)))"),
        Err(EvalErr::InvalidArgs(
            "'let' expression. expected bindings and body"
        ))
    );
    assert_eq!(parse("(quote a"), Err(EvalErr::UnexpectedEnd));
    assert_eq!(
        parse("(quote a b)"),
        Err(EvalErr::UnexpectedToken("b".to_expr()))
    );
    assert_eq!(parse("'"), Err(EvalErr::UnexpectedEnd));
}

#[test]
fn missplaced_else() {
    let scm = "(cond (#f 1) (else (list 1 2 3)) (#t 3))";
    assert_eq!(
        parse(scm),
        Err(EvalErr::UnexpectedToken(Expr::Atom(Token::Else)))
    );
}

#[test]
fn else_belongs_to_the_last_clause_of_a_cond() {
    assert_eq!(
        parse("(else 1)"),
        Err(EvalErr::UnexpectedToken(Expr::Atom(Token::Else)))
    );
    assert_eq!(
        parse("(cond ((else) 1))"),
        Err(EvalErr::UnexpectedToken(Expr::Atom(Token::Else)))
    );
    assert_eq!(
        parse("(if else 1 2)"),
        Err(EvalErr::UnexpectedToken(Expr::Atom(Token::Else)))
    );
    assert!(parse("(cond (else 1))").is_ok());
    assert!(parse("(cond (a 1) (b 2) (else 3 4))").is_ok());
}

#[test]
fn define_of_a_procedure_is_a_define_of_a_lambda() {
    let exprs = parse("(define (f x y) x y) (define (g) 1)").unwrap();
    let expected = Define::new(
        "f".to_expr(),
        Lambda::new(
            vec!["x".to_expr(), "y".to_expr()].to_expr(),
            vec!["x".to_expr(), "y".to_expr()],
        )
        .to_expr()
        .into_call()
        .unwrap(),
    );
    assert_eq!(*form(&exprs[0]), SpecialForm::Define(expected));
    let expected = Define::new(
        "g".to_expr(),
        Lambda::new(Expr::EmptyList, vec![num(1.0)])
            .to_expr()
            .into_call()
            .unwrap(),
    );
    assert_eq!(*form(&exprs[1]), SpecialForm::Define(expected));
}

#[test]
fn cond_becomes_nested_ifs() {
    let exprs = parse("(cond (a 1 2) (else 3)) (cond (a 1))").unwrap();
    let begin = |body: Vec<Expr>| Begin::new(body).to_expr().into_call().unwrap();
    let expected = If::new(
        "a".to_expr(),
        begin(vec![num(1.0), num(2.0)]),
        begin(vec![num(3.0)]),
    );
    assert_eq!(*form(&exprs[0]), SpecialForm::If(expected));
    let expected = If::new("a".to_expr(), begin(vec![num(1.0)]), Expr::EmptyList);
    assert_eq!(*form(&exprs[1]), SpecialForm::If(expected));
}

#[test]
fn let_becomes_a_call_of_a_lambda() {
    let exprs = parse("(let ((x 2) (y 3)) (* x y))").unwrap();
    let lambda = Lambda::new(
        vec!["x".to_expr(), "y".to_expr()].to_expr(),
        vec![vec!["*".to_expr(), "x".to_expr(), "y".to_expr()].to_expr()],
    )
    .to_expr()
    .into_call()
    .unwrap();
    assert_eq!(exprs, vec![vec![lambda, num(2.0), num(3.0)].to_expr()]);
}

#[test]
fn quoted_keywords_are_symbols() {
    let mut heap = Heap::new();
    let exprs = parse_in(&mut heap, "'(if else set-car! 'x) '() 'define 'a \"s\" () set-cdr!").unwrap();
    let quoted_x = Expr::Quoted(Box::new("x".to_expr()));
    let expected = heap.list(&vec![
        "if".to_expr(),
        "else".to_expr(),
        "set-car!".to_expr(),
        quoted_x,
    ]);
    match &exprs[0] {
        Expr::Quoted(datum) => assert!(structurally_equal(&heap, datum, &expected)),
        other => panic!("no quotation: {:?}", other),
    }
    assert_eq!(exprs[1], Expr::Quoted(Box::new(Expr::EmptyList)));
    assert_eq!(exprs[2], Expr::Quoted(Box::new("define".to_expr())));
    assert_eq!(exprs[3], Expr::Quoted(Box::new("a".to_expr())));
    assert_eq!(exprs[4], Expr::Atom(Token::Str("s".to_string())));
    assert_eq!(exprs[5], Expr::EmptyList);
    assert_eq!(exprs[6], "set-cdr!".to_expr());
}
