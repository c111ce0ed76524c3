use schemeish::enviroment::EnvRef;
use schemeish::error::{make_message, EvalErr};
use schemeish::evaluator::{eval, Interp, Outcome};
use schemeish::lexer::{Token, TokenStream};
use schemeish::number::Number;
use schemeish::parser::{Expr, Parser};
use schemeish::primitives::pair::Heap;
use schemeish::print::{Fragment, Printable};
use schemeish::procedure::{Compound, Native, Primitive};
use schemeish::utils::ToExpr;

fn num(x: f64) -> Expr {
    Number::from_bits(x.to_bits()).to_expr()
}

fn render(fragments: &[Fragment]) -> String {
    let mut text = String::new();
    for fragment in fragments {
        match fragment {
            Fragment::Text(s) => text.push_str(s),
            Fragment::Number(n) => text.push_str(&f64::from_bits(n.to_bits()).to_string()),
        }
    }
    text
}

fn show(e: &Expr, heap: &Heap) -> String {
    render(&e.printable(heap))
}

#[test]
fn atoms_print_as_they_are_written() {
    let heap = Heap::new();
    assert_eq!(show(&num(27.0), &heap), "27");
    assert_eq!(show(&num(0.5), &heap), "0.5");
    assert_eq!(show(&"yoda".to_expr(), &heap), "yoda");
    assert_eq!(show(&true.to_expr(), &heap), "#t");
    assert_eq!(show(&false.to_expr(), &heap), "#f");
    assert_eq!(
        show(&Expr::Atom(Token::Str("lolz".to_string())), &heap),
        "\"lolz\""
    );
    assert_eq!(show(&Expr::EmptyList, &heap), "'()");
    assert_eq!(show(&Expr::Void, &heap), "");
    assert_eq!(render(&Token::LParen.printable(&heap)), "(");
    assert_eq!(render(&Token::Assignment.printable(&heap)), "set!");
    assert_eq!(render(&Token::QuoteTick.printable(&heap)), "'");
}

#[test]
fn lists_and_pairs_print_with_their_items() {
    let mut heap = Heap::new();
    let list = heap.list(&vec![num(1.0), num(2.0), num(3.0)]);
    assert_eq!(show(&list, &heap), "'(1 2 3)");
    let pair = heap.cons(num(1.0), num(2.0));
    assert_eq!(show(&pair, &heap), "(1 . 2)");
    let inner = heap.cons(num(2.0), num(3.0));
    let chain = heap.cons(num(1.0), inner);
    assert_eq!(show(&chain, &heap), "(1 . (2 . 3))");
    let nested = heap.list(&vec![num(1.0), list]);
    assert_eq!(show(&nested, &heap), "'(1 '(1 2 3))");
    let call = vec!["+".to_expr(), num(1.0), num(2.0)];
    assert_eq!(render(&call.printable(&heap)), "'(+ 1 2)");
    assert_eq!(show(&call.to_expr(), &heap), "'(+ 1 2)");
    assert_eq!(
        show(&Expr::Quoted(Box::new("a".to_expr())), &heap),
        "a"
    );
    let names = vec!["x".to_string(), "y".to_string()];
    assert_eq!(render(&names.printable(&heap)), "'(x y)");
}

#[test]
fn a_cycle_prints_with_an_ellipsis() {
    let mut heap = Heap::new();
    let cell = heap.cons(num(1.0), Expr::EmptyList);
    let reference = match &cell {
        Expr::Pair(p) => *p,
        other => panic!("no pair: {:?}", other),
    };
    assert!(heap.set_cdr(reference, Expr::Pair(reference)));
    let text = show(&cell, &heap);
    assert!(text.starts_with("(1 . (1 . "));
    assert!(text.contains("..."));
    assert!(text.len() < 2000);
    assert_eq!(render(&reference.printable(&heap)), text);
}

#[test]
fn procedures_print_with_their_names() {
    let heap = Heap::new();
    assert_eq!(
        render(&Primitive::new(Native::Add).printable(&heap)),
        "#<primitive-+>"
    );
    let closure = Compound::new(
        vec![num(1.0)],
        vec!["x".to_string(), "y".to_string()],
        EnvRef::nil(),
    );
    assert_eq!(render(&closure.printable(&heap)), "#<closure-(#f'(x y))>");
    assert_eq!(show(&closure.to_expr(), &heap), "#<closure-(#f'(x y))>");
}

#[test]
fn special_forms_print_as_their_keyword() {
    let mut heap = Heap::new();
    let tokens = TokenStream::new("(if 1 2 3)").collect_tokens().unwrap();
    let exprs = Parser::new(tokens).parse(&mut heap).unwrap();
    assert_eq!(show(&exprs[0], &heap), "'(#<if>)");
}

#[test]
fn every_error_has_its_message() {
    let heap = Heap::new();
    let message = |e: EvalErr| render(&make_message(&e, &heap));
    assert_eq!(message(EvalErr::RuntimeException("boom".to_string())), "boom");
    assert_eq!(
        message(EvalErr::UnboundVar("x".to_string())),
        "accessing unbound variable x"
    );
    assert_eq!(
        message(EvalErr::InvalidArgs("expected operation")),
        "invalid argument, expected operation"
    );
    assert_eq!(
        message(EvalErr::MalformedToken("failed to parse number")),
        "failed to parse number"
    );
    assert_eq!(
        message(EvalErr::UnexpectedEnd),
        "unexpected end of expression"
    );
    assert_eq!(
        message(EvalErr::NilEnv),
        "inserting value into empty enviroment"
    );
    assert_eq!(
        message(EvalErr::UnexpectedToken(Expr::Atom(Token::RParen))),
        "unexpected token )"
    );
    assert_eq!(message(EvalErr::UnexpectedChar('c')), "unexpected token c");
    assert_eq!(message(EvalErr::UnterminatedString), "unclosed string");
    assert_eq!(
        message(EvalErr::TypeError("pair", num(1.0))),
        "expected pair, got 1"
    );
    let failures = TokenStream::new("#c \"open").collect_tokens().unwrap_err();
    assert_eq!(
        message(failures.clone()),
        "could not parse tokens:\n-- unexpected token c\n-- unclosed string"
    );
    assert_eq!(
        render(&failures.printable(&heap)),
        "ERROR: could not parse tokens:\n-- unexpected token c\n-- unclosed string"
    );
    assert_eq!(
        render(&EvalErr::UnexpectedEnd.printable(&heap)),
        "ERROR: unexpected end of expression"
    );
}

#[test]
fn display_adds_to_the_output() {
    let mut interp = Interp::new();
    let global = EnvRef::global(&mut interp.frames);
    let tokens = TokenStream::new("(display (list 1 \"a\" 'b))")
        .collect_tokens()
        .unwrap();
    let exprs = Parser::new(tokens).parse(&mut interp.heap).unwrap();
    let outcome = eval(&mut interp, &exprs[0], &global, 1000);
    assert!(matches!(outcome, Outcome::Done(Expr::Pair(_))));
    assert_eq!(interp.output.len(), 1);
    assert_eq!(render(&interp.output[0]), "'(1 \"a\" b)");
}

#[test]
fn printing_atoms_and_reading_them_back_gives_the_same() {
    let mut heap = Heap::new();
    for source in ["yoda", "#t", "#f", "\"lolz\"", "27", "9007199254740993", "+", "a->b"] {
        let tokens = TokenStream::new(source).collect_tokens().unwrap();
        let first = Parser::new(tokens).parse(&mut heap).unwrap();
        assert_eq!(first.len(), 1);
        let printed = show(&first[0], &heap);
        let tokens = TokenStream::new(&printed).collect_tokens().unwrap();
        let second = Parser::new(tokens).parse(&mut heap).unwrap();
        assert_eq!(first, second, "{}", source);
    }
}
