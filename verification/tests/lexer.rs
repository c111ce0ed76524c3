use schemeish::error::EvalErr;
use schemeish::lexer::{Token, TokenRes, TokenStream};
use schemeish::number::Number;

fn num(x: f64) -> Token {
    Token::Number(Number::from_bits(x.to_bits()))
}

fn tokenize(input: &str) -> TokenRes<Vec<Token>> {
    TokenStream::new(input).collect_tokens()
}

#[test]
fn tokenize_string() {
    let scm = format!(r##"  (+ 1(+ 2  3)  2 "lolz")"omg"   (#t #f)"##);
    let res = vec![
        Token::LParen,
        Token::Symbol("+".to_string()),
        num(1.0),
        Token::LParen,
        Token::Symbol("+".to_string()),
        num(2.0),
        num(3.0),
        Token::RParen,
        num(2.0),
        Token::Str("lolz".to_string()),
        Token::RParen,
        Token::Str("omg".to_string()),
        Token::LParen,
        Token::Boolean(true),
        Token::Boolean(false),
        Token::RParen,
    ];
    let tokens = tokenize(&scm).unwrap();
    assert_eq!(tokens, res);
}

#[test]
fn tokenise_empty() {
    let scm = "";
    let res: Vec<Token> = vec![];
    let tokens = tokenize(&scm).unwrap();
    assert_eq!(tokens, res);
}

#[test]
fn tokenise_symbol() {
    let scm = "yoda";
    let res: Vec<Token> = vec![Token::Symbol("yoda".to_string())];
    let tokens = tokenize(&scm).unwrap();
    assert_eq!(tokens, res);
}

#[test]
fn tokenise_number() {
    let scm = " 123";
    let res: Vec<Token> = vec![num(123.0)];
    let tokens = tokenize(&scm).unwrap();
    assert_eq!(tokens, res);
}

#[test]
fn tokenise_parse_fail() {
    let scm = " 123)";
    let res: Vec<Token> = vec![num(123.0), Token::RParen];
    let tokens = tokenize(&scm).unwrap();
    assert_eq!(tokens, res);
}

#[test]
#[should_panic]
fn tokenise_unclosed_string() {
    let scm = format!(r##" "sup"##);
    tokenize(&scm).unwrap();
}

#[test]
#[should_panic]
fn parse_num_failure() {
    let scm = "5d";
    tokenize(&scm).unwrap();
}

#[test]
#[should_panic]
fn hash_error() {
    let scm = "(#t #f #c)";
    tokenize(&scm).unwrap();
}

#[test]
fn number_literals_round_to_the_nearest_double() {
    let cases = [
        "0",
        "1",
        "007",
        "9007199254740991",
        "9007199254740992",
        "9007199254740993",
        "9007199254740995",
        "18014398509481985",
        "123456789012345678901234567890",
        "340282366920938463463374607431768211456",
        "179769313486231570814527423731704356798070567525844996598917476803157260780028538760589558632766878171540458953514382464234321326889464182768467546703537516986049910576551282076245490090389328944075868508455133942304583236903222948165808559332123348274797826204144723168738177180919299881250404026184124858368",
        "179769313486231580793728971405303415079934132710037826936173778980444968292764750946649017977587207096330286416692887910946555547851940402630657488671505820681908902000708383676273854845817711531764475730270069855571366959622842914819860834936475292719074168444365510704342711559699508093042880177904174497791",
        "179769313486231580793728971405303415079934132710037826936173778980444968292764750946649017977587207096330286416692887910946555547851940402630657488671505820681908902000708383676273854845817711531764475730270069855571366959622842914819860834936475292719074168444365510704342711559699508093042880177904174497792",
        "1000000000000000000000000000000000000000000000000000000000000000000000000000000000000000000000000000000000000000000000000000000000000000000000000000000000000000000000000000000000000000000000000000000000000000000000000000000000000000000000000000000000000000000000000000000000000000000000000000000000000000000000000000000000000000000000000000000000000000000000000000000000000000000",
    ];
    for text in cases {
        let expected: f64 = text.parse().unwrap();
        assert_eq!(tokenize(text).unwrap(), vec![num(expected)], "{}", text);
    }
}

#[test]
fn keywords_have_their_own_tokens() {
    let tokens = tokenize("if define lambda quote and or cond let begin set! else set-car! set-cdr! '").unwrap();
    assert_eq!(
        tokens,
        vec![
            Token::If,
            Token::Define,
            Token::Lambda,
            Token::QuoteProc,
            Token::And,
            Token::Or,
            Token::Cond,
            Token::Let,
            Token::Begin,
            Token::Assignment,
            Token::Else,
            Token::MutatePair(schemeish::lexer::MutCell::Car),
            Token::MutatePair(schemeish::lexer::MutCell::Cdr),
            Token::QuoteTick,
        ]
    );
}

#[test]
fn comments_run_to_the_end_of_the_line() {
    let tokens = tokenize("a ; b c\n;;; d\n e;f").unwrap();
    assert_eq!(
        tokens,
        vec![Token::Symbol("a".to_string()), Token::Symbol("e".to_string())]
    );
}

#[test]
fn lexing_collects_every_error() {
    let r = tokenize("#c 5d \"open");
    match r {
        Err(EvalErr::LexingFailures(errs)) => {
            assert_eq!(
                errs,
                vec![
                    EvalErr::UnexpectedChar('c'),
                    EvalErr::MalformedToken("failed to parse number"),
                    EvalErr::UnterminatedString,
                ]
            );
        }
        other => panic!("expected failures, got {:?}", other),
    }
}

#[test]
fn hash_at_the_end_is_malformed() {
    assert_eq!(
        tokenize("#"),
        Err(EvalErr::LexingFailures(vec![EvalErr::MalformedToken(
            "expected charater indicating bool type"
        )]))
    );
}

#[test]
fn other_numerals_are_no_numbers() {
    assert_eq!(
        tokenize("\u{0663}"),
        Err(EvalErr::LexingFailures(vec![EvalErr::MalformedToken(
            "failed to parse number"
        )]))
    );
}

#[test]
fn test1() {
    let scm = format!(r##"  (+ 1(+ 2  3)  2 "lolz")"omg"   (#t #f)"##);
    let res = vec![
        Token::LParen,
        Token::Symbol("+".to_string()),
        num(1.0),
        Token::LParen,
        Token::Symbol("+".to_string()),
        num(2.0),
        num(3.0),
        Token::RParen,
        num(2.0),
        Token::Str("lolz".to_string()),
        Token::RParen,
        Token::Str("omg".to_string()),
        Token::LParen,
        Token::Boolean(true),
        Token::Boolean(false),
        Token::RParen,
    ];
    let tokens = tokenize(&scm).unwrap();
    assert_eq!(tokens, res);
}

#[test]
fn test2() {
    let scm = "";
    let res: Vec<Token> = vec![];
    let tokens = tokenize(scm).unwrap();
    assert_eq!(tokens, res);
}
