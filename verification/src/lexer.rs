//! Tokens, and the lexer that reads them from source text.
use vstd::prelude::*;
use crate::error::{EvalErr, EvalErrV, errs_view, lemma_failures_view};
use crate::number::{Number, all_digits, decimal_value, nearest_double_bits};

verus! {

/// Which field of a pair a mutation keyword names.
#[derive(Clone, Copy, Debug, PartialEq, Eq, Hash)]
pub enum MutCell {
    Car,
    Cdr,
}

/// A token of the source text.
#[derive(Debug, PartialEq)]
pub enum Token {
    LParen,
    RParen,
    If,
    And,
    Or,
    Define,
    Lambda,
    Cond,
    Else,
    Assignment,
    Let,
    Begin,
    QuoteTick,
    QuoteProc,
    MutatePair(MutCell),
    Number(Number),
    Boolean(bool),
    Str(String),
    Symbol(String),
}

/// The mathematical value of a token.
pub ghost enum TokenV {
    LParen,
    RParen,
    If,
    And,
    Or,
    Define,
    Lambda,
    Cond,
    Else,
    Assignment,
    Let,
    Begin,
    QuoteTick,
    QuoteProc,
    MutatePair(MutCell),
    Number(Number),
    Boolean(bool),
    Str(Seq<char>),
    Symbol(Seq<char>),
}

impl View for Token {
    type V = TokenV;

    open spec fn view(&self) -> TokenV {
        match self {
            Token::LParen => TokenV::LParen,
            Token::RParen => TokenV::RParen,
            Token::If => TokenV::If,
            Token::And => TokenV::And,
            Token::Or => TokenV::Or,
            Token::Define => TokenV::Define,
            Token::Lambda => TokenV::Lambda,
            Token::Cond => TokenV::Cond,
            Token::Else => TokenV::Else,
            Token::Assignment => TokenV::Assignment,
            Token::Let => TokenV::Let,
            Token::Begin => TokenV::Begin,
            Token::QuoteTick => TokenV::QuoteTick,
            Token::QuoteProc => TokenV::QuoteProc,
            Token::MutatePair(c) => TokenV::MutatePair(*c),
            Token::Number(n) => TokenV::Number(*n),
            Token::Boolean(b) => TokenV::Boolean(*b),
            Token::Str(s) => TokenV::Str(s@),
            Token::Symbol(s) => TokenV::Symbol(s@),
        }
    }
}

impl Clone for Token {
    fn clone(&self) -> (r: Token)
        ensures
            r@ == self@,
    {
        match self {
            Token::LParen => Token::LParen,
            Token::RParen => Token::RParen,
            Token::If => Token::If,
            Token::And => Token::And,
            Token::Or => Token::Or,
            Token::Define => Token::Define,
            Token::Lambda => Token::Lambda,
            Token::Cond => Token::Cond,
            Token::Else => Token::Else,
            Token::Assignment => Token::Assignment,
            Token::Let => Token::Let,
            Token::Begin => Token::Begin,
            Token::QuoteTick => Token::QuoteTick,
            Token::QuoteProc => Token::QuoteProc,
            Token::MutatePair(c) => Token::MutatePair(*c),
            Token::Number(n) => Token::Number(*n),
            Token::Boolean(b) => Token::Boolean(*b),
            Token::Str(s) => Token::Str(s.clone()),
            Token::Symbol(s) => Token::Symbol(s.clone()),
        }
    }
}

/// The values of a vector of tokens.
pub open spec fn tokens_view(v: Vec<Token>) -> Seq<TokenV> {
    Seq::new(v.len() as nat, |i: int| v[i]@)
}

/// The values of a vector of names.
pub open spec fn names_view(v: Vec<String>) -> Seq<Seq<char>> {
    Seq::new(v.len() as nat, |i: int| v[i]@)
}

/// The result of lexing one token.
pub type TokenRes<T> = Result<T, EvalErr>;

/// What `char::is_whitespace` returns for `c`: whether `c` has the Unicode
/// property White_Space.
pub uninterp spec fn char_is_whitespace(c: char) -> bool;

/// What `char::is_numeric` returns for `c`: whether `c` is in one of the
/// Unicode general categories for numbers.
pub uninterp spec fn char_is_numeric(c: char) -> bool;

/// `char::is_whitespace`: whether `c` has the Unicode property White_Space.
/// The answer is taken as it comes, under the name `char_is_whitespace`.
#[verifier::external_body]
fn is_whitespace(c: char) -> (r: bool)
    ensures
        r == char_is_whitespace(c),
{
    c.is_whitespace()
}

/// `char::is_numeric`: whether `c` is in one of the Unicode general
/// categories for numbers. The answer is taken as it comes, under the name
/// `char_is_numeric`.
#[verifier::external_body]
fn is_numeric(c: char) -> (r: bool)
    ensures
        r == char_is_numeric(c),
{
    c.is_numeric()
}

/// `String::push`: appends the character `c` to the end of `s`.
#[verifier::external_body]
pub(crate) fn push_char(s: &mut String, c: char)
    ensures
        final(s)@ == old(s)@.push(c),
{
    s.push(c)
}

/// Whether `c` ends a symbol or a number: white space, a parenthesis or the
/// start of a comment.
pub open spec fn is_end_of_token(c: char) -> bool {
    char_is_whitespace(c) || c == ')' || c == '(' || c == ';'
}

/// Whether `c` ends a symbol or a number.
pub fn end_of_token(c: &char) -> (r: bool)
    ensures
        r == is_end_of_token(*c),
{
    is_whitespace(*c) || *c == ')' || *c == '(' || *c == ';'
}

/// The kinds of character runs that the lexer reads in one go.
#[derive(Clone, Copy, Debug, PartialEq, Eq)]
pub enum Run {
    /// A comment: up to the end of the line.
    Comment,
    /// The inside of a string: up to the closing quote.
    Text,
    /// A symbol or keyword: up to the end of the token.
    Word,
    /// A number: numeric characters up to the end of the token.
    Digits,
}

/// Whether a run of the given kind goes on over `c`.
pub open spec fn continues(run: Run, c: char) -> bool {
    match run {
        Run::Comment => c != '\n',
        Run::Text => c != '"',
        Run::Word => !is_end_of_token(c),
        Run::Digits => char_is_numeric(c) && !is_end_of_token(c),
    }
}

/// Where a run that starts at `pos` ends: the first position at or after `pos`
/// whose character does not continue it, or the end of the text.
pub open spec fn run_end(s: Seq<char>, pos: int, run: Run) -> int
    decreases s.len() - pos,
{
    if 0 <= pos < s.len() && continues(run, s[pos]) {
        run_end(s, pos + 1, run)
    } else {
        pos
    }
}

/// A run ends at or after its start, and within the text where it starts
/// within it.
pub proof fn lemma_run_end_bounds(s: Seq<char>, pos: int, run: Run)
    ensures
        pos <= run_end(s, pos, run),
        pos <= s.len() ==> run_end(s, pos, run) <= s.len(),
    decreases s.len() - pos,
{
    if 0 <= pos < s.len() && continues(run, s[pos]) {
        lemma_run_end_bounds(s, pos + 1, run);
    }
}

/// Where the next token starts: `pos` moved over white space and comments.
pub open spec fn token_start(s: Seq<char>, pos: int) -> int
    decreases s.len() - pos,
{
    if pos < 0 || pos >= s.len() {
        pos
    } else if s[pos] == ';' {
        proof {
            lemma_run_end_bounds(s, pos + 1, Run::Comment);
        }
        token_start(s, run_end(s, pos + 1, Run::Comment))
    } else if char_is_whitespace(s[pos]) {
        token_start(s, pos + 1)
    } else {
        pos
    }
}

/// The start of the next token lies at or after the position and within the
/// text; the character there is neither white space nor the start of a comment.
pub proof fn lemma_token_start(s: Seq<char>, pos: int)
    requires
        0 <= pos <= s.len(),
    ensures
        pos <= token_start(s, pos) <= s.len(),
        token_start(s, pos) < s.len() ==> s[token_start(s, pos)] != ';' && !char_is_whitespace(
            s[token_start(s, pos)],
        ),
    decreases s.len() - pos,
{
    if pos >= s.len() {
    } else if s[pos] == ';' {
        lemma_run_end_bounds(s, pos + 1, Run::Comment);
        lemma_token_start(s, run_end(s, pos + 1, Run::Comment));
    } else if char_is_whitespace(s[pos]) {
        lemma_token_start(s, pos + 1);
    }
}

/// The token that a word stands for: its keyword, or else a symbol.
pub open spec fn word_token(w: Seq<char>) -> TokenV {
    if w == "if"@ {
        TokenV::If
    } else if w == "define"@ {
        TokenV::Define
    } else if w == "lambda"@ {
        TokenV::Lambda
    } else if w == "quote"@ {
        TokenV::QuoteProc
    } else if w == "and"@ {
        TokenV::And
    } else if w == "or"@ {
        TokenV::Or
    } else if w == "cond"@ {
        TokenV::Cond
    } else if w == "let"@ {
        TokenV::Let
    } else if w == "begin"@ {
        TokenV::Begin
    } else if w == "set!"@ {
        TokenV::Assignment
    } else if w == "else"@ {
        TokenV::Else
    } else if w == "set-car!"@ {
        TokenV::MutatePair(MutCell::Car)
    } else if w == "set-cdr!"@ {
        TokenV::MutatePair(MutCell::Cdr)
    } else {
        TokenV::Symbol(w)
    }
}

/// The number that the characters `from..to` of `s` stand for: the double
/// nearest to their decimal value where all of them are ASCII digits and the
/// number is not run into by other characters.
pub open spec fn number_token(s: Seq<char>, from: int, to: int) -> Result<TokenV, EvalErrV> {
    let text = s.subrange(from, to);
    if to < s.len() && !char_is_numeric(s[to]) && !is_end_of_token(s[to]) {
        Err(EvalErrV::MalformedToken("failed to parse number"@))
    } else if all_digits(text) {
        Ok(TokenV::Number(Number { bits: nearest_double_bits(decimal_value(text)) }))
    } else {
        Err(EvalErrV::MalformedToken("failed to parse number"@))
    }
}

/// The token that starts at position `p` of `s`, or the error in it, and the
/// position after it. `p` is the position of a character that is neither white
/// space nor the start of a comment.
pub open spec fn token_at(s: Seq<char>, p: int) -> (Result<TokenV, EvalErrV>, int) {
    let c = s[p];
    if c == '(' {
        (Ok(TokenV::LParen), p + 1)
    } else if c == ')' {
        (Ok(TokenV::RParen), p + 1)
    } else if c == '#' {
        if p + 1 >= s.len() {
            (Err(EvalErrV::MalformedToken("expected charater indicating bool type"@)), p + 1)
        } else if s[p + 1] == 't' {
            (Ok(TokenV::Boolean(true)), p + 2)
        } else if s[p + 1] == 'f' {
            (Ok(TokenV::Boolean(false)), p + 2)
        } else {
            (Err(EvalErrV::UnexpectedChar(s[p + 1])), p + 2)
        }
    } else if c == '"' {
        let end = run_end(s, p + 1, Run::Text);
        if end >= s.len() {
            (Err(EvalErrV::UnterminatedString), end)
        } else {
            (Ok(TokenV::Str(s.subrange(p + 1, end))), end + 1)
        }
    } else if c == '\'' {
        (Ok(TokenV::QuoteTick), p + 1)
    } else if char_is_numeric(c) {
        let end = run_end(s, p, Run::Digits);
        (number_token(s, p, end), end)
    } else {
        let end = run_end(s, p, Run::Word);
        (Ok(word_token(s.subrange(p, end))), end)
    }
}

/// A token is at least one character long and ends within the text.
pub proof fn lemma_token_progress(s: Seq<char>, p: int)
    requires
        0 <= p < s.len(),
        s[p] != ';',
        !char_is_whitespace(s[p]),
    ensures
        p < token_at(s, p).1 <= s.len(),
{
    lemma_run_end_bounds(s, p + 1, Run::Text);
    lemma_run_end_bounds(s, p + 1, Run::Digits);
    lemma_run_end_bounds(s, p + 1, Run::Word);
}

/// The tokens and the errors that lexing `s` from `pos` on gives, each in the
/// order of the text.
pub open spec fn lexed(s: Seq<char>, pos: int) -> (Seq<TokenV>, Seq<EvalErrV>)
    decreases s.len() - pos,
{
    if pos < 0 || pos > s.len() {
        (Seq::empty(), Seq::empty())
    } else {
        let p = token_start(s, pos);
        proof {
            lemma_token_start(s, pos);
            if p < s.len() {
                lemma_token_progress(s, p);
            }
        }
        if p >= s.len() {
            (Seq::empty(), Seq::empty())
        } else {
            let (found, next) = token_at(s, p);
            let rest = lexed(s, next);
            match found {
                Ok(t) => (seq![t] + rest.0, rest.1),
                Err(e) => (rest.0, seq![e] + rest.1),
            }
        }
    }
}

/// What lexing `s` from `pos` on returns: all its tokens where there was no
/// error, and else all the errors together.
pub open spec fn lex_outcome(s: Seq<char>, pos: int) -> Result<Seq<TokenV>, EvalErrV> {
    let (tokens, errors) = lexed(s, pos);
    if errors.len() == 0 {
        Ok(tokens)
    } else {
        Err(EvalErrV::LexingFailures(errors))
    }
}

/// The value of a lexing result.
pub open spec fn token_result_view(r: TokenRes<Token>) -> Result<TokenV, EvalErrV> {
    match r {
        Ok(t) => Ok(t@),
        Err(e) => Err(e@),
    }
}

/// The value of the result of lexing a whole text.
pub open spec fn tokens_result_view(r: Result<Vec<Token>, EvalErr>) -> Result<
    Seq<TokenV>,
    EvalErrV,
> {
    match r {
        Ok(t) => Ok(tokens_view(t)),
        Err(e) => Err(e@),
    }
}

/// A source text and the position up to which it has been read.
pub struct TokenStream {
    chars: Vec<char>,
    pos: usize,
}

impl TokenStream {
    #[verifier::type_invariant]
    spec fn inv(self) -> bool {
        self.pos <= self.chars.len()
    }

    /// The whole text.
    pub closed spec fn text(self) -> Seq<char> {
        self.chars@
    }

    /// The position of the next character to read.
    pub closed spec fn position(self) -> int {
        self.pos as int
    }

    /// A stream at the start of `input`.
    pub fn new(input: &str) -> (stream: TokenStream)
        ensures
            stream.text() == input@,
            stream.position() == 0,
    {
        let mut chars: Vec<char> = Vec::new();
        for c in it: input.chars()
            invariant
                it.seq() == input@,
                chars@ == it.seq().take(it.index() as int),
        {
            chars.push(c);
        }
        assert(chars@ =~= input@);
        TokenStream { chars, pos: 0 }
    }

    /// The character at position `i`.
    fn at(&self, i: usize) -> (c: char)
        requires
            i < self.text().len(),
        ensures
            c == self.text()[i as int],
    {
        self.chars[i]
    }

    /// The characters `from..to` of the text as a string.
    fn slice(&self, from: usize, to: usize) -> (r: String)
        requires
            from <= to <= self.text().len(),
        ensures
            r@ == self.text().subrange(from as int, to as int),
    {
        let mut r = String::new();
        let mut i: usize = from;
        while i < to
            invariant
                from <= i <= to <= self.chars.len(),
                r@ == self.chars@.subrange(from as int, i as int),
            decreases to - i,
        {
            push_char(&mut r, self.at(i));
            assert(self.chars@.subrange(from as int, i + 1) =~= self.chars@.subrange(
                from as int,
                i as int,
            ).push(self.chars[i as int]));
            i += 1;
        }
        r
    }

    /// Reads a run of the given kind and returns where it started.
    fn take_until(&mut self, run: Run) -> (start: usize)
        ensures
            start == old(self).position(),
            final(self).text() == old(self).text(),
            final(self).position() == run_end(old(self).text(), old(self).position(), run),
            start <= final(self).position() <= final(self).text().len(),
    {
        proof {
            use_type_invariant(&*self);
        }
        let start = self.pos;
        let mut pos = self.pos;
        while pos < self.chars.len() && Self::goes_on(run, self.at(pos))
            invariant
                start <= pos <= self.chars.len(),
                run_end(self.chars@, start as int, run) == run_end(self.chars@, pos as int, run),
            decreases self.chars.len() - pos,
        {
            pos += 1;
        }
        self.pos = pos;
        start
    }

    fn goes_on(run: Run, c: char) -> (r: bool)
        ensures
            r == continues(run, c),
    {
        match run {
            Run::Comment => c != '\n',
            Run::Text => c != '"',
            Run::Word => !end_of_token(&c),
            Run::Digits => is_numeric(c) && !end_of_token(&c),
        }
    }

    /// Where the stream stands at the start of a comment, reads up to the end
    /// of the line.
    pub fn consume_comment(&mut self)
        ensures
            final(self).text() == old(self).text(),
            final(self).position() == if old(self).position() < old(self).text().len() && old(
                self,
            ).text()[old(self).position()] == ';' {
                run_end(old(self).text(), old(self).position() + 1, Run::Comment)
            } else {
                old(self).position()
            },
    {
        proof {
            use_type_invariant(&*self);
        }
        if self.pos < self.chars.len() && self.at(self.pos) == ';' {
            self.take_until(Run::Comment);
        }
    }

    /// Moves over white space and comments, and returns the first character
    /// of the next token, if there is one.
    pub fn advance_to_token(&mut self) -> (first: Option<char>)
        ensures
            final(self).text() == old(self).text(),
            final(self).position() == token_start(old(self).text(), old(self).position()),
            first == if final(self).position() < final(self).text().len() {
                Some(final(self).text()[final(self).position()])
            } else {
                None
            },
    {
        proof {
            use_type_invariant(&*self);
        }
        let ghost start = self.pos as int;
        loop
            invariant
                self.chars@ == old(self).chars@,
                start == old(self).pos,
                self.pos <= self.chars.len(),
                token_start(self.chars@, start) == token_start(self.chars@, self.pos as int),
            decreases self.chars.len() - self.pos,
        {
            if self.pos < self.chars.len() && self.at(self.pos) == ';' {
                proof {
                    lemma_run_end_bounds(self.chars@, self.pos + 1, Run::Comment);
                }
                self.consume_comment();
                proof {
                    use_type_invariant(&*self);
                }
            } else if self.pos < self.chars.len() && is_whitespace(self.at(self.pos)) {
                self.pos += 1;
            } else if self.pos < self.chars.len() {
                return Some(self.at(self.pos));
            } else {
                return None;
            }
        }
    }

    fn is_word(word: &String, keyword: &str) -> (r: bool)
        ensures
            r == (word@ == keyword@),
    {
        *word == String::from_str(keyword)
    }

    /// Reads what follows a `#`.
    fn parse_bool(&mut self) -> (r: TokenRes<Token>)
        requires
            0 < old(self).position() <= old(self).text().len(),
            old(self).text()[old(self).position() - 1] == '#',
        ensures
            final(self).text() == old(self).text(),
            (token_result_view(r), final(self).position()) == token_at(
                old(self).text(),
                old(self).position() - 1,
            ),
    {
        if self.pos < self.chars.len() {
            let c = self.at(self.pos);
            self.pos += 1;
            if c == 't' {
                Ok(Token::Boolean(true))
            } else if c == 'f' {
                Ok(Token::Boolean(false))
            } else {
                Err(EvalErr::UnexpectedChar(c))
            }
        } else {
            Err(EvalErr::MalformedToken("expected charater indicating bool type"))
        }
    }

    /// Reads a string up to its closing quote.
    fn parse_string(&mut self) -> (r: TokenRes<Token>)
        requires
            0 < old(self).position() <= old(self).text().len(),
            old(self).text()[old(self).position() - 1] == '"',
        ensures
            final(self).text() == old(self).text(),
            (token_result_view(r), final(self).position()) == token_at(
                old(self).text(),
                old(self).position() - 1,
            ),
    {
        let start = self.take_until(Run::Text);
        proof {
            use_type_invariant(&*self);
        }
        if self.pos < self.chars.len() {
            let value = self.slice(start, self.pos);
            self.pos += 1;
            Ok(Token::Str(value))
        } else {
            Err(EvalErr::UnterminatedString)
        }
    }

    /// Reads a symbol or a keyword.
    fn parse_symbol(&mut self) -> (r: TokenRes<Token>)
        ensures
            final(self).text() == old(self).text(),
            final(self).position() == run_end(old(self).text(), old(self).position(), Run::Word),
            token_result_view(r) == Ok::<TokenV, EvalErrV>(
                word_token(
                    old(self).text().subrange(old(self).position(), final(self).position()),
                ),
            ),
    {
        let start = self.take_until(Run::Word);
        let value = self.slice(start, self.pos);
        let token = if Self::is_word(&value, "if") {
            Token::If
        } else if Self::is_word(&value, "define") {
            Token::Define
        } else if Self::is_word(&value, "lambda") {
            Token::Lambda
        } else if Self::is_word(&value, "quote") {
            Token::QuoteProc
        } else if Self::is_word(&value, "and") {
            Token::And
        } else if Self::is_word(&value, "or") {
            Token::Or
        } else if Self::is_word(&value, "cond") {
            Token::Cond
        } else if Self::is_word(&value, "let") {
            Token::Let
        } else if Self::is_word(&value, "begin") {
            Token::Begin
        } else if Self::is_word(&value, "set!") {
            Token::Assignment
        } else if Self::is_word(&value, "else") {
            Token::Else
        } else if Self::is_word(&value, "set-car!") {
            Token::MutatePair(MutCell::Car)
        } else if Self::is_word(&value, "set-cdr!") {
            Token::MutatePair(MutCell::Cdr)
        } else {
            Token::Symbol(value)
        };
        Ok(token)
    }

    /// Reads a number.
    fn parse_number(&mut self) -> (r: TokenRes<Token>)
        ensures
            final(self).text() == old(self).text(),
            final(self).position() == run_end(old(self).text(), old(self).position(), Run::Digits),
            token_result_view(r) == number_token(
                old(self).text(),
                old(self).position(),
                final(self).position(),
            ),
    {
        let start = self.take_until(Run::Digits);
        proof {
            use_type_invariant(&*self);
        }
        if self.pos < self.chars.len() && !is_numeric(self.at(self.pos)) && !end_of_token(
            &self.at(self.pos),
        ) {
            return Err(EvalErr::MalformedToken("failed to parse number"));
        }
        match Number::from_decimal(&self.chars, start, self.pos) {
            Some(n) => Ok(Token::Number(n)),
            None => Err(EvalErr::MalformedToken("failed to parse number")),
        }
    }

    /// Reads the next token, if there is one.
    fn parse_token(&mut self) -> (r: Option<TokenRes<Token>>)
        ensures
            final(self).text() == old(self).text(),
            ({
                let p = token_start(old(self).text(), old(self).position());
                if p >= old(self).text().len() {
                    r is None && final(self).position() == p
                } else {
                    r is Some && (token_result_view(r.unwrap()), final(self).position())
                        == token_at(old(self).text(), p)
                }
            }),
    {
        let first = self.advance_to_token();
        proof {
            use_type_invariant(&*self);
        }
        match first {
            None => None,
            Some(c) => {
                if c == '(' {
                    self.pos += 1;
                    Some(Ok(Token::LParen))
                } else if c == ')' {
                    self.pos += 1;
                    Some(Ok(Token::RParen))
                } else if c == '#' {
                    self.pos += 1;
                    Some(self.parse_bool())
                } else if c == '"' {
                    self.pos += 1;
                    Some(self.parse_string())
                } else if c == '\'' {
                    self.pos += 1;
                    Some(Ok(Token::QuoteTick))
                } else if is_numeric(c) {
                    Some(self.parse_number())
                } else {
                    Some(self.parse_symbol())
                }
            },
        }
    }

    /// Lexes the rest of the text: all its tokens in order where every one of
    /// them was well formed, and else every error that was met, in order.
    pub fn collect_tokens(self) -> (r: Result<Vec<Token>, EvalErr>)
        ensures
            tokens_result_view(r) == lex_outcome(self.text(), self.position()),
    {
        let mut stream = self;
        let mut tokens: Vec<Token> = Vec::new();
        let mut errors: Vec<EvalErr> = Vec::new();
        let ghost text = stream.chars@;
        let ghost start = stream.pos as int;
        proof {
            use_type_invariant(&stream);
        }
        loop
            invariant
                stream.chars@ == text,
                0 <= start <= stream.pos <= text.len(),
                lexed(text, start).0 == tokens_view(tokens) + lexed(text, stream.pos as int).0,
                lexed(text, start).1 == errs_view(errors) + lexed(text, stream.pos as int).1,
            ensures
                lexed(text, start) == (tokens_view(tokens), errs_view(errors)),
            decreases text.len() - stream.pos,
        {
            let ghost before = stream.pos as int;
            let ghost old_tokens = tokens_view(tokens);
            let ghost old_errors = errs_view(errors);
            proof {
                lemma_token_start(text, before);
                if token_start(text, before) < text.len() {
                    lemma_token_progress(text, token_start(text, before));
                }
            }
            match stream.parse_token() {
                None => {
                    assert(tokens_view(tokens) + Seq::<TokenV>::empty() =~= tokens_view(tokens));
                    assert(errs_view(errors) + Seq::<EvalErrV>::empty() =~= errs_view(errors));
                    break ;
                },
                Some(Ok(t)) => {
                    tokens.push(t);
                    proof {
                        let rest = lexed(text, stream.pos as int);
                        assert(tokens_view(tokens) =~= old_tokens.push(t@));
                        assert(old_tokens + (seq![t@] + rest.0) =~= tokens_view(tokens) + rest.0);
                    }
                },
                Some(Err(e)) => {
                    errors.push(e);
                    proof {
                        let rest = lexed(text, stream.pos as int);
                        assert(errs_view(errors) =~= old_errors.push(e@));
                        assert(old_errors + (seq![e@] + rest.1) =~= errs_view(errors) + rest.1);
                    }
                },
            }
            proof {
                use_type_invariant(&stream);
            }
        }
        if errors.len() == 0 {
            Ok(tokens)
        } else {
            proof {
                lemma_failures_view(errors);
            }
            Err(EvalErr::LexingFailures(errors))
        }
    }
}

} // verus!
