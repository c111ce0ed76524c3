//! Laws of printing and reading: what is read back from a printed form.
use vstd::prelude::*;
use crate::error::EvalErrV;
use crate::evaluator::boolean;
use crate::lexer::{
    Run, TokenV, char_is_numeric, char_is_whitespace, continues, lemma_run_end_bounds,
    lemma_token_start, lex_outcome, lexed, run_end, token_at, token_start,
};
use crate::number::Number;
use crate::parser::{ExprV, parse_program, token_text};
use crate::primitives::pair::PairV;
use crate::print::{FragmentV, PRINT_DEPTH, expr_fragments, text, token_fragments};

verus! {

/// The text of a printed form that holds no number: its pieces of text, one
/// after the other.
pub open spec fn flat(fragments: Seq<FragmentV>) -> Seq<char>
    decreases fragments.len(),
{
    if fragments.len() == 0 {
        Seq::empty()
    } else {
        flat(fragments.drop_last()) + (match fragments.last() {
            FragmentV::Text(s) => s,
            FragmentV::Number(_) => Seq::empty(),
        })
    }
}

proof fn lemma_flat_push(fragments: Seq<FragmentV>, s: Seq<char>)
    ensures
        flat(fragments + text(s)) == flat(fragments) + s,
        flat(text(s)) == s,
{
    reveal_with_fuel(flat, 3);
    assert((fragments + text(s)).drop_last() =~= fragments);
    assert(text(s).drop_last() =~= Seq::<FragmentV>::empty());
    assert(Seq::<char>::empty() + s =~= s);
}

proof fn lemma_run_chars(s: Seq<char>, pos: int, run: Run)
    requires
        0 <= pos,
    ensures
        forall|i: int| pos <= i < run_end(s, pos, run) ==> continues(run, #[trigger] s[i]),
        run_end(s, pos, run) < s.len() ==> !continues(run, s[run_end(s, pos, run)]),
    decreases s.len() - pos,
{
    if pos < s.len() && continues(run, s[pos]) {
        lemma_run_chars(s, pos + 1, run);
    }
}

proof fn lemma_run_to(s: Seq<char>, from: int, to: int, run: Run)
    requires
        0 <= from <= to <= s.len(),
        forall|i: int| from <= i < to ==> continues(run, #[trigger] s[i]),
        to == s.len() || !continues(run, s[to]),
    ensures
        run_end(s, from, run) == to,
    decreases to - from,
{
    if from < to {
        lemma_run_to(s, from + 1, to, run);
    }
}

/// What is lexed from a text that holds one token, from its first to its
/// last character: that token.
proof fn lemma_sole_token(s: Seq<char>, tok: TokenV)
    requires
        s.len() > 0,
        s[0] != ';',
        !char_is_whitespace(s[0]),
        token_at(s, 0) == (Ok::<TokenV, EvalErrV>(tok), s.len() as int),
    ensures
        lexed(s, 0) == (seq![tok], Seq::<EvalErrV>::empty()),
{
    reveal_with_fuel(lexed, 3);
    assert(token_start(s, 0) == 0);
    assert(token_start(s, s.len() as int) == s.len());
    assert(lexed(s, s.len() as int) == (Seq::<TokenV>::empty(), Seq::<EvalErrV>::empty()));
    assert(seq![tok] + Seq::<TokenV>::empty() =~= seq![tok]);
}

/// A token reads back as itself: where the lexer reads a token other than a
/// number at the position `p` of a text, it reads from the printed form of
/// that token the same token and nothing else. (The printed form of a number
/// is a number, whose text is written by the surrounding program.)
pub proof fn law_token_reads_back(t: Seq<char>, p: int)
    requires
        0 <= p < t.len(),
        token_start(t, p) == p,
        token_at(t, p).0 is Ok,
        !(token_at(t, p).0->Ok_0 is Number),
    ensures
        lexed(flat(token_fragments(token_at(t, p).0->Ok_0)), 0) == (
            seq![token_at(t, p).0->Ok_0],
            Seq::<EvalErrV>::empty(),
        ),
{
    let c = t[p];
    let tok = token_at(t, p).0->Ok_0;
    let printed = flat(token_fragments(tok));
    assert(c != ';' && !char_is_whitespace(c)) by {
        lemma_run_end_bounds(t, p + 1, Run::Comment);
        if run_end(t, p + 1, Run::Comment) <= t.len() {
            lemma_token_start(t, run_end(t, p + 1, Run::Comment));
        }
        lemma_token_start(t, p + 1);
    }
    reveal_strlit("(");
    reveal_strlit(")");
    reveal_strlit("'");
    reveal_strlit("#t");
    reveal_strlit("#f");
    reveal_strlit("\"");
    if c == '(' || c == ')' || c == '\'' {
        lemma_flat_push(Seq::empty(), token_text(tok));
        assert(printed =~= seq![c]);
        lemma_sole_token(printed, tok);
    } else if c == '#' {
        lemma_flat_push(Seq::empty(), token_text(tok));
        assert(printed =~= seq![c, t[p + 1]]);
        lemma_sole_token(printed, tok);
    } else if c == '"' {
        let end = run_end(t, p + 1, Run::Text);
        let inner = t.subrange(p + 1, end);
        lemma_run_end_bounds(t, p + 1, Run::Text);
        lemma_run_chars(t, p + 1, Run::Text);
        lemma_flat_push(Seq::empty(), "\""@);
        lemma_flat_push(text("\""@), inner);
        lemma_flat_push(text("\""@) + text(inner), "\""@);
        assert(printed =~= seq!['"'] + inner + seq!['"']);
        assert forall|i: int| 1 <= i < 1 + inner.len() implies continues(
            Run::Text,
            #[trigger] printed[i],
        ) by {
            assert(printed[i] == t[p + i]);
        }
        lemma_run_to(printed, 1, 1 + inner.len() as int, Run::Text);
        assert(printed.subrange(1, 1 + inner.len() as int) =~= inner);
        lemma_sole_token(printed, tok);
    } else if char_is_numeric(c) {
    } else {
        let end = run_end(t, p, Run::Word);
        let word = t.subrange(p, end);
        lemma_run_end_bounds(t, p + 1, Run::Word);
        lemma_run_chars(t, p, Run::Word);
        assert(token_text(tok) == word);
        lemma_flat_push(Seq::empty(), word);
        assert(printed == word);
        assert forall|i: int| 0 <= i < word.len() implies continues(
            Run::Word,
            #[trigger] word[i],
        ) by {
            assert(word[i] == t[p + i]);
        }
        lemma_run_to(word, 0, word.len() as int, Run::Word);
        assert(word.subrange(0, word.len() as int) =~= word);
        lemma_sole_token(word, tok);
    }
}

/// An atom reads back as itself: a symbol, a string or a boolean that was
/// read from a text is, printed and read again, the same expression.
pub proof fn law_atom_reads_back(t: Seq<char>, p: int, heap: Seq<PairV>)
    requires
        0 <= p < t.len(),
        token_start(t, p) == p,
        token_at(t, p).0 is Ok,
        ({
            let tok = token_at(t, p).0->Ok_0;
            tok is Symbol || tok is Str || tok is Boolean
        }),
    ensures
        ({
            let tok = token_at(t, p).0->Ok_0;
            let printed = flat(expr_fragments(heap, ExprV::Atom(tok), PRINT_DEPTH as nat));
            &&& lex_outcome(printed, 0) == Ok::<Seq<TokenV>, EvalErrV>(seq![tok])
            &&& parse_program(seq![tok], 0, heap).result == Ok::<Seq<ExprV>, EvalErrV>(
                seq![ExprV::Atom(tok)],
            )
            &&& parse_program(seq![tok], 0, heap).heap == heap
        }),
{
    law_token_reads_back(t, p);
    let tok = token_at(t, p).0->Ok_0;
    let tokens = seq![tok];
    reveal_with_fuel(parse_program, 3);
    assert(parse_program(tokens, 1, heap).result == Ok::<Seq<ExprV>, EvalErrV>(Seq::empty()));
    assert(seq![ExprV::Atom(tok)] + Seq::<ExprV>::empty() =~= seq![ExprV::Atom(tok)]);
}

} // verus!
