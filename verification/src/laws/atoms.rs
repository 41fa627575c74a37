//! Atoms: a numeral or a quoted string, as a whole program, evaluates to
//! itself; a malformed numeral stops the program before it starts.

use vstd::prelude::*;
use crate::expr::ExprV;
use crate::host::{ActionV, ErrorKind, ErrorV, ReplyV, RequestV};
use crate::laws::runs::{lemma_run_push, run};
use crate::lexer::{
    LexState,
    TokenV,
    denotes_number,
    first_malformed,
    is_break,
    is_numeral,
    is_numeral_char,
    lex,
    lex_step,
    lex_upto,
};
use crate::parser::{parse_all, parse_from};
use crate::program;
use crate::semantics::{initial, load, step};
use crate::value::ValueV;

verus! {

/// The tokenizer, while it reads a word of `n` characters that hold no
/// quote, bracket or separator, has no token yet and the characters so
/// far as its word.
pub proof fn lemma_lex_word(word: Seq<char>, n: nat)
    requires
        n <= word.len(),
        forall|i: int| 0 <= i < word.len() ==> !is_break(#[trigger] word[i]) && word[i] != '"',
    ensures
        lex_upto(word, n) == (LexState {
            tokens: Seq::empty(),
            word: word.take(n as int),
            literal: None,
        }),
    decreases n,
{
    if n == 0 {
        assert(word.take(0) =~= Seq::empty());
    } else {
        lemma_lex_word(word, (n - 1) as nat);
        assert(word.take(n - 1).push(word[n - 1]) =~= word.take(n as int));
    }
}

/// The tokenizer, inside a string literal whose first `n` characters it has
/// read, has no token yet, no word, and those characters as the literal.
pub proof fn lemma_lex_literal(text: Seq<char>, n: nat)
    requires
        n <= text.len(),
        forall|i: int| 0 <= i < text.len() ==> #[trigger] text[i] != '"',
    ensures
        lex_upto((seq!['"'] + text).push('"'), n + 1) == (LexState {
            tokens: Seq::empty(),
            word: Seq::empty(),
            literal: Some(text.take(n as int)),
        }),
    decreases n,
{
    let input = (seq!['"'] + text).push('"');
    if n == 0 {
        assert(text.take(0) =~= Seq::empty());
        assert(lex_upto(input, 0) == (LexState {
            tokens: Seq::empty(),
            word: Seq::empty(),
            literal: None,
        }));
        assert(input[0] == '"');
    } else {
        lemma_lex_literal(text, (n - 1) as nat);
        assert(input[n as int] == text[n - 1]);
        assert(text.take(n - 1).push(text[n - 1]) =~= text.take(n as int));
    }
}

/// A numeral is one number token, and that token alone is one number
/// expression that keeps the numeral's spelling.
pub proof fn law_numeral_source(numeral: Seq<char>)
    requires
        numeral.len() > 0,
        is_numeral(numeral),
    ensures
        lex(numeral) == seq![TokenV::Number(numeral)],
        parse_all(lex(numeral)) == seq![ExprV::Number(numeral)],
{
    assert forall|i: int| 0 <= i < numeral.len() implies !is_break(#[trigger] numeral[i])
        && numeral[i] != '"' by {
        assert(is_numeral_char(numeral[i]));
    }
    lemma_lex_word(numeral, numeral.len());
    assert(numeral.take(numeral.len() as int) =~= numeral);
    assert(lex(numeral) =~= seq![TokenV::Number(numeral)]);
    let tokens = seq![TokenV::Number(numeral)];
    reveal_with_fuel(parse_from, 2);
    assert(parse_from(tokens, 1).0 =~= Seq::<ExprV>::empty());
    assert(parse_all(tokens) =~= seq![ExprV::Number(numeral)]);
}

/// A quoted string is one string token that holds the text between the
/// quotes, character for character (a backslash is a character like any
/// other), and that token alone is one string expression.
pub proof fn law_string_source(text: Seq<char>)
    requires
        forall|i: int| 0 <= i < text.len() ==> #[trigger] text[i] != '"',
    ensures
        lex((seq!['"'] + text).push('"')) == seq![TokenV::Str(text)],
        parse_all(lex((seq!['"'] + text).push('"'))) == seq![ExprV::Str(text)],
{
    let input = (seq!['"'] + text).push('"');
    lemma_lex_literal(text, text.len());
    assert(text.take(text.len() as int) =~= text);
    assert(input[text.len() as int + 1] == '"');
    assert(lex_upto(input, input.len()) == lex_step(
        lex_upto(input, (input.len() - 1) as nat),
        input[input.len() - 1],
    ));
    assert(lex(input) =~= seq![TokenV::Str(text)]);
    let tokens = seq![TokenV::Str(text)];
    reveal_with_fuel(parse_from, 2);
    assert(parse_from(tokens, 1).0 =~= Seq::<ExprV>::empty());
    assert(parse_all(tokens) =~= seq![ExprV::Str(text)]);
}

/// Atom identity for numbers. A program that is one numeral (digits with
/// at most one dot) asks the host which number the numeral denotes and
/// ends with that number.
pub proof fn law_number_atom(numeral: Seq<char>, bits: u32)
    requires
        numeral.len() > 0,
        is_numeral(numeral),
        denotes_number(numeral),
    ensures
        ({
            let start = program(numeral);
            let asked = step(run(start, seq![ReplyV::Nothing]), ReplyV::Nothing);
            let ended = step(
                run(
                    start,
                    seq![
                        ReplyV::Nothing,
                        ReplyV::Nothing,
                        ReplyV::Number(bits),
                        ReplyV::Nothing,
                    ],
                ),
                ReplyV::Nothing,
            );
            &&& asked.1 == ActionV::Request(RequestV::Decode(numeral))
            &&& ended.1 == ActionV::Finished(ValueV::Number(bits))
        }),
{
    law_numeral_source(numeral);
    reveal_with_fuel(first_malformed, 2);
    let start = load(initial(), seq![ExprV::Number(numeral)], 0);
    assert(program(numeral) == start);
    let r = ReplyV::Nothing;
    let s1 = step(start, r).0;
    assert(start.stack.drop_last() =~= initial().stack);
    let s2 = step(s1, r).0;
    let s3 = step(s2, ReplyV::Number(bits)).0;
    assert(s3.stack.drop_last() =~= initial().stack);
    let s4 = step(s3, r).0;
    lemma_run_push(start, Seq::empty(), r);
    assert(Seq::<ReplyV>::empty().push(r) =~= seq![r]);
    lemma_run_push(start, seq![r], r);
    assert(seq![r].push(r) =~= seq![r, r]);
    lemma_run_push(start, seq![r, r], ReplyV::Number(bits));
    assert(seq![r, r].push(ReplyV::Number(bits)) =~= seq![r, r, ReplyV::Number(bits)]);
    lemma_run_push(start, seq![r, r, ReplyV::Number(bits)], r);
    assert(seq![r, r, ReplyV::Number(bits)].push(r) =~= seq![r, r, ReplyV::Number(bits), r]);
}

/// Atom identity for strings. A program that is one quoted string ends
/// with the string between the quotes, and asks nothing of the host.
pub proof fn law_string_atom(text: Seq<char>)
    requires
        forall|i: int| 0 <= i < text.len() ==> #[trigger] text[i] != '"',
    ensures
        ({
            let start = program((seq!['"'] + text).push('"'));
            let r = ReplyV::Nothing;
            &&& step(start, r).1 == ActionV::Continue
            &&& step(run(start, seq![r]), r).1 == ActionV::Continue
            &&& step(run(start, seq![r, r]), r).1 == ActionV::Continue
            &&& step(run(start, seq![r, r, r]), r).1 == ActionV::Finished(ValueV::Str(text))
        }),
{
    law_string_source(text);
    reveal_with_fuel(first_malformed, 2);
    let start = load(initial(), seq![ExprV::Str(text)], 0);
    assert(program((seq!['"'] + text).push('"')) == start);
    let r = ReplyV::Nothing;
    let s1 = step(start, r).0;
    assert(start.stack.drop_last() =~= initial().stack);
    let s2 = step(s1, r).0;
    assert(s2.stack.drop_last() =~= initial().stack);
    let s3 = step(s2, r).0;
    lemma_run_push(start, Seq::empty(), r);
    assert(Seq::<ReplyV>::empty().push(r) =~= seq![r]);
    lemma_run_push(start, seq![r], r);
    assert(seq![r].push(r) =~= seq![r, r]);
    lemma_run_push(start, seq![r, r], r);
    assert(seq![r, r].push(r) =~= seq![r, r, r]);
}

/// A malformed numeral is fatal before anything is evaluated: a source
/// with a number token whose numeral has no digit, or more than one dot,
/// starts stopped on that numeral, and every step says so and changes
/// nothing.
pub proof fn law_malformed_numeral(input: Seq<char>, reply: ReplyV)
    requires
        first_malformed(lex(input), 0) is Some,
    ensures
        step(program(input), reply) == (
            program(input),
            ActionV::Failed(
                ErrorV {
                    kind: ErrorKind::MalformedNumber,
                    subject: first_malformed(lex(input), 0)->0,
                },
            ),
        ),
{
}

} // verus!
