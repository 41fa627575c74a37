//! The tokenizer: from source text to a flat sequence of tokens.

use vstd::prelude::*;
use vstd::std_specs::iter::IteratorSpec;

verus! {

/// What `String::push` of the standard library does, for which vstd has no
/// specification: by its documentation it appends the given character to
/// the end of the string. This is believed, not proved.
pub assume_specification[ std::string::String::push ](s: &mut std::string::String, c: char)
    ensures
        final(s)@ == old(s)@.push(c),
;

/// The mathematical form of a token.
pub enum TokenV {
    Number(Seq<char>),
    Identifier(Seq<char>),
    LeftParen,
    RightParen,
    LeftBracket,
    RightBracket,
    Str(Seq<char>),
}

/// An atomic piece of source text. A number token holds the numeral as it
/// is spelled; a string token holds the text between the quotes.
#[derive(Debug, PartialEq)]
pub enum Token {
    Number(String),
    Identifier(String),
    LeftParen,
    RightParen,
    LeftBracket,
    RightBracket,
    String(String),
}

impl DeepView for Token {
    type V = TokenV;

    open spec fn deep_view(&self) -> TokenV {
        match self {
            Token::Number(s) => TokenV::Number(s@),
            Token::Identifier(s) => TokenV::Identifier(s@),
            Token::LeftParen => TokenV::LeftParen,
            Token::RightParen => TokenV::RightParen,
            Token::LeftBracket => TokenV::LeftBracket,
            Token::RightBracket => TokenV::RightBracket,
            Token::String(s) => TokenV::Str(s@),
        }
    }
}

impl View for Token {
    type V = TokenV;

    open spec fn view(&self) -> TokenV {
        self.deep_view()
    }
}

/// Whether the character is a decimal digit or a dot.
pub open spec fn is_numeral_char(c: char) -> bool {
    ('0' as u32 <= c as u32 && c as u32 <= '9' as u32) || c == '.'
}

/// Whether every character of the word is a digit or a dot.
pub open spec fn is_numeral(word: Seq<char>) -> bool {
    forall|i: int| 0 <= i < word.len() ==> is_numeral_char(#[trigger] word[i])
}

/// Whether the character ends a word: a bracket, a space or a line feed.
pub open spec fn is_break(c: char) -> bool {
    c == '(' || c == ')' || c == '[' || c == ']' || c == ' ' || c == '\n'
}

/// The token of a word: a number if the word is a numeral, else an
/// identifier.
pub open spec fn word_token(word: Seq<char>) -> TokenV {
    if is_numeral(word) {
        TokenV::Number(word)
    } else {
        TokenV::Identifier(word)
    }
}

/// The tokens with the pending word, if there is one, added as a token.
pub open spec fn flush(tokens: Seq<TokenV>, word: Seq<char>) -> Seq<TokenV> {
    if word.len() == 0 {
        tokens
    } else {
        tokens.push(word_token(word))
    }
}

/// The tokens with the token of a bracket added; a space or a line feed
/// adds none.
pub open spec fn with_bracket(tokens: Seq<TokenV>, c: char) -> Seq<TokenV> {
    if c == '(' {
        tokens.push(TokenV::LeftParen)
    } else if c == ')' {
        tokens.push(TokenV::RightParen)
    } else if c == '[' {
        tokens.push(TokenV::LeftBracket)
    } else if c == ']' {
        tokens.push(TokenV::RightBracket)
    } else {
        tokens
    }
}

/// The state of the tokenizer between two characters: the tokens so far,
/// the word that is being read, and the string literal that is open, if
/// one is.
pub struct LexState {
    pub tokens: Seq<TokenV>,
    pub word: Seq<char>,
    pub literal: Option<Seq<char>>,
}

/// The state after reading the character `c` in state `s`.
///
/// Inside a string literal a double quote closes the literal and every
/// other character belongs to it. Outside, a double quote opens a literal
/// (and leaves the word that is being read open), a bracket or a separator
/// ends the word, and every other character belongs to the word.
pub open spec fn lex_step(s: LexState, c: char) -> LexState {
    match s.literal {
        Some(text) => if c == '"' {
            LexState { tokens: s.tokens.push(TokenV::Str(text)), word: s.word, literal: None }
        } else {
            LexState { tokens: s.tokens, word: s.word, literal: Some(text.push(c)) }
        },
        None => if c == '"' {
            LexState { tokens: s.tokens, word: s.word, literal: Some(Seq::empty()) }
        } else if is_break(c) {
            LexState {
                tokens: with_bracket(flush(s.tokens, s.word), c),
                word: Seq::empty(),
                literal: None,
            }
        } else {
            LexState { tokens: s.tokens, word: s.word.push(c), literal: None }
        },
    }
}

/// The state after reading the first `n` characters of `input`.
pub open spec fn lex_upto(input: Seq<char>, n: nat) -> LexState
    decreases n,
{
    if n == 0 || n > input.len() {
        LexState { tokens: Seq::empty(), word: Seq::empty(), literal: None }
    } else {
        lex_step(lex_upto(input, (n - 1) as nat), input[n - 1])
    }
}

/// The tokens of `input`. At the end of the input a string literal that
/// is still open ends there, and then the pending word is flushed.
pub open spec fn lex(input: Seq<char>) -> Seq<TokenV> {
    let s = lex_upto(input, input.len());
    flush(
        match s.literal {
            Some(text) => s.tokens.push(TokenV::Str(text)),
            None => s.tokens,
        },
        s.word,
    )
}

/// Whether the character is a decimal digit.
pub open spec fn is_digit(c: char) -> bool {
    '0' as u32 <= c as u32 && c as u32 <= '9' as u32
}

/// How many dots the text holds.
pub open spec fn dots(text: Seq<char>) -> nat
    decreases text.len(),
{
    if text.len() == 0 {
        0
    } else {
        dots(text.drop_last()) + if text.last() == '.' {
            1nat
        } else {
            0nat
        }
    }
}

/// How many decimal digits the text holds.
pub open spec fn digits(text: Seq<char>) -> nat
    decreases text.len(),
{
    if text.len() == 0 {
        0
    } else {
        digits(text.drop_last()) + if is_digit(text.last()) {
            1nat
        } else {
            0nat
        }
    }
}

/// Whether a numeral denotes a number: it holds a digit and at most one
/// dot. So `5`, `5.`, `.5` and `3.14` do, and `.` and `1.2.3` do not.
pub open spec fn denotes_number(text: Seq<char>) -> bool {
    digits(text) >= 1 && dots(text) <= 1
}

/// The numeral of the first number token, from position `from` on, that
/// denotes no number.
pub open spec fn first_malformed(tokens: Seq<TokenV>, from: int) -> Option<Seq<char>>
    decreases tokens.len() - from,
{
    if from < 0 || from >= tokens.len() {
        None
    } else {
        match tokens[from] {
            TokenV::Number(text) => if denotes_number(text) {
                first_malformed(tokens, from + 1)
            } else {
                Some(text)
            },
            _ => first_malformed(tokens, from + 1),
        }
    }
}

/// Whether the numeral denotes a number.
fn well_formed(text: &String) -> (r: bool)
    ensures
        r == denotes_number(text@),
{
    let mut it = text.as_str().chars();
    let mut seen_dots: u8 = 0;
    let mut seen_digit = false;
    let ghost mut i: int = 0;
    loop
        invariant_except_break
            it.remaining() == text@.skip(i),
            it.decrease() is Some,
        invariant
            0 <= i <= text@.len(),
            seen_dots <= 2,
            seen_dots < 2 ==> seen_dots == dots(text@.take(i)),
            seen_dots == 2 ==> dots(text@.take(i)) >= 2,
            seen_digit == (digits(text@.take(i)) >= 1),
        ensures
            i == text@.len(),
        decreases it.decrease()->0,
    {
        match it.next() {
            Some(c) => {
                assert(c == text@[i]);
                proof {
                    assert(text@.skip(i).drop_first() =~= text@.skip(i + 1));
                    assert(text@.take(i + 1).drop_last() =~= text@.take(i));
                }
                let code: u32 = c as u32;
                if c == '.' && seen_dots < 2 {
                    seen_dots = seen_dots + 1;
                }
                if 48 <= code && code <= 57 {
                    seen_digit = true;
                }
                proof {
                    i = i + 1;
                }
            },
            None => {
                break ;
            },
        }
    }
    assert(text@.take(text@.len() as int) =~= text@);
    seen_digit && seen_dots <= 1
}

/// Whether every character of the word is a digit or a dot.
fn numeral(word: &String) -> (r: bool)
    ensures
        r == is_numeral(word@),
{
    let mut it = word.as_str().chars();
    let ghost mut i: int = 0;
    loop
        invariant
            0 <= i <= word@.len(),
            it.remaining() == word@.skip(i),
            it.decrease() is Some,
            forall|k: int| 0 <= k < i ==> is_numeral_char(#[trigger] word@[k]),
        decreases it.decrease()->0,
    {
        match it.next() {
            Some(c) => {
                assert(c == word@[i]);
                let code: u32 = c as u32;
                if !((48 <= code && code <= 57) || c == '.') {
                    return false;
                }
                proof {
                    assert(word@.skip(i).drop_first() =~= word@.skip(i + 1));
                    i = i + 1;
                }
            },
            None => {
                return true;
            },
        }
    }
}

/// The tokenizer.
pub struct Lexer;

impl Lexer {
    /// Adds the pending word, if there is one, as a token, and empties it.
    fn flush(tokens: &mut Vec<Token>, word: &mut String)
        ensures
            final(tokens).deep_view() == flush(old(tokens).deep_view(), old(word)@),
            final(word)@ == Seq::<char>::empty(),
    {
        let ghost before = tokens.deep_view();
        let mut taken = String::new();
        core::mem::swap(word, &mut taken);
        if taken.as_str().unicode_len() > 0 {
            if numeral(&taken) {
                tokens.push(Token::Number(taken));
            } else {
                tokens.push(Token::Identifier(taken));
            }
            assert(tokens.deep_view() =~= before.push(word_token(old(word)@)));
        }
    }

    /// The numeral of the first number token that denotes no number, if
    /// there is one.
    pub fn malformed(tokens: &Vec<Token>) -> (r: Option<String>)
        ensures
            r.deep_view() == first_malformed(tokens.deep_view(), 0),
    {
        let mut i: usize = 0;
        while i < tokens.len()
            invariant
                i <= tokens.len(),
                first_malformed(tokens.deep_view(), 0) == first_malformed(
                    tokens.deep_view(),
                    i as int,
                ),
            decreases tokens.len() - i,
        {
            assert(tokens.deep_view()[i as int] == tokens[i as int]@);
            match &tokens[i] {
                Token::Number(text) => {
                    if !well_formed(text) {
                        return Some(text.clone());
                    }
                },
                _ => {},
            }
            i += 1;
        }
        None
    }

    /// Splits the source text into tokens.
    pub fn tokenize(input: &str) -> (r: Vec<Token>)
        ensures
            r.deep_view() == lex(input@),
    {
        let mut tokens: Vec<Token> = Vec::new();
        let mut word = String::new();
        let mut literal: Option<String> = None;
        assert(tokens.deep_view() =~= Seq::empty());
        let mut it = input.chars();
        let ghost mut i: int = 0;
        loop
            invariant_except_break
                it.remaining() == input@.skip(i),
                it.decrease() is Some,
            invariant
                0 <= i <= input@.len(),
                tokens.deep_view() == lex_upto(input@, i as nat).tokens,
                word@ == lex_upto(input@, i as nat).word,
                literal.deep_view() == lex_upto(input@, i as nat).literal,
            ensures
                i == input@.len(),
            decreases it.decrease()->0,
        {
            let ghost before = tokens.deep_view();
            match it.next() {
                Some(c) => {
                    assert(c == input@[i]);
                    proof {
                        assert(input@.skip(i).drop_first() =~= input@.skip(i + 1));
                    }
                    match literal {
                        Some(text) => {
                            if c == '"' {
                                tokens.push(Token::String(text));
                                assert(tokens.deep_view() =~= before.push(TokenV::Str(text@)));
                                literal = None;
                            } else {
                                let mut text = text;
                                text.push(c);
                                literal = Some(text);
                            }
                        },
                        None => {
                            if c == '"' {
                                literal = Some(String::new());
                            } else if c == '(' || c == ')' || c == '[' || c == ']' || c == ' ' || c
                                == '\n' {
                                Self::flush(&mut tokens, &mut word);
                                let ghost flushed = tokens.deep_view();
                                if c == '(' {
                                    tokens.push(Token::LeftParen);
                                } else if c == ')' {
                                    tokens.push(Token::RightParen);
                                } else if c == '[' {
                                    tokens.push(Token::LeftBracket);
                                } else if c == ']' {
                                    tokens.push(Token::RightBracket);
                                }
                                assert(tokens.deep_view() =~= with_bracket(flushed, c));
                                literal = None;
                            } else {
                                word.push(c);
                                literal = None;
                            }
                        },
                    }
                    proof {
                        i = i + 1;
                    }
                },
                None => {
                    break ;
                },
            }
        }
        let ghost before = tokens.deep_view();
        match literal {
            Some(text) => {
                tokens.push(Token::String(text));
                assert(tokens.deep_view() =~= before.push(TokenV::Str(text@)));
            },
            None => {},
        }
        Self::flush(&mut tokens, &mut word);
        tokens
    }
}

} // verus!
