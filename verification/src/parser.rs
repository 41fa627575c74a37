//! The expression builder: from tokens to a forest of expression trees,
//! by matching brackets.

use vstd::prelude::*;
use crate::expr::{Expr, ExprV, lemma_compound_view};
use crate::lexer::{Token, TokenV};

verus! {

/// The expressions that start at position `pos` of the tokens, up to the
/// closer that ends this nesting or to the end of the tokens, and the
/// position after them (after that closer).
///
/// An opener starts a nested run, which gives a list (after `(`) or an
/// array (after `[`); either closer ends the run that is open, whatever
/// opener it began with, and at the top level ends the forest.
pub open spec fn parse_from(tokens: Seq<TokenV>, pos: nat) -> (Seq<ExprV>, nat)
    decreases tokens.len() - pos,
{
    if pos >= tokens.len() {
        (Seq::empty(), pos)
    } else {
        match tokens[pos as int] {
            TokenV::Identifier(s) => {
                let rest = parse_from(tokens, pos + 1);
                (seq![ExprV::Symbol(s)] + rest.0, rest.1)
            },
            TokenV::Number(s) => {
                let rest = parse_from(tokens, pos + 1);
                (seq![ExprV::Number(s)] + rest.0, rest.1)
            },
            TokenV::Str(s) => {
                let rest = parse_from(tokens, pos + 1);
                (seq![ExprV::Str(s)] + rest.0, rest.1)
            },
            TokenV::LeftParen => {
                let inner = parse_from(tokens, pos + 1);
                if pos < inner.1 <= tokens.len() {
                    let rest = parse_from(tokens, inner.1);
                    (seq![ExprV::List(inner.0)] + rest.0, rest.1)
                } else {
                    (seq![ExprV::List(inner.0)], inner.1)
                }
            },
            TokenV::LeftBracket => {
                let inner = parse_from(tokens, pos + 1);
                if pos < inner.1 <= tokens.len() {
                    let rest = parse_from(tokens, inner.1);
                    (seq![ExprV::Array(inner.0)] + rest.0, rest.1)
                } else {
                    (seq![ExprV::Array(inner.0)], inner.1)
                }
            },
            TokenV::RightParen => (Seq::empty(), pos + 1),
            TokenV::RightBracket => (Seq::empty(), pos + 1),
        }
    }
}

/// The forest that the tokens spell.
pub open spec fn parse_all(tokens: Seq<TokenV>) -> Seq<ExprV> {
    parse_from(tokens, 0).0
}

/// A run of expressions never ends before the position it starts at, nor
/// after the end of the tokens; where a token stands at the start, it ends
/// after it.
pub proof fn lemma_parse_advances(tokens: Seq<TokenV>, pos: nat)
    ensures
        pos <= tokens.len() ==> pos <= parse_from(tokens, pos).1 <= tokens.len(),
        pos < tokens.len() ==> pos < parse_from(tokens, pos).1,
    decreases tokens.len() - pos,
{
    if pos < tokens.len() {
        lemma_parse_advances(tokens, pos + 1);
        let inner = parse_from(tokens, pos + 1);
        if pos < inner.1 <= tokens.len() {
            lemma_parse_advances(tokens, inner.1);
        }
    }
}

/// The expression builder.
pub struct Parser {}

impl Parser {
    /// Builds the run of expressions that starts at `pos`.
    fn parse_at(tokens: &Vec<Token>, pos: usize) -> (r: (Vec<Expr>, usize))
        requires
            pos <= tokens.len(),
        ensures
            r.0.deep_view() == parse_from(tokens.deep_view(), pos as nat).0,
            r.1 as nat == parse_from(tokens.deep_view(), pos as nat).1,
            pos <= r.1 <= tokens.len(),
            pos < tokens.len() ==> pos < r.1,
        decreases tokens.len() - pos,
    {
        let ghost all = tokens.deep_view();
        proof {
            lemma_parse_advances(all, pos as nat);
        }
        let mut exprs: Vec<Expr> = Vec::new();
        assert(exprs.deep_view() =~= Seq::empty());
        let mut at: usize = pos;
        while at < tokens.len()
            invariant
                pos <= at <= tokens.len(),
                all == tokens.deep_view(),
                parse_from(all, pos as nat).0 == exprs.deep_view() + parse_from(all, at as nat).0,
                parse_from(all, pos as nat).1 == parse_from(all, at as nat).1,
            decreases tokens.len() - at,
        {
            let ghost before = exprs.deep_view();
            assert(all[at as int] == tokens[at as int]@);
            proof {
                lemma_parse_advances(all, (at + 1) as nat);
            }
            match &tokens[at] {
                Token::Identifier(s) => {
                    exprs.push(Expr::Symbol(s.clone()));
                    assert(exprs.deep_view() =~= before.push(ExprV::Symbol(s@)));
                    at = at + 1;
                },
                Token::Number(s) => {
                    exprs.push(Expr::Number(s.clone()));
                    assert(exprs.deep_view() =~= before.push(ExprV::Number(s@)));
                    at = at + 1;
                },
                Token::String(s) => {
                    exprs.push(Expr::String(s.clone()));
                    assert(exprs.deep_view() =~= before.push(ExprV::Str(s@)));
                    at = at + 1;
                },
                Token::LeftParen => {
                    let inner = Self::parse_at(tokens, at + 1);
                    proof {
                        lemma_compound_view(inner.0);
                    }
                    exprs.push(Expr::List(inner.0));
                    assert(exprs.deep_view() =~= before.push(
                        ExprV::List(parse_from(all, (at + 1) as nat).0),
                    ));
                    at = inner.1;
                },
                Token::LeftBracket => {
                    let inner = Self::parse_at(tokens, at + 1);
                    proof {
                        lemma_compound_view(inner.0);
                    }
                    exprs.push(Expr::Array(inner.0));
                    assert(exprs.deep_view() =~= before.push(
                        ExprV::Array(parse_from(all, (at + 1) as nat).0),
                    ));
                    at = inner.1;
                },
                Token::RightParen => {
                    assert(exprs.deep_view() + Seq::<ExprV>::empty() =~= exprs.deep_view());
                    return (exprs, at + 1);
                },
                Token::RightBracket => {
                    assert(exprs.deep_view() + Seq::<ExprV>::empty() =~= exprs.deep_view());
                    return (exprs, at + 1);
                },
            }
            assert(parse_from(all, pos as nat).0 =~= exprs.deep_view() + parse_from(
                all,
                at as nat,
            ).0);
        }
        assert(exprs.deep_view() + Seq::<ExprV>::empty() =~= exprs.deep_view());
        (exprs, at)
    }

    /// Builds the forest of expression trees that the tokens spell.
    pub fn parse(tokens: &Vec<Token>) -> (r: Vec<Expr>)
        ensures
            r.deep_view() == parse_all(tokens.deep_view()),
    {
        Self::parse_at(tokens, 0).0
    }
}

} // verus!
