//! Expression trees, the form in which a program is evaluated.

use vstd::prelude::*;

verus! {

/// The mathematical form of an expression tree: text is a sequence of
/// characters and children form a sequence.
pub enum ExprV {
    /// A numeral, kept as it was written.
    Number(Seq<char>),
    /// An identifier.
    Symbol(Seq<char>),
    /// The payload of a string literal, without the quotes.
    Str(Seq<char>),
    /// A parenthesized form.
    List(Seq<ExprV>),
    /// A bracketed array literal.
    Array(Seq<ExprV>),
}

/// A node of the expression tree.
///
/// A numeral keeps its spelling (digits and dots); the value it denotes is
/// decided by whoever carries out the arithmetic of the running program.
#[derive(Debug, PartialEq)]
pub enum Expr {
    Number(String),
    Symbol(String),
    String(String),
    List(Vec<Expr>),
    Array(Vec<Expr>),
}

/// The model of one expression.
pub open spec fn expr_view(e: Expr) -> ExprV
    decreases e,
{
    match e {
        Expr::Number(s) => ExprV::Number(s@),
        Expr::Symbol(s) => ExprV::Symbol(s@),
        Expr::String(s) => ExprV::Str(s@),
        Expr::List(items) => ExprV::List(
            Seq::new(
                items@.len(),
                |i: int|
                    if 0 <= i < items@.len() {
                        expr_view(items@[i])
                    } else {
                        arbitrary()
                    },
            ),
        ),
        Expr::Array(items) => ExprV::Array(
            Seq::new(
                items@.len(),
                |i: int|
                    if 0 <= i < items@.len() {
                        expr_view(items@[i])
                    } else {
                        arbitrary()
                    },
            ),
        ),
    }
}

impl DeepView for Expr {
    type V = ExprV;

    open spec fn deep_view(&self) -> ExprV {
        expr_view(*self)
    }
}

impl View for Expr {
    type V = ExprV;

    open spec fn view(&self) -> ExprV {
        expr_view(*self)
    }
}

/// The model of a compound node is the compound of its children's models.
pub proof fn lemma_compound_view(items: Vec<Expr>)
    ensures
        Expr::List(items)@ == ExprV::List(items.deep_view()),
        Expr::Array(items)@ == ExprV::Array(items.deep_view()),
{
    assert(Expr::List(items)@->List_0 =~= items.deep_view());
    assert(Expr::Array(items)@->Array_0 =~= items.deep_view());
}

impl Clone for Expr {
    fn clone(&self) -> (r: Expr)
        ensures
            r@ == self@,
        decreases self,
    {
        match self {
            Expr::Number(s) => Expr::Number(s.clone()),
            Expr::Symbol(s) => Expr::Symbol(s.clone()),
            Expr::String(s) => Expr::String(s.clone()),
            Expr::List(items) => {
                let copy = clone_exprs(items);
                proof {
                    lemma_compound_view(*items);
                    lemma_compound_view(copy);
                }
                Expr::List(copy)
            },
            Expr::Array(items) => {
                let copy = clone_exprs(items);
                proof {
                    lemma_compound_view(*items);
                    lemma_compound_view(copy);
                }
                Expr::Array(copy)
            },
        }
    }
}

/// Copies a sequence of expressions.
pub fn clone_exprs(items: &Vec<Expr>) -> (r: Vec<Expr>)
    ensures
        r.deep_view() == items.deep_view(),
    decreases items,
{
    let mut out: Vec<Expr> = Vec::new();
    let mut i: usize = 0;
    while i < items.len()
        invariant
            i <= items.len(),
            out.len() == i,
            forall|k: int| 0 <= k < i ==> out[k]@ == items[k]@,
        decreases items.len() - i,
    {
        let e = items[i].clone();
        out.push(e);
        i += 1;
    }
    assert(out.deep_view() =~= items.deep_view());
    out
}

} // verus!
