//! Annotations: the declarations that a function definition may carry.

use vstd::prelude::*;
use crate::expr::{Expr, ExprV, clone_exprs};

verus! {

/// The mathematical form of an annotation.
pub enum AnnotationV {
    Require(ExprV),
    Test { args: Seq<ExprV>, expected: ExprV },
}

/// A declaration attached to a user function: a precondition that is
/// recorded, or an inline test that is run when the function is defined.
#[derive(Debug, PartialEq)]
pub enum Annotation {
    Require(Expr),
    Test { args: Vec<Expr>, expected: Expr },
}

impl DeepView for Annotation {
    type V = AnnotationV;

    open spec fn deep_view(&self) -> AnnotationV {
        match self {
            Annotation::Require(e) => AnnotationV::Require(e@),
            Annotation::Test { args, expected } => AnnotationV::Test {
                args: args.deep_view(),
                expected: expected@,
            },
        }
    }
}

impl View for Annotation {
    type V = AnnotationV;

    open spec fn view(&self) -> AnnotationV {
        self.deep_view()
    }
}

impl Clone for Annotation {
    fn clone(&self) -> (r: Annotation)
        ensures
            r@ == self@,
    {
        match self {
            Annotation::Require(e) => Annotation::Require(e.clone()),
            Annotation::Test { args, expected } => Annotation::Test {
                args: clone_exprs(args),
                expected: expected.clone(),
            },
        }
    }
}

/// Copies a list of annotations.
pub fn clone_annotations(items: &Vec<Annotation>) -> (r: Vec<Annotation>)
    ensures
        r.deep_view() == items.deep_view(),
{
    let mut out: Vec<Annotation> = Vec::new();
    let mut i: usize = 0;
    while i < items.len()
        invariant
            i <= items.len(),
            out.len() == i,
            forall|k: int| 0 <= k < i ==> out[k]@ == items[k]@,
        decreases items.len() - i,
    {
        let a = items[i].clone();
        out.push(a);
        i += 1;
    }
    assert(out.deep_view() =~= items.deep_view());
    out
}

} // verus!
