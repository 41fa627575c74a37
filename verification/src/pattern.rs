//! Patterns.

use vstd::prelude::*;
use crate::value::{Value, ValueV};

verus! {

/// A value to match and the result that goes with it.
#[derive(Debug, PartialEq)]
pub struct Pattern {
    pub value: Value,
    pub result: Value,
}

impl Pattern {
    /// Matching on numbers yields nil: no rule for it exists yet.
    pub fn handle_number_matching() -> (r: Value)
        ensures
            r@ == ValueV::Nil,
    {
        Value::Nil
    }
}

} // verus!
