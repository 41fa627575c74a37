//! An interpreter for a small parenthesized expression language.
//!
//! The source is split into tokens ([`lexer`]), built into a forest of
//! expression trees ([`parser`]) and evaluated by an abstract machine
//! ([`interpreter`]) against a chain of frames ([`env`]). The machine never
//! computes with numbers and never reads or writes: it hands such work to
//! its host as requests ([`host`]) and goes on with the answers. What each
//! step does is laid down in [`semantics`], and what follows from that for
//! whole evaluations is proved in [`laws`].

pub mod annotation;
pub mod continuation;
pub mod env;
pub mod expr;
pub mod forms;
pub mod host;
pub mod interpreter;
pub mod laws;
pub mod lexer;
pub mod parser;
pub mod pattern;
pub mod semantics;
pub mod stdlib;
pub mod value;

use vstd::prelude::*;
use crate::continuation::{Control, ControlV, MachineV};
use crate::host::{Error, ErrorKind, ErrorV};
use crate::interpreter::Interpreter;
use crate::lexer::{Lexer, first_malformed, lex};
use crate::parser::{Parser, parse_all};
use crate::semantics::{initial, load};

verus! {

/// The interpreter that a source text starts in.
///
/// Where a number token of the source denotes no number (its numeral has no
/// digit, or more than one dot), the interpreter has stopped on that
/// numeral before its first step, wherever in the program the numeral
/// stands. Otherwise the forest that the source spells is scheduled for
/// evaluation in the root frame.
pub open spec fn program(input: Seq<char>) -> MachineV {
    match first_malformed(lex(input), 0) {
        Some(text) => MachineV {
            control: ControlV::Failed(ErrorV { kind: ErrorKind::MalformedNumber, subject: text }),
            ..initial()
        },
        None => load(initial(), parse_all(lex(input)), 0),
    }
}

/// Reads a program: splits the source into tokens, builds the forest of
/// expression trees and schedules it for evaluation in the root frame of a
/// new interpreter. The program then runs by the steps of that interpreter.
/// A source with a malformed numeral gives an interpreter that has stopped
/// on it: its first step, and every later one, is that failure.
pub fn evaluate(input: &str) -> (r: Interpreter)
    ensures
        r@ == program(input@),
{
    let tokens = Lexer::tokenize(input);
    let mut interpreter = Interpreter::new();
    match Lexer::malformed(&tokens) {
        Some(text) => {
            interpreter.control = Control::Failed(
                Error { kind: ErrorKind::MalformedNumber, subject: text },
            );
        },
        None => {
            let exprs = Parser::parse(&tokens);
            interpreter.compute(exprs, 0);
        },
    }
    interpreter
}

} // verus!
