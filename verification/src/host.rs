//! The protocol between the interpreter and its host.
//!
//! The interpreter holds a number as the bit pattern of a 32-bit binary
//! floating value and leaves every computation on numbers, and all input
//! and output, to the host: a step may end in a request, and the step after
//! it takes the reply.

use vstd::prelude::*;
use vstd::string::StringExecFns;
use crate::value::{Value, ValueV};

verus! {

/// Arithmetic on two numbers.
#[derive(Debug, Clone, Copy, PartialEq, Eq, Structural)]
pub enum BinaryOp {
    Add,
    Sub,
    Mul,
    Div,
    Pow,
}

/// A test on two numbers. `Near` holds when they differ by less than a
/// tenth.
#[derive(Debug, Clone, Copy, PartialEq, Eq, Structural)]
pub enum Relation {
    Greater,
    Less,
    GreaterEq,
    LessEq,
    Equal,
    NotEqual,
    Near,
}

/// The mathematical form of a request.
pub enum RequestV {
    Decode(Seq<char>),
    Format(Seq<u32>),
    Binary(BinaryOp, u32, u32),
    Abs(u32),
    Relate(Relation, u32, u32),
    Truncate(Seq<u32>),
    Widen(Seq<i64>),
    Print(Seq<char>),
    Read,
}

/// Work that the interpreter hands to its host: arithmetic on numbers, which
/// it holds as bit patterns only, and input and output.
#[derive(Debug, PartialEq)]
pub enum Request {
    /// Read the text as a decimal number. Answer: `Number`, or `Absent` if
    /// the text is no number.
    Decode(String),
    /// Give the shortest decimal form of each number. Answer: `Texts`, one
    /// for each number, in order.
    Format(Vec<u32>),
    /// Compute on two numbers. Answer: `Number`.
    Binary(BinaryOp, u32, u32),
    /// The absolute value. Answer: `Number`.
    Abs(u32),
    /// Test two numbers. Answer: `Bool`.
    Relate(Relation, u32, u32),
    /// Cut each number down to its integer part, saturating. Answer:
    /// `Integers`, one for each number, in order.
    Truncate(Vec<u32>),
    /// Give the number nearest to each integer. Answer: `Numbers`, one for
    /// each integer, in order.
    Widen(Vec<i64>),
    /// Write the text and a line end to standard output. Answer: `Nothing`.
    Print(String),
    /// Read one line from standard input. Answer: `Text`.
    Read,
}

impl DeepView for Request {
    type V = RequestV;

    open spec fn deep_view(&self) -> RequestV {
        match self {
            Request::Decode(s) => RequestV::Decode(s@),
            Request::Format(ns) => RequestV::Format(ns@),
            Request::Binary(op, a, b) => RequestV::Binary(*op, *a, *b),
            Request::Abs(a) => RequestV::Abs(*a),
            Request::Relate(rel, a, b) => RequestV::Relate(*rel, *a, *b),
            Request::Truncate(ns) => RequestV::Truncate(ns@),
            Request::Widen(is) => RequestV::Widen(is@),
            Request::Print(s) => RequestV::Print(s@),
            Request::Read => RequestV::Read,
        }
    }
}

impl View for Request {
    type V = RequestV;

    open spec fn view(&self) -> RequestV {
        self.deep_view()
    }
}

/// The mathematical form of a reply.
pub enum ReplyV {
    Nothing,
    Number(u32),
    Absent,
    Bool(bool),
    Numbers(Seq<u32>),
    Integers(Seq<i64>),
    Text(Seq<char>),
    Texts(Seq<Seq<char>>),
}

/// What the host hands back for a request. `Nothing` also goes with a step
/// that follows no request.
#[derive(Debug, PartialEq)]
pub enum Reply {
    Nothing,
    Number(u32),
    Absent,
    Bool(bool),
    Numbers(Vec<u32>),
    Integers(Vec<i64>),
    Text(String),
    Texts(Vec<String>),
}

impl DeepView for Reply {
    type V = ReplyV;

    open spec fn deep_view(&self) -> ReplyV {
        match self {
            Reply::Nothing => ReplyV::Nothing,
            Reply::Number(n) => ReplyV::Number(*n),
            Reply::Absent => ReplyV::Absent,
            Reply::Bool(b) => ReplyV::Bool(*b),
            Reply::Numbers(ns) => ReplyV::Numbers(ns@),
            Reply::Integers(is) => ReplyV::Integers(is@),
            Reply::Text(s) => ReplyV::Text(s@),
            Reply::Texts(ts) => ReplyV::Texts(ts.deep_view()),
        }
    }
}

impl View for Reply {
    type V = ReplyV;

    open spec fn view(&self) -> ReplyV {
        self.deep_view()
    }
}

/// The kinds of fatal error.
#[derive(Debug, Clone, Copy, PartialEq, Eq, Structural)]
pub enum ErrorKind {
    /// A form that does not have the shape its head asks for.
    Syntax,
    /// The head of a call names nothing that can be called.
    UndefinedSymbol,
    /// An assignment to a name that is bound nowhere.
    VariableNotFound,
    /// A `var` on a name that the current frame binds already.
    AlreadyDefined,
    /// An annotation head other than `:require` and `:test`.
    UnknownAnnotation,
    /// An inline test whose result is not the expected one.
    TestFailed,
    /// A `while` condition that is no boolean.
    NonBoolCondition,
    /// A built-in that was given operands of the wrong kind.
    TypeMismatch,
    /// A numeral that denotes no number.
    MalformedNumber,
    /// A reply that does not answer the request that was made.
    HostFault,
}

/// The mathematical form of an error.
pub struct ErrorV {
    pub kind: ErrorKind,
    pub subject: Seq<char>,
}

/// A fatal error: its kind and the name it is about (empty where it is
/// about none).
#[derive(Debug, PartialEq)]
pub struct Error {
    pub kind: ErrorKind,
    pub subject: String,
}

impl DeepView for Error {
    type V = ErrorV;

    open spec fn deep_view(&self) -> ErrorV {
        ErrorV { kind: self.kind, subject: self.subject@ }
    }
}

impl View for Error {
    type V = ErrorV;

    open spec fn view(&self) -> ErrorV {
        self.deep_view()
    }
}

impl ErrorKind {
    /// The part of the diagnostic that stands before the subject.
    pub open spec fn before(self) -> Seq<char> {
        match self {
            ErrorKind::Syntax => "Invalid syntax"@,
            ErrorKind::UndefinedSymbol => "Undefined symbol: "@,
            ErrorKind::VariableNotFound => "Variable "@,
            ErrorKind::AlreadyDefined => "Variable "@,
            ErrorKind::UnknownAnnotation => "Unknown annotation "@,
            ErrorKind::TestFailed => "Function "@,
            ErrorKind::NonBoolCondition => "Non boolean condition found."@,
            ErrorKind::TypeMismatch => "< "@,
            ErrorKind::MalformedNumber => "Malformed number "@,
            ErrorKind::HostFault => "The host gave an answer that was not asked for"@,
        }
    }

    /// The part of the diagnostic that stands after the subject.
    pub open spec fn after(self) -> Seq<char> {
        match self {
            ErrorKind::VariableNotFound => " not found"@,
            ErrorKind::AlreadyDefined => " already defined ! Use set to modify its value."@,
            ErrorKind::TestFailed => " did not pass the test !"@,
            ErrorKind::TypeMismatch => " > was given operands of the wrong kind !"@,
            _ => ""@,
        }
    }

    /// The two parts of the diagnostic, before and after the subject.
    pub fn wording(self) -> (r: (&'static str, &'static str))
        ensures
            r.0@ == self.before(),
            r.1@ == self.after(),
    {
        match self {
            ErrorKind::Syntax => ("Invalid syntax", ""),
            ErrorKind::UndefinedSymbol => ("Undefined symbol: ", ""),
            ErrorKind::VariableNotFound => ("Variable ", " not found"),
            ErrorKind::AlreadyDefined => (
                "Variable ",
                " already defined ! Use set to modify its value.",
            ),
            ErrorKind::UnknownAnnotation => ("Unknown annotation ", ""),
            ErrorKind::TestFailed => ("Function ", " did not pass the test !"),
            ErrorKind::NonBoolCondition => ("Non boolean condition found.", ""),
            ErrorKind::TypeMismatch => ("< ", " > was given operands of the wrong kind !"),
            ErrorKind::MalformedNumber => ("Malformed number ", ""),
            ErrorKind::HostFault => ("The host gave an answer that was not asked for", ""),
        }
    }
}

impl ErrorV {
    /// The diagnostic of the error.
    pub open spec fn message(self) -> Seq<char> {
        self.kind.before() + self.subject + self.kind.after()
    }
}

impl Error {
    /// The diagnostic of the error: a short message for a human reader,
    /// with the name that the error is about in it.
    pub fn message(&self) -> (r: String)
        ensures
            r@ == self@.message(),
    {
        let wording = self.kind.wording();
        let mut out = String::from_str(wording.0);
        out.append(self.subject.as_str());
        out.append(wording.1);
        out
    }
}

impl Clone for Error {
    fn clone(&self) -> (r: Error)
        ensures
            r@ == self@,
    {
        Error { kind: self.kind, subject: self.subject.clone() }
    }
}

/// The mathematical form of an action.
pub enum ActionV {
    Continue,
    Request(RequestV),
    Finished(ValueV),
    Failed(ErrorV),
}

/// What a step of the interpreter asks of whoever drives it.
#[derive(Debug, PartialEq)]
pub enum Action {
    /// Nothing: step again, with `Reply::Nothing`.
    Continue,
    /// Carry out the request and step again with its answer.
    Request(Request),
    /// The program has run to its end, with this value.
    Finished(Value),
    /// The program has stopped on a fatal error.
    Failed(Error),
}

impl DeepView for Action {
    type V = ActionV;

    open spec fn deep_view(&self) -> ActionV {
        match self {
            Action::Continue => ActionV::Continue,
            Action::Request(r) => ActionV::Request(r@),
            Action::Finished(v) => ActionV::Finished(v@),
            Action::Failed(e) => ActionV::Failed(e@),
        }
    }
}

impl View for Action {
    type V = ActionV;

    open spec fn view(&self) -> ActionV {
        self.deep_view()
    }
}

} // verus!
