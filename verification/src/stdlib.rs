//! The built-in library: the names bound in the root frame and what each
//! of them computes, as far as it can be computed without the host.

use vstd::prelude::*;
use vstd::string::StringExecFns;
use vstd::string::StrSliceExecFns;
use crate::env::{distinct_keys, find, position};
use crate::host::{BinaryOp, Error, ErrorKind, ErrorV, Relation, Reply, ReplyV, Request, RequestV};
use crate::semantics::numbers_only;
use crate::value::{
    Value,
    ValueV,
    collect_numbers,
    lemma_array_view,
    lemma_object_view,
    numbers_in,
    render_list,
    write_list,
};

verus! {

/// The built-in operations, by what they compute.
#[derive(Debug, Clone, Copy, PartialEq, Eq, Structural)]
pub enum Primitive {
    Add,
    Sub,
    Mul,
    Div,
    Pow,
    Greater,
    Less,
    GreaterEq,
    LessEq,
    Abs,
    And,
    Or,
    Equal,
    NotEqual,
    Not,
    Print,
    Read,
    TypeOf,
    Get,
    Len,
    Concat,
    Range,
    Parse,
}

impl Primitive {
    /// The name under which the operation is installed.
    pub open spec fn symbol(self) -> Seq<char> {
        match self {
            Primitive::Add => "+"@,
            Primitive::Sub => "-"@,
            Primitive::Mul => "*"@,
            Primitive::Div => "/"@,
            Primitive::Pow => "^"@,
            Primitive::Greater => ">"@,
            Primitive::Less => "<"@,
            Primitive::GreaterEq => ">="@,
            Primitive::LessEq => "<="@,
            Primitive::Abs => "abs"@,
            Primitive::And => "&&"@,
            Primitive::Or => "||"@,
            Primitive::Equal => "=="@,
            Primitive::NotEqual => "!="@,
            Primitive::Not => "not"@,
            Primitive::Print => "print"@,
            Primitive::Read => "read"@,
            Primitive::TypeOf => "typeof"@,
            Primitive::Get => "get"@,
            Primitive::Len => "len"@,
            Primitive::Concat => "concat"@,
            Primitive::Range => "range"@,
            Primitive::Parse => "parse"@,
        }
    }

    /// The name under which the operation is installed.
    pub fn name(self) -> (r: &'static str)
        ensures
            r@ == self.symbol(),
    {
        match self {
            Primitive::Add => "+",
            Primitive::Sub => "-",
            Primitive::Mul => "*",
            Primitive::Div => "/",
            Primitive::Pow => "^",
            Primitive::Greater => ">",
            Primitive::Less => "<",
            Primitive::GreaterEq => ">=",
            Primitive::LessEq => "<=",
            Primitive::Abs => "abs",
            Primitive::And => "&&",
            Primitive::Or => "||",
            Primitive::Equal => "==",
            Primitive::NotEqual => "!=",
            Primitive::Not => "not",
            Primitive::Print => "print",
            Primitive::Read => "read",
            Primitive::TypeOf => "typeof",
            Primitive::Get => "get",
            Primitive::Len => "len",
            Primitive::Concat => "concat",
            Primitive::Range => "range",
            Primitive::Parse => "parse",
        }
    }
}

/// A built-in callable, tagged by what it is given: a `Pure` one the
/// argument values only, a `WithEnv` one also the frame in which the call
/// stands. No built-in of this library reads that frame, so both kinds come
/// to the same when applied.
#[derive(Debug, Clone, Copy, PartialEq, Eq, Structural)]
pub enum NativeFunction {
    Pure(Primitive),
    WithEnv(Primitive),
}

impl NativeFunction {
    /// The operation behind the callable.
    pub open spec fn primitive(self) -> Primitive {
        match self {
            NativeFunction::Pure(p) => p,
            NativeFunction::WithEnv(p) => p,
        }
    }
}

/// The mathematical form of a pending answer.
pub enum PendingV {
    Literal { text: Seq<char> },
    Parsed,
    Number,
    Product { rest: Seq<u32> },
    Truth,
    PrintText { args: Seq<ValueV> },
    Printed,
    Line,
    Element { target: ValueV },
    Length,
    Concat { args: Seq<ValueV> },
    RangeBounds,
    RangeItems { count: usize },
}

/// What is to be done with the answer to a request that is under way.
#[derive(Debug, PartialEq)]
pub enum Pending {
    /// The number that a numeral denotes becomes the numeral's value.
    Literal { text: String },
    /// The number read from a string becomes the result; no number, nil.
    Parsed,
    /// The number becomes the result.
    Number,
    /// The number is multiplied by the factors that are left, one by one.
    Product { rest: Vec<u32> },
    /// The truth value becomes the result.
    Truth,
    /// The texts of the numbers go into the line to print.
    PrintText { args: Vec<Value> },
    /// The line is out; the result is nil.
    Printed,
    /// The line that was read becomes the result, without its line end.
    Line,
    /// The integer picks the item of the sequence.
    Element { target: Value },
    /// The number of the length becomes the result.
    Length,
    /// The texts of the numbers go into the concatenation.
    Concat { args: Vec<Value> },
    /// The two integers bound the range.
    RangeBounds,
    /// The numbers are the items of the range.
    RangeItems { count: usize },
}

impl DeepView for Pending {
    type V = PendingV;

    open spec fn deep_view(&self) -> PendingV {
        match self {
            Pending::Literal { text } => PendingV::Literal { text: text@ },
            Pending::Parsed => PendingV::Parsed,
            Pending::Number => PendingV::Number,
            Pending::Product { rest } => PendingV::Product { rest: rest@ },
            Pending::Truth => PendingV::Truth,
            Pending::PrintText { args } => PendingV::PrintText { args: args.deep_view() },
            Pending::Printed => PendingV::Printed,
            Pending::Line => PendingV::Line,
            Pending::Element { target } => PendingV::Element { target: target@ },
            Pending::Length => PendingV::Length,
            Pending::Concat { args } => PendingV::Concat { args: args.deep_view() },
            Pending::RangeBounds => PendingV::RangeBounds,
            Pending::RangeItems { count } => PendingV::RangeItems { count: *count },
        }
    }
}

impl View for Pending {
    type V = PendingV;

    open spec fn view(&self) -> PendingV {
        self.deep_view()
    }
}

/// The mathematical form of an outcome.
pub enum OutcomeV {
    Value(ValueV),
    Ask(RequestV, PendingV),
    Fail(ErrorV),
}

/// How far a built-in got: to its result, to a request for the host, or to
/// a fatal error.
#[derive(Debug, PartialEq)]
pub enum Outcome {
    Value(Value),
    Ask(Request, Pending),
    Fail(Error),
}

impl DeepView for Outcome {
    type V = OutcomeV;

    open spec fn deep_view(&self) -> OutcomeV {
        match self {
            Outcome::Value(v) => OutcomeV::Value(v@),
            Outcome::Ask(r, p) => OutcomeV::Ask(r@, p@),
            Outcome::Fail(e) => OutcomeV::Fail(e@),
        }
    }
}

impl View for Outcome {
    type V = OutcomeV;

    open spec fn view(&self) -> OutcomeV {
        self.deep_view()
    }
}

/// The argument at position `i`; a missing argument counts as nil.
pub open spec fn operand(args: Seq<ValueV>, i: int) -> ValueV {
    if 0 <= i < args.len() {
        args[i]
    } else {
        ValueV::Nil
    }
}

/// The error of a built-in that was given the wrong kind of operand.
pub open spec fn type_error(p: Primitive) -> OutcomeV {
    OutcomeV::Fail(ErrorV { kind: ErrorKind::TypeMismatch, subject: p.symbol() })
}

/// The error of a reply that does not answer the request.
pub open spec fn host_fault() -> OutcomeV {
    OutcomeV::Fail(ErrorV { kind: ErrorKind::HostFault, subject: Seq::empty() })
}

/// A length as an integer for the host.
pub open spec fn count_of(len: nat) -> i64 {
    if len <= i64::MAX {
        len as i64
    } else {
        i64::MAX
    }
}

/// The factors of a product after the first two: the numbers among the
/// arguments that follow the second, in order.
pub open spec fn later_factors(args: Seq<ValueV>) -> Seq<u32> {
    if args.len() > 2 {
        numbers_only(args.skip(2))
    } else {
        Seq::empty()
    }
}

/// Arithmetic, ordering and absolute value, all of it computed by the host.
///
/// Each of `+ - * / ^ > < >= <=` takes its first two arguments. It is a
/// type error if and only if one of the two is missing or is no number;
/// no operand is made out of a string, a boolean or nil. `abs` takes its
/// first argument in the same way.
///
/// Arguments after the second are ignored, but for `*`: the numbers among
/// them are multiplied in, from the left, so that `(* a a a)` is the cube
/// of `a`; what is no number among them is passed over.
pub open spec fn math_spec(p: Primitive, args: Seq<ValueV>) -> OutcomeV {
    match (p, operand(args, 0), operand(args, 1)) {
        (Primitive::Add, ValueV::Number(a), ValueV::Number(b)) => OutcomeV::Ask(
            RequestV::Binary(BinaryOp::Add, a, b),
            PendingV::Number,
        ),
        (Primitive::Sub, ValueV::Number(a), ValueV::Number(b)) => OutcomeV::Ask(
            RequestV::Binary(BinaryOp::Sub, a, b),
            PendingV::Number,
        ),
        (Primitive::Mul, ValueV::Number(a), ValueV::Number(b)) => OutcomeV::Ask(
            RequestV::Binary(BinaryOp::Mul, a, b),
            PendingV::Product { rest: later_factors(args) },
        ),
        (Primitive::Div, ValueV::Number(a), ValueV::Number(b)) => OutcomeV::Ask(
            RequestV::Binary(BinaryOp::Div, a, b),
            PendingV::Number,
        ),
        (Primitive::Pow, ValueV::Number(a), ValueV::Number(b)) => OutcomeV::Ask(
            RequestV::Binary(BinaryOp::Pow, a, b),
            PendingV::Number,
        ),
        (Primitive::Greater, ValueV::Number(a), ValueV::Number(b)) => OutcomeV::Ask(
            RequestV::Relate(Relation::Greater, a, b),
            PendingV::Truth,
        ),
        (Primitive::Less, ValueV::Number(a), ValueV::Number(b)) => OutcomeV::Ask(
            RequestV::Relate(Relation::Less, a, b),
            PendingV::Truth,
        ),
        (Primitive::GreaterEq, ValueV::Number(a), ValueV::Number(b)) => OutcomeV::Ask(
            RequestV::Relate(Relation::GreaterEq, a, b),
            PendingV::Truth,
        ),
        (Primitive::LessEq, ValueV::Number(a), ValueV::Number(b)) => OutcomeV::Ask(
            RequestV::Relate(Relation::LessEq, a, b),
            PendingV::Truth,
        ),
        (Primitive::Abs, ValueV::Number(a), _) => OutcomeV::Ask(RequestV::Abs(a), PendingV::Number),
        _ => type_error(p),
    }
}

/// Logic on booleans, and equality of two booleans, two numbers or two
/// strings. Equality of numbers is decided by the host.
pub open spec fn logical_spec(p: Primitive, args: Seq<ValueV>) -> OutcomeV {
    match (p, operand(args, 0), operand(args, 1)) {
        (Primitive::And, ValueV::Bool(a), ValueV::Bool(b)) => OutcomeV::Value(ValueV::Bool(a && b)),
        (Primitive::Or, ValueV::Bool(a), ValueV::Bool(b)) => OutcomeV::Value(ValueV::Bool(a || b)),
        (Primitive::Not, ValueV::Bool(a), _) => OutcomeV::Value(ValueV::Bool(!a)),
        (Primitive::Equal, ValueV::Bool(a), ValueV::Bool(b)) => OutcomeV::Value(
            ValueV::Bool(a == b),
        ),
        (Primitive::Equal, ValueV::Str(a), ValueV::Str(b)) => OutcomeV::Value(ValueV::Bool(a == b)),
        (Primitive::Equal, ValueV::Number(a), ValueV::Number(b)) => OutcomeV::Ask(
            RequestV::Relate(Relation::Equal, a, b),
            PendingV::Truth,
        ),
        (Primitive::NotEqual, ValueV::Bool(a), ValueV::Bool(b)) => OutcomeV::Value(
            ValueV::Bool(a != b),
        ),
        (Primitive::NotEqual, ValueV::Str(a), ValueV::Str(b)) => OutcomeV::Value(
            ValueV::Bool(a != b),
        ),
        (Primitive::NotEqual, ValueV::Number(a), ValueV::Number(b)) => OutcomeV::Ask(
            RequestV::Relate(Relation::NotEqual, a, b),
            PendingV::Truth,
        ),
        _ => type_error(p),
    }
}

/// `print` first has the numbers among its arguments turned into text;
/// `read` asks for a line. (Asked of another built-in, this is a type
/// error; so it is with the groups below.)
pub open spec fn io_spec(p: Primitive, args: Seq<ValueV>) -> OutcomeV {
    match p {
        Primitive::Print => OutcomeV::Ask(
            RequestV::Format(numbers_in(args)),
            PendingV::PrintText { args },
        ),
        Primitive::Read => OutcomeV::Ask(RequestV::Read, PendingV::Line),
        _ => type_error(p),
    }
}

/// The name of a value's kind, where it has one.
pub open spec fn kind_name(v: ValueV) -> Option<Seq<char>> {
    match v {
        ValueV::Number(_) => Some("Number"@),
        ValueV::Str(_) => Some("String"@),
        ValueV::Array(_) => Some("Array"@),
        ValueV::Function { .. } => Some("Function"@),
        ValueV::NativeFunction(_) => Some("Function"@),
        ValueV::Bool(_) => Some("Bool"@),
        _ => None,
    }
}

/// `typeof` names the kind of its argument. `get` reads a field of an
/// object by name, or an item of an array or a string by a number, whose
/// integer part the host supplies.
pub open spec fn language_spec(p: Primitive, args: Seq<ValueV>) -> OutcomeV {
    let a = operand(args, 0);
    let b = operand(args, 1);
    match p {
        Primitive::TypeOf => match kind_name(a) {
            Some(name) => OutcomeV::Value(ValueV::Str(name)),
            None => type_error(p),
        },
        Primitive::Get => match a {
            ValueV::Object { class, attrs } => match b {
                ValueV::Str(field) => match find(attrs, field) {
                    Some(v) => OutcomeV::Value(v),
                    None => OutcomeV::Value(ValueV::Nil),
                },
                _ => OutcomeV::Value(ValueV::Nil),
            },
            ValueV::Array(_) => match b {
                ValueV::Number(n) => OutcomeV::Ask(
                    RequestV::Truncate(seq![n]),
                    PendingV::Element { target: a },
                ),
                _ => type_error(p),
            },
            ValueV::Str(_) => match b {
                ValueV::Number(n) => OutcomeV::Ask(
                    RequestV::Truncate(seq![n]),
                    PendingV::Element { target: a },
                ),
                _ => type_error(p),
            },
            _ => type_error(p),
        },
        _ => type_error(p),
    }
}

/// `len` has the host turn a length into a number; `concat` joins the
/// printed forms of its arguments if the first is a string, and is nil
/// otherwise; `range` has the host cut its two bounds down to integers.
pub open spec fn array_spec(p: Primitive, args: Seq<ValueV>) -> OutcomeV {
    let a = operand(args, 0);
    let b = operand(args, 1);
    match p {
        Primitive::Len => match a {
            ValueV::Array(items) => OutcomeV::Ask(
                RequestV::Widen(seq![count_of(items.len())]),
                PendingV::Length,
            ),
            ValueV::Str(s) => OutcomeV::Ask(
                RequestV::Widen(seq![count_of(s.len())]),
                PendingV::Length,
            ),
            _ => type_error(p),
        },
        Primitive::Concat => match a {
            ValueV::Str(_) => OutcomeV::Ask(
                RequestV::Format(numbers_in(args)),
                PendingV::Concat { args },
            ),
            _ => OutcomeV::Value(ValueV::Nil),
        },
        Primitive::Range => match (a, b) {
            (ValueV::Number(x), ValueV::Number(y)) => OutcomeV::Ask(
                RequestV::Truncate(seq![x, y]),
                PendingV::RangeBounds,
            ),
            _ => type_error(p),
        },
        _ => type_error(p),
    }
}

/// `parse` has the host read a string as a number; anything but a string
/// gives nil.
pub open spec fn string_spec(p: Primitive, args: Seq<ValueV>) -> OutcomeV {
    match (p, operand(args, 0)) {
        (Primitive::Parse, ValueV::Str(s)) => OutcomeV::Ask(RequestV::Decode(s), PendingV::Parsed),
        (Primitive::Parse, _) => OutcomeV::Value(ValueV::Nil),
        _ => type_error(p),
    }
}

/// What applying the built-in `p` to `args` comes to.
pub open spec fn apply_spec(p: Primitive, args: Seq<ValueV>) -> OutcomeV {
    match p {
        Primitive::Add | Primitive::Sub | Primitive::Mul | Primitive::Div | Primitive::Pow
        | Primitive::Greater | Primitive::Less | Primitive::GreaterEq | Primitive::LessEq
        | Primitive::Abs => math_spec(p, args),
        Primitive::And | Primitive::Or | Primitive::Equal | Primitive::NotEqual
        | Primitive::Not => logical_spec(p, args),
        Primitive::Print | Primitive::Read => io_spec(p, args),
        Primitive::TypeOf | Primitive::Get => language_spec(p, args),
        Primitive::Len | Primitive::Concat | Primitive::Range => array_spec(p, args),
        Primitive::Parse => string_spec(p, args),
    }
}

/// A line without its line end: a final line feed, and a carriage return
/// before it, are dropped.
pub open spec fn strip_line_end(s: Seq<char>) -> Seq<char> {
    if s.len() > 0 && s.last() == '\n' {
        let t = s.drop_last();
        if t.len() > 0 && t.last() == '\r' {
            t.drop_last()
        } else {
            t
        }
    } else {
        s
    }
}

/// The item of a sequence value at an integer position; nil where the
/// position is outside the sequence. An item of a string is the string of
/// that one character.
pub open spec fn element_at(target: ValueV, i: i64) -> ValueV {
    match target {
        ValueV::Array(items) => if 0 <= i < items.len() {
            items[i as int]
        } else {
            ValueV::Nil
        },
        ValueV::Str(s) => if 0 <= i < s.len() {
            ValueV::Str(seq![s[i as int]])
        } else {
            ValueV::Nil
        },
        _ => ValueV::Nil,
    }
}

/// An integer brought into the range of 32-bit signed integers.
pub open spec fn clamp32(i: i64) -> i64 {
    if i < i32::MIN {
        i32::MIN as i64
    } else if i > i32::MAX {
        i32::MAX as i64
    } else {
        i
    }
}

/// The integers from `lo` up to, but not including, `hi`.
pub open spec fn span(lo: i64, hi: i64) -> Seq<i64> {
    Seq::new(
        if hi > lo {
            (hi - lo) as nat
        } else {
            0
        },
        |k: int| (lo + k) as i64,
    )
}

/// Each number as a value.
pub open spec fn number_values(ns: Seq<u32>) -> Seq<ValueV> {
    Seq::new(ns.len(), |k: int| ValueV::Number(ns[k]))
}

/// What the answer `reply` to the request behind `pending` comes to. A
/// reply of another shape than the request asks for is a fault of the host.
pub open spec fn resume_spec(pending: PendingV, reply: ReplyV) -> OutcomeV {
    match (pending, reply) {
        (PendingV::Literal { text }, ReplyV::Number(n)) => OutcomeV::Value(ValueV::Number(n)),
        (PendingV::Literal { text }, ReplyV::Absent) => OutcomeV::Fail(
            ErrorV { kind: ErrorKind::MalformedNumber, subject: text },
        ),
        (PendingV::Parsed, ReplyV::Number(n)) => OutcomeV::Value(ValueV::Number(n)),
        (PendingV::Parsed, ReplyV::Absent) => OutcomeV::Value(ValueV::Nil),
        (PendingV::Number, ReplyV::Number(n)) => OutcomeV::Value(ValueV::Number(n)),
        (PendingV::Product { rest }, ReplyV::Number(n)) => if rest.len() == 0 {
            OutcomeV::Value(ValueV::Number(n))
        } else {
            OutcomeV::Ask(
                RequestV::Binary(BinaryOp::Mul, n, rest[0]),
                PendingV::Product { rest: rest.skip(1) },
            )
        },
        (PendingV::Truth, ReplyV::Bool(b)) => OutcomeV::Value(ValueV::Bool(b)),
        (PendingV::PrintText { args }, ReplyV::Texts(texts)) => if texts.len() == numbers_in(
            args,
        ).len() {
            OutcomeV::Ask(RequestV::Print(render_list(args, " "@, texts, 0).0), PendingV::Printed)
        } else {
            host_fault()
        },
        (PendingV::Printed, ReplyV::Nothing) => OutcomeV::Value(ValueV::Nil),
        (PendingV::Line, ReplyV::Text(s)) => OutcomeV::Value(ValueV::Str(strip_line_end(s))),
        (PendingV::Element { target }, ReplyV::Integers(is)) => if is.len() == 1 {
            OutcomeV::Value(element_at(target, is[0]))
        } else {
            host_fault()
        },
        (PendingV::Length, ReplyV::Numbers(ns)) => if ns.len() == 1 {
            OutcomeV::Value(ValueV::Number(ns[0]))
        } else {
            host_fault()
        },
        (PendingV::Concat { args }, ReplyV::Texts(texts)) => if texts.len() == numbers_in(
            args,
        ).len() {
            OutcomeV::Value(ValueV::Str(render_list(args, ""@, texts, 0).0))
        } else {
            host_fault()
        },
        (PendingV::RangeBounds, ReplyV::Integers(is)) => if is.len() == 2 {
            let items = span(clamp32(is[0]), clamp32(is[1]));
            OutcomeV::Ask(RequestV::Widen(items), PendingV::RangeItems { count: items.len() as usize })
        } else {
            host_fault()
        },
        (PendingV::RangeItems { count }, ReplyV::Numbers(ns)) => if ns.len() == count {
            OutcomeV::Value(ValueV::Array(number_values(ns)))
        } else {
            host_fault()
        },
        _ => host_fault(),
    }
}

/// The binding under which a built-in is installed.
pub open spec fn entry(p: Primitive) -> (Seq<char>, ValueV) {
    (p.symbol(), ValueV::NativeFunction(NativeFunction::Pure(p)))
}

/// The bindings of a list of built-ins, in order.
pub open spec fn table(ps: Seq<Primitive>) -> Seq<(Seq<char>, ValueV)> {
    Seq::new(ps.len(), |i: int| entry(ps[i]))
}

/// The built-ins in the order in which they are installed.
pub open spec fn all_primitives() -> Seq<Primitive> {
    seq![
        Primitive::Add,
        Primitive::Sub,
        Primitive::Mul,
        Primitive::Div,
        Primitive::Pow,
        Primitive::Greater,
        Primitive::Less,
        Primitive::GreaterEq,
        Primitive::LessEq,
        Primitive::Abs,
        Primitive::And,
        Primitive::Or,
        Primitive::Equal,
        Primitive::NotEqual,
        Primitive::Not,
        Primitive::Print,
        Primitive::Read,
        Primitive::TypeOf,
        Primitive::Get,
        Primitive::Len,
        Primitive::Concat,
        Primitive::Range,
        Primitive::Parse,
    ]
}

/// What tells the names of the built-ins apart: the length and the first
/// two characters.
pub open spec fn mark(name: Seq<char>) -> (nat, char, char) {
    (
        name.len(),
        if name.len() > 0 {
            name[0]
        } else {
            ' '
        },
        if name.len() > 1 {
            name[1]
        } else {
            ' '
        },
    )
}

/// No two built-ins share a name.
pub proof fn lemma_symbols_distinct(p: Primitive, q: Primitive)
    requires
        p != q,
    ensures
        p.symbol() != q.symbol(),
{
    reveal_strlit("+");
    reveal_strlit("-");
    reveal_strlit("*");
    reveal_strlit("/");
    reveal_strlit("^");
    reveal_strlit(">");
    reveal_strlit("<");
    reveal_strlit(">=");
    reveal_strlit("<=");
    reveal_strlit("abs");
    reveal_strlit("&&");
    reveal_strlit("||");
    reveal_strlit("==");
    reveal_strlit("!=");
    reveal_strlit("not");
    reveal_strlit("print");
    reveal_strlit("read");
    reveal_strlit("typeof");
    reveal_strlit("get");
    reveal_strlit("len");
    reveal_strlit("concat");
    reveal_strlit("range");
    reveal_strlit("parse");
    assert(mark(p.symbol()) != mark(q.symbol()));
}

/// The position of a built-in in the order of installation.
pub open spec fn rank(p: Primitive) -> int {
    match p {
        Primitive::Add => 0,
        Primitive::Sub => 1,
        Primitive::Mul => 2,
        Primitive::Div => 3,
        Primitive::Pow => 4,
        Primitive::Greater => 5,
        Primitive::Less => 6,
        Primitive::GreaterEq => 7,
        Primitive::LessEq => 8,
        Primitive::Abs => 9,
        Primitive::And => 10,
        Primitive::Or => 11,
        Primitive::Equal => 12,
        Primitive::NotEqual => 13,
        Primitive::Not => 14,
        Primitive::Print => 15,
        Primitive::Read => 16,
        Primitive::TypeOf => 17,
        Primitive::Get => 18,
        Primitive::Len => 19,
        Primitive::Concat => 20,
        Primitive::Range => 21,
        Primitive::Parse => 22,
    }
}

/// The table of all built-ins holds each name once.
pub proof fn lemma_table_distinct()
    ensures
        distinct_keys(table(all_primitives())),
{
    let all = all_primitives();
    let entries = table(all);
    assert forall|i: int, j: int| 0 <= i < j < entries.len() implies entries[i].0
        != entries[j].0 by {
        assert(rank(all[i]) == i);
        assert(rank(all[j]) == j);
        lemma_symbols_distinct(all[i], all[j]);
    }
}

/// Adds the binding of one built-in to a table.
fn add_entry(map: &mut Vec<(String, Value)>, p: Primitive)
    ensures
        final(map).deep_view() == old(map).deep_view().push(entry(p)),
{
    map.push((String::from_str(p.name()), Value::NativeFunction(NativeFunction::Pure(p))));
    assert(map.deep_view() =~= old(map).deep_view().push(entry(p)));
}

/// The number at position `i` of the arguments, if a number stands there.
fn number_at(args: &Vec<Value>, i: usize) -> (r: Option<u32>)
    ensures
        r == match operand(args.deep_view(), i as int) {
            ValueV::Number(n) => Some(n),
            _ => None::<u32>,
        },
{
    if i < args.len() {
        match &args[i] {
            Value::Number(n) => Some(*n),
            _ => None,
        }
    } else {
        None
    }
}

/// The boolean at position `i` of the arguments, if one stands there.
fn bool_at(args: &Vec<Value>, i: usize) -> (r: Option<bool>)
    ensures
        r == match operand(args.deep_view(), i as int) {
            ValueV::Bool(b) => Some(b),
            _ => None::<bool>,
        },
{
    if i < args.len() {
        match &args[i] {
            Value::Bool(b) => Some(*b),
            _ => None,
        }
    } else {
        None
    }
}

/// Whether strings stand at the first two positions, and if so whether
/// they are equal.
fn same_strings(args: &Vec<Value>) -> (r: Option<bool>)
    ensures
        r == match (operand(args.deep_view(), 0), operand(args.deep_view(), 1)) {
            (ValueV::Str(a), ValueV::Str(b)) => Some(a == b),
            _ => None::<bool>,
        },
{
    if args.len() >= 2 {
        match (&args[0], &args[1]) {
            (Value::String(a), Value::String(b)) => Some(*a == *b),
            _ => None,
        }
    } else {
        None
    }
}

/// A length as an integer for the host.
fn count(len: usize) -> (r: i64)
    ensures
        r == count_of(len as nat),
{
    let wide: u64 = len as u64;
    if wide <= 0x7fff_ffff_ffff_ffff {
        wide as i64
    } else {
        0x7fff_ffff_ffff_ffff
    }
}

/// An integer brought into the range of 32-bit signed integers.
fn clamp(i: i64) -> (r: i64)
    ensures
        r == clamp32(i),
{
    if i < -0x8000_0000 {
        -0x8000_0000
    } else if i > 0x7fff_ffff {
        0x7fff_ffff
    } else {
        i
    }
}

/// A line without its line end.
fn strip(line: String) -> (r: String)
    ensures
        r@ == strip_line_end(line@),
{
    let text = line.as_str();
    let len = text.unicode_len();
    if len > 0 && text.get_char(len - 1) == '\n' {
        if len > 1 && text.get_char(len - 2) == '\r' {
            let r = String::from_str(text.substring_char(0, len - 2));
            assert(r@ =~= strip_line_end(line@));
            r
        } else {
            let r = String::from_str(text.substring_char(0, len - 1));
            assert(r@ =~= strip_line_end(line@));
            r
        }
    } else {
        line
    }
}

/// The item of a sequence value at an integer position.
fn element(target: Value, i: i64) -> (r: Value)
    ensures
        r@ == element_at(target@, i),
{
    if i < 0 {
        return Value::Nil;
    }
    let at: u64 = i as u64;
    match target {
        Value::Array(items) => {
            proof {
                lemma_array_view(items);
            }
            let len: u64 = items.len() as u64;
            if at < len {
                let k: usize = at as usize;
                items[k].clone()
            } else {
                Value::Nil
            }
        },
        Value::String(s) => {
            let text = s.as_str();
            let len: u64 = text.unicode_len() as u64;
            if at < len {
                let k: usize = at as usize;
                let r = String::from_str(text.substring_char(k, k + 1));
                assert(r@ =~= seq![s@[i as int]]);
                Value::String(r)
            } else {
                Value::Nil
            }
        },
        _ => Value::Nil,
    }
}

/// The integers from `lo` up to, but not including, `hi`.
fn integers(lo: i64, hi: i64) -> (r: Vec<i64>)
    requires
        i32::MIN <= lo <= i32::MAX,
        i32::MIN <= hi <= i32::MAX,
    ensures
        r@ == span(lo, hi),
{
    let mut out: Vec<i64> = Vec::new();
    let mut k: i64 = lo;
    while k < hi
        invariant
            lo <= k,
            hi > lo ==> k <= hi,
            hi <= lo ==> k == lo,
            i32::MIN <= lo <= i32::MAX,
            i32::MIN <= hi <= i32::MAX,
            out@ == span(lo, k),
        decreases hi - k,
    {
        out.push(k);
        k = k + 1;
        assert(out@ =~= span(lo, k));
    }
    assert(out@ =~= span(lo, hi));
    out
}

/// Each number as a value.
pub fn numbers_as_values(ns: &Vec<u32>) -> (r: Vec<Value>)
    ensures
        r.deep_view() == number_values(ns@),
{
    let mut out: Vec<Value> = Vec::new();
    let mut i: usize = 0;
    while i < ns.len()
        invariant
            i <= ns.len(),
            out.len() == i,
            forall|k: int| 0 <= k < i ==> out[k]@ == ValueV::Number(ns[k]),
        decreases ns.len() - i,
    {
        out.push(Value::Number(ns[i]));
        i += 1;
    }
    assert(out.deep_view() =~= number_values(ns@));
    out
}

/// How many numbers printing the values shows.
fn number_count(args: &Vec<Value>) -> (r: usize)
    ensures
        r == numbers_in(args.deep_view()).len(),
{
    let mut numbers: Vec<u32> = Vec::new();
    collect_numbers(args, &mut numbers);
    assert(numbers@ =~= numbers_in(args.deep_view()));
    numbers.len()
}

/// The built-in library: the names that the root frame binds at start, and
/// what each of them computes.
pub struct Stdlib;

impl Stdlib {
    /// Takes up a built-in where it left off, with the host's answer.
    pub fn resume(pending: Pending, reply: Reply) -> (r: Outcome)
        ensures
            r@ == resume_spec(pending@, reply@),
    {
        match (pending, reply) {
            (Pending::Literal { text }, Reply::Number(n)) => Outcome::Value(Value::Number(n)),
            (Pending::Literal { text }, Reply::Absent) => Outcome::Fail(
                Error { kind: ErrorKind::MalformedNumber, subject: text },
            ),
            (Pending::Parsed, Reply::Number(n)) => Outcome::Value(Value::Number(n)),
            (Pending::Parsed, Reply::Absent) => Outcome::Value(Value::Nil),
            (Pending::Number, Reply::Number(n)) => Outcome::Value(Value::Number(n)),
            (Pending::Product { rest }, Reply::Number(n)) => {
                if rest.len() == 0 {
                    Outcome::Value(Value::Number(n))
                } else {
                    let mut rest = rest;
                    let ghost all = rest@;
                    let next = rest.remove(0);
                    assert(rest@ =~= all.skip(1));
                    Outcome::Ask(
                        Request::Binary(BinaryOp::Mul, n, next),
                        Pending::Product { rest },
                    )
                }
            },
            (Pending::Truth, Reply::Bool(b)) => Outcome::Value(Value::Bool(b)),
            (Pending::PrintText { args }, Reply::Texts(texts)) => {
                if texts.len() == number_count(&args) {
                    let mut line = String::new();
                    let _ = write_list(&args, " ", &texts, 0, &mut line);
                    assert(line@ =~= render_list(
                        args.deep_view(),
                        " "@,
                        texts.deep_view(),
                        0,
                    ).0);
                    Outcome::Ask(Request::Print(line), Pending::Printed)
                } else {
                    Self::fault()
                }
            },
            (Pending::Printed, Reply::Nothing) => Outcome::Value(Value::Nil),
            (Pending::Line, Reply::Text(s)) => Outcome::Value(Value::String(strip(s))),
            (Pending::Element { target }, Reply::Integers(is)) => {
                if is.len() == 1 {
                    Outcome::Value(element(target, is[0]))
                } else {
                    Self::fault()
                }
            },
            (Pending::Length, Reply::Numbers(ns)) => {
                if ns.len() == 1 {
                    Outcome::Value(Value::Number(ns[0]))
                } else {
                    Self::fault()
                }
            },
            (Pending::Concat { args }, Reply::Texts(texts)) => {
                if texts.len() == number_count(&args) {
                    let mut all = String::new();
                    let _ = write_list(&args, "", &texts, 0, &mut all);
                    assert(all@ =~= render_list(args.deep_view(), ""@, texts.deep_view(), 0).0);
                    Outcome::Value(Value::String(all))
                } else {
                    Self::fault()
                }
            },
            (Pending::RangeBounds, Reply::Integers(is)) => {
                if is.len() == 2 {
                    let items = integers(clamp(is[0]), clamp(is[1]));
                    let count = items.len();
                    Outcome::Ask(Request::Widen(items), Pending::RangeItems { count })
                } else {
                    Self::fault()
                }
            },
            (Pending::RangeItems { count }, Reply::Numbers(ns)) => {
                if ns.len() == count {
                    let items = numbers_as_values(&ns);
                    proof {
                        lemma_array_view(items);
                    }
                    Outcome::Value(Value::Array(items))
                } else {
                    Self::fault()
                }
            },
            _ => Self::fault(),
        }
    }

    /// The error of a built-in that was given the wrong kind of operand.
    fn mismatch(p: Primitive) -> (r: Outcome)
        ensures
            r@ == type_error(p),
    {
        Outcome::Fail(Error { kind: ErrorKind::TypeMismatch, subject: String::from_str(p.name()) })
    }

    /// The error of a reply that does not answer the request.
    fn fault() -> (r: Outcome)
        ensures
            r@ == host_fault(),
    {
        Outcome::Fail(Error { kind: ErrorKind::HostFault, subject: String::new() })
    }

    /// Moves the bindings of `part` to the end of `map`.
    fn extend(map: &mut Vec<(String, Value)>, part: &mut Vec<(String, Value)>)
        ensures
            final(map).deep_view() == old(map).deep_view() + old(part).deep_view(),
    {
        map.append(part);
        assert(map.deep_view() =~= old(map).deep_view() + old(part).deep_view());
    }

    /// Every built-in binding, in the order in which they are installed.
    pub fn builtins() -> (r: Vec<(String, Value)>)
        ensures
            r.deep_view() == table(all_primitives()),
            distinct_keys(r.deep_view()),
    {
        proof {
            lemma_table_distinct();
        }
        let mut map = Self::math_symbol();
        let mut part = Self::logical_symbol();
        Self::extend(&mut map, &mut part);
        assert(map.deep_view() =~= table(all_primitives().subrange(0, 15)));
        let mut part = Self::io_functions();
        Self::extend(&mut map, &mut part);
        assert(map.deep_view() =~= table(all_primitives().subrange(0, 17)));
        let mut part = Self::language_functions();
        Self::extend(&mut map, &mut part);
        assert(map.deep_view() =~= table(all_primitives().subrange(0, 19)));
        let mut part = Self::array_functions();
        Self::extend(&mut map, &mut part);
        assert(map.deep_view() =~= table(all_primitives().subrange(0, 22)));
        let mut part = Self::string_functions();
        Self::extend(&mut map, &mut part);
        assert(map.deep_view() =~= table(all_primitives()));
        map
    }

    /// The bindings of arithmetic, ordering and absolute value.
    pub fn math_symbol() -> (r: Vec<(String, Value)>)
        ensures
            r.deep_view() == table(all_primitives().subrange(0, 10)),
    {
        let mut map: Vec<(String, Value)> = Vec::new();
        add_entry(&mut map, Primitive::Add);
        add_entry(&mut map, Primitive::Sub);
        add_entry(&mut map, Primitive::Mul);
        add_entry(&mut map, Primitive::Div);
        add_entry(&mut map, Primitive::Pow);
        add_entry(&mut map, Primitive::Greater);
        add_entry(&mut map, Primitive::Less);
        add_entry(&mut map, Primitive::GreaterEq);
        add_entry(&mut map, Primitive::LessEq);
        add_entry(&mut map, Primitive::Abs);
        assert(map.deep_view() =~= table(all_primitives().subrange(0, 10)));
        map
    }

    /// The bindings of logic and equality.
    pub fn logical_symbol() -> (r: Vec<(String, Value)>)
        ensures
            r.deep_view() == table(all_primitives().subrange(10, 15)),
    {
        let mut map: Vec<(String, Value)> = Vec::new();
        add_entry(&mut map, Primitive::And);
        add_entry(&mut map, Primitive::Or);
        add_entry(&mut map, Primitive::Equal);
        add_entry(&mut map, Primitive::NotEqual);
        add_entry(&mut map, Primitive::Not);
        assert(map.deep_view() =~= table(all_primitives().subrange(10, 15)));
        map
    }

    /// The bindings of input and output.
    pub fn io_functions() -> (r: Vec<(String, Value)>)
        ensures
            r.deep_view() == table(all_primitives().subrange(15, 17)),
    {
        let mut map: Vec<(String, Value)> = Vec::new();
        add_entry(&mut map, Primitive::Print);
        add_entry(&mut map, Primitive::Read);
        assert(map.deep_view() =~= table(all_primitives().subrange(15, 17)));
        map
    }

    /// The bindings of `typeof` and `get`.
    pub fn language_functions() -> (r: Vec<(String, Value)>)
        ensures
            r.deep_view() == table(all_primitives().subrange(17, 19)),
    {
        let mut map: Vec<(String, Value)> = Vec::new();
        add_entry(&mut map, Primitive::TypeOf);
        add_entry(&mut map, Primitive::Get);
        assert(map.deep_view() =~= table(all_primitives().subrange(17, 19)));
        map
    }

    /// The bindings of `len`, `concat` and `range`.
    pub fn array_functions() -> (r: Vec<(String, Value)>)
        ensures
            r.deep_view() == table(all_primitives().subrange(19, 22)),
    {
        let mut map: Vec<(String, Value)> = Vec::new();
        add_entry(&mut map, Primitive::Len);
        add_entry(&mut map, Primitive::Concat);
        add_entry(&mut map, Primitive::Range);
        assert(map.deep_view() =~= table(all_primitives().subrange(19, 22)));
        map
    }

    /// The binding of `parse`.
    pub fn string_functions() -> (r: Vec<(String, Value)>)
        ensures
            r.deep_view() == table(all_primitives().subrange(22, 23)),
    {
        let mut map: Vec<(String, Value)> = Vec::new();
        add_entry(&mut map, Primitive::Parse);
        assert(map.deep_view() =~= table(all_primitives().subrange(22, 23)));
        map
    }

    /// Applies a built-in to its arguments.
    pub fn apply(native: NativeFunction, args: Vec<Value>) -> (r: Outcome)
        ensures
            r@ == apply_spec(native.primitive(), args.deep_view()),
    {
        let p = match native {
            NativeFunction::Pure(p) => p,
            NativeFunction::WithEnv(p) => p,
        };
        match p {
            Primitive::Add
            | Primitive::Sub
            | Primitive::Mul
            | Primitive::Div
            | Primitive::Pow
            | Primitive::Greater
            | Primitive::Less
            | Primitive::GreaterEq
            | Primitive::LessEq
            | Primitive::Abs => Self::math(p, &args),
            Primitive::And
            | Primitive::Or
            | Primitive::Equal
            | Primitive::NotEqual
            | Primitive::Not => Self::logical(p, &args),
            Primitive::Print | Primitive::Read => Self::io(p, args),
            Primitive::TypeOf | Primitive::Get => Self::language(p, args),
            Primitive::Len | Primitive::Concat | Primitive::Range => Self::array(p, args),
            Primitive::Parse => Self::string(p, args),
        }
    }

    /// The factors of a product after the first two.
    fn factors(args: &Vec<Value>) -> (r: Vec<u32>)
        ensures
            r@ == later_factors(args.deep_view()),
    {
        let mut out: Vec<u32> = Vec::new();
        if args.len() <= 2 {
            return out;
        }
        let ghost rest = args.deep_view().skip(2);
        let mut i: usize = 2;
        while i < args.len()
            invariant
                2 <= i <= args.len(),
                rest == args.deep_view().skip(2),
                out@ == numbers_only(rest.take(i - 2)),
            decreases args.len() - i,
        {
            proof {
                assert(rest.take(i - 2 + 1).drop_last() =~= rest.take(i - 2));
                assert(rest.take(i - 2 + 1).last() == args[i as int]@);
            }
            match &args[i] {
                Value::Number(n) => {
                    out.push(*n);
                },
                _ => {},
            }
            i += 1;
        }
        assert(rest.take(args.len() - 2) =~= rest);
        out
    }

    /// Arithmetic, ordering and absolute value.
    pub fn math(p: Primitive, args: &Vec<Value>) -> (r: Outcome)
        ensures
            r@ == math_spec(p, args.deep_view()),
    {
        let first = number_at(args, 0);
        let second = number_at(args, 1);
        match (p, first, second) {
            (Primitive::Add, Some(a), Some(b)) => Outcome::Ask(
                Request::Binary(BinaryOp::Add, a, b),
                Pending::Number,
            ),
            (Primitive::Sub, Some(a), Some(b)) => Outcome::Ask(
                Request::Binary(BinaryOp::Sub, a, b),
                Pending::Number,
            ),
            (Primitive::Mul, Some(a), Some(b)) => Outcome::Ask(
                Request::Binary(BinaryOp::Mul, a, b),
                Pending::Product { rest: Self::factors(args) },
            ),
            (Primitive::Div, Some(a), Some(b)) => Outcome::Ask(
                Request::Binary(BinaryOp::Div, a, b),
                Pending::Number,
            ),
            (Primitive::Pow, Some(a), Some(b)) => Outcome::Ask(
                Request::Binary(BinaryOp::Pow, a, b),
                Pending::Number,
            ),
            (Primitive::Greater, Some(a), Some(b)) => Outcome::Ask(
                Request::Relate(Relation::Greater, a, b),
                Pending::Truth,
            ),
            (Primitive::Less, Some(a), Some(b)) => Outcome::Ask(
                Request::Relate(Relation::Less, a, b),
                Pending::Truth,
            ),
            (Primitive::GreaterEq, Some(a), Some(b)) => Outcome::Ask(
                Request::Relate(Relation::GreaterEq, a, b),
                Pending::Truth,
            ),
            (Primitive::LessEq, Some(a), Some(b)) => Outcome::Ask(
                Request::Relate(Relation::LessEq, a, b),
                Pending::Truth,
            ),
            (Primitive::Abs, Some(a), _) => Outcome::Ask(Request::Abs(a), Pending::Number),
            _ => Self::mismatch(p),
        }
    }

    /// Logic on booleans and equality.
    pub fn logical(p: Primitive, args: &Vec<Value>) -> (r: Outcome)
        ensures
            r@ == logical_spec(p, args.deep_view()),
    {
        let first = bool_at(args, 0);
        let second = bool_at(args, 1);
        match (p, first, second) {
            (Primitive::And, Some(a), Some(b)) => Outcome::Value(Value::Bool(a && b)),
            (Primitive::Or, Some(a), Some(b)) => Outcome::Value(Value::Bool(a || b)),
            (Primitive::Not, Some(a), _) => Outcome::Value(Value::Bool(!a)),
            (Primitive::Equal, Some(a), Some(b)) => Outcome::Value(Value::Bool(a == b)),
            (Primitive::NotEqual, Some(a), Some(b)) => Outcome::Value(Value::Bool(a != b)),
            (Primitive::Equal, _, _) => {
                match (number_at(args, 0), number_at(args, 1), same_strings(args)) {
                    (Some(a), Some(b), _) => Outcome::Ask(
                        Request::Relate(Relation::Equal, a, b),
                        Pending::Truth,
                    ),
                    (_, _, Some(same)) => Outcome::Value(Value::Bool(same)),
                    _ => Self::mismatch(p),
                }
            },
            (Primitive::NotEqual, _, _) => {
                match (number_at(args, 0), number_at(args, 1), same_strings(args)) {
                    (Some(a), Some(b), _) => Outcome::Ask(
                        Request::Relate(Relation::NotEqual, a, b),
                        Pending::Truth,
                    ),
                    (_, _, Some(same)) => Outcome::Value(Value::Bool(!same)),
                    _ => Self::mismatch(p),
                }
            },
            _ => Self::mismatch(p),
        }
    }

    /// `print` and `read`.
    pub fn io(p: Primitive, args: Vec<Value>) -> (r: Outcome)
        ensures
            r@ == io_spec(p, args.deep_view()),
    {
        match p {
            Primitive::Print => {
                let mut numbers: Vec<u32> = Vec::new();
                collect_numbers(&args, &mut numbers);
                assert(numbers@ =~= numbers_in(args.deep_view()));
                Outcome::Ask(Request::Format(numbers), Pending::PrintText { args })
            },
            Primitive::Read => Outcome::Ask(Request::Read, Pending::Line),
            _ => Self::mismatch(p),
        }
    }

    /// `typeof` and `get`.
    pub fn language(p: Primitive, args: Vec<Value>) -> (r: Outcome)
        ensures
            r@ == language_spec(p, args.deep_view()),
    {
        let mut args = args;
        let ghost all = args.deep_view();
        match p {
            Primitive::TypeOf => {
                if args.len() == 0 {
                    return Self::mismatch(p);
                }
                let name = match &args[0] {
                    Value::Number(_) => "Number",
                    Value::String(_) => "String",
                    Value::Array(_) => "Array",
                    Value::Function { .. } => "Function",
                    Value::NativeFunction(_) => "Function",
                    Value::Bool(_) => "Bool",
                    _ => {
                        return Self::mismatch(p);
                    },
                };
                Outcome::Value(Value::String(String::from_str(name)))
            },
            Primitive::Get => {
                if args.len() == 0 {
                    return Self::mismatch(p);
                }
                let index = number_at(&args, 1);
                match &args[0] {
                    Value::Object { class, attrs } => {
                        proof {
                            lemma_object_view(*class, *attrs);
                        }
                        if args.len() < 2 {
                            return Outcome::Value(Value::Nil);
                        }
                        match &args[1] {
                            Value::String(field) => match position(attrs, field) {
                                Some(i) => {
                                    assert(attrs.deep_view()[i as int].1 == attrs[i as int].1@);
                                    Outcome::Value(attrs[i].1.clone())
                                },
                                None => Outcome::Value(Value::Nil),
                            },
                            _ => Outcome::Value(Value::Nil),
                        }
                    },
                    Value::Array(_) | Value::String(_) => {
                        match index {
                            Some(n) => {
                                let target = args.swap_remove(0);
                                assert(target@ == all[0]);
                                let mut ns: Vec<u32> = Vec::new();
                                ns.push(n);
                                assert(ns@ =~= seq![n]);
                                Outcome::Ask(Request::Truncate(ns), Pending::Element { target })
                            },
                            None => Self::mismatch(p),
                        }
                    },
                    _ => Self::mismatch(p),
                }
            },
            _ => Self::mismatch(p),
        }
    }

    /// `len`, `concat` and `range`.
    pub fn array(p: Primitive, args: Vec<Value>) -> (r: Outcome)
        ensures
            r@ == array_spec(p, args.deep_view()),
    {
        match p {
            Primitive::Len => {
                if args.len() == 0 {
                    return Self::mismatch(p);
                }
                let len = match &args[0] {
                    Value::Array(items) => {
                        proof {
                            lemma_array_view(*items);
                        }
                        items.len()
                    },
                    Value::String(s) => s.as_str().unicode_len(),
                    _ => {
                        return Self::mismatch(p);
                    },
                };
                let mut is: Vec<i64> = Vec::new();
                is.push(count(len));
                assert(is@ =~= seq![count_of(len as nat)]);
                Outcome::Ask(Request::Widen(is), Pending::Length)
            },
            Primitive::Concat => {
                if args.len() == 0 {
                    return Outcome::Value(Value::Nil);
                }
                match &args[0] {
                    Value::String(_) => {
                        let mut numbers: Vec<u32> = Vec::new();
                        collect_numbers(&args, &mut numbers);
                        assert(numbers@ =~= numbers_in(args.deep_view()));
                        Outcome::Ask(Request::Format(numbers), Pending::Concat { args })
                    },
                    _ => Outcome::Value(Value::Nil),
                }
            },
            Primitive::Range => {
                match (number_at(&args, 0), number_at(&args, 1)) {
                    (Some(x), Some(y)) => {
                        let mut ns: Vec<u32> = Vec::new();
                        ns.push(x);
                        ns.push(y);
                        assert(ns@ =~= seq![x, y]);
                        Outcome::Ask(Request::Truncate(ns), Pending::RangeBounds)
                    },
                    _ => Self::mismatch(p),
                }
            },
            _ => Self::mismatch(p),
        }
    }

    /// `parse`.
    pub fn string(p: Primitive, args: Vec<Value>) -> (r: Outcome)
        ensures
            r@ == string_spec(p, args.deep_view()),
    {
        let mut args = args;
        match p {
            Primitive::Parse => {
                if args.len() == 0 {
                    return Outcome::Value(Value::Nil);
                }
                match args.swap_remove(0) {
                    Value::String(s) => Outcome::Ask(Request::Decode(s), Pending::Parsed),
                    _ => Outcome::Value(Value::Nil),
                }
            },
            _ => Self::mismatch(p),
        }
    }
}

} // verus!
