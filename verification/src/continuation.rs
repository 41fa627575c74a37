//! The state of the interpreter between two steps: what is done next (the
//! control) and what waits for the values to come (the continuations).

use vstd::prelude::*;
use crate::env::EnvV;
use crate::expr::{Expr, ExprV};
use crate::host::{Error, ErrorV};
use crate::stdlib::{NativeFunction, Pending, PendingV};
use crate::value::{Value, ValueV};

verus! {

/// The mathematical form of an inline test.
pub struct TestCaseV {
    pub args: Seq<ExprV>,
    pub expected: ExprV,
}

/// One inline test of a function: the argument expressions and the
/// expression of the expected result.
#[derive(Debug, PartialEq)]
pub struct TestCase {
    pub args: Vec<Expr>,
    pub expected: Expr,
}

impl DeepView for TestCase {
    type V = TestCaseV;

    open spec fn deep_view(&self) -> TestCaseV {
        TestCaseV { args: self.args.deep_view(), expected: self.expected@ }
    }
}

/// The mathematical form of a test run.
pub struct TestRunV {
    pub name: Seq<char>,
    pub params: Seq<Seq<char>>,
    pub body: ExprV,
    pub cases: Seq<TestCaseV>,
    pub index: usize,
    pub frame: usize,
}

/// The inline tests of a function that has just been defined in `frame`,
/// and the position of the one that is being run.
#[derive(Debug, PartialEq)]
pub struct TestRun {
    pub name: String,
    pub params: Vec<String>,
    pub body: Expr,
    pub cases: Vec<TestCase>,
    pub index: usize,
    pub frame: usize,
}

impl DeepView for TestRun {
    type V = TestRunV;

    open spec fn deep_view(&self) -> TestRunV {
        TestRunV {
            name: self.name@,
            params: self.params.deep_view(),
            body: self.body@,
            cases: self.cases.deep_view(),
            index: self.index,
            frame: self.frame,
        }
    }
}

/// The mathematical form of what follows a gathering.
pub enum ThenV {
    Array,
    Native { function: NativeFunction },
    Invoke { params: Seq<Seq<char>>, body: ExprV, func_env: usize },
    Construct { class: Seq<char>, fields: Seq<Seq<char>>, instance: Seq<char>, frame: usize },
    Let { names: Seq<Seq<char>>, form: Seq<ExprV>, child: usize, failed: bool },
    For { names: Seq<Seq<char>>, block: Option<ExprV>, child: usize },
    Test { run: TestRunV, scope: usize },
}

/// What is done with the values of a run of expressions once all of them
/// have been evaluated.
#[derive(Debug, PartialEq)]
pub enum Then {
    /// They are the items of an array.
    Array,
    /// They are the arguments of a built-in.
    Native { function: NativeFunction },
    /// They are the arguments of a user function.
    Invoke { params: Vec<String>, body: Expr, func_env: usize },
    /// They are the field values of a new object, bound as `instance`.
    Construct { class: String, fields: Vec<String>, instance: String, frame: usize },
    /// They are the values of the bindings of a `let`; `failed` tells that
    /// a malformed binding stands after them.
    Let { names: Vec<String>, form: Vec<Expr>, child: usize, failed: bool },
    /// They are the ranges of a `for`.
    For { names: Vec<String>, block: Option<Expr>, child: usize },
    /// They are the arguments of an inline test.
    Test { run: TestRun, scope: usize },
}

impl DeepView for Then {
    type V = ThenV;

    open spec fn deep_view(&self) -> ThenV {
        match self {
            Then::Array => ThenV::Array,
            Then::Native { function } => ThenV::Native { function: *function },
            Then::Invoke { params, body, func_env } => ThenV::Invoke {
                params: params.deep_view(),
                body: body@,
                func_env: *func_env,
            },
            Then::Construct { class, fields, instance, frame } => ThenV::Construct {
                class: class@,
                fields: fields.deep_view(),
                instance: instance@,
                frame: *frame,
            },
            Then::Let { names, form, child, failed } => ThenV::Let {
                names: names.deep_view(),
                form: form.deep_view(),
                child: *child,
                failed: *failed,
            },
            Then::For { names, block, child } => ThenV::For {
                names: names.deep_view(),
                block: block.deep_view(),
                child: *child,
            },
            Then::Test { run, scope } => ThenV::Test { run: run.deep_view(), scope: *scope },
        }
    }
}

/// The mathematical form of a continuation.
pub enum KontV {
    Gather { items: Seq<ExprV>, done: Seq<ValueV>, frame: usize, then: ThenV },
    Block { items: Seq<ExprV>, next: usize, frame: usize },
    Branch { form: Seq<ExprV>, frame: usize },
    Declare { name: Seq<char>, frame: usize },
    Assign { name: Seq<char>, frame: usize },
    AssignField {
        name: Seq<char>,
        class: Seq<char>,
        attrs: Seq<(Seq<char>, ValueV)>,
        field: Seq<char>,
        frame: usize,
    },
    ForLoop {
        names: Seq<Seq<char>>,
        columns: Seq<Seq<u32>>,
        index: usize,
        count: usize,
        body: ExprV,
        child: usize,
    },
    While { cond: ExprV, body: ExprV, frame: usize, child: usize, last: ValueV, in_body: bool },
    TestBody { run: TestRunV, scope: usize, expected: ExprV },
    TestExpected { run: TestRunV, actual: ValueV },
    TestVerdict { run: TestRunV },
}

/// What waits for the value of the expression under evaluation.
#[derive(Debug, PartialEq)]
pub enum Kont {
    /// A run of expressions is evaluated in order; `done` holds the values
    /// so far.
    Gather { items: Vec<Expr>, done: Vec<Value>, frame: usize, then: Then },
    /// A sequence of forms is evaluated from `next` on; the value of the
    /// last one is the result.
    Block { items: Vec<Expr>, next: usize, frame: usize },
    /// The condition of an `if` chooses the branch.
    Branch { form: Vec<Expr>, frame: usize },
    /// The value is introduced under `name`.
    Declare { name: String, frame: usize },
    /// The value is assigned to `name`.
    Assign { name: String, frame: usize },
    /// The value replaces one field of the object read from `name`.
    AssignField {
        name: String,
        class: String,
        attrs: Vec<(String, Value)>,
        field: String,
        frame: usize,
    },
    /// A `for` is about to start round `index` of `count`.
    ForLoop {
        names: Vec<String>,
        columns: Vec<Vec<u32>>,
        index: usize,
        count: usize,
        body: Expr,
        child: usize,
    },
    /// A `while` waits for its condition or, if `in_body`, for its body.
    While { cond: Expr, body: Expr, frame: usize, child: usize, last: Value, in_body: bool },
    /// An inline test waits for the function's result.
    TestBody { run: TestRun, scope: usize, expected: Expr },
    /// An inline test waits for the expected value.
    TestExpected { run: TestRun, actual: Value },
    /// An inline test waits for the host's word on two numbers.
    TestVerdict { run: TestRun },
}

impl DeepView for Kont {
    type V = KontV;

    open spec fn deep_view(&self) -> KontV {
        match self {
            Kont::Gather { items, done, frame, then } => KontV::Gather {
                items: items.deep_view(),
                done: done.deep_view(),
                frame: *frame,
                then: then.deep_view(),
            },
            Kont::Block { items, next, frame } => KontV::Block {
                items: items.deep_view(),
                next: *next,
                frame: *frame,
            },
            Kont::Branch { form, frame } => KontV::Branch { form: form.deep_view(), frame: *frame },
            Kont::Declare { name, frame } => KontV::Declare { name: name@, frame: *frame },
            Kont::Assign { name, frame } => KontV::Assign { name: name@, frame: *frame },
            Kont::AssignField { name, class, attrs, field, frame } => KontV::AssignField {
                name: name@,
                class: class@,
                attrs: attrs.deep_view(),
                field: field@,
                frame: *frame,
            },
            Kont::ForLoop { names, columns, index, count, body, child } => KontV::ForLoop {
                names: names.deep_view(),
                columns: columns.deep_view(),
                index: *index,
                count: *count,
                body: body@,
                child: *child,
            },
            Kont::While { cond, body, frame, child, last, in_body } => KontV::While {
                cond: cond@,
                body: body@,
                frame: *frame,
                child: *child,
                last: last@,
                in_body: *in_body,
            },
            Kont::TestBody { run, scope, expected } => KontV::TestBody {
                run: run.deep_view(),
                scope: *scope,
                expected: expected@,
            },
            Kont::TestExpected { run, actual } => KontV::TestExpected {
                run: run.deep_view(),
                actual: actual@,
            },
            Kont::TestVerdict { run } => KontV::TestVerdict { run: run.deep_view() },
        }
    }
}

/// The mathematical form of the control.
pub enum ControlV {
    Eval { expr: ExprV, frame: usize },
    Return(ValueV),
    Waiting(PendingV),
    Finished(ValueV),
    Failed(ErrorV),
}

/// What the interpreter does next.
#[derive(Debug, PartialEq)]
pub enum Control {
    /// Evaluate the expression in the frame.
    Eval { expr: Expr, frame: usize },
    /// Hand the value to whatever waits for it.
    Return(Value),
    /// Take the host's answer to the request that was made.
    Waiting(Pending),
    /// Nothing: the program has run to its end.
    Finished(Value),
    /// Nothing: the program has stopped on an error.
    Failed(Error),
}

impl DeepView for Control {
    type V = ControlV;

    open spec fn deep_view(&self) -> ControlV {
        match self {
            Control::Eval { expr, frame } => ControlV::Eval { expr: expr@, frame: *frame },
            Control::Return(v) => ControlV::Return(v@),
            Control::Waiting(p) => ControlV::Waiting(p@),
            Control::Finished(v) => ControlV::Finished(v@),
            Control::Failed(e) => ControlV::Failed(e@),
        }
    }
}

/// The mathematical form of the interpreter: the environment, what waits
/// for values (the innermost last) and what is done next.
pub struct MachineV {
    pub env: EnvV,
    pub stack: Seq<KontV>,
    pub control: ControlV,
}

impl MachineV {
    /// The same state with another environment.
    pub open spec fn with_env(self, env: EnvV) -> MachineV {
        MachineV { env, ..self }
    }
}

} // verus!
