//! What the interpreter does, step by step.
//!
//! The functions here say, over the mathematical forms of the state, what
//! one step leads to: each takes the environment and the continuations as
//! they are and gives the state after the step and what the step asks of
//! the driver. They are definitions, not code; the interpreter is proved
//! to follow them.

use vstd::prelude::*;
use crate::annotation::AnnotationV;
use crate::continuation::{ControlV, KontV, MachineV, TestCaseV, TestRunV, ThenV};
use crate::env::{EnvV, find, put};
use crate::expr::ExprV;
use crate::host::{ActionV, ErrorKind, ErrorV, Relation, ReplyV, RequestV};
use crate::stdlib::{
    OutcomeV,
    PendingV,
    all_primitives,
    apply_spec,
    number_values,
    resume_spec,
    table,
};
use crate::value::ValueV;

verus! {

/// The state that a step leads to, and what it asks of the driver.
pub type Moved = (MachineV, ActionV);

/// Goes on with `control`, asking nothing.
pub open spec fn proceed(env: EnvV, stack: Seq<KontV>, control: ControlV) -> Moved {
    (MachineV { env, stack, control }, ActionV::Continue)
}

/// Hands `v` to whatever waits for it.
pub open spec fn give(env: EnvV, stack: Seq<KontV>, v: ValueV) -> Moved {
    proceed(env, stack, ControlV::Return(v))
}

/// Stops on the error `e`.
pub open spec fn stop(env: EnvV, stack: Seq<KontV>, e: ErrorV) -> Moved {
    (MachineV { env, stack, control: ControlV::Failed(e) }, ActionV::Failed(e))
}

/// Stops on an error of `kind` about `subject`.
pub open spec fn fail(env: EnvV, stack: Seq<KontV>, kind: ErrorKind, subject: Seq<char>) -> Moved {
    stop(env, stack, ErrorV { kind, subject })
}

/// Goes on as the outcome of a built-in says: with its value, with a
/// request to the host, or with its error.
pub open spec fn settle(env: EnvV, stack: Seq<KontV>, outcome: OutcomeV) -> Moved {
    match outcome {
        OutcomeV::Value(v) => give(env, stack, v),
        OutcomeV::Ask(request, pending) => (
            MachineV { env, stack, control: ControlV::Waiting(pending) },
            ActionV::Request(request),
        ),
        OutcomeV::Fail(e) => stop(env, stack, e),
    }
}

/// The names among `items`: every symbol, in order; anything else is
/// passed over.
pub open spec fn symbols_of(items: Seq<ExprV>) -> Seq<Seq<char>>
    decreases items.len(),
{
    if items.len() == 0 {
        Seq::empty()
    } else {
        let rest = symbols_of(items.drop_last());
        match items.last() {
            ExprV::Symbol(name) => rest.push(name),
            _ => rest,
        }
    }
}

/// The environment after binding the first `n` names to the first `n`
/// values in `frame`, in order.
pub open spec fn bind_upto(
    env: EnvV,
    frame: int,
    names: Seq<Seq<char>>,
    values: Seq<ValueV>,
    n: nat,
) -> EnvV
    decreases n,
{
    if n == 0 || n > names.len() || n > values.len() {
        env
    } else {
        bind_upto(env, frame, names, values, (n - 1) as nat).bind(
            frame,
            names[n - 1],
            values[n - 1],
        )
    }
}

/// The lesser of two lengths.
pub open spec fn lesser(a: nat, b: nat) -> nat {
    if a <= b {
        a
    } else {
        b
    }
}

/// The environment after binding names to values by position in `frame`;
/// names without a value stay unbound and values without a name are
/// dropped.
pub open spec fn bind_all(env: EnvV, frame: int, names: Seq<Seq<char>>, values: Seq<ValueV>) -> EnvV {
    bind_upto(env, frame, names, values, lesser(names.len(), values.len()))
}

/// The fields of a new object: the first `n` field names set to the first
/// `n` values, in order.
pub open spec fn attrs_upto(fields: Seq<Seq<char>>, values: Seq<ValueV>, n: nat) -> Seq<
    (Seq<char>, ValueV),
>
    decreases n,
{
    if n == 0 || n > fields.len() || n > values.len() {
        Seq::empty()
    } else {
        put(attrs_upto(fields, values, (n - 1) as nat), fields[n - 1], values[n - 1])
    }
}

/// The numbers among `items`, in order.
pub open spec fn numbers_only(items: Seq<ValueV>) -> Seq<u32>
    decreases items.len(),
{
    if items.len() == 0 {
        Seq::empty()
    } else {
        let rest = numbers_only(items.drop_last());
        match items.last() {
            ValueV::Number(n) => rest.push(n),
            _ => rest,
        }
    }
}

/// The columns of a `for`: for each range that is an array, its numbers;
/// a range that is no array gives no column.
pub open spec fn columns_of(ranges: Seq<ValueV>) -> Seq<Seq<u32>>
    decreases ranges.len(),
{
    if ranges.len() == 0 {
        Seq::empty()
    } else {
        let rest = columns_of(ranges.drop_last());
        match ranges.last() {
            ValueV::Array(items) => rest.push(numbers_only(items)),
            _ => rest,
        }
    }
}

/// The length of the shortest of the first `n` columns; 0 where there is
/// none.
pub open spec fn shortest(columns: Seq<Seq<u32>>, n: nat) -> nat
    decreases n,
{
    if n == 0 || n > columns.len() {
        0
    } else if n == 1 {
        columns[0].len()
    } else {
        lesser(shortest(columns, (n - 1) as nat), columns[n - 1].len())
    }
}

/// Row `index` of the first `n` columns, if each of them has such a row.
pub open spec fn row_of(columns: Seq<Seq<u32>>, index: int, n: nat) -> Option<Seq<u32>>
    decreases n,
{
    if n == 0 {
        Some(Seq::empty())
    } else {
        match row_of(columns, index, (n - 1) as nat) {
            Some(row) => if n <= columns.len() && 0 <= index < columns[n - 1].len() {
                Some(row.push(columns[n - 1][index]))
            } else {
                None
            },
            None => None,
        }
    }
}

/// What the bindings of a `let` come to: the names that are bound, the
/// expressions of their values, and whether a malformed binding ends the
/// list. A binding is a list of two; one whose first item is no symbol, or
/// that is no list, is passed over; a list of another length is malformed,
/// and nothing after it counts.
pub struct LetPlan {
    pub names: Seq<Seq<char>>,
    pub values: Seq<ExprV>,
    pub failed: bool,
}

/// The plan for the bindings of a `let`.
pub open spec fn let_plan(bindings: Seq<ExprV>) -> LetPlan
    decreases bindings.len(),
{
    if bindings.len() == 0 {
        LetPlan { names: Seq::empty(), values: Seq::empty(), failed: false }
    } else {
        let plan = let_plan(bindings.drop_last());
        if plan.failed {
            plan
        } else {
            match bindings.last() {
                ExprV::List(pair) => if pair.len() != 2 {
                    LetPlan { failed: true, ..plan }
                } else {
                    match pair[0] {
                        ExprV::Symbol(name) => LetPlan {
                            names: plan.names.push(name),
                            values: plan.values.push(pair[1]),
                            failed: false,
                        },
                        _ => plan,
                    }
                },
                _ => plan,
            }
        }
    }
}

/// The annotation that one trailing form of a `fn` declares, if it
/// declares one, or the error in it. A form declares an annotation if it is
/// a list whose head is a symbol that starts with a colon.
pub open spec fn annotation_of(form: ExprV) -> Result<Option<AnnotationV>, ErrorV> {
    match form {
        ExprV::List(dir) => if dir.len() == 0 {
            Err(ErrorV { kind: ErrorKind::Syntax, subject: Seq::empty() })
        } else {
            match dir[0] {
                ExprV::Symbol(name) => if name.len() > 0 && name[0] == ':' {
                    if name == ":require"@ {
                        if dir.len() > 1 {
                            Ok(Some(AnnotationV::Require(dir[1])))
                        } else {
                            Err(ErrorV { kind: ErrorKind::Syntax, subject: Seq::empty() })
                        }
                    } else if name == ":test"@ {
                        if dir.len() > 1 {
                            match dir[1] {
                                ExprV::List(args) => if dir.len() > 2 {
                                    Ok(Some(AnnotationV::Test { args, expected: dir[2] }))
                                } else {
                                    Err(ErrorV { kind: ErrorKind::Syntax, subject: Seq::empty() })
                                },
                                _ => Ok(None),
                            }
                        } else {
                            Err(ErrorV { kind: ErrorKind::Syntax, subject: Seq::empty() })
                        }
                    } else {
                        Err(ErrorV { kind: ErrorKind::UnknownAnnotation, subject: name })
                    }
                } else {
                    Ok(None)
                },
                _ => Ok(None),
            }
        },
        _ => Ok(None),
    }
}

/// The annotations that the trailing forms of a `fn` declare, in order, or
/// the first error among them.
pub open spec fn annotations_of(forms: Seq<ExprV>) -> Result<Seq<AnnotationV>, ErrorV>
    decreases forms.len(),
{
    if forms.len() == 0 {
        Ok(Seq::empty())
    } else {
        match annotations_of(forms.drop_last()) {
            Ok(found) => match annotation_of(forms.last()) {
                Ok(Some(a)) => Ok(found.push(a)),
                Ok(None) => Ok(found),
                Err(e) => Err(e),
            },
            Err(e) => Err(e),
        }
    }
}

/// The inline tests among the annotations, in order.
pub open spec fn cases_of(annotations: Seq<AnnotationV>) -> Seq<TestCaseV>
    decreases annotations.len(),
{
    if annotations.len() == 0 {
        Seq::empty()
    } else {
        let rest = cases_of(annotations.drop_last());
        match annotations.last() {
            AnnotationV::Test { args, expected } => rest.push(TestCaseV { args, expected }),
            _ => rest,
        }
    }
}

/// The environment after binding the first `n` entries of a table in
/// `frame`, in order.
pub open spec fn install(env: EnvV, frame: int, entries: Seq<(Seq<char>, ValueV)>, n: nat) -> EnvV {
    bind_upto(
        env,
        frame,
        Seq::new(entries.len(), |i: int| entries[i].0),
        Seq::new(entries.len(), |i: int| entries[i].1),
        n,
    )
}

/// The environment at start: the root frame alone, under handle 0, with
/// every built-in bound in it.
pub open spec fn root_env() -> EnvV {
    install(
        (EnvV { frames: Seq::empty() }).extend(None),
        0,
        table(all_primitives()),
        table(all_primitives()).len(),
    )
}

/// The interpreter at start: nothing waits and nothing is left to do.
pub open spec fn initial() -> MachineV {
    MachineV { env: root_env(), stack: Seq::empty(), control: ControlV::Return(ValueV::Nil) }
}

/// The interpreter `m` with the forest `items` scheduled for evaluation in
/// `frame`: the forms are evaluated in order and the value of the last one
/// is handed on; with no form it is nil.
pub open spec fn load(m: MachineV, items: Seq<ExprV>, frame: usize) -> MachineV {
    MachineV {
        env: m.env,
        stack: m.stack.push(KontV::Block { items, next: 0, frame }),
        control: ControlV::Return(ValueV::Nil),
    }
}

/// The handle that the next new frame gets.
pub open spec fn fresh(env: EnvV) -> usize {
    env.frames.len() as usize
}

/// Starts the evaluation of `items` in `frame`, in order; with none to
/// evaluate, goes straight on to what follows.
pub open spec fn gather(env: EnvV, stack: Seq<KontV>, items: Seq<ExprV>, frame: usize, then: ThenV) -> Moved {
    if items.len() == 0 {
        finish(env, stack, then, Seq::empty())
    } else {
        proceed(
            env,
            stack.push(KontV::Gather { items, done: Seq::empty(), frame, then }),
            ControlV::Eval { expr: items[0], frame },
        )
    }
}

/// Starts the inline test at `run.index`, or, when the tests are through,
/// ends the definition with nil. A test evaluates its arguments in the
/// frame of the definition, as many as there are parameters for, and binds
/// them in a new frame under it.
pub open spec fn start_test(env: EnvV, stack: Seq<KontV>, run: TestRunV) -> Moved {
    if run.index < run.cases.len() {
        let case = run.cases[run.index as int];
        gather(
            env.extend(Some(run.frame)),
            stack,
            case.args.take(lesser(run.params.len(), case.args.len()) as int),
            run.frame,
            ThenV::Test { run, scope: fresh(env) },
        )
    } else {
        give(env, stack, ValueV::Nil)
    }
}

/// Goes on to the test after the one that has passed.
pub open spec fn pass(env: EnvV, stack: Seq<KontV>, run: TestRunV) -> Moved {
    if run.index < usize::MAX {
        start_test(env, stack, TestRunV { index: (run.index + 1) as usize, ..run })
    } else {
        give(env, stack, ValueV::Nil)
    }
}

/// What follows once all `values` of a run of expressions are there.
///
/// * The items of an array literal make the array.
/// * The arguments of a built-in are handed to it.
/// * The arguments of a user function are bound to its parameters, by
///   position, in a new frame under the frame that the function captured,
///   and the body is evaluated in that new frame. Nothing is put on the
///   stack, so the value of the body is the value of the call.
/// * The field values of an object are set under the field names, by
///   position; the object is bound as `instance` in the frame of the form,
///   whose value is nil.
/// * The values of the bindings of a `let` are bound in its child frame,
///   and the forms of the body, from position 2 on, are evaluated there.
/// * The ranges of a `for` give its columns; the loop makes as many rounds
///   as the shortest column has rows. A `for` without a body, or without a
///   range that is an array, is malformed.
/// * The arguments of an inline test are bound to the parameters in the
///   frame of the test, and the body is evaluated there.
pub open spec fn finish(env: EnvV, stack: Seq<KontV>, then: ThenV, values: Seq<ValueV>) -> Moved {
    match then {
        ThenV::Array => give(env, stack, ValueV::Array(values)),
        ThenV::Native { function } => settle(env, stack, apply_spec(function.primitive(), values)),
        ThenV::Invoke { params, body, func_env } => proceed(
            bind_all(env.extend(Some(func_env)), fresh(env) as int, params, values),
            stack,
            ControlV::Eval { expr: body, frame: fresh(env) },
        ),
        ThenV::Construct { class, fields, instance, frame } => give(
            env.bind(
                frame as int,
                instance,
                ValueV::Object {
                    class,
                    attrs: attrs_upto(fields, values, lesser(fields.len(), values.len())),
                },
            ),
            stack,
            ValueV::Nil,
        ),
        ThenV::Let { names, form, child, failed } => {
            let bound = bind_all(env, child as int, names, values);
            if failed {
                fail(bound, stack, ErrorKind::Syntax, Seq::empty())
            } else {
                give(
                    bound,
                    stack.push(KontV::Block { items: form, next: 2, frame: child }),
                    ValueV::Nil,
                )
            }
        },
        ThenV::For { names, block, child } => {
            let columns = columns_of(values);
            match block {
                Some(b) => if columns.len() == 0 {
                    fail(env, stack, ErrorKind::Syntax, Seq::empty())
                } else {
                    give(
                        env,
                        stack.push(
                            KontV::ForLoop {
                                names,
                                columns,
                                index: 0,
                                count: shortest(columns, columns.len()) as usize,
                                body: b,
                                child,
                            },
                        ),
                        ValueV::Nil,
                    )
                },
                None => fail(env, stack, ErrorKind::Syntax, Seq::empty()),
            }
        },
        ThenV::Test { run, scope } => if run.index < run.cases.len() {
            proceed(
                bind_all(env, scope as int, run.params, values),
                stack.push(
                    KontV::TestBody { run, scope, expected: run.cases[run.index as int].expected },
                ),
                ControlV::Eval { expr: run.body, frame: scope },
            )
        } else {
            give(env, stack, ValueV::Nil)
        },
    }
}

/// `(var name expr)`: the value of `expr` is introduced under `name`. With
/// no symbol for a name, or no expression, the form does nothing.
pub open spec fn var_form(env: EnvV, stack: Seq<KontV>, form: Seq<ExprV>, frame: usize) -> Moved {
    match form[1] {
        ExprV::Symbol(name) => if form.len() > 2 {
            proceed(
                env,
                stack.push(KontV::Declare { name, frame }),
                ControlV::Eval { expr: form[2], frame },
            )
        } else {
            give(env, stack, ValueV::Nil)
        },
        _ => give(env, stack, ValueV::Nil),
    }
}

/// `(struct Name (f1 ... fK))`: declares the structure in the frame.
pub open spec fn struct_form(env: EnvV, stack: Seq<KontV>, form: Seq<ExprV>, frame: usize) -> Moved {
    match form[1] {
        ExprV::Symbol(name) => if form.len() > 2 {
            match form[2] {
                ExprV::List(fields) => give(
                    env.declare_struct(frame as int, name, symbols_of(fields)),
                    stack,
                    ValueV::Nil,
                ),
                _ => give(env, stack, ValueV::Nil),
            }
        } else {
            fail(env, stack, ErrorKind::Syntax, Seq::empty())
        },
        _ => give(env, stack, ValueV::Nil),
    }
}

/// `(for (n1 ... nP) (r1 ... rP) body)`: makes the frame of the loop and
/// evaluates the ranges in it.
pub open spec fn for_form(env: EnvV, stack: Seq<KontV>, form: Seq<ExprV>, frame: usize) -> Moved {
    let names = match form[1] {
        ExprV::List(params) => symbols_of(params),
        _ => Seq::empty(),
    };
    let ranges = if form.len() > 2 {
        match form[2] {
            ExprV::List(ranges) => ranges,
            _ => Seq::empty(),
        }
    } else {
        Seq::empty()
    };
    let block = if form.len() > 3 {
        Some(form[3])
    } else {
        None
    };
    gather(
        env.extend(Some(frame)),
        stack,
        ranges,
        fresh(env),
        ThenV::For { names, block, child: fresh(env) },
    )
}

/// `(while cond body)`: makes the frame of the body and evaluates the
/// condition in the enclosing frame.
pub open spec fn while_form(env: EnvV, stack: Seq<KontV>, form: Seq<ExprV>, frame: usize) -> Moved {
    if form.len() > 2 {
        proceed(
            env.extend(Some(frame)),
            stack.push(
                KontV::While {
                    cond: form[1],
                    body: form[2],
                    frame,
                    child: fresh(env),
                    last: ValueV::Nil,
                    in_body: false,
                },
            ),
            ControlV::Eval { expr: form[1], frame },
        )
    } else {
        fail(env, stack, ErrorKind::Syntax, Seq::empty())
    }
}

/// `(let ((n1 v1) ...) body...)`: makes the child frame and evaluates the
/// values of the bindings in the enclosing frame.
pub open spec fn let_form(env: EnvV, stack: Seq<KontV>, form: Seq<ExprV>, frame: usize) -> Moved {
    let plan = let_plan(
        match form[1] {
            ExprV::List(bindings) => bindings,
            _ => Seq::empty(),
        },
    );
    gather(
        env.extend(Some(frame)),
        stack,
        plan.values,
        frame,
        ThenV::Let { names: plan.names, form, child: fresh(env), failed: plan.failed },
    )
}

/// `(fn name (p1 ... pK) decl... body)`: binds the function in the frame,
/// with that frame as the one it captures, and starts its inline tests.
pub open spec fn fn_form(env: EnvV, stack: Seq<KontV>, form: Seq<ExprV>, frame: usize) -> Moved {
    if form.len() > 2 {
        match (form[1], form[2]) {
            (ExprV::Symbol(name), ExprV::List(params)) => {
                let rest = form.skip(3);
                match annotations_of(rest) {
                    Ok(annotations) => if rest.len() == 0 {
                        fail(env, stack, ErrorKind::Syntax, Seq::empty())
                    } else {
                        start_test(
                            env.bind(
                                frame as int,
                                name,
                                ValueV::Function {
                                    params: symbols_of(params),
                                    body: rest.last(),
                                    func_env: frame,
                                    annotations,
                                },
                            ),
                            stack,
                            TestRunV {
                                name,
                                params: symbols_of(params),
                                body: rest.last(),
                                cases: cases_of(annotations),
                                index: 0,
                                frame,
                            },
                        )
                    },
                    Err(e) => stop(env, stack, e),
                }
            },
            _ => fail(env, stack, ErrorKind::Syntax, Seq::empty()),
        }
    } else {
        fail(env, stack, ErrorKind::Syntax, Seq::empty())
    }
}

/// `(set name value)` assigns to an existing binding. `(set name "field"
/// value)`, where `name` holds an object, replaces that field of it; a
/// field that the object does not have leaves everything as it is.
pub open spec fn set_form(env: EnvV, stack: Seq<KontV>, form: Seq<ExprV>, frame: usize) -> Moved {
    match form[1] {
        ExprV::Symbol(name) => match env.lookup(frame as int, name) {
            Some(current) => if form.len() > 3 && current is Object && form[2] is Str {
                if find(current->attrs, form[2]->Str_0) is Some {
                    proceed(
                        env,
                        stack.push(
                            KontV::AssignField {
                                name,
                                class: current->class,
                                attrs: current->attrs,
                                field: form[2]->Str_0,
                                frame,
                            },
                        ),
                        ControlV::Eval { expr: form[3], frame },
                    )
                } else {
                    give(env, stack, ValueV::Nil)
                }
            } else {
                assign_form(env, stack, form, frame, name)
            },
            None => fail(env, stack, ErrorKind::VariableNotFound, name),
        },
        _ => give(env, stack, ValueV::Nil),
    }
}

/// The plain form of `set`: evaluates the value, to assign it to `name`.
pub open spec fn assign_form(
    env: EnvV,
    stack: Seq<KontV>,
    form: Seq<ExprV>,
    frame: usize,
    name: Seq<char>,
) -> Moved {
    if form.len() > 2 {
        proceed(
            env,
            stack.push(KontV::Assign { name, frame }),
            ControlV::Eval { expr: form[2], frame },
        )
    } else {
        fail(env, stack, ErrorKind::Syntax, Seq::empty())
    }
}

/// A form whose head is no special form: a call of a built-in or of a user
/// function, with the arguments evaluated in the caller's frame, or the
/// construction of an object `(Name instance (v1 ... vK))`.
pub open spec fn application(
    env: EnvV,
    stack: Seq<KontV>,
    head: Seq<char>,
    form: Seq<ExprV>,
    frame: usize,
) -> Moved {
    match env.lookup(frame as int, head) {
        Some(ValueV::NativeFunction(function)) => gather(
            env,
            stack,
            form.skip(1),
            frame,
            ThenV::Native { function },
        ),
        Some(ValueV::Function { params, body, func_env, annotations }) => gather(
            env,
            stack,
            form.skip(1),
            frame,
            ThenV::Invoke { params, body, func_env },
        ),
        _ => match env.find_struct(frame as int, head) {
            Some(fields) => match form[1] {
                ExprV::Symbol(instance) => if form.len() > 2 {
                    match form[2] {
                        ExprV::List(values) => gather(
                            env,
                            stack,
                            values.take(lesser(fields.len(), values.len()) as int),
                            frame,
                            ThenV::Construct { class: head, fields, instance, frame },
                        ),
                        _ => give(env, stack, ValueV::Nil),
                    }
                } else {
                    fail(env, stack, ErrorKind::Syntax, Seq::empty())
                },
                _ => give(env, stack, ValueV::Nil),
            },
            None => fail(env, stack, ErrorKind::UndefinedSymbol, head),
        },
    }
}

/// A form of a single item `(e)`. Where `e` is a symbol that is bound to
/// a built-in, the built-in is called without arguments (so `(read)` reads
/// a line); otherwise the form is `e` itself.
pub open spec fn single(env: EnvV, stack: Seq<KontV>, item: ExprV, frame: usize) -> Moved {
    match item {
        ExprV::Symbol(name) => match env.lookup(frame as int, name) {
            Some(ValueV::NativeFunction(function)) => settle(
                env,
                stack,
                apply_spec(function.primitive(), Seq::empty()),
            ),
            _ => proceed(env, stack, ControlV::Eval { expr: item, frame }),
        },
        _ => proceed(env, stack, ControlV::Eval { expr: item, frame }),
    }
}

/// A parenthesized form. The empty one is nil; one of a single item is
/// that item, or a call without arguments; otherwise the head, a symbol,
/// chooses between the special forms and an application.
pub open spec fn list(env: EnvV, stack: Seq<KontV>, form: Seq<ExprV>, frame: usize) -> Moved {
    if form.len() == 0 {
        give(env, stack, ValueV::Nil)
    } else if form.len() == 1 {
        single(env, stack, form[0], frame)
    } else {
        match form[0] {
            ExprV::Symbol(head) => if head == "do"@ {
                give(env, stack.push(KontV::Block { items: form, next: 1, frame }), ValueV::Nil)
            } else if head == "if"@ {
                proceed(
                    env,
                    stack.push(KontV::Branch { form, frame }),
                    ControlV::Eval { expr: form[1], frame },
                )
            } else if head == "var"@ {
                var_form(env, stack, form, frame)
            } else if head == "struct"@ {
                struct_form(env, stack, form, frame)
            } else if head == "for"@ {
                for_form(env, stack, form, frame)
            } else if head == "while"@ {
                while_form(env, stack, form, frame)
            } else if head == "let"@ {
                let_form(env, stack, form, frame)
            } else if head == "fn"@ {
                fn_form(env, stack, form, frame)
            } else if head == "set"@ {
                set_form(env, stack, form, frame)
            } else {
                application(env, stack, head, form, frame)
            },
            _ => fail(env, stack, ErrorKind::Syntax, Seq::empty()),
        }
    }
}

/// A symbol: the value it is bound to, seen from `frame`, or nil where it
/// is unbound.
pub open spec fn symbol(env: EnvV, stack: Seq<KontV>, name: Seq<char>, frame: usize) -> Moved {
    match env.lookup(frame as int, name) {
        Some(v) => give(env, stack, v),
        None => give(env, stack, ValueV::Nil),
    }
}

/// A numeral: the host is asked which number it denotes.
pub open spec fn numeral(env: EnvV, stack: Seq<KontV>, text: Seq<char>) -> Moved {
    (
        MachineV { env, stack, control: ControlV::Waiting(PendingV::Literal { text }) },
        ActionV::Request(RequestV::Decode(text)),
    )
}

/// The evaluation of `expr` in `frame`.
pub open spec fn eval(env: EnvV, stack: Seq<KontV>, expr: ExprV, frame: usize) -> Moved {
    match expr {
        ExprV::Number(text) => numeral(env, stack, text),
        ExprV::Str(s) => give(env, stack, ValueV::Str(s)),
        ExprV::Symbol(name) => symbol(env, stack, name, frame),
        ExprV::Array(items) => gather(env, stack, items, frame, ThenV::Array),
        ExprV::List(form) => list(env, stack, form, frame),
    }
}

/// Whether an inline test that gave `actual` where `expected` was
/// expected has passed, as far as this can be told without the host: two
/// booleans or two strings must be equal; two numbers are for the host to
/// compare (`None`); anything else has failed.
pub open spec fn verdict(actual: ValueV, expected: ValueV) -> Option<bool> {
    match (actual, expected) {
        (ValueV::Number(a), ValueV::Number(b)) => None,
        (ValueV::Bool(a), ValueV::Bool(b)) => Some(a == b),
        (ValueV::Str(a), ValueV::Str(b)) => Some(a == b),
        _ => Some(false),
    }
}

/// What the continuation `kont` does with the value `v` that it waited
/// for. `stack` is what waits below it.
///
/// * A gathering keeps the value and evaluates the next item, or goes on
///   to what follows when it was the last.
/// * A block evaluates its next form, or hands the value on when none is
///   left.
/// * An `if` evaluates its second form on true and its third on false; a
///   branch that is missing is a syntax error, and any other value than a
///   boolean makes the `if` nil.
/// * A `var` introduces the name in its frame, where it must be new, and
///   has the value as its own.
/// * A `set` assigns to the binding that the name resolves to, which must
///   exist; with a field, it assigns the object as it was read, with that
///   field replaced. Its value is nil.
/// * A `for` that has rounds left binds the names to the next row in its
///   frame and evaluates the body; with none left it is nil. A name
///   without a column is a syntax error.
/// * A `while` that waited for its condition evaluates the body in its
///   frame on true, ends with the last value of the body (nil if none) on
///   false, and fails otherwise; one that waited for its body keeps the
///   value and evaluates the condition again, in the enclosing frame.
/// * An inline test that waited for the result evaluates the expected
///   value in the same frame; one that waited for the expected value
///   compares (see `verdict`), and passes, fails or asks the host.
pub open spec fn resume(env: EnvV, stack: Seq<KontV>, kont: KontV, v: ValueV) -> Moved {
    match kont {
        KontV::Gather { items, done, frame, then } => if done.len() + 1 < items.len() {
            proceed(
                env,
                stack.push(KontV::Gather { items, done: done.push(v), frame, then }),
                ControlV::Eval { expr: items[done.len() as int + 1], frame },
            )
        } else {
            finish(env, stack, then, done.push(v))
        },
        KontV::Block { items, next, frame } => if next < items.len() {
            proceed(
                env,
                stack.push(KontV::Block { items, next: (next + 1) as usize, frame }),
                ControlV::Eval { expr: items[next as int], frame },
            )
        } else {
            give(env, stack, v)
        },
        KontV::Branch { form, frame } => match v {
            ValueV::Bool(true) => if form.len() > 2 {
                proceed(env, stack, ControlV::Eval { expr: form[2], frame })
            } else {
                fail(env, stack, ErrorKind::Syntax, Seq::empty())
            },
            ValueV::Bool(false) => if form.len() > 3 {
                proceed(env, stack, ControlV::Eval { expr: form[3], frame })
            } else {
                fail(env, stack, ErrorKind::Syntax, Seq::empty())
            },
            _ => give(env, stack, ValueV::Nil),
        },
        KontV::Declare { name, frame } => if env.declared(frame as int, name) {
            fail(env, stack, ErrorKind::AlreadyDefined, name)
        } else {
            give(env.bind(frame as int, name, v), stack, v)
        },
        KontV::Assign { name, frame } => match env.assign(frame as int, name, v) {
            Some(after) => give(after, stack, ValueV::Nil),
            None => fail(env, stack, ErrorKind::VariableNotFound, name),
        },
        KontV::AssignField { name, class, attrs, field, frame } => match env.assign(
            frame as int,
            name,
            ValueV::Object { class, attrs: put(attrs, field, v) },
        ) {
            Some(after) => give(after, stack, ValueV::Nil),
            None => fail(env, stack, ErrorKind::VariableNotFound, name),
        },
        KontV::ForLoop { names, columns, index, count, body, child } => if index < count {
            match row_of(columns, index as int, names.len()) {
                Some(row) => proceed(
                    bind_all(env, child as int, names, number_values(row)),
                    stack.push(
                        KontV::ForLoop {
                            names,
                            columns,
                            index: (index + 1) as usize,
                            count,
                            body,
                            child,
                        },
                    ),
                    ControlV::Eval { expr: body, frame: child },
                ),
                None => fail(env, stack, ErrorKind::Syntax, Seq::empty()),
            }
        } else {
            give(env, stack, ValueV::Nil)
        },
        KontV::While { cond, body, frame, child, last, in_body } => if in_body {
            proceed(
                env,
                stack.push(KontV::While { cond, body, frame, child, last: v, in_body: false }),
                ControlV::Eval { expr: cond, frame },
            )
        } else {
            match v {
                ValueV::Bool(true) => proceed(
                    env,
                    stack.push(KontV::While { cond, body, frame, child, last, in_body: true }),
                    ControlV::Eval { expr: body, frame: child },
                ),
                ValueV::Bool(false) => give(env, stack, last),
                _ => fail(env, stack, ErrorKind::NonBoolCondition, Seq::empty()),
            }
        },
        KontV::TestBody { run, scope, expected } => proceed(
            env,
            stack.push(KontV::TestExpected { run, actual: v }),
            ControlV::Eval { expr: expected, frame: scope },
        ),
        KontV::TestExpected { run, actual } => match verdict(actual, v) {
            Some(true) => pass(env, stack, run),
            Some(false) => fail(env, stack, ErrorKind::TestFailed, run.name),
            None => (
                MachineV {
                    env,
                    stack: stack.push(KontV::TestVerdict { run }),
                    control: ControlV::Waiting(PendingV::Truth),
                },
                ActionV::Request(
                    RequestV::Relate(Relation::Near, actual->Number_0, v->Number_0),
                ),
            ),
        },
        KontV::TestVerdict { run } => match v {
            ValueV::Bool(true) => pass(env, stack, run),
            _ => fail(env, stack, ErrorKind::TestFailed, run.name),
        },
    }
}

/// One step of the interpreter. `reply` is the host's answer where the
/// step before made a request; otherwise it is not looked at.
pub open spec fn step(m: MachineV, reply: ReplyV) -> Moved {
    match m.control {
        ControlV::Eval { expr, frame } => eval(m.env, m.stack, expr, frame),
        ControlV::Return(v) => if m.stack.len() == 0 {
            (MachineV { control: ControlV::Finished(v), ..m }, ActionV::Finished(v))
        } else {
            resume(m.env, m.stack.drop_last(), m.stack.last(), v)
        },
        ControlV::Waiting(pending) => settle(m.env, m.stack, resume_spec(pending, reply)),
        ControlV::Finished(v) => (m, ActionV::Finished(v)),
        ControlV::Failed(e) => (m, ActionV::Failed(e)),
    }
}

} // verus!
