//! Handles never dangle: in every state that the interpreter reaches,
//! every frame handle that it holds (in the control, in a continuation, as
//! the parent of a frame or as the frame that a function captured) names a
//! frame of the environment, and every parent has a lesser handle than its
//! child. In every such state, too, no frame binds a name twice and no
//! object holds a field twice: the lists that stand for mappings are
//! mappings.

use vstd::prelude::*;
use crate::continuation::{ControlV, KontV, MachineV, TestRunV, ThenV};
use crate::env::{
    EnvV,
    FrameV,
    distinct_keys,
    first_match,
    law_keys_stay_distinct,
    lemma_first_match,
    put,
};
use crate::laws::scope::lemma_holder_range;
use crate::expr::ExprV;
use crate::host::ReplyV;
use crate::laws::runs::run;
use crate::semantics::{
    annotations_of,
    attrs_upto,
    bind_upto,
    cases_of,
    finish,
    fresh,
    gather,
    initial,
    let_plan,
    lesser,
    list,
    load,
    pass,
    resume,
    row_of,
    settle,
    start_test,
    step,
    symbols_of,
};
use crate::stdlib::{
    OutcomeV,
    PendingV,
    Primitive,
    all_primitives,
    apply_spec,
    number_values,
    operand,
    resume_spec,
    table,
};
use crate::value::ValueV;

verus! {

/// Whether every frame that a function inside `v` captured is one of the
/// first `n` frames, and every object inside `v` holds each field once.
pub open spec fn value_ok(v: ValueV, n: nat) -> bool
    decreases v,
{
    match v {
        ValueV::Array(items) => forall|i: int|
            0 <= i < items.len() ==> value_ok(#[trigger] items[i], n),
        ValueV::Function { params, body, func_env, annotations } => func_env < n,
        ValueV::Object { class, attrs } => distinct_keys(attrs) && forall|i: int|
            0 <= i < attrs.len() ==> value_ok((#[trigger] attrs[i]).1, n),
        _ => true,
    }
}

/// Whether each of the values is sound for `n` frames.
pub open spec fn values_ok(values: Seq<ValueV>, n: nat) -> bool {
    forall|i: int| 0 <= i < values.len() ==> value_ok(#[trigger] values[i], n)
}

/// Whether the value of each entry is sound for `n` frames.
pub open spec fn entries_ok(entries: Seq<(Seq<char>, ValueV)>, n: nat) -> bool {
    forall|i: int| 0 <= i < entries.len() ==> value_ok((#[trigger] entries[i]).1, n)
}

/// Whether the frame under handle `index` stands under a frame with a
/// lesser handle, if under any, binds sound values only, and holds each
/// name and each structure once.
pub open spec fn frame_ok(frame: FrameV, index: int, n: nat) -> bool {
    &&& frame.parent is Some ==> frame.parent->0 < index
    &&& entries_ok(frame.variables, n)
    &&& distinct_keys(frame.variables)
    &&& distinct_keys(frame.classes)
}

/// Whether every frame of the environment is sound.
pub open spec fn env_ok(env: EnvV) -> bool {
    forall|i: int|
        0 <= i < env.frames.len() ==> frame_ok(#[trigger] env.frames[i], i, env.frames.len())
}

/// Whether the handles in what follows a gathering name frames.
pub open spec fn then_ok(then: ThenV, n: nat) -> bool {
    match then {
        ThenV::Array => true,
        ThenV::Native { function } => true,
        ThenV::Invoke { params, body, func_env } => func_env < n,
        ThenV::Construct { class, fields, instance, frame } => frame < n,
        ThenV::Let { names, form, child, failed } => child < n,
        ThenV::For { names, block, child } => child < n,
        ThenV::Test { run, scope } => run.frame < n && scope < n,
    }
}

/// Whether the handles and the values in a continuation are sound.
pub open spec fn kont_ok(kont: KontV, n: nat) -> bool {
    match kont {
        KontV::Gather { items, done, frame, then } => frame < n && values_ok(done, n) && then_ok(
            then,
            n,
        ),
        KontV::Block { items, next, frame } => frame < n,
        KontV::Branch { form, frame } => frame < n,
        KontV::Declare { name, frame } => frame < n,
        KontV::Assign { name, frame } => frame < n,
        KontV::AssignField { name, class, attrs, field, frame } => frame < n && entries_ok(
            attrs,
            n,
        ) && distinct_keys(attrs),
        KontV::ForLoop { names, columns, index, count, body, child } => child < n,
        KontV::While { cond, body, frame, child, last, in_body } => frame < n && child < n
            && value_ok(last, n),
        KontV::TestBody { run, scope, expected } => run.frame < n && scope < n,
        KontV::TestExpected { run, actual } => run.frame < n && value_ok(actual, n),
        KontV::TestVerdict { run } => run.frame < n,
    }
}

/// Whether every continuation of the stack is sound.
pub open spec fn stack_ok(stack: Seq<KontV>, n: nat) -> bool {
    forall|i: int| 0 <= i < stack.len() ==> kont_ok(#[trigger] stack[i], n)
}

/// Whether the values that wait with a request are sound.
pub open spec fn pending_ok(pending: PendingV, n: nat) -> bool {
    match pending {
        PendingV::PrintText { args } => values_ok(args, n),
        PendingV::Concat { args } => values_ok(args, n),
        PendingV::Element { target } => value_ok(target, n),
        _ => true,
    }
}

/// Whether what a built-in came to is sound.
pub open spec fn outcome_ok(outcome: OutcomeV, n: nat) -> bool {
    match outcome {
        OutcomeV::Value(v) => value_ok(v, n),
        OutcomeV::Ask(request, pending) => pending_ok(pending, n),
        OutcomeV::Fail(e) => true,
    }
}

/// Whether the control is sound.
pub open spec fn control_ok(control: ControlV, n: nat) -> bool {
    match control {
        ControlV::Eval { expr, frame } => frame < n,
        ControlV::Return(v) => value_ok(v, n),
        ControlV::Waiting(pending) => pending_ok(pending, n),
        ControlV::Finished(v) => value_ok(v, n),
        ControlV::Failed(e) => true,
    }
}

/// Whether the state is sound: every handle it holds names a frame, and
/// every parent has a lesser handle than its child.
pub open spec fn valid(m: MachineV) -> bool {
    &&& env_ok(m.env)
    &&& stack_ok(m.stack, m.env.frames.len())
    &&& control_ok(m.control, m.env.frames.len())
}

/// What is sound for some frames is sound for more.
pub proof fn lemma_value_mono(v: ValueV, n: nat, m: nat)
    requires
        value_ok(v, n),
        n <= m,
    ensures
        value_ok(v, m),
    decreases v,
{
    match v {
        ValueV::Array(items) => {
            assert forall|i: int| 0 <= i < items.len() implies value_ok(#[trigger] items[i], m) by {
                lemma_value_mono(items[i], n, m);
            }
        },
        ValueV::Object { class, attrs } => {
            assert forall|i: int| 0 <= i < attrs.len() implies value_ok(
                (#[trigger] attrs[i]).1,
                m,
            ) by {
                lemma_value_mono(attrs[i].1, n, m);
            }
        },
        _ => {},
    }
}

/// Sound values stay sound when frames are added.
pub proof fn lemma_values_mono(values: Seq<ValueV>, n: nat, m: nat)
    requires
        values_ok(values, n),
        n <= m,
    ensures
        values_ok(values, m),
{
    assert forall|i: int| 0 <= i < values.len() implies value_ok(#[trigger] values[i], m) by {
        lemma_value_mono(values[i], n, m);
    }
}

/// Sound entries stay sound when frames are added.
pub proof fn lemma_entries_mono(entries: Seq<(Seq<char>, ValueV)>, n: nat, m: nat)
    requires
        entries_ok(entries, n),
        n <= m,
    ensures
        entries_ok(entries, m),
{
    assert forall|i: int| 0 <= i < entries.len() implies value_ok(
        (#[trigger] entries[i]).1,
        m,
    ) by {
        lemma_value_mono(entries[i].1, n, m);
    }
}

/// A sound stack stays sound when frames are added.
pub proof fn lemma_stack_mono(stack: Seq<KontV>, n: nat, m: nat)
    requires
        stack_ok(stack, n),
        n <= m,
    ensures
        stack_ok(stack, m),
{
    assert forall|i: int| 0 <= i < stack.len() implies kont_ok(#[trigger] stack[i], m) by {
        match stack[i] {
            KontV::Gather { items, done, frame, then } => {
                lemma_values_mono(done, n, m);
            },
            KontV::AssignField { name, class, attrs, field, frame } => {
                lemma_entries_mono(attrs, n, m);
            },
            KontV::While { cond, body, frame, child, last, in_body } => {
                lemma_value_mono(last, n, m);
            },
            KontV::TestExpected { run, actual } => {
                lemma_value_mono(actual, n, m);
            },
            _ => {},
        }
    }
}

/// Setting a key to a sound value keeps entries sound.
pub proof fn lemma_put_ok(entries: Seq<(Seq<char>, ValueV)>, key: Seq<char>, v: ValueV, n: nat)
    requires
        entries_ok(entries, n),
        value_ok(v, n),
    ensures
        entries_ok(put(entries, key, v), n),
        distinct_keys(entries) ==> distinct_keys(put(entries, key, v)),
{
    if distinct_keys(entries) {
        law_keys_stay_distinct(entries, key, v);
    }
    lemma_first_match(entries, key, 0);
    let after = put(entries, key, v);
    assert forall|i: int| 0 <= i < after.len() implies value_ok((#[trigger] after[i]).1, n) by {
        if i < entries.len() {
            assert(value_ok(entries[i].1, n));
        }
    }
}

/// A new frame under a frame that exists keeps the environment sound.
pub proof fn lemma_extend_ok(env: EnvV, parent: usize)
    requires
        env_ok(env),
        parent < env.frames.len(),
    ensures
        env_ok(env.extend(Some(parent))),
{
    let after = env.extend(Some(parent));
    assert forall|i: int| 0 <= i < after.frames.len() implies frame_ok(
        #[trigger] after.frames[i],
        i,
        after.frames.len(),
    ) by {
        if i < env.frames.len() {
            assert(frame_ok(env.frames[i], i, env.frames.len()));
            lemma_entries_mono(env.frames[i].variables, env.frames.len(), after.frames.len());
        }
    }
}

/// Binding a sound value keeps the environment sound.
pub proof fn lemma_bind_ok(env: EnvV, frame: int, key: Seq<char>, v: ValueV)
    requires
        env_ok(env),
        value_ok(v, env.frames.len()),
    ensures
        env_ok(env.bind(frame, key, v)),
        env.bind(frame, key, v).frames.len() == env.frames.len(),
{
    let after = env.bind(frame, key, v);
    assert forall|i: int| 0 <= i < after.frames.len() implies frame_ok(
        #[trigger] after.frames[i],
        i,
        after.frames.len(),
    ) by {
        assert(frame_ok(env.frames[i], i, env.frames.len()));
        if i == frame {
            lemma_put_ok(env.frames[i].variables, key, v, env.frames.len());
        }
    }
}

/// Binding sound values by position keeps the environment sound.
pub proof fn lemma_bind_upto_ok(
    env: EnvV,
    frame: int,
    names: Seq<Seq<char>>,
    values: Seq<ValueV>,
    n: nat,
)
    requires
        env_ok(env),
        values_ok(values, env.frames.len()),
    ensures
        env_ok(bind_upto(env, frame, names, values, n)),
        bind_upto(env, frame, names, values, n).frames.len() == env.frames.len(),
    decreases n,
{
    if !(n == 0 || n > names.len() || n > values.len()) {
        lemma_bind_upto_ok(env, frame, names, values, (n - 1) as nat);
        let before = bind_upto(env, frame, names, values, (n - 1) as nat);
        assert(value_ok(values[n - 1], env.frames.len()));
        lemma_bind_ok(before, frame, names[n - 1], values[n - 1]);
    }
}

/// Declaring a structure keeps the environment sound.
pub proof fn lemma_declare_struct_ok(
    env: EnvV,
    frame: int,
    name: Seq<char>,
    fields: Seq<Seq<char>>,
)
    requires
        env_ok(env),
    ensures
        env_ok(env.declare_struct(frame, name, fields)),
        env.declare_struct(frame, name, fields).frames.len() == env.frames.len(),
{
    let after = env.declare_struct(frame, name, fields);
    assert forall|i: int| 0 <= i < after.frames.len() implies frame_ok(
        #[trigger] after.frames[i],
        i,
        after.frames.len(),
    ) by {
        assert(frame_ok(env.frames[i], i, env.frames.len()));
        if i == frame {
            law_keys_stay_distinct(env.frames[i].classes, name, fields);
        }
    }
}

/// What a sound environment resolves a name to is sound.
pub proof fn lemma_lookup_ok(env: EnvV, frame: int, key: Seq<char>)
    requires
        env_ok(env),
        env.lookup(frame, key) is Some,
    ensures
        value_ok(env.lookup(frame, key)->0, env.frames.len()),
{
    lemma_holder_range(env, frame, key);
    let h = env.holder(frame, key)->0;
    lemma_first_match(env.frames[h].variables, key, 0);
    let i = first_match(env.frames[h].variables, key, 0)->0;
    assert(frame_ok(env.frames[h], h, env.frames.len()));
    assert(value_ok(env.frames[h].variables[i].1, env.frames.len()));
}

/// Assigning a sound value keeps the environment sound.
pub proof fn lemma_assign_ok(env: EnvV, frame: int, key: Seq<char>, v: ValueV)
    requires
        env_ok(env),
        value_ok(v, env.frames.len()),
        env.assign(frame, key, v) is Some,
    ensures
        env_ok(env.assign(frame, key, v)->0),
        env.assign(frame, key, v)->0.frames.len() == env.frames.len(),
{
    lemma_bind_ok(env, env.holder(frame, key)->0, key, v);
}

/// The fields of a new object are sound if the values are.
pub proof fn lemma_attrs_upto_ok(fields: Seq<Seq<char>>, values: Seq<ValueV>, k: nat, n: nat)
    requires
        values_ok(values, n),
    ensures
        entries_ok(attrs_upto(fields, values, k), n),
        distinct_keys(attrs_upto(fields, values, k)),
    decreases k,
{
    if !(k == 0 || k > fields.len() || k > values.len()) {
        lemma_attrs_upto_ok(fields, values, (k - 1) as nat, n);
        assert(value_ok(values[k - 1], n));
        lemma_put_ok(attrs_upto(fields, values, (k - 1) as nat), fields[k - 1], values[k - 1], n);
    }
}

/// A built-in that is given sound values comes to something sound.
pub proof fn lemma_apply_ok(p: Primitive, args: Seq<ValueV>, n: nat)
    requires
        values_ok(args, n),
    ensures
        outcome_ok(apply_spec(p, args), n),
{
    let a = operand(args, 0);
    if args.len() > 0 {
        assert(value_ok(args[0], n));
    }
    match a {
        ValueV::Object { class, attrs } => {
            match operand(args, 1) {
                ValueV::Str(field) => {
                    lemma_first_match(attrs, field, 0);
                    if first_match(attrs, field, 0) is Some {
                        let i = first_match(attrs, field, 0)->0;
                        assert(value_ok(attrs[i].1, n));
                    }
                },
                _ => {},
            }
        },
        _ => {},
    }
}

/// A built-in that goes on with sound values comes to something sound.
pub proof fn lemma_resume_ok(pending: PendingV, reply: ReplyV, n: nat)
    requires
        pending_ok(pending, n),
    ensures
        outcome_ok(resume_spec(pending, reply), n),
{
    match (pending, reply) {
        (PendingV::Element { target }, ReplyV::Integers(is)) => {
            if is.len() == 1 {
                match target {
                    ValueV::Array(items) => {
                        if 0 <= is[0] < items.len() {
                            assert(value_ok(items[is[0] as int], n));
                        }
                    },
                    _ => {},
                }
            }
        },
        (PendingV::RangeItems { count }, ReplyV::Numbers(ns)) => {
            let items = number_values(ns);
            assert forall|i: int| 0 <= i < items.len() implies value_ok(#[trigger] items[i], n) by {}
        },
        _ => {},
    }
}

/// Going on as a sound outcome says leads to a sound state.
pub proof fn lemma_settle_valid(env: EnvV, stack: Seq<KontV>, outcome: OutcomeV)
    requires
        env_ok(env),
        stack_ok(stack, env.frames.len()),
        outcome_ok(outcome, env.frames.len()),
    ensures
        valid(settle(env, stack, outcome).0),
{
}

/// What follows a gathering of sound values leads to a sound state.
pub proof fn lemma_finish_valid(env: EnvV, stack: Seq<KontV>, then: ThenV, values: Seq<ValueV>)
    requires
        env_ok(env),
        stack_ok(stack, env.frames.len()),
        then_ok(then, env.frames.len()),
        values_ok(values, env.frames.len()),
        then is Invoke ==> env.frames.len() < usize::MAX,
    ensures
        valid(finish(env, stack, then, values).0),
{
    let n = env.frames.len();
    match then {
        ThenV::Array => {},
        ThenV::Native { function } => {
            lemma_apply_ok(function.primitive(), values, n);
            lemma_settle_valid(env, stack, apply_spec(function.primitive(), values));
        },
        ThenV::Invoke { params, body, func_env } => {
            let extended = env.extend(Some(func_env));
            lemma_extend_ok(env, func_env);
            lemma_values_mono(values, n, n + 1);
            lemma_stack_mono(stack, n, n + 1);
            lemma_bind_upto_ok(
                extended,
                fresh(env) as int,
                params,
                values,
                lesser(params.len(), values.len()),
            );
        },
        ThenV::Construct { class, fields, instance, frame } => {
            let attrs = attrs_upto(fields, values, lesser(fields.len(), values.len()));
            lemma_attrs_upto_ok(fields, values, lesser(fields.len(), values.len()), n);
            lemma_bind_ok(env, frame as int, instance, ValueV::Object { class, attrs });
        },
        ThenV::Let { names, form, child, failed } => {
            lemma_bind_upto_ok(env, child as int, names, values, lesser(names.len(), values.len()));
        },
        ThenV::For { names, block, child } => {},
        ThenV::Test { run, scope } => {
            lemma_bind_upto_ok(
                env,
                scope as int,
                run.params,
                values,
                lesser(run.params.len(), values.len()),
            );
        },
    }
}

/// Starting a gathering leads to a sound state.
pub proof fn lemma_gather_valid(
    env: EnvV,
    stack: Seq<KontV>,
    items: Seq<ExprV>,
    frame: usize,
    then: ThenV,
)
    requires
        env_ok(env),
        stack_ok(stack, env.frames.len()),
        then_ok(then, env.frames.len()),
        frame < env.frames.len(),
        then is Invoke ==> env.frames.len() < usize::MAX,
    ensures
        valid(gather(env, stack, items, frame, then).0),
{
    lemma_finish_valid(env, stack, then, Seq::empty());
}

/// Starting an inline test, or going on to the next one, leads to a sound
/// state.
pub proof fn lemma_start_test_valid(env: EnvV, stack: Seq<KontV>, run: TestRunV)
    requires
        env_ok(env),
        stack_ok(stack, env.frames.len()),
        run.frame < env.frames.len() < usize::MAX,
    ensures
        valid(start_test(env, stack, run).0),
        valid(pass(env, stack, run).0),
{
    let n = env.frames.len();
    let extended = env.extend(Some(run.frame));
    lemma_extend_ok(env, run.frame);
    lemma_stack_mono(stack, n, n + 1);
    if run.index < run.cases.len() {
        let case = run.cases[run.index as int];
        lemma_gather_valid(
            extended,
            stack,
            case.args.take(lesser(run.params.len(), case.args.len()) as int),
            run.frame,
            ThenV::Test { run, scope: fresh(env) },
        );
    }
    if run.index < usize::MAX {
        let next = TestRunV { index: (run.index + 1) as usize, ..run };
        if next.index < next.cases.len() {
            let case = next.cases[next.index as int];
            lemma_gather_valid(
                extended,
                stack,
                case.args.take(lesser(next.params.len(), case.args.len()) as int),
                next.frame,
                ThenV::Test { run: next, scope: fresh(env) },
            );
        }
    }
}

/// Evaluating a parenthesized form leads to a sound state.
pub proof fn lemma_list_valid(env: EnvV, stack: Seq<KontV>, form: Seq<ExprV>, frame: usize)
    requires
        env_ok(env),
        stack_ok(stack, env.frames.len()),
        frame < env.frames.len() < usize::MAX,
    ensures
        valid(list(env, stack, form, frame).0),
{
    let n = env.frames.len();
    let extended = env.extend(Some(frame));
    lemma_extend_ok(env, frame);
    lemma_stack_mono(stack, n, n + 1);
    if form.len() == 1 {
        match form[0] {
            ExprV::Symbol(name) => {
                match env.lookup(frame as int, name) {
                    Some(ValueV::NativeFunction(function)) => {
                        lemma_apply_ok(function.primitive(), Seq::empty(), n);
                        lemma_settle_valid(
                            env,
                            stack,
                            apply_spec(function.primitive(), Seq::empty()),
                        );
                    },
                    _ => {},
                }
            },
            _ => {},
        }
    } else if form.len() >= 2 {
        match form[0] {
            ExprV::Symbol(head) => {
                if head == "do"@ {
                } else if head == "if"@ {
                } else if head == "var"@ {
                } else if head == "struct"@ {
                    match (form[1], form[2]) {
                        (ExprV::Symbol(name), ExprV::List(fields)) => {
                            lemma_declare_struct_ok(env, frame as int, name, symbols_of(fields));
                        },
                        _ => {},
                    }
                } else if head == "for"@ {
                    let names = match form[1] {
                        ExprV::List(params) => symbols_of(params),
                        _ => Seq::empty(),
                    };
                    let ranges = if form.len() > 2 {
                        match form[2] {
                            ExprV::List(ranges) => ranges,
                            _ => Seq::empty(),
                        }
                    } else {
                        Seq::empty()
                    };
                    let block = if form.len() > 3 {
                        Some(form[3])
                    } else {
                        None
                    };
                    lemma_gather_valid(
                        extended,
                        stack,
                        ranges,
                        fresh(env),
                        ThenV::For { names, block, child: fresh(env) },
                    );
                } else if head == "while"@ {
                } else if head == "let"@ {
                    let plan = let_plan(
                        match form[1] {
                            ExprV::List(bindings) => bindings,
                            _ => Seq::empty(),
                        },
                    );
                    lemma_gather_valid(
                        extended,
                        stack,
                        plan.values,
                        frame,
                        ThenV::Let {
                            names: plan.names,
                            form,
                            child: fresh(env),
                            failed: plan.failed,
                        },
                    );
                } else if head == "fn"@ {
                    if form.len() > 2 {
                        match (form[1], form[2]) {
                            (ExprV::Symbol(name), ExprV::List(params)) => {
                                let rest = form.skip(3);
                                match annotations_of(rest) {
                                    Ok(annotations) => {
                                        if rest.len() > 0 {
                                            let function = ValueV::Function {
                                                params: symbols_of(params),
                                                body: rest.last(),
                                                func_env: frame,
                                                annotations,
                                            };
                                            lemma_bind_ok(env, frame as int, name, function);
                                            lemma_start_test_valid(
                                                env.bind(frame as int, name, function),
                                                stack,
                                                TestRunV {
                                                    name,
                                                    params: symbols_of(params),
                                                    body: rest.last(),
                                                    cases: cases_of(annotations),
                                                    index: 0,
                                                    frame,
                                                },
                                            );
                                        }
                                    },
                                    Err(e) => {},
                                }
                            },
                            _ => {},
                        }
                    }
                } else if head == "set"@ {
                    match form[1] {
                        ExprV::Symbol(name) => {
                            if env.lookup(frame as int, name) is Some {
                                lemma_lookup_ok(env, frame as int, name);
                            }
                        },
                        _ => {},
                    }
                } else {
                    if env.lookup(frame as int, head) is Some {
                        lemma_lookup_ok(env, frame as int, head);
                    }
                    match env.lookup(frame as int, head) {
                        Some(ValueV::NativeFunction(function)) => {
                            lemma_gather_valid(
                                env,
                                stack,
                                form.skip(1),
                                frame,
                                ThenV::Native { function },
                            );
                        },
                        Some(ValueV::Function { params, body, func_env, annotations }) => {
                            lemma_gather_valid(
                                env,
                                stack,
                                form.skip(1),
                                frame,
                                ThenV::Invoke { params, body, func_env },
                            );
                        },
                        _ => {
                            match env.find_struct(frame as int, head) {
                                Some(fields) => {
                                    match (form[1], form[2]) {
                                        (ExprV::Symbol(instance), ExprV::List(values)) => {
                                            lemma_gather_valid(
                                                env,
                                                stack,
                                                values.take(
                                                    lesser(fields.len(), values.len()) as int,
                                                ),
                                                frame,
                                                ThenV::Construct {
                                                    class: head,
                                                    fields,
                                                    instance,
                                                    frame,
                                                },
                                            );
                                        },
                                        _ => {},
                                    }
                                },
                                None => {},
                            }
                        },
                    }
                }
            },
            _ => {},
        }
    }
}

/// Handing a sound value to a sound continuation leads to a sound state.
pub proof fn lemma_resume_valid(env: EnvV, stack: Seq<KontV>, kont: KontV, v: ValueV)
    requires
        env_ok(env),
        stack_ok(stack, env.frames.len()),
        kont_ok(kont, env.frames.len()),
        value_ok(v, env.frames.len()),
        env.frames.len() < usize::MAX,
    ensures
        valid(resume(env, stack, kont, v).0),
{
    let n = env.frames.len();
    match kont {
        KontV::Gather { items, done, frame, then } => {
            assert(values_ok(done.push(v), n));
            lemma_finish_valid(env, stack, then, done.push(v));
        },
        KontV::Declare { name, frame } => {
            lemma_bind_ok(env, frame as int, name, v);
        },
        KontV::Assign { name, frame } => {
            if env.assign(frame as int, name, v) is Some {
                lemma_assign_ok(env, frame as int, name, v);
            }
        },
        KontV::AssignField { name, class, attrs, field, frame } => {
            lemma_put_ok(attrs, field, v, n);
            let object = ValueV::Object { class, attrs: put(attrs, field, v) };
            if env.assign(frame as int, name, object) is Some {
                lemma_assign_ok(env, frame as int, name, object);
            }
        },
        KontV::ForLoop { names, columns, index, count, body, child } => {
            match row_of(columns, index as int, names.len()) {
                Some(row) => {
                    lemma_bind_upto_ok(
                        env,
                        child as int,
                        names,
                        number_values(row),
                        lesser(names.len(), number_values(row).len()),
                    );
                },
                None => {},
            }
        },
        KontV::TestExpected { run, actual } => {
            lemma_start_test_valid(env, stack, run);
        },
        KontV::TestVerdict { run } => {
            lemma_start_test_valid(env, stack, run);
        },
        _ => {},
    }
}

/// Handles never dangle. A step from a sound state leads to a sound state:
/// every frame handle in the control, in a continuation or in a function
/// value names a frame, and every parent has a lesser handle than its
/// child. (The step must have a handle left for a new frame.)
pub proof fn law_step_valid(m: MachineV, reply: ReplyV)
    requires
        valid(m),
        m.env.frames.len() < usize::MAX,
    ensures
        valid(step(m, reply).0),
{
    let n = m.env.frames.len();
    match m.control {
        ControlV::Eval { expr, frame } => {
            match expr {
                ExprV::Symbol(name) => {
                    if m.env.lookup(frame as int, name) is Some {
                        lemma_lookup_ok(m.env, frame as int, name);
                    }
                },
                ExprV::Array(items) => {
                    lemma_gather_valid(m.env, m.stack, items, frame, ThenV::Array);
                },
                ExprV::List(form) => {
                    lemma_list_valid(m.env, m.stack, form, frame);
                },
                _ => {},
            }
        },
        ControlV::Return(v) => {
            if m.stack.len() > 0 {
                assert(kont_ok(m.stack.last(), n));
                assert(stack_ok(m.stack.drop_last(), n)) by {
                    assert forall|i: int| 0 <= i < m.stack.drop_last().len() implies kont_ok(
                        #[trigger] m.stack.drop_last()[i],
                        n,
                    ) by {
                        assert(kont_ok(m.stack[i], n));
                    }
                }
                lemma_resume_valid(m.env, m.stack.drop_last(), m.stack.last(), v);
            }
        },
        ControlV::Waiting(pending) => {
            lemma_resume_ok(pending, reply, n);
            lemma_settle_valid(m.env, m.stack, resume_spec(pending, reply));
        },
        _ => {},
    }
}

/// The interpreter starts in a sound state.
pub proof fn law_initial_valid()
    ensures
        valid(initial()),
{
    let base = (EnvV { frames: Seq::empty() }).extend(None);
    let entries = table(all_primitives());
    let names = Seq::new(entries.len(), |i: int| entries[i].0);
    let values = Seq::new(entries.len(), |i: int| entries[i].1);
    assert(env_ok(base)) by {
        assert forall|i: int| 0 <= i < base.frames.len() implies frame_ok(
            #[trigger] base.frames[i],
            i,
            base.frames.len(),
        ) by {}
    }
    lemma_bind_upto_ok(base, 0, names, values, entries.len());
}

/// Scheduling a program for evaluation in a frame that exists keeps the
/// state sound.
pub proof fn law_load_valid(m: MachineV, items: Seq<ExprV>, frame: usize)
    requires
        valid(m),
        frame < m.env.frames.len(),
    ensures
        valid(load(m, items, frame)),
{
}

/// Handles never dangle, however long the program runs: every state that
/// a run from a sound state leads through is sound, as long as handles for
/// new frames are left.
pub proof fn law_run_valid(m: MachineV, replies: Seq<ReplyV>)
    requires
        valid(m),
        forall|k: int|
            0 <= k < replies.len() ==> (#[trigger] run(m, replies.take(k))).env.frames.len()
                < usize::MAX,
    ensures
        valid(run(m, replies)),
    decreases replies.len(),
{
    if replies.len() > 0 {
        let shorter = replies.drop_last();
        assert forall|k: int| 0 <= k < shorter.len() implies (#[trigger] run(
            m,
            shorter.take(k),
        )).env.frames.len() < usize::MAX by {
            assert(shorter.take(k) =~= replies.take(k));
        }
        law_run_valid(m, shorter);
        assert(replies.take(replies.len() - 1) =~= shorter);
        law_step_valid(run(m, shorter), replies.last());
    }
}

} // verus!
