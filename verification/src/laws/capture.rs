//! Frames persist: nothing that a frame binds is ever lost, which is what
//! lets a function see the frame it captured for as long as it lives.

use vstd::prelude::*;
use crate::continuation::{ControlV, KontV, MachineV, TestRunV, ThenV};
use crate::env::{EnvV, FrameV, first_match, lemma_first_match, lemma_put_find, put};
use crate::expr::ExprV;
use crate::host::ReplyV;
use crate::laws::runs::run;
use crate::laws::scope::{last_index, lemma_bind_upto, lemma_lookup_agrees, law_lexical_scope};
use crate::semantics::{
    annotations_of,
    application,
    attrs_upto,
    bind_all,
    bind_upto,
    cases_of,
    finish,
    fn_form,
    for_form,
    fresh,
    gather,
    let_form,
    let_plan,
    lesser,
    list,
    pass,
    resume,
    row_of,
    start_test,
    step,
    struct_form,
    symbols_of,
};
use crate::stdlib::{NativeFunction, number_values};
use crate::value::ValueV;

verus! {

/// Whether frame `b` is frame `a` at a later time: it stands under the
/// same parent and binds every name that `a` binds.
pub open spec fn frame_persists(a: FrameV, b: FrameV) -> bool {
    &&& a.parent == b.parent
    &&& forall|key: Seq<char>|
        (#[trigger] first_match(a.variables, key, 0)) is Some ==> first_match(
            b.variables,
            key,
            0,
        ) is Some
}

/// Whether frame `i` of `a` is still there in `b`.
pub open spec fn kept(a: EnvV, b: EnvV, i: int) -> bool {
    i < b.frames.len() && frame_persists(a.frames[i], b.frames[i])
}

/// Whether environment `b` is environment `a` at a later time: every frame
/// of `a` is still there, under its handle and its parent, and binds every
/// name that it bound.
pub open spec fn persists(a: EnvV, b: EnvV) -> bool {
    forall|i: int| 0 <= i < a.frames.len() ==> #[trigger] kept(a, b, i)
}

/// Later of later is later.
pub proof fn lemma_persists_trans(a: EnvV, b: EnvV, c: EnvV)
    requires
        persists(a, b),
        persists(b, c),
    ensures
        persists(a, c),
{
    assert forall|i: int| 0 <= i < a.frames.len() implies #[trigger] kept(a, c, i) by {
        assert(kept(a, b, i));
        assert(kept(b, c, i));
    }
}

/// Binding a name removes nothing.
pub proof fn lemma_persists_bind(env: EnvV, frame: int, key: Seq<char>, v: ValueV)
    ensures
        persists(env, env.bind(frame, key, v)),
{
    let after = env.bind(frame, key, v);
    assert forall|i: int| 0 <= i < env.frames.len() implies #[trigger] kept(env, after, i) by {
        if i == frame {
            assert forall|other: Seq<char>|
                (#[trigger] first_match(env.frames[i].variables, other, 0)) is Some implies first_match(
                after.frames[i].variables,
                other,
                0,
            ) is Some by {
                lemma_put_find(env.frames[i].variables, key, v, other);
            }
        }
    }
}

/// Binding names by position removes nothing.
pub proof fn lemma_persists_bind_upto(
    env: EnvV,
    frame: int,
    names: Seq<Seq<char>>,
    values: Seq<ValueV>,
    n: nat,
)
    ensures
        persists(env, bind_upto(env, frame, names, values, n)),
    decreases n,
{
    if n == 0 || n > names.len() || n > values.len() {
        assert forall|i: int| 0 <= i < env.frames.len() implies #[trigger] kept(env, env, i) by {}
    } else {
        let before = bind_upto(env, frame, names, values, (n - 1) as nat);
        lemma_persists_bind_upto(env, frame, names, values, (n - 1) as nat);
        lemma_persists_bind(before, frame, names[n - 1], values[n - 1]);
        lemma_persists_trans(env, before, before.bind(frame, names[n - 1], values[n - 1]));
    }
}

/// A new frame removes nothing.
pub proof fn lemma_persists_extend(env: EnvV, parent: Option<usize>)
    ensures
        persists(env, env.extend(parent)),
{
    assert forall|i: int| 0 <= i < env.frames.len() implies #[trigger] kept(
        env,
        env.extend(parent),
        i,
    ) by {}
}

/// Nothing is removed where nothing changes.
pub proof fn lemma_persists_same(env: EnvV)
    ensures
        persists(env, env),
{
    assert forall|i: int| 0 <= i < env.frames.len() implies #[trigger] kept(env, env, i) by {}
}

/// Declaring a structure removes nothing.
pub proof fn lemma_persists_declare_struct(
    env: EnvV,
    frame: int,
    name: Seq<char>,
    fields: Seq<Seq<char>>,
)
    ensures
        persists(env, env.declare_struct(frame, name, fields)),
{
    assert forall|i: int| 0 <= i < env.frames.len() implies #[trigger] kept(
        env,
        env.declare_struct(frame, name, fields),
        i,
    ) by {}
}

/// An assignment removes nothing.
pub proof fn lemma_persists_assign(env: EnvV, frame: int, key: Seq<char>, v: ValueV)
    requires
        env.assign(frame, key, v) is Some,
    ensures
        persists(env, env.assign(frame, key, v)->0),
{
    lemma_persists_bind(env, env.holder(frame, key)->0, key, v);
}

/// What follows a gathering removes nothing.
pub proof fn lemma_persists_finish(env: EnvV, stack: Seq<KontV>, then: ThenV, values: Seq<ValueV>)
    ensures
        persists(env, finish(env, stack, then, values).0.env),
{
    lemma_persists_same(env);
    match then {
        ThenV::Invoke { params, body, func_env } => {
            let extended = env.extend(Some(func_env));
            lemma_persists_extend(env, Some(func_env));
            lemma_persists_bind_upto(
                extended,
                fresh(env) as int,
                params,
                values,
                lesser(params.len(), values.len()),
            );
            lemma_persists_trans(
                env,
                extended,
                bind_all(extended, fresh(env) as int, params, values),
            );
        },
        ThenV::Construct { class, fields, instance, frame } => {
            let object = ValueV::Object {
                class,
                attrs: attrs_upto(
                    fields,
                    values,
                    lesser(fields.len(), values.len()),
                ),
            };
            lemma_persists_bind(env, frame as int, instance, object);
        },
        ThenV::Let { names, form, child, failed } => {
            lemma_persists_bind_upto(
                env,
                child as int,
                names,
                values,
                lesser(names.len(), values.len()),
            );
        },
        ThenV::Test { run, scope } => {
            lemma_persists_bind_upto(
                env,
                scope as int,
                run.params,
                values,
                lesser(run.params.len(), values.len()),
            );
        },
        _ => {},
    }
}

/// Starting a gathering removes nothing.
pub proof fn lemma_persists_gather(
    env: EnvV,
    stack: Seq<KontV>,
    items: Seq<ExprV>,
    frame: usize,
    then: ThenV,
)
    ensures
        persists(env, gather(env, stack, items, frame, then).0.env),
{
    lemma_persists_same(env);
    lemma_persists_finish(env, stack, then, Seq::empty());
}

/// Starting an inline test removes nothing.
pub proof fn lemma_persists_start_test(env: EnvV, stack: Seq<KontV>, run: TestRunV)
    ensures
        persists(env, start_test(env, stack, run).0.env),
        persists(env, pass(env, stack, run).0.env),
{
    lemma_persists_same(env);
    lemma_persists_extend(env, Some(run.frame));
    let extended = env.extend(Some(run.frame));
    if run.index < run.cases.len() {
        let case = run.cases[run.index as int];
        lemma_persists_gather(
            extended,
            stack,
            case.args.take(lesser(run.params.len(), case.args.len()) as int),
            run.frame,
            ThenV::Test { run, scope: fresh(env) },
        );
        lemma_persists_trans(env, extended, start_test(env, stack, run).0.env);
    }
    if run.index < usize::MAX {
        let next = TestRunV { index: (run.index + 1) as usize, ..run };
        if next.index < next.cases.len() {
            let case = next.cases[next.index as int];
            lemma_persists_gather(
                extended,
                stack,
                case.args.take(lesser(next.params.len(), case.args.len()) as int),
                next.frame,
                ThenV::Test { run: next, scope: fresh(env) },
            );
            lemma_persists_trans(env, extended, start_test(env, stack, next).0.env);
        }
    }
}

/// Evaluating a parenthesized form removes nothing.
pub proof fn lemma_persists_list(env: EnvV, stack: Seq<KontV>, form: Seq<ExprV>, frame: usize)
    ensures
        persists(env, list(env, stack, form, frame).0.env),
{
    lemma_persists_same(env);
    if form.len() >= 2 {
        match form[0] {
            ExprV::Symbol(head) => {
                let extended = env.extend(Some(frame));
                lemma_persists_extend(env, Some(frame));
                if head == "do"@ {
                } else if head == "if"@ {
                } else if head == "var"@ {
                } else if head == "struct"@ {
                    assert(persists(env, struct_form(env, stack, form, frame).0.env)) by {
                        match (form[1], form[2]) {
                            (ExprV::Symbol(name), ExprV::List(fields)) => {
                                lemma_persists_declare_struct(
                                    env,
                                    frame as int,
                                    name,
                                    symbols_of(fields),
                                );
                            },
                            _ => {},
                        }
                    }
                } else if head == "for"@ {
                    let moved = for_form(env, stack, form, frame);
                    assert(persists(extended, moved.0.env)) by {
                        let names = match form[1] {
                            ExprV::List(params) => symbols_of(params),
                            _ => Seq::empty(),
                        };
                        let ranges = if form.len() > 2 {
                            match form[2] {
                                ExprV::List(ranges) => ranges,
                                _ => Seq::empty(),
                            }
                        } else {
                            Seq::empty()
                        };
                        let block = if form.len() > 3 {
                            Some(form[3])
                        } else {
                            None
                        };
                        lemma_persists_gather(
                            extended,
                            stack,
                            ranges,
                            fresh(env),
                            ThenV::For { names, block, child: fresh(env) },
                        );
                    }
                    lemma_persists_trans(env, extended, moved.0.env);
                } else if head == "while"@ {
                } else if head == "let"@ {
                    let moved = let_form(env, stack, form, frame);
                    let plan = let_plan(
                        match form[1] {
                            ExprV::List(bindings) => bindings,
                            _ => Seq::empty(),
                        },
                    );
                    lemma_persists_gather(
                        extended,
                        stack,
                        plan.values,
                        frame,
                        ThenV::Let {
                            names: plan.names,
                            form,
                            child: fresh(env),
                            failed: plan.failed,
                        },
                    );
                    lemma_persists_trans(env, extended, moved.0.env);
                } else if head == "fn"@ {
                    let moved = fn_form(env, stack, form, frame);
                    if form.len() > 2 {
                        match (form[1], form[2]) {
                            (ExprV::Symbol(name), ExprV::List(params)) => {
                                let rest = form.skip(3);
                                match annotations_of(rest) {
                                    Ok(annotations) => {
                                        if rest.len() > 0 {
                                            let function = ValueV::Function {
                                                params: symbols_of(params),
                                                body: rest.last(),
                                                func_env: frame,
                                                annotations,
                                            };
                                            let bound = env.bind(frame as int, name, function);
                                            lemma_persists_bind(env, frame as int, name, function);
                                            lemma_persists_start_test(
                                                bound,
                                                stack,
                                                TestRunV {
                                                    name,
                                                    params: symbols_of(params),
                                                    body: rest.last(),
                                                    cases: cases_of(annotations),
                                                    index: 0,
                                                    frame,
                                                },
                                            );
                                            lemma_persists_trans(env, bound, moved.0.env);
                                        }
                                    },
                                    Err(e) => {},
                                }
                            },
                            _ => {},
                        }
                    }
                } else if head == "set"@ {
                } else {
                    let moved = application(env, stack, head, form, frame);
                    match env.lookup(frame as int, head) {
                        Some(ValueV::NativeFunction(function)) => {
                            lemma_persists_gather(
                                env,
                                stack,
                                form.skip(1),
                                frame,
                                ThenV::Native { function },
                            );
                        },
                        Some(ValueV::Function { params, body, func_env, annotations }) => {
                            lemma_persists_gather(
                                env,
                                stack,
                                form.skip(1),
                                frame,
                                ThenV::Invoke { params, body, func_env },
                            );
                        },
                        _ => {
                            match env.find_struct(frame as int, head) {
                                Some(fields) => {
                                    match (form[1], form[2]) {
                                        (ExprV::Symbol(instance), ExprV::List(values)) => {
                                            lemma_persists_gather(
                                                env,
                                                stack,
                                                values.take(
                                                    lesser(fields.len(), values.len()) as int,
                                                ),
                                                frame,
                                                ThenV::Construct {
                                                    class: head,
                                                    fields,
                                                    instance,
                                                    frame,
                                                },
                                            );
                                        },
                                        _ => {},
                                    }
                                },
                                None => {},
                            }
                        },
                    }
                }
            },
            _ => {},
        }
    }
}

/// Handing a value to a continuation removes nothing.
pub proof fn lemma_persists_resume(env: EnvV, stack: Seq<KontV>, kont: KontV, v: ValueV)
    ensures
        persists(env, resume(env, stack, kont, v).0.env),
{
    lemma_persists_same(env);
    match kont {
        KontV::Gather { items, done, frame, then } => {
            lemma_persists_finish(env, stack, then, done.push(v));
        },
        KontV::Declare { name, frame } => {
            lemma_persists_bind(env, frame as int, name, v);
        },
        KontV::Assign { name, frame } => {
            if env.assign(frame as int, name, v) is Some {
                lemma_persists_assign(env, frame as int, name, v);
            }
        },
        KontV::AssignField { name, class, attrs, field, frame } => {
            let object = ValueV::Object { class, attrs: put(attrs, field, v) };
            if env.assign(frame as int, name, object) is Some {
                lemma_persists_assign(env, frame as int, name, object);
            }
        },
        KontV::ForLoop { names, columns, index, count, body, child } => {
            match row_of(columns, index as int, names.len()) {
                Some(row) => {
                    lemma_persists_bind_upto(
                        env,
                        child as int,
                        names,
                        number_values(row),
                        lesser(names.len(), number_values(row).len()),
                    );
                },
                None => {},
            }
        },
        KontV::TestExpected { run, actual } => {
            lemma_persists_start_test(env, stack, run);
        },
        KontV::TestVerdict { run } => {
            lemma_persists_start_test(env, stack, run);
        },
        _ => {},
    }
}

/// Frames persist. No step removes a frame, moves it under another parent
/// or unbinds a name in it: whatever a frame binds it binds for good,
/// though the value may be replaced.
pub proof fn law_frames_persist(m: MachineV, reply: ReplyV)
    ensures
        persists(m.env, step(m, reply).0.env),
{
    lemma_persists_same(m.env);
    match m.control {
        ControlV::Eval { expr, frame } => {
            match expr {
                ExprV::Array(items) => {
                    lemma_persists_gather(m.env, m.stack, items, frame, ThenV::Array);
                },
                ExprV::List(form) => {
                    lemma_persists_list(m.env, m.stack, form, frame);
                },
                _ => {},
            }
        },
        ControlV::Return(v) => {
            if m.stack.len() > 0 {
                lemma_persists_resume(m.env, m.stack.drop_last(), m.stack.last(), v);
            }
        },
        _ => {},
    }
}

/// Frames persist through any number of steps.
pub proof fn law_frames_persist_run(m: MachineV, replies: Seq<ReplyV>)
    ensures
        persists(m.env, run(m, replies).env),
    decreases replies.len(),
{
    if replies.len() == 0 {
        lemma_persists_same(m.env);
    } else {
        let before = run(m, replies.drop_last());
        law_frames_persist_run(m, replies.drop_last());
        law_frames_persist(before, replies.last());
        lemma_persists_trans(m.env, before.env, run(m, replies).env);
    }
}

/// Closure capture. A frame that binds `x` when a function captures it
/// (the frame of a `let`, say) still binds `x` after any number of steps,
/// and so after the `let` has returned: when the function is called then,
/// `x`, unless it is a parameter, resolves to that very binding.
pub proof fn law_closure_capture(
    m: MachineV,
    replies: Seq<ReplyV>,
    stack: Seq<KontV>,
    params: Seq<Seq<char>>,
    body: ExprV,
    func_env: usize,
    args: Seq<ValueV>,
    x: Seq<char>,
)
    requires
        m.env.declared(func_env as int, x),
        last_index(params, x, lesser(params.len(), args.len())) is None,
        run(m, replies).env.frames.len() <= usize::MAX,
    ensures
        ({
            let later = run(m, replies).env;
            let called = finish(later, stack, ThenV::Invoke { params, body, func_env }, args).0;
            &&& called.control == ControlV::Eval { expr: body, frame: later.frames.len() as usize }
            &&& called.env.holder(later.frames.len() as int, x) == Some(func_env as int)
            &&& called.env.lookup(later.frames.len() as int, x) == later.lookup(func_env as int, x)
            &&& later.lookup(func_env as int, x) is Some
        }),
{
    let later = run(m, replies).env;
    law_frames_persist_run(m, replies);
    assert(kept(m.env, later, func_env as int));
    law_lexical_scope(later, stack, params, body, func_env, args, x, func_env as int);
    let scope = later.frames.len() as int;
    let n = lesser(params.len(), args.len());
    let extended = later.extend(Some(func_env));
    let bound = bind_upto(extended, scope, params, args, n);
    lemma_bind_upto(extended, scope, params, args, n, x);
    lemma_lookup_agrees(later, bound, func_env as int, x);
    lemma_first_match(bound.frames[scope].variables, x, 0);
    lemma_first_match(later.frames[func_env as int].variables, x, 0);
}

} // verus!
