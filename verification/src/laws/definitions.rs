//! Function definitions: the frame that a function captures, and the
//! verdict on its inline tests.

use vstd::prelude::*;
use crate::continuation::{ControlV, KontV, MachineV, TestRunV};
use crate::env::{EnvV, lemma_first_match, lemma_put_find};
use crate::expr::ExprV;
use crate::host::{ActionV, ErrorKind, Relation, RequestV};
use crate::laws::scope::{lemma_bind_upto, lemma_lookup_agrees};
use crate::semantics::{
    annotations_of,
    cases_of,
    fail,
    fn_form,
    give,
    lesser,
    pass,
    resume,
    start_test,
    symbols_of,
    verdict,
};
use crate::stdlib::PendingV;
use crate::value::ValueV;

verus! {

/// A function captures the frame it is defined in. After a well-formed
/// `(fn name (p1 ... pK) decl... body)` in `frame`, the name resolves from
/// that frame to a function whose parameters are the symbols among
/// `p1 ... pK`, whose body is the last of the trailing forms and whose
/// captured frame is `frame` itself.
pub proof fn law_definition_frame(
    env: EnvV,
    stack: Seq<KontV>,
    form: Seq<ExprV>,
    frame: usize,
    name: Seq<char>,
    params: Seq<ExprV>,
)
    requires
        form.len() > 3,
        form[1] == ExprV::Symbol(name),
        form[2] == ExprV::List(params),
        annotations_of(form.skip(3)) is Ok,
        frame < env.frames.len() < usize::MAX,
    ensures
        fn_form(env, stack, form, frame).0.env.lookup(frame as int, name) == Some(
            ValueV::Function {
                params: symbols_of(params),
                body: form.last(),
                func_env: frame,
                annotations: annotations_of(form.skip(3))->Ok_0,
            },
        ),
{
    let rest = form.skip(3);
    let annotations = annotations_of(rest)->Ok_0;
    let function = ValueV::Function {
        params: symbols_of(params),
        body: rest.last(),
        func_env: frame,
        annotations,
    };
    let bound = env.bind(frame as int, name, function);
    let after = fn_form(env, stack, form, frame).0.env;
    let run = TestRunV {
        name,
        params: symbols_of(params),
        body: rest.last(),
        cases: cases_of(annotations),
        index: 0,
        frame,
    };
    assert(after == start_test(bound, stack, run).0.env);
    lemma_put_find(env.frames[frame as int].variables, name, function, name);
    lemma_first_match(bound.frames[frame as int].variables, name, 0);
    assert(bound.lookup(frame as int, name) == Some(function));
    if run.index < run.cases.len() {
        let extended = bound.extend(Some(frame));
        let scope = bound.frames.len() as int;
        let args = run.cases[0].args.take(lesser(run.params.len(), run.cases[0].args.len()) as int);
        if args.len() == 0 {
            lemma_bind_upto(extended, scope, run.params, Seq::empty(), 0, name);
        }
        lemma_lookup_agrees(bound, after, frame as int, name);
    }
}

/// Inline tests. When the expected value of an inline test is there, a
/// mismatch is fatal on the spot: other kinds than two numbers, two
/// booleans or two strings, or two unequal booleans or strings, stop the
/// definition with `TestFailed` about the function. A match goes on to the
/// next test, and after the last one the definition ends with nil, in the
/// environment as it is. Two numbers are handed to the host, whose word
/// decides in the same way.
pub proof fn law_inline_test(
    env: EnvV,
    stack: Seq<KontV>,
    run: TestRunV,
    actual: ValueV,
    expected: ValueV,
)
    ensures
        verdict(actual, expected) == Some(false) ==> resume(
            env,
            stack,
            KontV::TestExpected { run, actual },
            expected,
        ) == fail(env, stack, ErrorKind::TestFailed, run.name),
        verdict(actual, expected) == Some(true) ==> resume(
            env,
            stack,
            KontV::TestExpected { run, actual },
            expected,
        ) == pass(env, stack, run),
        verdict(actual, expected) is None ==> resume(
            env,
            stack,
            KontV::TestExpected { run, actual },
            expected,
        ) == (
            MachineV {
                env,
                stack: stack.push(KontV::TestVerdict { run }),
                control: ControlV::Waiting(PendingV::Truth),
            },
            ActionV::Request(
                RequestV::Relate(Relation::Near, actual->Number_0, expected->Number_0),
            ),
        ),
        resume(env, stack, KontV::TestVerdict { run }, ValueV::Bool(false)) == fail(
            env,
            stack,
            ErrorKind::TestFailed,
            run.name,
        ),
        resume(env, stack, KontV::TestVerdict { run }, ValueV::Bool(true)) == pass(
            env,
            stack,
            run,
        ),
        run.index + 1 >= run.cases.len() ==> pass(env, stack, run) == give(
            env,
            stack,
            ValueV::Nil,
        ),
{
}

} // verus!
