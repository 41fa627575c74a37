//! Scoping: which binding a name resolves to inside a function body and
//! inside a `let`.

use vstd::prelude::*;
use crate::continuation::{ControlV, KontV, ThenV};
use crate::env::{EnvV, find, first_match, lemma_first_match, lemma_put_find};
use crate::expr::ExprV;
use crate::semantics::{bind_upto, finish, fresh, give, lesser, resume};
use crate::value::ValueV;

verus! {

/// The last position before `n` at which `names` holds `x`.
pub open spec fn last_index(names: Seq<Seq<char>>, x: Seq<char>, n: nat) -> Option<int>
    decreases n,
{
    if n == 0 || n > names.len() {
        None
    } else if names[n - 1] == x {
        Some(n - 1)
    } else {
        last_index(names, x, (n - 1) as nat)
    }
}

/// A position that holds the name, with none after it before `n`, is the
/// last one.
pub proof fn lemma_last_index_is(names: Seq<Seq<char>>, x: Seq<char>, n: nat, j: int)
    requires
        0 <= j < n <= names.len(),
        names[j] == x,
        forall|k: int| j < k < n ==> names[k] != x,
    ensures
        last_index(names, x, n) == Some(j),
    decreases n,
{
    if j < n - 1 {
        lemma_last_index_is(names, x, (n - 1) as nat, j);
    }
}

/// Binding names to values in a frame changes that frame's variables only:
/// a name that was bound holds the value of its last occurrence, and every
/// other name holds what it held.
pub proof fn lemma_bind_upto(
    env: EnvV,
    c: int,
    names: Seq<Seq<char>>,
    values: Seq<ValueV>,
    n: nat,
    x: Seq<char>,
)
    requires
        0 <= c < env.frames.len(),
        n <= names.len(),
        n <= values.len(),
    ensures
        ({
            let e = bind_upto(env, c, names, values, n);
            &&& e.frames.len() == env.frames.len()
            &&& forall|i: int| 0 <= i < env.frames.len() && i != c ==> e.frames[i] == env.frames[i]
            &&& e.frames[c].parent == env.frames[c].parent
            &&& e.frames[c].classes == env.frames[c].classes
            &&& find(e.frames[c].variables, x) == match last_index(names, x, n) {
                Some(j) => Some(values[j]),
                None => find(env.frames[c].variables, x),
            }
        }),
    decreases n,
{
    if n > 0 {
        lemma_bind_upto(env, c, names, values, (n - 1) as nat, x);
        let before = bind_upto(env, c, names, values, (n - 1) as nat);
        lemma_put_find(before.frames[c].variables, names[n - 1], values[n - 1], x);
    }
}

/// Two environments that hold the same frames up to `frame` resolve every
/// name from `frame` alike: a lookup only ever walks to frames with lesser
/// handles.
pub proof fn lemma_lookup_agrees(a: EnvV, b: EnvV, frame: int, x: Seq<char>)
    requires
        0 <= frame < a.frames.len(),
        a.frames.len() <= b.frames.len(),
        forall|i: int| 0 <= i <= frame ==> a.frames[i] == b.frames[i],
    ensures
        a.holder(frame, x) == b.holder(frame, x),
        a.lookup(frame, x) == b.lookup(frame, x),
    decreases frame,
{
    if first_match(a.frames[frame].variables, x, 0) is None {
        match a.frames[frame].parent {
            Some(p) => {
                if p < frame {
                    lemma_lookup_agrees(a, b, p as int, x);
                }
            },
            None => {},
        }
    }
    if a.holder(frame, x) is Some {
        lemma_holder_range(a, frame, x);
    }
}

/// The frame that holds a name is a frame of the environment, at or below
/// the one from which it is looked up, and binds the name.
pub proof fn lemma_holder_range(env: EnvV, frame: int, x: Seq<char>)
    requires
        env.holder(frame, x) is Some,
    ensures
        0 <= env.holder(frame, x)->0 <= frame,
        env.holder(frame, x)->0 < env.frames.len(),
        env.declared(env.holder(frame, x)->0, x),
    decreases frame,
{
    if 0 <= frame < env.frames.len() {
        if first_match(env.frames[frame].variables, x, 0) is None {
            match env.frames[frame].parent {
                Some(p) => {
                    if p < frame {
                        lemma_holder_range(env, p as int, x);
                    }
                },
                None => {},
            }
        }
    }
}

/// Lexical scoping. When a function that was defined in frame `func_env`
/// is called, its body is evaluated in a new frame under `func_env`: a
/// parameter resolves to its argument, and every other name resolves as it
/// does from `func_env`, whichever frame the call stands in. The call leaves
/// what the frames that existed before resolve untouched.
pub proof fn law_lexical_scope(
    env: EnvV,
    stack: Seq<KontV>,
    params: Seq<Seq<char>>,
    body: ExprV,
    func_env: usize,
    args: Seq<ValueV>,
    x: Seq<char>,
    other: int,
)
    requires
        func_env < env.frames.len(),
        env.frames.len() <= usize::MAX,
        0 <= other < env.frames.len(),
    ensures
        ({
            let called = finish(env, stack, ThenV::Invoke { params, body, func_env }, args).0;
            let scope = env.frames.len() as usize;
            &&& called.control == ControlV::Eval { expr: body, frame: scope }
            &&& called.stack == stack
            &&& called.env.lookup(scope as int, x) == match last_index(
                params,
                x,
                lesser(params.len(), args.len()),
            ) {
                Some(j) => Some(args[j]),
                None => env.lookup(func_env as int, x),
            }
            &&& called.env.lookup(other, x) == env.lookup(other, x)
        }),
{
    let scope = env.frames.len() as int;
    let n = lesser(params.len(), args.len());
    let extended = env.extend(Some(func_env));
    let bound = bind_upto(extended, scope, params, args, n);
    lemma_bind_upto(extended, scope, params, args, n, x);
    lemma_lookup_agrees(env, bound, func_env as int, x);
    lemma_lookup_agrees(env, bound, other, x);
    lemma_first_match(bound.frames[scope].variables, x, 0);
}

/// Shadowing. Once the values of the bindings of a `let` are there, they
/// are bound in the `let`'s own frame, `child`, a fresh frame under the
/// enclosing one, and the body is evaluated in `child`: there a name that the
/// `let` binds resolves to the `let`'s value, and any other name resolves as
/// it does from the enclosing frame. Seen from the enclosing frame every
/// name still resolves as before, so that binding is what is seen again
/// when the `let` is left.
pub proof fn law_let_shadows(
    env: EnvV,
    stack: Seq<KontV>,
    names: Seq<Seq<char>>,
    form: Seq<ExprV>,
    frame: usize,
    child: usize,
    values: Seq<ValueV>,
    x: Seq<char>,
)
    requires
        frame < child < env.frames.len(),
        env.frames[child as int].parent == Some(frame),
        env.frames[child as int].variables.len() == 0,
    ensures
        ({
            let inside = finish(
                env,
                stack,
                ThenV::Let { names, form, child, failed: false },
                values,
            ).0;
            &&& inside.control == ControlV::Return(ValueV::Nil)
            &&& inside.stack == stack.push(KontV::Block { items: form, next: 2, frame: child })
            &&& inside.env.lookup(child as int, x) == match last_index(
                names,
                x,
                lesser(names.len(), values.len()),
            ) {
                Some(j) => Some(values[j]),
                None => env.lookup(frame as int, x),
            }
            &&& inside.env.lookup(frame as int, x) == env.lookup(frame as int, x)
        }),
{
    let n = lesser(names.len(), values.len());
    let bound = bind_upto(env, child as int, names, values, n);
    lemma_bind_upto(env, child as int, names, values, n, x);
    lemma_lookup_agrees(env, bound, frame as int, x);
    lemma_first_match(bound.frames[child as int].variables, x, 0);
}

/// A `let` makes its frame fresh: the new frame has the handle that comes
/// next, stands under the frame of the `let` and binds nothing.
pub proof fn law_let_frame(env: EnvV, frame: usize)
    ensures
        ({
            let extended = env.extend(Some(frame));
            let child = env.frames.len() as int;
            &&& extended.frames.len() == env.frames.len() + 1
            &&& extended.frames[child].parent == Some(frame)
            &&& extended.frames[child].variables.len() == 0
            &&& forall|i: int| 0 <= i < child ==> extended.frames[i] == env.frames[i]
        }),
{
}

/// Leaving a block, and so a `let`, hands its last value on and leaves the
/// environment as it is.
pub proof fn law_block_exit(
    env: EnvV,
    stack: Seq<KontV>,
    items: Seq<ExprV>,
    next: usize,
    frame: usize,
    v: ValueV,
)
    requires
        next >= items.len(),
    ensures
        resume(env, stack, KontV::Block { items, next, frame }, v) == give(env, stack, v),
{
}

} // verus!
