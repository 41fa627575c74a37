//! Order of evaluation: the items of an array, the forms of a block and
//! the rounds of a `for` are evaluated one after the other, each exactly
//! once.

use vstd::prelude::*;
use crate::continuation::{ControlV, KontV, MachineV, ThenV};
use crate::env::EnvV;
use crate::expr::ExprV;
use crate::host::ReplyV;
use crate::laws::runs::{lemma_run_append, lemma_run_push, run};
use crate::semantics::{
    bind_all,
    columns_of,
    finish,
    gather,
    give,
    lesser,
    numbers_only,
    row_of,
    shortest,
    step,
};
use crate::stdlib::number_values;
use crate::value::ValueV;

verus! {

/// The state in which a gathering waits on top of `stack`.
pub open spec fn gathering(
    env: EnvV,
    stack: Seq<KontV>,
    items: Seq<ExprV>,
    done: Seq<ValueV>,
    frame: usize,
    then: ThenV,
    control: ControlV,
) -> MachineV {
    MachineV { env, stack: stack.push(KontV::Gather { items, done, frame, then }), control }
}

/// The replies of the first `n` evaluations, each followed by the step that
/// hands the value on (which looks at no reply).
pub open spec fn script(replies: Seq<Seq<ReplyV>>, n: nat) -> Seq<ReplyV>
    decreases n,
{
    if n == 0 || n > replies.len() {
        Seq::empty()
    } else {
        (script(replies, (n - 1) as nat) + replies[n - 1]).push(ReplyV::Nothing)
    }
}

/// Whether evaluating `items[i]`, for each `i`, in the state that the
/// gathering is in by then, with the replies `replies[i]`, takes the
/// environment from `envs[i]` to `envs[i + 1]` and yields `values[i]`.
pub open spec fn evaluates_each(
    envs: Seq<EnvV>,
    stack: Seq<KontV>,
    items: Seq<ExprV>,
    values: Seq<ValueV>,
    replies: Seq<Seq<ReplyV>>,
    frame: usize,
    then: ThenV,
) -> bool {
    &&& values.len() == items.len()
    &&& replies.len() == items.len()
    &&& envs.len() == items.len() + 1
    &&& forall|i: int|
        0 <= i < items.len() ==> run(
            gathering(
                envs[i],
                stack,
                items,
                values.take(i),
                frame,
                then,
                ControlV::Eval { expr: items[i], frame },
            ),
            #[trigger] replies[i],
        ) == gathering(
            envs[i],
            stack,
            items,
            values.take(i),
            frame,
            then,
            ControlV::Return(values[i]),
        ).with_env(envs[i + 1])
}

/// While a gathering is under way, the items are evaluated from left to
/// right: after the first `k` evaluations the machine is about to evaluate
/// item `k`, with the first `k` values collected in order.
pub proof fn lemma_gather_progress(
    envs: Seq<EnvV>,
    stack: Seq<KontV>,
    items: Seq<ExprV>,
    values: Seq<ValueV>,
    replies: Seq<Seq<ReplyV>>,
    frame: usize,
    then: ThenV,
    k: nat,
)
    requires
        evaluates_each(envs, stack, items, values, replies, frame, then),
        k < items.len(),
    ensures
        run(gather(envs[0], stack, items, frame, then).0, script(replies, k)) == gathering(
            envs[k as int],
            stack,
            items,
            values.take(k as int),
            frame,
            then,
            ControlV::Eval { expr: items[k as int], frame },
        ),
    decreases k,
{
    let start = gather(envs[0], stack, items, frame, then).0;
    if k == 0 {
        assert(values.take(0) =~= Seq::empty());
    } else {
        let j = (k - 1) as nat;
        lemma_gather_progress(envs, stack, items, values, replies, frame, then, j);
        let before = script(replies, j);
        lemma_run_append(start, before, replies[j as int]);
        lemma_run_push(start, before + replies[j as int], ReplyV::Nothing);
        let waiting = run(start, before + replies[j as int]);
        assert(waiting.stack.drop_last() =~= stack);
        assert(values.take(j as int).push(values[j as int]) =~= values.take(k as int));
    }
}

/// A run of expressions is evaluated from left to right, and what follows
/// is given exactly their values, in order.
///
/// Whenever evaluating item `i` in the state that the machine is in by
/// then yields `values[i]`, for each `i`, the gathering ends by doing what
/// follows it with `values`, in the environment that the last evaluation
/// left.
pub proof fn law_gather_in_order(
    envs: Seq<EnvV>,
    stack: Seq<KontV>,
    items: Seq<ExprV>,
    values: Seq<ValueV>,
    replies: Seq<Seq<ReplyV>>,
    frame: usize,
    then: ThenV,
)
    requires
        evaluates_each(envs, stack, items, values, replies, frame, then),
        items.len() >= 1,
    ensures
        step(
            run(
                gather(envs[0], stack, items, frame, then).0,
                script(replies, (items.len() - 1) as nat) + replies[items.len() - 1],
            ),
            ReplyV::Nothing,
        ) == finish(envs[items.len() as int], stack, then, values),
{
    let n = (items.len() - 1) as nat;
    let start = gather(envs[0], stack, items, frame, then).0;
    lemma_gather_progress(envs, stack, items, values, replies, frame, then, n);
    lemma_run_append(start, script(replies, n), replies[n as int]);
    let waiting = run(start, script(replies, n) + replies[n as int]);
    assert(waiting.stack.drop_last() =~= stack);
    assert(values.take(n as int).push(values[n as int]) =~= values);
}

/// An array literal `[e1 ... eN]` evaluates its items from left to right,
/// and its value is the array of exactly the N values, in order: none is
/// dropped, doubled, flattened or moved. For N = 0 the value is the empty
/// array, not nil.
pub proof fn law_array_literal(
    envs: Seq<EnvV>,
    stack: Seq<KontV>,
    items: Seq<ExprV>,
    values: Seq<ValueV>,
    replies: Seq<Seq<ReplyV>>,
    frame: usize,
)
    requires
        evaluates_each(envs, stack, items, values, replies, frame, ThenV::Array),
    ensures
        run(
            MachineV {
                env: envs[0],
                stack,
                control: ControlV::Eval { expr: ExprV::Array(items), frame },
            },
            seq![ReplyV::Nothing] + script(replies, items.len()),
        ) == (MachineV {
            env: envs[items.len() as int],
            stack,
            control: ControlV::Return(ValueV::Array(values)),
        }),
{
    let m = MachineV {
        env: envs[0],
        stack,
        control: ControlV::Eval { expr: ExprV::Array(items), frame },
    };
    let start = gather(envs[0], stack, items, frame, ThenV::Array).0;
    assert(run(m, seq![ReplyV::Nothing]) == start) by {
        lemma_run_push(m, Seq::empty(), ReplyV::Nothing);
        assert(Seq::<ReplyV>::empty().push(ReplyV::Nothing) =~= seq![ReplyV::Nothing]);
    }
    if items.len() == 0 {
        assert(seq![ReplyV::Nothing] + script(replies, 0) =~= seq![ReplyV::Nothing]);
        assert(values =~= Seq::empty());
    } else {
        let n = (items.len() - 1) as nat;
        law_gather_in_order(envs, stack, items, values, replies, frame, ThenV::Array);
        lemma_run_append(m, seq![ReplyV::Nothing], script(replies, items.len()));
        assert(script(replies, items.len()) == (script(replies, n) + replies[n as int]).push(
            ReplyV::Nothing,
        ));
        lemma_run_push(start, script(replies, n) + replies[n as int], ReplyV::Nothing);
    }
}

/// The law of array literals at work: an array of two string literals
/// evaluates, in five steps and without the host, to the array of the two
/// strings, whatever the environment and whatever waits.
pub proof fn law_array_of_strings(
    env: EnvV,
    stack: Seq<KontV>,
    a: Seq<char>,
    b: Seq<char>,
    frame: usize,
)
    ensures
        run(
            MachineV {
                env,
                stack,
                control: ControlV::Eval {
                    expr: ExprV::Array(seq![ExprV::Str(a), ExprV::Str(b)]),
                    frame,
                },
            },
            seq![
                ReplyV::Nothing,
                ReplyV::Nothing,
                ReplyV::Nothing,
                ReplyV::Nothing,
                ReplyV::Nothing,
            ],
        ) == (MachineV {
            env,
            stack,
            control: ControlV::Return(ValueV::Array(seq![ValueV::Str(a), ValueV::Str(b)])),
        }),
{
    let items = seq![ExprV::Str(a), ExprV::Str(b)];
    let values = seq![ValueV::Str(a), ValueV::Str(b)];
    let envs = seq![env, env, env];
    let nothing = ReplyV::Nothing;
    let replies = seq![seq![nothing], seq![nothing]];
    assert forall|i: int| 0 <= i < items.len() implies run(
        gathering(
            envs[i],
            stack,
            items,
            values.take(i),
            frame,
            ThenV::Array,
            ControlV::Eval { expr: items[i], frame },
        ),
        #[trigger] replies[i],
    ) == gathering(
        envs[i],
        stack,
        items,
        values.take(i),
        frame,
        ThenV::Array,
        ControlV::Return(values[i]),
    ).with_env(envs[i + 1]) by {
        let start = gathering(
            envs[i],
            stack,
            items,
            values.take(i),
            frame,
            ThenV::Array,
            ControlV::Eval { expr: items[i], frame },
        );
        lemma_run_push(start, Seq::empty(), nothing);
        assert(Seq::<ReplyV>::empty().push(nothing) =~= replies[i]);
    }
    law_array_literal(envs, stack, items, values, replies, frame);
    reveal_with_fuel(script, 3);
    assert(seq![nothing] + script(replies, 2) =~= seq![
        nothing,
        nothing,
        nothing,
        nothing,
        nothing,
    ]);
}

/// The state in which a block waits on top of `stack`, with the forms from
/// `next` on still to come.
pub open spec fn blocking(
    env: EnvV,
    stack: Seq<KontV>,
    items: Seq<ExprV>,
    next: usize,
    frame: usize,
    control: ControlV,
) -> MachineV {
    MachineV { env, stack: stack.push(KontV::Block { items, next, frame }), control }
}

/// The replies of the forms of a block from position `from` up to, but not
/// including, position `n`: for each form the step that starts it (which
/// looks at no reply) and the replies of its evaluation.
pub open spec fn block_script(replies: Seq<Seq<ReplyV>>, from: nat, n: nat) -> Seq<ReplyV>
    decreases n,
{
    if n <= from || n > replies.len() {
        Seq::empty()
    } else {
        block_script(replies, from, (n - 1) as nat).push(ReplyV::Nothing) + replies[n - 1]
    }
}

/// Whether evaluating `items[i]`, for each `i` from `from` on, in the frame
/// of the block, takes the environment from `envs[i]` to `envs[i + 1]` and
/// yields `values[i]`.
pub open spec fn evaluates_block(
    envs: Seq<EnvV>,
    stack: Seq<KontV>,
    items: Seq<ExprV>,
    values: Seq<ValueV>,
    replies: Seq<Seq<ReplyV>>,
    frame: usize,
    from: nat,
) -> bool {
    &&& from <= items.len() <= usize::MAX
    &&& values.len() == items.len()
    &&& replies.len() == items.len()
    &&& envs.len() == items.len() + 1
    &&& forall|i: int|
        from <= i < items.len() ==> run(
            blocking(
                envs[i],
                stack,
                items,
                (i + 1) as usize,
                frame,
                ControlV::Eval { expr: items[i], frame },
            ),
            #[trigger] replies[i],
        ) == blocking(
            envs[i + 1],
            stack,
            items,
            (i + 1) as usize,
            frame,
            ControlV::Return(values[i]),
        )
}

/// After the forms up to position `k` the block is about to start form
/// `k`, holding the value of the form before it.
pub proof fn lemma_block_progress(
    envs: Seq<EnvV>,
    stack: Seq<KontV>,
    items: Seq<ExprV>,
    values: Seq<ValueV>,
    replies: Seq<Seq<ReplyV>>,
    frame: usize,
    from: nat,
    first: ValueV,
    k: nat,
)
    requires
        evaluates_block(envs, stack, items, values, replies, frame, from),
        from <= k <= items.len(),
    ensures
        run(
            blocking(
                envs[from as int],
                stack,
                items,
                from as usize,
                frame,
                ControlV::Return(first),
            ),
            block_script(replies, from, k),
        ) == blocking(
            envs[k as int],
            stack,
            items,
            k as usize,
            frame,
            ControlV::Return(
                if k == from {
                    first
                } else {
                    values[k - 1]
                },
            ),
        ),
    decreases k,
{
    let start = blocking(
        envs[from as int],
        stack,
        items,
        from as usize,
        frame,
        ControlV::Return(first),
    );
    if k > from {
        let j = (k - 1) as nat;
        lemma_block_progress(envs, stack, items, values, replies, frame, from, first, j);
        let before = block_script(replies, from, j);
        lemma_run_push(start, before, ReplyV::Nothing);
        lemma_run_append(start, before.push(ReplyV::Nothing), replies[j as int]);
        let waiting = run(start, before);
        assert(waiting.stack.drop_last() =~= stack);
    }
}

/// A sequence of forms is evaluated in order and yields the value of the
/// last one. This is how the forms of a program, of a `do` (from position
/// 1) and of the body of a `let` (from position 2) are evaluated: when each
/// form from `from` on comes to a value, the block ends with the last of
/// those values, or, when there is no such form, with the value it was
/// entered with (nil).
pub proof fn law_block_in_order(
    envs: Seq<EnvV>,
    stack: Seq<KontV>,
    items: Seq<ExprV>,
    values: Seq<ValueV>,
    replies: Seq<Seq<ReplyV>>,
    frame: usize,
    from: nat,
    first: ValueV,
)
    requires
        evaluates_block(envs, stack, items, values, replies, frame, from),
    ensures
        run(
            blocking(
                envs[from as int],
                stack,
                items,
                from as usize,
                frame,
                ControlV::Return(first),
            ),
            block_script(replies, from, items.len()).push(ReplyV::Nothing),
        ) == (MachineV {
            env: envs[items.len() as int],
            stack,
            control: ControlV::Return(
                if items.len() == from {
                    first
                } else {
                    values[items.len() - 1]
                },
            ),
        }),
{
    let start = blocking(
        envs[from as int],
        stack,
        items,
        from as usize,
        frame,
        ControlV::Return(first),
    );
    lemma_block_progress(envs, stack, items, values, replies, frame, from, first, items.len());
    lemma_run_push(start, block_script(replies, from, items.len()), ReplyV::Nothing);
    let waiting = run(start, block_script(replies, from, items.len()));
    assert(waiting.stack.drop_last() =~= stack);
}

/// The state in which a `for` loop waits on top of `stack`, about to start
/// round `index`.
pub open spec fn looping(
    env: EnvV,
    stack: Seq<KontV>,
    names: Seq<Seq<char>>,
    columns: Seq<Seq<u32>>,
    index: usize,
    count: usize,
    body: ExprV,
    child: usize,
    control: ControlV,
) -> MachineV {
    MachineV {
        env,
        stack: stack.push(KontV::ForLoop { names, columns, index, count, body, child }),
        control,
    }
}

/// The replies of the first `n` rounds of a loop: for each round the step
/// that starts it (which looks at no reply) and the replies of its body.
pub open spec fn rounds(replies: Seq<Seq<ReplyV>>, n: nat) -> Seq<ReplyV>
    decreases n,
{
    if n == 0 || n > replies.len() {
        Seq::empty()
    } else {
        rounds(replies, (n - 1) as nat).push(ReplyV::Nothing) + replies[n - 1]
    }
}

/// Whether each of the `count` rounds of the loop comes to an end: the
/// body, evaluated in the loop's frame with the names bound to row `i`,
/// takes the environment from `envs[i]` to `envs[i + 1]` and yields
/// `results[i]`.
pub open spec fn rounds_each(
    envs: Seq<EnvV>,
    stack: Seq<KontV>,
    names: Seq<Seq<char>>,
    columns: Seq<Seq<u32>>,
    count: usize,
    body: ExprV,
    child: usize,
    results: Seq<ValueV>,
    replies: Seq<Seq<ReplyV>>,
) -> bool {
    &&& results.len() == count
    &&& replies.len() == count
    &&& envs.len() == count + 1
    &&& forall|i: int| 0 <= i < count ==> (#[trigger] row_of(columns, i, names.len())) is Some
    &&& forall|i: int|
        0 <= i < count ==> run(
            looping(
                bind_all(
                    envs[i],
                    child as int,
                    names,
                    number_values(row_of(columns, i, names.len())->0),
                ),
                stack,
                names,
                columns,
                (i + 1) as usize,
                count,
                body,
                child,
                ControlV::Eval { expr: body, frame: child },
            ),
            #[trigger] replies[i],
        ) == looping(
            envs[i + 1],
            stack,
            names,
            columns,
            (i + 1) as usize,
            count,
            body,
            child,
            ControlV::Return(results[i]),
        )
}

/// After `k` rounds the loop is about to start round `k`.
pub proof fn lemma_for_progress(
    envs: Seq<EnvV>,
    stack: Seq<KontV>,
    names: Seq<Seq<char>>,
    columns: Seq<Seq<u32>>,
    count: usize,
    body: ExprV,
    child: usize,
    results: Seq<ValueV>,
    replies: Seq<Seq<ReplyV>>,
    first: ValueV,
    k: nat,
)
    requires
        rounds_each(envs, stack, names, columns, count, body, child, results, replies),
        k <= count,
    ensures
        run(
            looping(
                envs[0],
                stack,
                names,
                columns,
                0,
                count,
                body,
                child,
                ControlV::Return(first),
            ),
            rounds(replies, k),
        ) == looping(
            envs[k as int],
            stack,
            names,
            columns,
            k as usize,
            count,
            body,
            child,
            ControlV::Return(
                if k == 0 {
                    first
                } else {
                    results[k - 1]
                },
            ),
        ),
    decreases k,
{
    let start = looping(
        envs[0],
        stack,
        names,
        columns,
        0,
        count,
        body,
        child,
        ControlV::Return(first),
    );
    if k > 0 {
        let j = (k - 1) as nat;
        lemma_for_progress(
            envs,
            stack,
            names,
            columns,
            count,
            body,
            child,
            results,
            replies,
            first,
            j,
        );
        let before = rounds(replies, j);
        lemma_run_push(start, before, ReplyV::Nothing);
        lemma_run_append(start, before.push(ReplyV::Nothing), replies[j as int]);
        let waiting = run(start, before);
        assert(waiting.stack.drop_last() =~= stack);
        assert(row_of(columns, j as int, names.len()) is Some);
    }
}

/// A `for` loop evaluates its body once for each row, in order, and no
/// more: when each of the `count` rounds comes to an end, the loop ends
/// after them, with nil, in the environment that the last round left.
pub proof fn law_for_rounds(
    envs: Seq<EnvV>,
    stack: Seq<KontV>,
    names: Seq<Seq<char>>,
    columns: Seq<Seq<u32>>,
    count: usize,
    body: ExprV,
    child: usize,
    results: Seq<ValueV>,
    replies: Seq<Seq<ReplyV>>,
    first: ValueV,
)
    requires
        rounds_each(envs, stack, names, columns, count, body, child, results, replies),
    ensures
        run(
            looping(
                envs[0],
                stack,
                names,
                columns,
                0,
                count,
                body,
                child,
                ControlV::Return(first),
            ),
            rounds(replies, count as nat).push(ReplyV::Nothing),
        ) == (MachineV {
            env: envs[count as int],
            stack,
            control: ControlV::Return(ValueV::Nil),
        }),
{
    let start = looping(
        envs[0],
        stack,
        names,
        columns,
        0,
        count,
        body,
        child,
        ControlV::Return(first),
    );
    lemma_for_progress(
        envs,
        stack,
        names,
        columns,
        count,
        body,
        child,
        results,
        replies,
        first,
        count as nat,
    );
    lemma_run_push(start, rounds(replies, count as nat), ReplyV::Nothing);
    let waiting = run(start, rounds(replies, count as nat));
    assert(waiting.stack.drop_last() =~= stack);
}

/// The numbers of an array of numbers are those numbers.
pub proof fn lemma_numbers_only(ns: Seq<u32>)
    ensures
        numbers_only(number_values(ns)) == ns,
    decreases ns.len(),
{
    if ns.len() > 0 {
        lemma_numbers_only(ns.drop_last());
        assert(number_values(ns).drop_last() =~= number_values(ns.drop_last()));
        assert(numbers_only(number_values(ns)) =~= ns);
    } else {
        assert(numbers_only(number_values(ns)) =~= ns);
    }
}

/// The shortest of the first `n` columns is no longer than any of them.
pub proof fn lemma_shortest_bounds(columns: Seq<Seq<u32>>, n: nat, j: int)
    requires
        0 <= j < n <= columns.len(),
    ensures
        shortest(columns, n) <= columns[j].len(),
    decreases n,
{
    if n > 1 && j < n - 1 {
        lemma_shortest_bounds(columns, (n - 1) as nat, j);
    }
}

/// Every one of the first `n` columns has a row for each index below the
/// length of the shortest column.
pub proof fn lemma_rows_exist(columns: Seq<Seq<u32>>, index: int, n: nat)
    requires
        n <= columns.len(),
        0 <= index < shortest(columns, columns.len()),
    ensures
        row_of(columns, index, n) is Some,
    decreases n,
{
    if n > 0 {
        lemma_rows_exist(columns, index, (n - 1) as nat);
        lemma_shortest_bounds(columns, columns.len(), n - 1);
    }
}

/// `(for (a b) (A B) body)`, with `A` and `B` arrays of numbers, makes
/// exactly as many rounds as the shorter of the two has items: once the
/// ranges are evaluated, the loop stands ready at round 0 of
/// `min(len A, len B)`, and each of those rounds has its row of numbers to
/// bind.
pub proof fn law_for_zip(
    env: EnvV,
    stack: Seq<KontV>,
    names: Seq<Seq<char>>,
    body: ExprV,
    child: usize,
    a: Seq<u32>,
    b: Seq<u32>,
)
    requires
        a.len() <= usize::MAX,
        b.len() <= usize::MAX,
    ensures
        finish(
            env,
            stack,
            ThenV::For { names, block: Some(body), child },
            seq![ValueV::Array(number_values(a)), ValueV::Array(number_values(b))],
        ) == give(
            env,
            stack.push(
                KontV::ForLoop {
                    names,
                    columns: seq![a, b],
                    index: 0,
                    count: lesser(a.len(), b.len()) as usize,
                    body,
                    child,
                },
            ),
            ValueV::Nil,
        ),
        ({
            let columns = seq![a, b];
            forall|i: int, n: nat|
                0 <= i < lesser(a.len(), b.len()) && n <= 2 ==> (#[trigger] row_of(
                    columns,
                    i,
                    n,
                )) is Some
        }),
{
    let columns = seq![a, b];
    assert forall|i: int, n: nat| 0 <= i < lesser(a.len(), b.len()) && n <= 2 implies (
    #[trigger] row_of(columns, i, n)) is Some by {
        reveal_with_fuel(shortest, 3);
        lemma_rows_exist(columns, i, n);
    }
    let ranges = seq![ValueV::Array(number_values(a)), ValueV::Array(number_values(b))];
    lemma_numbers_only(a);
    lemma_numbers_only(b);
    assert(ranges.drop_last() =~= seq![ValueV::Array(number_values(a))]);
    assert(ranges.drop_last().drop_last() =~= Seq::<ValueV>::empty());
    assert(columns_of(ranges.drop_last().drop_last()) =~= Seq::<Seq<u32>>::empty());
    assert(columns_of(ranges.drop_last()) =~= seq![a]);
    assert(columns_of(ranges) =~= seq![a, b]);
    reveal_with_fuel(shortest, 3);
}

} // verus!
