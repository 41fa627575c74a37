//! Runs: the states that a sequence of steps leads through.

use vstd::prelude::*;
use crate::continuation::MachineV;
use crate::host::ReplyV;
use crate::semantics::step;

verus! {

/// The state that stepping through `replies`, in order, leads to from `m`.
pub open spec fn run(m: MachineV, replies: Seq<ReplyV>) -> MachineV
    decreases replies.len(),
{
    if replies.len() == 0 {
        m
    } else {
        step(run(m, replies.drop_last()), replies.last()).0
    }
}

/// Running through two scripts one after the other is running through
/// their concatenation.
pub proof fn lemma_run_append(m: MachineV, a: Seq<ReplyV>, b: Seq<ReplyV>)
    ensures
        run(m, a + b) == run(run(m, a), b),
    decreases b.len(),
{
    if b.len() == 0 {
        assert(a + b =~= a);
    } else {
        lemma_run_append(m, a, b.drop_last());
        assert((a + b).drop_last() =~= a + b.drop_last());
        assert((a + b).last() == b.last());
    }
}

/// One more step after a script.
pub proof fn lemma_run_push(m: MachineV, a: Seq<ReplyV>, r: ReplyV)
    ensures
        run(m, a.push(r)) == step(run(m, a), r).0,
{
    assert(a.push(r).drop_last() =~= a);
}

} // verus!
