//! The built-ins: they are installed under their names; arithmetic and
//! ordering take two numbers; reading an array by position.

use vstd::prelude::*;
use crate::env::{EnvV, lemma_first_match};
use crate::host::{BinaryOp, ReplyV, RequestV};
use crate::laws::scope::{lemma_bind_upto, lemma_last_index_is};
use crate::semantics::{bind_upto, initial, numbers_only};
use crate::stdlib::{
    apply_spec,
    later_factors,
    type_error,
    lemma_symbols_distinct,
    rank,
    NativeFunction,
    OutcomeV,
    PendingV,
    Primitive,
    all_primitives,
    resume_spec,
    table,
};
use crate::value::ValueV;

verus! {

/// The built-ins are there from the start: in the root frame of a new
/// interpreter the name of each built-in resolves to that built-in.
pub proof fn law_builtins_installed(p: Primitive)
    ensures
        initial().env.lookup(0, p.symbol()) == Some(
            ValueV::NativeFunction(NativeFunction::Pure(p)),
        ),
{
    let all = all_primitives();
    let entries = table(all);
    let names = Seq::new(entries.len(), |i: int| entries[i].0);
    let values = Seq::new(entries.len(), |i: int| entries[i].1);
    let base = (EnvV { frames: Seq::empty() }).extend(None);
    assert(all[rank(p)] == p);
    assert forall|k: int| rank(p) < k < 23 implies names[k] != p.symbol() by {
        let q = all[k];
        assert(rank(q) == k);
        lemma_symbols_distinct(q, p);
    }
    lemma_last_index_is(names, p.symbol(), 23, rank(p));
    lemma_bind_upto(base, 0, names, values, 23, p.symbol());
    let root = bind_upto(base, 0, names, values, 23);
    lemma_first_match(root.frames[0].variables, p.symbol(), 0);
}

/// Reading an array by position. `get` on an array, once the host has cut
/// the index down to the integer `i`, gives item `i` where `i` is a
/// position of the array, and nil otherwise.
pub proof fn law_get_item(items: Seq<ValueV>, i: i64)
    ensures
        resume_spec(
            PendingV::Element { target: ValueV::Array(items) },
            ReplyV::Integers(seq![i]),
        ) == OutcomeV::Value(
            if 0 <= i < items.len() {
                items[i as int]
            } else {
                ValueV::Nil
            },
        ),
{
}

/// Whether the built-in is one of `+ - * / ^ > < >= <=`.
pub open spec fn takes_two_numbers(p: Primitive) -> bool {
    p == Primitive::Add || p == Primitive::Sub || p == Primitive::Mul || p == Primitive::Div || p
        == Primitive::Pow || p == Primitive::Greater || p == Primitive::Less || p
        == Primitive::GreaterEq || p == Primitive::LessEq
}

/// Arithmetic and ordering take two numbers. Each of `+ - * / ^ > < >= <=`
/// is a type error if and only if its first or its second argument is
/// missing or is no number, and but for `*` it ignores every argument after
/// the second.
pub proof fn law_two_operands(p: Primitive, args: Seq<ValueV>)
    requires
        takes_two_numbers(p),
    ensures
        apply_spec(p, args) is Fail <==> !(args.len() >= 2 && args[0] is Number
            && args[1] is Number),
        apply_spec(p, args) is Fail ==> apply_spec(p, args) == type_error(p),
        p != Primitive::Mul && args.len() >= 2 ==> apply_spec(p, args) == apply_spec(
            p,
            args.take(2),
        ),
{
}

/// The product of three. `(* a b c)` with three numbers has the host
/// multiply `a` by `b` and what comes of it by `c`, and is what comes of
/// that: so `(* a a a)` is the cube of `a`.
pub proof fn law_product_of_three(a: u32, b: u32, c: u32, ab: u32, abc: u32)
    ensures
        apply_spec(
            Primitive::Mul,
            seq![ValueV::Number(a), ValueV::Number(b), ValueV::Number(c)],
        ) == OutcomeV::Ask(
            RequestV::Binary(BinaryOp::Mul, a, b),
            PendingV::Product { rest: seq![c] },
        ),
        resume_spec(PendingV::Product { rest: seq![c] }, ReplyV::Number(ab)) == OutcomeV::Ask(
            RequestV::Binary(BinaryOp::Mul, ab, c),
            PendingV::Product { rest: Seq::empty() },
        ),
        resume_spec(PendingV::Product { rest: Seq::empty() }, ReplyV::Number(abc))
            == OutcomeV::Value(ValueV::Number(abc)),
{
    let args = seq![ValueV::Number(a), ValueV::Number(b), ValueV::Number(c)];
    assert(args.skip(2) =~= seq![ValueV::Number(c)]);
    assert(args.skip(2).drop_last() =~= Seq::<ValueV>::empty());
    reveal_with_fuel(numbers_only, 2);
    assert(later_factors(args) =~= seq![c]);
    assert(seq![c].skip(1) =~= Seq::<u32>::empty());
}

} // verus!
