//! The views of lists.

use vstd::prelude::*;

verus! {

/// The views of the items of a list, in order.
pub open spec fn views<T: View>(v: Seq<T>) -> Seq<T::V> {
    Seq::new(v.len(), |i: int| v[i]@)
}

/// The views of a list that grew by one item.
pub proof fn views_push<T: View>(v: Seq<T>, x: T)
    ensures
        views(v.push(x)) == views(v).push(x@),
{
    assert(views(v.push(x)) =~= views(v).push(x@));
}


/// The first place below `n` at which `p` holds, or `n`.
pub open spec fn first_such(p: spec_fn(int) -> bool, n: nat) -> nat
    decreases n,
{
    if n == 0 {
        0
    } else {
        let before = first_such(p, (n - 1) as nat);
        if before < n - 1 {
            before
        } else if p(n - 1) {
            (n - 1) as nat
        } else {
            n
        }
    }
}

/// The place found is the first: `p` holds at it, if it lies below `n`, and
/// at no place before it.
pub proof fn first_such_is_first(p: spec_fn(int) -> bool, n: nat)
    ensures
        first_such(p, n) <= n,
        first_such(p, n) < n ==> p(first_such(p, n) as int),
        forall|j: int| 0 <= j < first_such(p, n) ==> !#[trigger] p(j),
    decreases n,
{
    if n > 0 {
        first_such_is_first(p, (n - 1) as nat);
    }
}

/// Once a place is found below `k`, it is the place found below any larger bound.
pub proof fn first_such_settles(p: spec_fn(int) -> bool, k: nat, n: nat)
    requires
        k <= n,
        first_such(p, k) < k,
    ensures
        first_such(p, n) == first_such(p, k),
    decreases n,
{
    if k < n {
        first_such_settles(p, k, (n - 1) as nat);
    }
}

/// At how many places below `n` `p` holds.
pub open spec fn count_such(p: spec_fn(int) -> bool, n: nat) -> nat
    decreases n,
{
    if n == 0 {
        0
    } else {
        count_such(p, (n - 1) as nat) + if p(n - 1) {
            1nat
        } else {
            0nat
        }
    }
}

} // verus!
