//! Finding the first fault in an ordered list of checks.

use vstd::prelude::*;

verus! {

/// The first fault among the checks `check(0)`, ..., `check(n - 1)`.
pub open spec fn first_fault<E>(n: nat, check: spec_fn(int) -> Option<E>) -> Option<E>
    decreases n,
{
    if n == 0 {
        None
    } else {
        match first_fault((n - 1) as nat, check) {
            Some(fault) => Some(fault),
            None => check(n - 1),
        }
    }
}

/// `a`, or `b` where `a` holds no fault.
pub open spec fn or_fault<E>(a: Option<E>, b: Option<E>) -> Option<E> {
    match a {
        Some(fault) => Some(fault),
        None => b,
    }
}

/// There is no first fault exactly where every check passes.
pub proof fn lemma_first_fault_none<E>(n: nat, check: spec_fn(int) -> Option<E>)
    ensures
        first_fault(n, check) is None <==> forall|i: int| 0 <= i < n ==> (#[trigger] check(i)) is None,
    decreases n,
{
    if n > 0 {
        lemma_first_fault_none((n - 1) as nat, check);
        if first_fault(n, check) is None {
            assert forall|i: int| 0 <= i < n implies (#[trigger] check(i)) is None by {
                if i == n - 1 {
                }
            }
        }
        if forall|i: int| 0 <= i < n ==> (#[trigger] check(i)) is None {
            assert(check(n - 1) is None);
        }
    }
}

/// A fault at `i` with none before it is the first fault of any longer list.
pub proof fn lemma_first_fault_at<E>(n: nat, check: spec_fn(int) -> Option<E>, i: nat)
    requires
        i < n,
        first_fault(i, check) is None,
        check(i as int) is Some,
    ensures
        first_fault(n, check) == check(i as int),
    decreases n,
{
    if i + 1 < n {
        lemma_first_fault_at((n - 1) as nat, check, i);
    }
}

} // verus!
