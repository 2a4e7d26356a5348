//! Operations on samples that the caller hands in.
//!
//! Samples are of a type that the caller chooses, and so are the sums, products and
//! comparisons that are made of them. Contracts speak of the operation's result.

use vstd::prelude::*;

verus! {

/// `f` accepts every pair and always gives the same result for the same pair.
pub open spec fn is_binary<A, B, R, F: Fn(A, B) -> R>(f: F) -> bool {
    &&& forall|a: A, b: B| #[trigger] call_requires(f, (a, b))
    &&& forall|a: A, b: B, r: R, s: R| #[trigger]
        call_ensures(f, (a, b), r) && #[trigger] call_ensures(f, (a, b), s) ==> r == s
}

/// What `f` gives for a pair.
pub open spec fn binary<A, B, R, F: Fn(A, B) -> R>(f: F, a: A, b: B) -> R {
    choose|r: R| call_ensures(f, (a, b), r)
}

/// `f` accepts every value and always gives the same result for the same value.
pub open spec fn is_unary<A, R, F: Fn(A) -> R>(f: F) -> bool {
    &&& forall|a: A| #[trigger] call_requires(f, (a,))
    &&& forall|a: A, r: R, s: R| #[trigger]
        call_ensures(f, (a,), r) && #[trigger] call_ensures(f, (a,), s) ==> r == s
}

/// What `f` gives for a value.
pub open spec fn unary<A, R, F: Fn(A) -> R>(f: F, a: A) -> R {
    choose|r: R| call_ensures(f, (a,), r)
}

/// Calls `f` on a pair.
pub fn call_binary<A, B, R, F: Fn(A, B) -> R>(f: &F, a: A, b: B) -> (r: R)
    requires
        is_binary(*f),
    ensures
        r == binary(*f, a, b),
{
    f(a, b)
}

/// Calls `f` on a value.
pub fn call_unary<A, R, F: Fn(A) -> R>(f: &F, a: A) -> (r: R)
    requires
        is_unary(*f),
    ensures
        r == unary(*f, a),
{
    f(a)
}

} // verus!
