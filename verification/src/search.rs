//! Bisection over a monotone predicate on machine integers.

use vstd::prelude::*;

verus! {

/// Tightens a bracket `(l, r)` with `f(l) == false` and `f(r) == true` until
/// it is no wider than `target_range`, by repeated halving.  The endpoints
/// returned are either the untouched ends of `support` or values `f` was
/// seen to answer `false` (left) and `true` (right) on.
pub fn binary_search<F: Fn(i64) -> bool>(support: (i64, i64), target_range: i64, f: F) -> (r: (
    i64,
    i64,
))
    requires
        support.0 < support.1,
        support.1 - support.0 <= i64::MAX,
        target_range >= 1,
        forall|x: i64| support.0 <= x <= support.1 ==> call_requires(f, (x,)),
        forall|b: bool| call_ensures(f, (support.0,), b) ==> !b,
        forall|b: bool| call_ensures(f, (support.1,), b) ==> b,
    ensures
        support.0 <= r.0 < r.1 <= support.1,
        r.1 - r.0 <= target_range,
        r.0 == support.0 || call_ensures(f, (r.0,), false),
        r.1 == support.1 || call_ensures(f, (r.1,), true),
{
    let (mut l, mut r) = support;
    while r - l > target_range
        invariant
            support.0 <= l < r <= support.1,
            support.1 - support.0 <= i64::MAX,
            target_range >= 1,
            l == support.0 || call_ensures(f, (l,), false),
            r == support.1 || call_ensures(f, (r,), true),
            forall|x: i64| support.0 <= x <= support.1 ==> call_requires(f, (x,)),
        decreases r - l,
    {
        let m = l + (r - l) / 2;
        if f(m) {
            r = m;
        } else {
            l = m;
        }
    }
    (l, r)
}

} // verus!
