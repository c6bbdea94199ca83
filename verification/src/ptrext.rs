//! Deliberately leaking a value to get a reference that lives for the rest
//! of the program.

use vstd::prelude::*;

verus! {

/// Relies on Box::leak: the leaked reference addresses the boxed value and
/// stays valid for the rest of the program.
#[verifier::external_body]
fn leak_box<T>(b: Box<T>) -> (r: &'static mut T)
    ensures
        *r == *b,
{
    Box::leak(b)
}

/// Moving a value to the heap and leaking the box.
pub trait SizedExtForLeak: Sized {
    /// wrap the value in a box and leak, returning a static reference
    fn box_and_leak(self) -> (r: &'static mut Self)
        ensures
            *r == self,
    ;
}

impl<T> SizedExtForLeak for T {
    fn box_and_leak(self) -> (r: &'static mut Self) {
        leak_box(Box::new(self))
    }
}

/// Moves `x` to the heap and leaks it, returning a reference that lives for
/// the rest of the program.
pub fn leak<T>(x: T) -> (r: &'static mut T)
    ensures
        *r == x,
{
    x.box_and_leak()
}

} // verus!
