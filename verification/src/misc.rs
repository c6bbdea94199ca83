//! Small extension traits: discarding a `#[must_use]` value, applying a
//! tweak to a value in a builder style, runtime assertions on `Option` and
//! `Result`, and a type-level truth marker.

use vstd::prelude::*;

verus! {

/// Discarding a value on purpose.
pub trait ExtForIgnore {
    /// satisfy `#[must_use]` but do nothing
    fn ignore(&self) {
    }
}

impl<T> ExtForIgnore for T {

}

/// Applying a tweak to an owned value, builder style.
pub trait SizedExtForApply: Sized {
    fn apply<F: FnOnce(Self) -> Self>(self, f: F) -> (r: Self)
        requires
            call_requires(f, (self,)),
        ensures
            call_ensures(f, (self,), r),
    {
        f(self)
    }
}

impl<T> SizedExtForApply for T {

}

/// A type-level witness that a const boolean is true.
pub trait IsTrue<const B: bool> {

}

impl IsTrue<true> for () {

}

/// Assertions that a value is present or absent.  Each is a fatal caller
/// error on the wrong variant, excluded here by precondition.
pub trait ExtForOption {
    /// Whether the value is present.
    spec fn present(&self) -> bool;

    fn assert_some(&self)
        requires
            self.present(),
    ;

    fn debug_assert_some(&self)
        requires
            self.present(),
    ;

    fn assert_none(&self)
        requires
            !self.present(),
    ;

    fn debug_assert_none(&self)
        requires
            !self.present(),
    ;
}

impl<T> ExtForOption for Option<T> {
    open spec fn present(&self) -> bool {
        self is Some
    }

    fn assert_some(&self) {
    }

    fn debug_assert_some(&self) {
    }

    fn assert_none(&self) {
    }

    fn debug_assert_none(&self) {
    }
}

/// Assertions that a result is a success or a failure.  Each is a fatal
/// caller error on the wrong variant, excluded here by precondition.
pub trait ExtForResult {
    /// Whether the value is a success.
    spec fn succeeded(&self) -> bool;

    fn assert_ok(&self)
        requires
            self.succeeded(),
    ;

    fn debug_assert_ok(&self)
        requires
            self.succeeded(),
    ;

    fn assert_err(&self)
        requires
            !self.succeeded(),
    ;

    fn debug_assert_err(&self)
        requires
            !self.succeeded(),
    ;
}

impl<T, E> ExtForResult for Result<T, E> {
    open spec fn succeeded(&self) -> bool {
        self is Ok
    }

    fn assert_ok(&self) {
    }

    fn debug_assert_ok(&self) {
    }

    fn assert_err(&self) {
    }

    fn debug_assert_err(&self) {
    }
}

} // verus!
