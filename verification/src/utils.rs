//! Monad-flavoured duplicates of the extension helpers, and an interface for
//! attaching a message to a failure.

use vstd::prelude::*;

verus! {

/// Discarding a value on purpose.
pub trait MonadExt {
    /// satisfy `#[must_use]` but do nothing
    fn ignore(&self) {
    }
}

impl<T> MonadExt for T {

}

/// Applying a tweak to an owned value, builder style.
pub trait SizedMonadExt: Sized {
    fn apply<F: FnOnce(Self) -> Self>(self, f: F) -> (r: Self)
        requires
            call_requires(f, (self,)),
        ensures
            call_ensures(f, (self,), r),
    {
        f(self)
    }
}

impl<T> SizedMonadExt for T {

}

/// Turning a bare failure into one carrying a message.
pub trait ResultExt {
    type S;

    fn msg<T>(self, x: T) -> Result<Self::S, T>;
}

} // verus!
