//! Helpers for sizing buffers of plain integer primitives without caring
//! about their initial contents.  Fresh slots are filled with zero, but the
//! contracts promise only the length and the preserved prefix: reading
//! further is never meant to yield anything in particular.

use vstd::prelude::*;

verus! {

use crate::numtraits::Zero;

/// Integer primitives for which every bit pattern is a valid value.
pub trait FullBitPrimitive: Zero + Copy {

}

impl FullBitPrimitive for u8 {

}

impl FullBitPrimitive for i8 {

}

impl FullBitPrimitive for u16 {

}

impl FullBitPrimitive for i16 {

}

impl FullBitPrimitive for u32 {

}

impl FullBitPrimitive for i32 {

}

impl FullBitPrimitive for u64 {

}

impl FullBitPrimitive for i64 {

}

impl FullBitPrimitive for usize {

}

impl FullBitPrimitive for isize {

}

/// Resizing a vector of primitives without initializing new room.
pub trait VecExtForPrimitives<T> {
    /// The stored elements.
    spec fn stored(&self) -> Seq<T>;

    /// Sets the length to `new_len`, keeping the common prefix and leaving
    /// any new tail elements unspecified.
    fn set_len_uninit_primitive(&mut self, new_len: usize)
        ensures
            final(self).stored().len() == new_len,
            forall|i: int|
                0 <= i < new_len && i < old(self).stored().len() ==> final(self).stored()[i] == old(
                    self,
                ).stored()[i],
    ;
}

impl<T: FullBitPrimitive> VecExtForPrimitives<T> for Vec<T> {
    open spec fn stored(&self) -> Seq<T> {
        self@
    }

    fn set_len_uninit_primitive(&mut self, new_len: usize) {
        if new_len <= self.len() {
            self.truncate(new_len);
            proof {
                assert forall|j: int| 0 <= j < new_len && j < old(self)@.len() implies self@[j]
                    == old(self)@[j] by {
                    assert(self@[j] == old(self)@.subrange(0, new_len as int)[j]);
                }
            }
        } else {
            let ghost base = self@.len() as int;
            let mut i = self.len();
            while i < new_len
                invariant
                    i == self@.len(),
                    i <= new_len,
                    base == old(self)@.len(),
                    base <= i,
                    self@.subrange(0, base) == old(self)@,
                decreases new_len - i,
            {
                self.push(T::zero());
                proof {
                    assert(self@.subrange(0, base) =~= old(self)@);
                }
                i += 1;
            }
            proof {
                assert forall|j: int| 0 <= j < new_len && j < old(self)@.len() implies self@[j]
                    == old(self)@[j] by {
                    assert(self@.subrange(0, base)[j] == self@[j]);
                }
            }
        }
    }
}

/// Allocating a buffer of primitives of a given length without initializing
/// its contents.
pub trait NewUninitPrimitive: Sized {
    /// The number of elements held.
    spec fn stored_len(&self) -> nat;

    fn new_uninit_primitive(len: usize) -> (r: Self)
        ensures
            r.stored_len() == len,
    ;
}

impl<T: FullBitPrimitive> NewUninitPrimitive for Vec<T> {
    open spec fn stored_len(&self) -> nat {
        self@.len()
    }

    fn new_uninit_primitive(len: usize) -> (r: Self) {
        let mut v: Vec<T> = Vec::new();
        v.set_len_uninit_primitive(len);
        v
    }
}

impl<T: FullBitPrimitive> NewUninitPrimitive for Box<[T]> {
    open spec fn stored_len(&self) -> nat {
        self@.len()
    }

    fn new_uninit_primitive(len: usize) -> (r: Self) {
        let v: Vec<T> = Vec::new_uninit_primitive(len);
        into_boxed_slice(v)
    }
}

/// A buffer of primitives of length `len` with unspecified contents.
pub fn new_uninit_primitive<T: NewUninitPrimitive>(len: usize) -> (r: T)
    ensures
        r.stored_len() == len,
{
    T::new_uninit_primitive(len)
}

/// Relies on Vec::into_boxed_slice: the boxed slice holds exactly the
/// vector's elements.
#[verifier::external_body]
fn into_boxed_slice<T>(v: Vec<T>) -> (r: Box<[T]>)
    ensures
        r@ == v@,
{
    v.into_boxed_slice()
}

} // verus!
