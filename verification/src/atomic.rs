//! A typed facade over primitive storage cells, converting on the way in
//! and out.  Shared-memory atomics have no verified counterpart here, so
//! the storage is held exclusively and no memory orderings appear; what is
//! verified is the value semantics of every operation.

use vstd::prelude::*;

verus! {

use vstd::std_specs::convert::FromSpec;
use vstd::std_specs::convert::IntoSpec;

/// Primitive storage a typed facade can sit on: a single value with load,
/// store, swap, wrapping arithmetic, extrema and compare-and-swap.
pub trait AtomicPrimitive: Sized {
    type P;

    /// The stored value.
    spec fn current(self) -> Self::P;

    /// Addition with wrap-around, as the backing store's fetch-add does it.
    spec fn add_wrapped(a: Self::P, b: Self::P) -> Self::P;

    /// Subtraction with wrap-around.
    spec fn sub_wrapped(a: Self::P, b: Self::P) -> Self::P;

    /// The larger of two stored values.
    spec fn max_of(a: Self::P, b: Self::P) -> Self::P;

    /// The smaller of two stored values.
    spec fn min_of(a: Self::P, b: Self::P) -> Self::P;

    /// Whether two stored values are equal.
    spec fn same(a: Self::P, b: Self::P) -> bool;

    fn new(val: Self::P) -> (r: Self)
        ensures
            r.current() == val,
    ;

    fn load(&self) -> (r: Self::P)
        ensures
            r == self.current(),
    ;

    fn store(&mut self, val: Self::P)
        ensures
            final(self).current() == val,
    ;

    fn swap(&mut self, val: Self::P) -> (r: Self::P)
        ensures
            r == old(self).current(),
            final(self).current() == val,
    ;

    fn fetch_add(&mut self, val: Self::P) -> (r: Self::P)
        ensures
            r == old(self).current(),
            final(self).current() == Self::add_wrapped(old(self).current(), val),
    ;

    fn fetch_sub(&mut self, val: Self::P) -> (r: Self::P)
        ensures
            r == old(self).current(),
            final(self).current() == Self::sub_wrapped(old(self).current(), val),
    ;

    fn fetch_max(&mut self, val: Self::P) -> (r: Self::P)
        ensures
            r == old(self).current(),
            final(self).current() == Self::max_of(old(self).current(), val),
    ;

    fn fetch_min(&mut self, val: Self::P) -> (r: Self::P)
        ensures
            r == old(self).current(),
            final(self).current() == Self::min_of(old(self).current(), val),
    ;

    fn compare_exchange(&mut self, current: Self::P, new: Self::P) -> (r: Result<
        Self::P,
        Self::P,
    >)
        ensures
            Self::same(old(self).current(), current) ==> r == Result::<Self::P, Self::P>::Ok(
                old(self).current(),
            ) && final(self).current() == new,
            !Self::same(old(self).current(), current) ==> r == Result::<Self::P, Self::P>::Err(
                old(self).current(),
            ) && final(self).current() == old(self).current(),
    ;

    fn compare_exchange_weak(&mut self, current: Self::P, new: Self::P) -> (r: Result<
        Self::P,
        Self::P,
    >)
        ensures
            Self::same(old(self).current(), current) ==> r == Result::<Self::P, Self::P>::Ok(
                old(self).current(),
            ) && final(self).current() == new,
            !Self::same(old(self).current(), current) ==> r == Result::<Self::P, Self::P>::Err(
                old(self).current(),
            ) && final(self).current() == old(self).current(),
    ;

    fn into_inner(self) -> (r: Self::P)
        ensures
            r == self.current(),
    ;
}

impl AtomicPrimitive for usize {
    type P = usize;

    open spec fn current(self) -> usize {
        self
    }

    open spec fn add_wrapped(a: usize, b: usize) -> usize {
        a.wrapping_add(b)
    }

    open spec fn sub_wrapped(a: usize, b: usize) -> usize {
        a.wrapping_sub(b)
    }

    open spec fn max_of(a: usize, b: usize) -> usize {
        if a > b {
            a
        } else {
            b
        }
    }

    open spec fn min_of(a: usize, b: usize) -> usize {
        if a < b {
            a
        } else {
            b
        }
    }

    open spec fn same(a: usize, b: usize) -> bool {
        a == b
    }

    fn new(val: usize) -> usize {
        val
    }

    fn load(&self) -> usize {
        *self
    }

    fn store(&mut self, val: usize) {
        *self = val;
    }

    fn swap(&mut self, val: usize) -> usize {
        let r = *self;
        *self = val;
        r
    }

    fn fetch_add(&mut self, val: usize) -> usize {
        let r = *self;
        *self = r.wrapping_add(val);
        r
    }

    fn fetch_sub(&mut self, val: usize) -> usize {
        let r = *self;
        *self = r.wrapping_sub(val);
        r
    }

    fn fetch_max(&mut self, val: usize) -> usize {
        let r = *self;
        if val > r {
            *self = val;
        }
        r
    }

    fn fetch_min(&mut self, val: usize) -> usize {
        let r = *self;
        if val < r {
            *self = val;
        }
        r
    }

    fn compare_exchange(&mut self, current: usize, new: usize) -> Result<usize, usize> {
        let r = *self;
        if r == current {
            *self = new;
            Ok(r)
        } else {
            Err(r)
        }
    }

    fn compare_exchange_weak(&mut self, current: usize, new: usize) -> Result<usize, usize> {
        self.compare_exchange(current, new)
    }

    fn into_inner(self) -> usize {
        self
    }
}

impl AtomicPrimitive for u8 {
    type P = u8;

    open spec fn current(self) -> u8 {
        self
    }

    open spec fn add_wrapped(a: u8, b: u8) -> u8 {
        a.wrapping_add(b)
    }

    open spec fn sub_wrapped(a: u8, b: u8) -> u8 {
        a.wrapping_sub(b)
    }

    open spec fn max_of(a: u8, b: u8) -> u8 {
        if a > b {
            a
        } else {
            b
        }
    }

    open spec fn min_of(a: u8, b: u8) -> u8 {
        if a < b {
            a
        } else {
            b
        }
    }

    open spec fn same(a: u8, b: u8) -> bool {
        a == b
    }

    fn new(val: u8) -> u8 {
        val
    }

    fn load(&self) -> u8 {
        *self
    }

    fn store(&mut self, val: u8) {
        *self = val;
    }

    fn swap(&mut self, val: u8) -> u8 {
        let r = *self;
        *self = val;
        r
    }

    fn fetch_add(&mut self, val: u8) -> u8 {
        let r = *self;
        *self = r.wrapping_add(val);
        r
    }

    fn fetch_sub(&mut self, val: u8) -> u8 {
        let r = *self;
        *self = r.wrapping_sub(val);
        r
    }

    fn fetch_max(&mut self, val: u8) -> u8 {
        let r = *self;
        if val > r {
            *self = val;
        }
        r
    }

    fn fetch_min(&mut self, val: u8) -> u8 {
        let r = *self;
        if val < r {
            *self = val;
        }
        r
    }

    fn compare_exchange(&mut self, current: u8, new: u8) -> Result<u8, u8> {
        let r = *self;
        if r == current {
            *self = new;
            Ok(r)
        } else {
            Err(r)
        }
    }

    fn compare_exchange_weak(&mut self, current: u8, new: u8) -> Result<u8, u8> {
        self.compare_exchange(current, new)
    }

    fn into_inner(self) -> u8 {
        self
    }
}

impl AtomicPrimitive for u16 {
    type P = u16;

    open spec fn current(self) -> u16 {
        self
    }

    open spec fn add_wrapped(a: u16, b: u16) -> u16 {
        a.wrapping_add(b)
    }

    open spec fn sub_wrapped(a: u16, b: u16) -> u16 {
        a.wrapping_sub(b)
    }

    open spec fn max_of(a: u16, b: u16) -> u16 {
        if a > b {
            a
        } else {
            b
        }
    }

    open spec fn min_of(a: u16, b: u16) -> u16 {
        if a < b {
            a
        } else {
            b
        }
    }

    open spec fn same(a: u16, b: u16) -> bool {
        a == b
    }

    fn new(val: u16) -> u16 {
        val
    }

    fn load(&self) -> u16 {
        *self
    }

    fn store(&mut self, val: u16) {
        *self = val;
    }

    fn swap(&mut self, val: u16) -> u16 {
        let r = *self;
        *self = val;
        r
    }

    fn fetch_add(&mut self, val: u16) -> u16 {
        let r = *self;
        *self = r.wrapping_add(val);
        r
    }

    fn fetch_sub(&mut self, val: u16) -> u16 {
        let r = *self;
        *self = r.wrapping_sub(val);
        r
    }

    fn fetch_max(&mut self, val: u16) -> u16 {
        let r = *self;
        if val > r {
            *self = val;
        }
        r
    }

    fn fetch_min(&mut self, val: u16) -> u16 {
        let r = *self;
        if val < r {
            *self = val;
        }
        r
    }

    fn compare_exchange(&mut self, current: u16, new: u16) -> Result<u16, u16> {
        let r = *self;
        if r == current {
            *self = new;
            Ok(r)
        } else {
            Err(r)
        }
    }

    fn compare_exchange_weak(&mut self, current: u16, new: u16) -> Result<u16, u16> {
        self.compare_exchange(current, new)
    }

    fn into_inner(self) -> u16 {
        self
    }
}

impl AtomicPrimitive for u32 {
    type P = u32;

    open spec fn current(self) -> u32 {
        self
    }

    open spec fn add_wrapped(a: u32, b: u32) -> u32 {
        a.wrapping_add(b)
    }

    open spec fn sub_wrapped(a: u32, b: u32) -> u32 {
        a.wrapping_sub(b)
    }

    open spec fn max_of(a: u32, b: u32) -> u32 {
        if a > b {
            a
        } else {
            b
        }
    }

    open spec fn min_of(a: u32, b: u32) -> u32 {
        if a < b {
            a
        } else {
            b
        }
    }

    open spec fn same(a: u32, b: u32) -> bool {
        a == b
    }

    fn new(val: u32) -> u32 {
        val
    }

    fn load(&self) -> u32 {
        *self
    }

    fn store(&mut self, val: u32) {
        *self = val;
    }

    fn swap(&mut self, val: u32) -> u32 {
        let r = *self;
        *self = val;
        r
    }

    fn fetch_add(&mut self, val: u32) -> u32 {
        let r = *self;
        *self = r.wrapping_add(val);
        r
    }

    fn fetch_sub(&mut self, val: u32) -> u32 {
        let r = *self;
        *self = r.wrapping_sub(val);
        r
    }

    fn fetch_max(&mut self, val: u32) -> u32 {
        let r = *self;
        if val > r {
            *self = val;
        }
        r
    }

    fn fetch_min(&mut self, val: u32) -> u32 {
        let r = *self;
        if val < r {
            *self = val;
        }
        r
    }

    fn compare_exchange(&mut self, current: u32, new: u32) -> Result<u32, u32> {
        let r = *self;
        if r == current {
            *self = new;
            Ok(r)
        } else {
            Err(r)
        }
    }

    fn compare_exchange_weak(&mut self, current: u32, new: u32) -> Result<u32, u32> {
        self.compare_exchange(current, new)
    }

    fn into_inner(self) -> u32 {
        self
    }
}

impl AtomicPrimitive for u64 {
    type P = u64;

    open spec fn current(self) -> u64 {
        self
    }

    open spec fn add_wrapped(a: u64, b: u64) -> u64 {
        a.wrapping_add(b)
    }

    open spec fn sub_wrapped(a: u64, b: u64) -> u64 {
        a.wrapping_sub(b)
    }

    open spec fn max_of(a: u64, b: u64) -> u64 {
        if a > b {
            a
        } else {
            b
        }
    }

    open spec fn min_of(a: u64, b: u64) -> u64 {
        if a < b {
            a
        } else {
            b
        }
    }

    open spec fn same(a: u64, b: u64) -> bool {
        a == b
    }

    fn new(val: u64) -> u64 {
        val
    }

    fn load(&self) -> u64 {
        *self
    }

    fn store(&mut self, val: u64) {
        *self = val;
    }

    fn swap(&mut self, val: u64) -> u64 {
        let r = *self;
        *self = val;
        r
    }

    fn fetch_add(&mut self, val: u64) -> u64 {
        let r = *self;
        *self = r.wrapping_add(val);
        r
    }

    fn fetch_sub(&mut self, val: u64) -> u64 {
        let r = *self;
        *self = r.wrapping_sub(val);
        r
    }

    fn fetch_max(&mut self, val: u64) -> u64 {
        let r = *self;
        if val > r {
            *self = val;
        }
        r
    }

    fn fetch_min(&mut self, val: u64) -> u64 {
        let r = *self;
        if val < r {
            *self = val;
        }
        r
    }

    fn compare_exchange(&mut self, current: u64, new: u64) -> Result<u64, u64> {
        let r = *self;
        if r == current {
            *self = new;
            Ok(r)
        } else {
            Err(r)
        }
    }

    fn compare_exchange_weak(&mut self, current: u64, new: u64) -> Result<u64, u64> {
        self.compare_exchange(current, new)
    }

    fn into_inner(self) -> u64 {
        self
    }
}

impl AtomicPrimitive for i8 {
    type P = i8;

    open spec fn current(self) -> i8 {
        self
    }

    open spec fn add_wrapped(a: i8, b: i8) -> i8 {
        a.wrapping_add(b)
    }

    open spec fn sub_wrapped(a: i8, b: i8) -> i8 {
        a.wrapping_sub(b)
    }

    open spec fn max_of(a: i8, b: i8) -> i8 {
        if a > b {
            a
        } else {
            b
        }
    }

    open spec fn min_of(a: i8, b: i8) -> i8 {
        if a < b {
            a
        } else {
            b
        }
    }

    open spec fn same(a: i8, b: i8) -> bool {
        a == b
    }

    fn new(val: i8) -> i8 {
        val
    }

    fn load(&self) -> i8 {
        *self
    }

    fn store(&mut self, val: i8) {
        *self = val;
    }

    fn swap(&mut self, val: i8) -> i8 {
        let r = *self;
        *self = val;
        r
    }

    fn fetch_add(&mut self, val: i8) -> i8 {
        let r = *self;
        *self = r.wrapping_add(val);
        r
    }

    fn fetch_sub(&mut self, val: i8) -> i8 {
        let r = *self;
        *self = r.wrapping_sub(val);
        r
    }

    fn fetch_max(&mut self, val: i8) -> i8 {
        let r = *self;
        if val > r {
            *self = val;
        }
        r
    }

    fn fetch_min(&mut self, val: i8) -> i8 {
        let r = *self;
        if val < r {
            *self = val;
        }
        r
    }

    fn compare_exchange(&mut self, current: i8, new: i8) -> Result<i8, i8> {
        let r = *self;
        if r == current {
            *self = new;
            Ok(r)
        } else {
            Err(r)
        }
    }

    fn compare_exchange_weak(&mut self, current: i8, new: i8) -> Result<i8, i8> {
        self.compare_exchange(current, new)
    }

    fn into_inner(self) -> i8 {
        self
    }
}

impl AtomicPrimitive for i16 {
    type P = i16;

    open spec fn current(self) -> i16 {
        self
    }

    open spec fn add_wrapped(a: i16, b: i16) -> i16 {
        a.wrapping_add(b)
    }

    open spec fn sub_wrapped(a: i16, b: i16) -> i16 {
        a.wrapping_sub(b)
    }

    open spec fn max_of(a: i16, b: i16) -> i16 {
        if a > b {
            a
        } else {
            b
        }
    }

    open spec fn min_of(a: i16, b: i16) -> i16 {
        if a < b {
            a
        } else {
            b
        }
    }

    open spec fn same(a: i16, b: i16) -> bool {
        a == b
    }

    fn new(val: i16) -> i16 {
        val
    }

    fn load(&self) -> i16 {
        *self
    }

    fn store(&mut self, val: i16) {
        *self = val;
    }

    fn swap(&mut self, val: i16) -> i16 {
        let r = *self;
        *self = val;
        r
    }

    fn fetch_add(&mut self, val: i16) -> i16 {
        let r = *self;
        *self = r.wrapping_add(val);
        r
    }

    fn fetch_sub(&mut self, val: i16) -> i16 {
        let r = *self;
        *self = r.wrapping_sub(val);
        r
    }

    fn fetch_max(&mut self, val: i16) -> i16 {
        let r = *self;
        if val > r {
            *self = val;
        }
        r
    }

    fn fetch_min(&mut self, val: i16) -> i16 {
        let r = *self;
        if val < r {
            *self = val;
        }
        r
    }

    fn compare_exchange(&mut self, current: i16, new: i16) -> Result<i16, i16> {
        let r = *self;
        if r == current {
            *self = new;
            Ok(r)
        } else {
            Err(r)
        }
    }

    fn compare_exchange_weak(&mut self, current: i16, new: i16) -> Result<i16, i16> {
        self.compare_exchange(current, new)
    }

    fn into_inner(self) -> i16 {
        self
    }
}

impl AtomicPrimitive for i32 {
    type P = i32;

    open spec fn current(self) -> i32 {
        self
    }

    open spec fn add_wrapped(a: i32, b: i32) -> i32 {
        a.wrapping_add(b)
    }

    open spec fn sub_wrapped(a: i32, b: i32) -> i32 {
        a.wrapping_sub(b)
    }

    open spec fn max_of(a: i32, b: i32) -> i32 {
        if a > b {
            a
        } else {
            b
        }
    }

    open spec fn min_of(a: i32, b: i32) -> i32 {
        if a < b {
            a
        } else {
            b
        }
    }

    open spec fn same(a: i32, b: i32) -> bool {
        a == b
    }

    fn new(val: i32) -> i32 {
        val
    }

    fn load(&self) -> i32 {
        *self
    }

    fn store(&mut self, val: i32) {
        *self = val;
    }

    fn swap(&mut self, val: i32) -> i32 {
        let r = *self;
        *self = val;
        r
    }

    fn fetch_add(&mut self, val: i32) -> i32 {
        let r = *self;
        *self = r.wrapping_add(val);
        r
    }

    fn fetch_sub(&mut self, val: i32) -> i32 {
        let r = *self;
        *self = r.wrapping_sub(val);
        r
    }

    fn fetch_max(&mut self, val: i32) -> i32 {
        let r = *self;
        if val > r {
            *self = val;
        }
        r
    }

    fn fetch_min(&mut self, val: i32) -> i32 {
        let r = *self;
        if val < r {
            *self = val;
        }
        r
    }

    fn compare_exchange(&mut self, current: i32, new: i32) -> Result<i32, i32> {
        let r = *self;
        if r == current {
            *self = new;
            Ok(r)
        } else {
            Err(r)
        }
    }

    fn compare_exchange_weak(&mut self, current: i32, new: i32) -> Result<i32, i32> {
        self.compare_exchange(current, new)
    }

    fn into_inner(self) -> i32 {
        self
    }
}

impl AtomicPrimitive for i64 {
    type P = i64;

    open spec fn current(self) -> i64 {
        self
    }

    open spec fn add_wrapped(a: i64, b: i64) -> i64 {
        a.wrapping_add(b)
    }

    open spec fn sub_wrapped(a: i64, b: i64) -> i64 {
        a.wrapping_sub(b)
    }

    open spec fn max_of(a: i64, b: i64) -> i64 {
        if a > b {
            a
        } else {
            b
        }
    }

    open spec fn min_of(a: i64, b: i64) -> i64 {
        if a < b {
            a
        } else {
            b
        }
    }

    open spec fn same(a: i64, b: i64) -> bool {
        a == b
    }

    fn new(val: i64) -> i64 {
        val
    }

    fn load(&self) -> i64 {
        *self
    }

    fn store(&mut self, val: i64) {
        *self = val;
    }

    fn swap(&mut self, val: i64) -> i64 {
        let r = *self;
        *self = val;
        r
    }

    fn fetch_add(&mut self, val: i64) -> i64 {
        let r = *self;
        *self = r.wrapping_add(val);
        r
    }

    fn fetch_sub(&mut self, val: i64) -> i64 {
        let r = *self;
        *self = r.wrapping_sub(val);
        r
    }

    fn fetch_max(&mut self, val: i64) -> i64 {
        let r = *self;
        if val > r {
            *self = val;
        }
        r
    }

    fn fetch_min(&mut self, val: i64) -> i64 {
        let r = *self;
        if val < r {
            *self = val;
        }
        r
    }

    fn compare_exchange(&mut self, current: i64, new: i64) -> Result<i64, i64> {
        let r = *self;
        if r == current {
            *self = new;
            Ok(r)
        } else {
            Err(r)
        }
    }

    fn compare_exchange_weak(&mut self, current: i64, new: i64) -> Result<i64, i64> {
        self.compare_exchange(current, new)
    }

    fn into_inner(self) -> i64 {
        self
    }
}

impl AtomicPrimitive for isize {
    type P = isize;

    open spec fn current(self) -> isize {
        self
    }

    open spec fn add_wrapped(a: isize, b: isize) -> isize {
        a.wrapping_add(b)
    }

    open spec fn sub_wrapped(a: isize, b: isize) -> isize {
        a.wrapping_sub(b)
    }

    open spec fn max_of(a: isize, b: isize) -> isize {
        if a > b {
            a
        } else {
            b
        }
    }

    open spec fn min_of(a: isize, b: isize) -> isize {
        if a < b {
            a
        } else {
            b
        }
    }

    open spec fn same(a: isize, b: isize) -> bool {
        a == b
    }

    fn new(val: isize) -> isize {
        val
    }

    fn load(&self) -> isize {
        *self
    }

    fn store(&mut self, val: isize) {
        *self = val;
    }

    fn swap(&mut self, val: isize) -> isize {
        let r = *self;
        *self = val;
        r
    }

    fn fetch_add(&mut self, val: isize) -> isize {
        let r = *self;
        *self = r.wrapping_add(val);
        r
    }

    fn fetch_sub(&mut self, val: isize) -> isize {
        let r = *self;
        *self = r.wrapping_sub(val);
        r
    }

    fn fetch_max(&mut self, val: isize) -> isize {
        let r = *self;
        if val > r {
            *self = val;
        }
        r
    }

    fn fetch_min(&mut self, val: isize) -> isize {
        let r = *self;
        if val < r {
            *self = val;
        }
        r
    }

    fn compare_exchange(&mut self, current: isize, new: isize) -> Result<isize, isize> {
        let r = *self;
        if r == current {
            *self = new;
            Ok(r)
        } else {
            Err(r)
        }
    }

    fn compare_exchange_weak(&mut self, current: isize, new: isize) -> Result<isize, isize> {
        self.compare_exchange(current, new)
    }

    fn into_inner(self) -> isize {
        self
    }
}

/// A cell of `T`, stored as `S`'s primitive via `T`'s conversions.  What
/// each operation does to the stored value is promised whenever `T`'s
/// conversions obey their specifications.
pub struct Atomic<T, S = usize> where S: AtomicPrimitive, T: From<S::P> + Into<S::P> {
    storage: S,
    phantom: core::marker::PhantomData<T>,
}

impl<T, S> Atomic<T, S> where S: AtomicPrimitive, T: From<S::P> + Into<S::P> {
    /// The primitive value held by the storage.
    pub closed spec fn stored(self) -> S::P {
        self.storage.current()
    }

    /// Both of `T`'s conversions follow their specifications.
    pub open spec fn conversions_obey() -> bool {
        &&& <T as FromSpec<S::P>>::obeys_from_spec()
        &&& <T as IntoSpec<S::P>>::obeys_into_spec()
    }

    /// The typed reading of a stored primitive.
    pub open spec fn typed(p: S::P) -> T {
        <T as FromSpec<S::P>>::from_spec(p)
    }

    /// The primitive encoding of a typed value.
    pub open spec fn encoded(v: T) -> S::P {
        <T as IntoSpec<S::P>>::into_spec(v)
    }

    pub fn new(val: T) -> (r: Self)
        ensures
            Self::conversions_obey() ==> r.stored() == Self::encoded(val),
    {
        Atomic { storage: S::new(val.into()), phantom: core::marker::PhantomData }
    }

    pub fn load(&self) -> (r: T)
        ensures
            Self::conversions_obey() ==> r == Self::typed(self.stored()),
    {
        T::from(self.storage.load())
    }

    pub fn store(&mut self, val: T)
        ensures
            Self::conversions_obey() ==> final(self).stored() == Self::encoded(val),
    {
        self.storage.store(val.into());
    }

    pub fn swap(&mut self, val: T) -> (r: T)
        ensures
            Self::conversions_obey() ==> r == Self::typed(old(self).stored()) && final(self).stored() == Self::encoded(val),
    {
        T::from(self.storage.swap(val.into()))
    }

    pub fn fetch_add(&mut self, val: S::P) -> (r: T)
        ensures
            final(self).stored() == S::add_wrapped(old(self).stored(), val),
            Self::conversions_obey() ==> r == Self::typed(old(self).stored()),
    {
        T::from(self.storage.fetch_add(val))
    }

    pub fn fetch_sub(&mut self, val: S::P) -> (r: T)
        ensures
            final(self).stored() == S::sub_wrapped(old(self).stored(), val),
            Self::conversions_obey() ==> r == Self::typed(old(self).stored()),
    {
        T::from(self.storage.fetch_sub(val))
    }

    pub fn fetch_max(&mut self, val: T) -> (r: T)
        ensures
            Self::conversions_obey() ==> final(self).stored() == S::max_of(
                old(self).stored(),
                Self::encoded(val),
            ) && r == Self::typed(old(self).stored()),
    {
        T::from(self.storage.fetch_max(val.into()))
    }

    pub fn fetch_min(&mut self, val: T) -> (r: T)
        ensures
            Self::conversions_obey() ==> final(self).stored() == S::min_of(
                old(self).stored(),
                Self::encoded(val),
            ) && r == Self::typed(old(self).stored()),
    {
        T::from(self.storage.fetch_min(val.into()))
    }

    /// Applies `f` to the current value: a `Some` result is stored and the
    /// prior value returned as a success; a `None` leaves the cell alone and
    /// returns the prior value as a failure.
    pub fn fetch_update<F: Fn(T) -> Option<T>>(&mut self, f: F) -> (r: Result<T, T>)
        requires
            forall|x: T| call_requires(f, (x,)),
        ensures
            Self::conversions_obey() ==> exists|b: Option<T>|
                {
                    &&& call_ensures(f, (Self::typed(old(self).stored()),), b)
                    &&& match b {
                        Some(v) => r == Result::<T, T>::Ok(Self::typed(old(self).stored()))
                            && final(self).stored() == Self::encoded(v),
                        None => r == Result::<T, T>::Err(Self::typed(old(self).stored()))
                            && final(self).stored() == old(self).stored(),
                    }
                },
    {
        let cur = self.storage.load();
        let prior = T::from(self.storage.load());
        match f(T::from(cur)) {
            Some(v) => {
                let ghost gb: Option<T> = Some(v);
                self.storage.store(v.into());
                proof {
                    if Self::conversions_obey() {
                        assert(call_ensures(f, (Self::typed(old(self).stored()),), gb));
                    }
                }
                Ok(prior)
            },
            None => {
                proof {
                    if Self::conversions_obey() {
                        assert(call_ensures(f, (Self::typed(old(self).stored()),), None::<T>));
                    }
                }
                Err(prior)
            },
        }
    }

    pub fn compare_exchange(&mut self, current: T, new: T) -> (r: Result<T, T>)
        ensures
            Self::conversions_obey() ==> {
                &&& S::same(old(self).stored(), Self::encoded(current)) ==> r == Result::<
                    T,
                    T,
                >::Ok(Self::typed(old(self).stored())) && final(self).stored() == Self::encoded(
                    new,
                )
                &&& !S::same(old(self).stored(), Self::encoded(current)) ==> r == Result::<
                    T,
                    T,
                >::Err(Self::typed(old(self).stored())) && final(self).stored() == old(self).stored()
            },
    {
        match self.storage.compare_exchange(current.into(), new.into()) {
            Ok(p) => Ok(T::from(p)),
            Err(p) => Err(T::from(p)),
        }
    }

    pub fn compare_exchange_weak(&mut self, current: T, new: T) -> (r: Result<T, T>)
        ensures
            Self::conversions_obey() ==> {
                &&& S::same(old(self).stored(), Self::encoded(current)) ==> r == Result::<
                    T,
                    T,
                >::Ok(Self::typed(old(self).stored())) && final(self).stored() == Self::encoded(
                    new,
                )
                &&& !S::same(old(self).stored(), Self::encoded(current)) ==> r == Result::<
                    T,
                    T,
                >::Err(Self::typed(old(self).stored())) && final(self).stored() == old(self).stored()
            },
    {
        match self.storage.compare_exchange_weak(current.into(), new.into()) {
            Ok(p) => Ok(T::from(p)),
            Err(p) => Err(T::from(p)),
        }
    }

    pub fn into_inner(self) -> (r: T)
        ensures
            Self::conversions_obey() ==> r == Self::typed(self.stored()),
    {
        T::from(self.storage.into_inner())
    }
}

} // verus!
