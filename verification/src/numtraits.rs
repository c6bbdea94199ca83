//! Numeric trait hierarchy: multiplicative and additive identities, and an
//! `Integer` trait offering parity tests, rounding to a multiple, and
//! floor/ceiling division, implemented for the primitive integer types.

use vstd::prelude::*;

verus! {

/// Types with a multiplicative identity.
pub trait One: Sized {
    /// The value `one` returns.
    spec fn one_spec() -> Self;

    fn one() -> (r: Self)
        ensures
            r == Self::one_spec(),
    ;
}

/// The multiplicative identity of `T`.
pub fn one<T: One>() -> (r: T)
    ensures
        r == T::one_spec(),
{
    T::one()
}

/// Types with an additive identity.
pub trait Zero: Sized {
    /// The value `zero` returns.
    spec fn zero_spec() -> Self;

    fn zero() -> (r: Self)
        ensures
            r == Self::zero_spec(),
    ;
}

/// The additive identity of `T`.
pub fn zero<T: Zero>() -> (r: T)
    ensures
        r == T::zero_spec(),
{
    T::zero()
}

impl One for u8 {
    open spec fn one_spec() -> Self {
        1
    }

    fn one() -> Self {
        1
    }
}

impl Zero for u8 {
    open spec fn zero_spec() -> Self {
        0
    }

    fn zero() -> Self {
        0
    }
}

/// Types with the full complement of arithmetic operators and both
/// identities.  Nothing is called through the operator bounds from verified
/// code; the alias only gathers them.
pub trait Arithmetic:
    Sized
    + One
    + Zero
    + core::ops::Add<Output = Self>
    + core::ops::Sub<Output = Self>
    + core::ops::Mul<Output = Self>
    + core::ops::Div<Output = Self>
    + core::ops::Rem<Output = Self>
    + PartialOrd
    + PartialEq {

}

impl<T> Arithmetic for T where
    T: Sized
        + One
        + Zero
        + core::ops::Add<Output = T>
        + core::ops::Sub<Output = T>
        + core::ops::Mul<Output = T>
        + core::ops::Div<Output = T>
        + core::ops::Rem<Output = T>
        + PartialOrd
        + PartialEq,
 {

}

/// Types with the full complement of bitwise operators.
pub trait BitOps:
    Sized
    + core::ops::BitAnd<Output = Self>
    + core::ops::BitOr<Output = Self>
    + core::ops::BitXor<Output = Self>
    + core::ops::Not<Output = Self>
    + core::ops::Shl<usize, Output = Self>
    + core::ops::Shr<usize, Output = Self> {

}

impl<T> BitOps for T where
    T: Sized
        + core::ops::BitAnd<Output = T>
        + core::ops::BitOr<Output = T>
        + core::ops::BitXor<Output = T>
        + core::ops::Not<Output = T>
        + core::ops::Shl<usize, Output = T>
        + core::ops::Shr<usize, Output = T>,
 {

}

/// The nearest multiple of `b` in the direction `b` points: for positive `b`
/// the smallest multiple at or above `a`, for negative `b` the largest
/// multiple at or below `a`.
pub open spec fn round_to_multiple(a: int, b: int) -> int {
    if b > 0 {
        a + ((b - a % b) % b)
    } else {
        a - a % (-b)
    }
}

/// Floor division: the largest integer at or below the exact quotient.
pub open spec fn floor_div(a: int, b: int) -> int {
    if a % b == 0 || b > 0 {
        a / b
    } else {
        a / b - 1
    }
}

/// Ceiling division: the smallest integer at or above the exact quotient.
pub open spec fn ceil_div(a: int, b: int) -> int {
    if a % b != 0 && b > 0 {
        a / b + 1
    } else {
        a / b
    }
}

/// Integer types: parity, rounding to a multiple, and floor/ceiling
/// division.  A divisor of zero, and a result that would leave the type's
/// range, are caller errors and are excluded by precondition.
pub trait Integer: Arithmetic + BitOps + Copy {
    /// The mathematical value of `self`.
    spec fn as_int(self) -> int;

    /// The smallest value of the type.
    spec fn min_spec() -> int;

    /// The largest value of the type.
    spec fn max_spec() -> int;

    fn is_even(self) -> (r: bool)
        ensures
            r == (self.as_int() % 2 == 0),
    ;

    fn is_odd(self) -> (r: bool)
        ensures
            r == (self.as_int() % 2 != 0),
    ;

    fn next_multiple_of(self, rhs: Self) -> (r: Self)
        requires
            rhs.as_int() != 0,
            Self::min_spec() <= round_to_multiple(self.as_int(), rhs.as_int())
                <= Self::max_spec(),
        ensures
            r.as_int() == round_to_multiple(self.as_int(), rhs.as_int()),
    ;

    fn div_ceil(self, rhs: Self) -> (r: Self)
        requires
            rhs.as_int() != 0,
            Self::min_spec() <= ceil_div(self.as_int(), rhs.as_int()) <= Self::max_spec(),
        ensures
            r.as_int() == ceil_div(self.as_int(), rhs.as_int()),
    ;

    fn div_floor(self, rhs: Self) -> (r: Self)
        requires
            rhs.as_int() != 0,
            Self::min_spec() <= floor_div(self.as_int(), rhs.as_int()) <= Self::max_spec(),
        ensures
            r.as_int() == floor_div(self.as_int(), rhs.as_int()),
    ;
}

impl Integer for u8 {
    open spec fn as_int(self) -> int {
        self as int
    }

    open spec fn min_spec() -> int {
        0
    }

    open spec fn max_spec() -> int {
        u8::MAX as int
    }

    fn is_even(self) -> (r: bool) {
        self % 2 == 0
    }

    fn is_odd(self) -> (r: bool) {
        self % 2 != 0
    }

    fn next_multiple_of(self, rhs: Self) -> (r: Self) {
        let m = self % rhs;
        if m == 0 {
            proof {
                assert((rhs as int - 0) % rhs as int == 0) by (nonlinear_arith)
                    requires
                        rhs as int >= 1,
                ;
            }
            self
        } else {
            proof {
                vstd::arithmetic::div_mod::lemma_small_mod(
                    (rhs - m) as nat,
                    rhs as nat,
                );
            }
            self + (rhs - m)
        }
    }

    fn div_ceil(self, rhs: Self) -> (r: Self) {
        let d = self / rhs;
        let m = self % rhs;
        if m != 0 {
            proof {
                assert(d < self) by (nonlinear_arith)
                    requires
                        d == self as int / rhs as int,
                        m == self as int % rhs as int,
                        rhs as int >= 1,
                        m != 0,
                ;
            }
            d + 1
        } else {
            d
        }
    }

    fn div_floor(self, rhs: Self) -> (r: Self) {
        self / rhs
    }
}

impl Integer for i8 {
    open spec fn as_int(self) -> int {
        self as int
    }

    open spec fn min_spec() -> int {
        i8::MIN as int
    }

    open spec fn max_spec() -> int {
        i8::MAX as int
    }

    fn is_even(self) -> (r: bool) {
        self % 2 == 0
    }

    fn is_odd(self) -> (r: bool) {
        self % 2 != 0
    }

    fn next_multiple_of(self, rhs: Self) -> (r: Self) {
        if rhs == -1 {
            return self;
        }
        let m0 = self % rhs;
        let m = if (m0 > 0 && rhs < 0) || (m0 < 0 && rhs > 0) {
            m0 + rhs
        } else {
            m0
        };
        proof {
            let a = self as int;
            let b = rhs as int;
            let p = if b < 0 { -b } else { b };
            vstd::arithmetic::div_mod::lemma_mod_division_less_than_divisor(a, p);
            vstd::arithmetic::div_mod::lemma_mod_division_less_than_divisor(-a, p);
            if b < 0 {
                lemma_neg_divisor(a, b);
                lemma_neg_divisor(-a, b);
            }
            if a < 0 {
                lemma_mod_opposite(a, p);
            }
            if b > 0 {
                assert(m as int == a % b);
                if m != 0 {
                    vstd::arithmetic::div_mod::lemma_small_mod((b - m) as nat, b as nat);
                } else {
                    vstd::arithmetic::div_mod::lemma_mod_self_0(b);
                }
            } else {
                assert(m as int == (if a % p == 0 { 0int } else { a % p + b }));
            }
        }
        if m == 0 {
            self
        } else {
            self + (rhs - m)
        }
    }

    fn div_ceil(self, rhs: Self) -> (r: Self) {
        proof {
            let a = self as int;
            let b = rhs as int;
            let p = if b < 0 { -b } else { b };
            vstd::arithmetic::div_mod::lemma_mod_division_less_than_divisor(a, p);
            vstd::arithmetic::div_mod::lemma_mod_division_less_than_divisor(-a, p);
            vstd::arithmetic::div_mod::lemma_fundamental_div_mod(a, p);
            vstd::arithmetic::div_mod::lemma_fundamental_div_mod(-a, p);
            if b < 0 {
                lemma_neg_divisor(a, b);
                lemma_neg_divisor(-a, b);
            }
            if a < 0 {
                lemma_mod_opposite(a, p);
                lemma_div_opposite(a, p);
            }
        }
        let d = self / rhs;
        let m = self % rhs;
        if (m > 0 && rhs > 0) || (m < 0 && rhs < 0) {
            d + 1
        } else {
            d
        }
    }

    fn div_floor(self, rhs: Self) -> (r: Self) {
        proof {
            let a = self as int;
            let b = rhs as int;
            let p = if b < 0 { -b } else { b };
            vstd::arithmetic::div_mod::lemma_mod_division_less_than_divisor(a, p);
            vstd::arithmetic::div_mod::lemma_mod_division_less_than_divisor(-a, p);
            vstd::arithmetic::div_mod::lemma_fundamental_div_mod(a, p);
            vstd::arithmetic::div_mod::lemma_fundamental_div_mod(-a, p);
            if b < 0 {
                lemma_neg_divisor(a, b);
                lemma_neg_divisor(-a, b);
            }
            if a < 0 {
                lemma_mod_opposite(a, p);
                lemma_div_opposite(a, p);
            }
        }
        let d = self / rhs;
        let m = self % rhs;
        if (m > 0 && rhs < 0) || (m < 0 && rhs > 0) {
            d - 1
        } else {
            d
        }
    }
}

impl One for u16 {
    open spec fn one_spec() -> Self {
        1
    }

    fn one() -> Self {
        1
    }
}

impl Zero for u16 {
    open spec fn zero_spec() -> Self {
        0
    }

    fn zero() -> Self {
        0
    }
}

impl One for u32 {
    open spec fn one_spec() -> Self {
        1
    }

    fn one() -> Self {
        1
    }
}

impl Zero for u32 {
    open spec fn zero_spec() -> Self {
        0
    }

    fn zero() -> Self {
        0
    }
}

impl One for u64 {
    open spec fn one_spec() -> Self {
        1
    }

    fn one() -> Self {
        1
    }
}

impl Zero for u64 {
    open spec fn zero_spec() -> Self {
        0
    }

    fn zero() -> Self {
        0
    }
}

impl One for u128 {
    open spec fn one_spec() -> Self {
        1
    }

    fn one() -> Self {
        1
    }
}

impl Zero for u128 {
    open spec fn zero_spec() -> Self {
        0
    }

    fn zero() -> Self {
        0
    }
}

impl One for usize {
    open spec fn one_spec() -> Self {
        1
    }

    fn one() -> Self {
        1
    }
}

impl Zero for usize {
    open spec fn zero_spec() -> Self {
        0
    }

    fn zero() -> Self {
        0
    }
}

impl One for i16 {
    open spec fn one_spec() -> Self {
        1
    }

    fn one() -> Self {
        1
    }
}

impl Zero for i16 {
    open spec fn zero_spec() -> Self {
        0
    }

    fn zero() -> Self {
        0
    }
}

impl One for i32 {
    open spec fn one_spec() -> Self {
        1
    }

    fn one() -> Self {
        1
    }
}

impl Zero for i32 {
    open spec fn zero_spec() -> Self {
        0
    }

    fn zero() -> Self {
        0
    }
}

impl One for i64 {
    open spec fn one_spec() -> Self {
        1
    }

    fn one() -> Self {
        1
    }
}

impl Zero for i64 {
    open spec fn zero_spec() -> Self {
        0
    }

    fn zero() -> Self {
        0
    }
}

impl One for i128 {
    open spec fn one_spec() -> Self {
        1
    }

    fn one() -> Self {
        1
    }
}

impl Zero for i128 {
    open spec fn zero_spec() -> Self {
        0
    }

    fn zero() -> Self {
        0
    }
}

impl One for isize {
    open spec fn one_spec() -> Self {
        1
    }

    fn one() -> Self {
        1
    }
}

impl Zero for isize {
    open spec fn zero_spec() -> Self {
        0
    }

    fn zero() -> Self {
        0
    }
}

impl One for i8 {
    open spec fn one_spec() -> Self {
        1
    }

    fn one() -> Self {
        1
    }
}

impl Zero for i8 {
    open spec fn zero_spec() -> Self {
        0
    }

    fn zero() -> Self {
        0
    }
}

impl Integer for u16 {
    open spec fn as_int(self) -> int {
        self as int
    }

    open spec fn min_spec() -> int {
        0
    }

    open spec fn max_spec() -> int {
        u16::MAX as int
    }

    fn is_even(self) -> (r: bool) {
        self % 2 == 0
    }

    fn is_odd(self) -> (r: bool) {
        self % 2 != 0
    }

    fn next_multiple_of(self, rhs: Self) -> (r: Self) {
        let m = self % rhs;
        if m == 0 {
            proof {
                assert((rhs as int - 0) % rhs as int == 0) by (nonlinear_arith)
                    requires
                        rhs as int >= 1,
                ;
            }
            self
        } else {
            proof {
                vstd::arithmetic::div_mod::lemma_small_mod(
                    (rhs - m) as nat,
                    rhs as nat,
                );
            }
            self + (rhs - m)
        }
    }

    fn div_ceil(self, rhs: Self) -> (r: Self) {
        let d = self / rhs;
        let m = self % rhs;
        if m != 0 {
            proof {
                assert(d < self) by (nonlinear_arith)
                    requires
                        d == self as int / rhs as int,
                        m == self as int % rhs as int,
                        rhs as int >= 1,
                        m != 0,
                ;
            }
            d + 1
        } else {
            d
        }
    }

    fn div_floor(self, rhs: Self) -> (r: Self) {
        self / rhs
    }
}

impl Integer for u32 {
    open spec fn as_int(self) -> int {
        self as int
    }

    open spec fn min_spec() -> int {
        0
    }

    open spec fn max_spec() -> int {
        u32::MAX as int
    }

    fn is_even(self) -> (r: bool) {
        self % 2 == 0
    }

    fn is_odd(self) -> (r: bool) {
        self % 2 != 0
    }

    fn next_multiple_of(self, rhs: Self) -> (r: Self) {
        let m = self % rhs;
        if m == 0 {
            proof {
                assert((rhs as int - 0) % rhs as int == 0) by (nonlinear_arith)
                    requires
                        rhs as int >= 1,
                ;
            }
            self
        } else {
            proof {
                vstd::arithmetic::div_mod::lemma_small_mod(
                    (rhs - m) as nat,
                    rhs as nat,
                );
            }
            self + (rhs - m)
        }
    }

    fn div_ceil(self, rhs: Self) -> (r: Self) {
        let d = self / rhs;
        let m = self % rhs;
        if m != 0 {
            proof {
                assert(d < self) by (nonlinear_arith)
                    requires
                        d == self as int / rhs as int,
                        m == self as int % rhs as int,
                        rhs as int >= 1,
                        m != 0,
                ;
            }
            d + 1
        } else {
            d
        }
    }

    fn div_floor(self, rhs: Self) -> (r: Self) {
        self / rhs
    }
}

impl Integer for u64 {
    open spec fn as_int(self) -> int {
        self as int
    }

    open spec fn min_spec() -> int {
        0
    }

    open spec fn max_spec() -> int {
        u64::MAX as int
    }

    fn is_even(self) -> (r: bool) {
        self % 2 == 0
    }

    fn is_odd(self) -> (r: bool) {
        self % 2 != 0
    }

    fn next_multiple_of(self, rhs: Self) -> (r: Self) {
        let m = self % rhs;
        if m == 0 {
            proof {
                assert((rhs as int - 0) % rhs as int == 0) by (nonlinear_arith)
                    requires
                        rhs as int >= 1,
                ;
            }
            self
        } else {
            proof {
                vstd::arithmetic::div_mod::lemma_small_mod(
                    (rhs - m) as nat,
                    rhs as nat,
                );
            }
            self + (rhs - m)
        }
    }

    fn div_ceil(self, rhs: Self) -> (r: Self) {
        let d = self / rhs;
        let m = self % rhs;
        if m != 0 {
            proof {
                assert(d < self) by (nonlinear_arith)
                    requires
                        d == self as int / rhs as int,
                        m == self as int % rhs as int,
                        rhs as int >= 1,
                        m != 0,
                ;
            }
            d + 1
        } else {
            d
        }
    }

    fn div_floor(self, rhs: Self) -> (r: Self) {
        self / rhs
    }
}

impl Integer for u128 {
    open spec fn as_int(self) -> int {
        self as int
    }

    open spec fn min_spec() -> int {
        0
    }

    open spec fn max_spec() -> int {
        u128::MAX as int
    }

    fn is_even(self) -> (r: bool) {
        self % 2 == 0
    }

    fn is_odd(self) -> (r: bool) {
        self % 2 != 0
    }

    fn next_multiple_of(self, rhs: Self) -> (r: Self) {
        let m = self % rhs;
        if m == 0 {
            proof {
                assert((rhs as int - 0) % rhs as int == 0) by (nonlinear_arith)
                    requires
                        rhs as int >= 1,
                ;
            }
            self
        } else {
            proof {
                vstd::arithmetic::div_mod::lemma_small_mod(
                    (rhs - m) as nat,
                    rhs as nat,
                );
            }
            self + (rhs - m)
        }
    }

    fn div_ceil(self, rhs: Self) -> (r: Self) {
        let d = self / rhs;
        let m = self % rhs;
        if m != 0 {
            proof {
                assert(d < self) by (nonlinear_arith)
                    requires
                        d == self as int / rhs as int,
                        m == self as int % rhs as int,
                        rhs as int >= 1,
                        m != 0,
                ;
            }
            d + 1
        } else {
            d
        }
    }

    fn div_floor(self, rhs: Self) -> (r: Self) {
        self / rhs
    }
}

impl Integer for usize {
    open spec fn as_int(self) -> int {
        self as int
    }

    open spec fn min_spec() -> int {
        0
    }

    open spec fn max_spec() -> int {
        usize::MAX as int
    }

    fn is_even(self) -> (r: bool) {
        self % 2 == 0
    }

    fn is_odd(self) -> (r: bool) {
        self % 2 != 0
    }

    fn next_multiple_of(self, rhs: Self) -> (r: Self) {
        let m = self % rhs;
        if m == 0 {
            proof {
                assert((rhs as int - 0) % rhs as int == 0) by (nonlinear_arith)
                    requires
                        rhs as int >= 1,
                ;
            }
            self
        } else {
            proof {
                vstd::arithmetic::div_mod::lemma_small_mod(
                    (rhs - m) as nat,
                    rhs as nat,
                );
            }
            self + (rhs - m)
        }
    }

    fn div_ceil(self, rhs: Self) -> (r: Self) {
        let d = self / rhs;
        let m = self % rhs;
        if m != 0 {
            proof {
                assert(d < self) by (nonlinear_arith)
                    requires
                        d == self as int / rhs as int,
                        m == self as int % rhs as int,
                        rhs as int >= 1,
                        m != 0,
                ;
            }
            d + 1
        } else {
            d
        }
    }

    fn div_floor(self, rhs: Self) -> (r: Self) {
        self / rhs
    }
}

impl Integer for i16 {
    open spec fn as_int(self) -> int {
        self as int
    }

    open spec fn min_spec() -> int {
        i16::MIN as int
    }

    open spec fn max_spec() -> int {
        i16::MAX as int
    }

    fn is_even(self) -> (r: bool) {
        self % 2 == 0
    }

    fn is_odd(self) -> (r: bool) {
        self % 2 != 0
    }

    fn next_multiple_of(self, rhs: Self) -> (r: Self) {
        if rhs == -1 {
            return self;
        }
        let m0 = self % rhs;
        let m = if (m0 > 0 && rhs < 0) || (m0 < 0 && rhs > 0) {
            m0 + rhs
        } else {
            m0
        };
        proof {
            let a = self as int;
            let b = rhs as int;
            let p = if b < 0 { -b } else { b };
            vstd::arithmetic::div_mod::lemma_mod_division_less_than_divisor(a, p);
            vstd::arithmetic::div_mod::lemma_mod_division_less_than_divisor(-a, p);
            if b < 0 {
                lemma_neg_divisor(a, b);
                lemma_neg_divisor(-a, b);
            }
            if a < 0 {
                lemma_mod_opposite(a, p);
            }
            if b > 0 {
                assert(m as int == a % b);
                if m != 0 {
                    vstd::arithmetic::div_mod::lemma_small_mod((b - m) as nat, b as nat);
                } else {
                    vstd::arithmetic::div_mod::lemma_mod_self_0(b);
                }
            } else {
                assert(m as int == (if a % p == 0 { 0int } else { a % p + b }));
            }
        }
        if m == 0 {
            self
        } else {
            self + (rhs - m)
        }
    }

    fn div_ceil(self, rhs: Self) -> (r: Self) {
        proof {
            let a = self as int;
            let b = rhs as int;
            let p = if b < 0 { -b } else { b };
            vstd::arithmetic::div_mod::lemma_mod_division_less_than_divisor(a, p);
            vstd::arithmetic::div_mod::lemma_mod_division_less_than_divisor(-a, p);
            vstd::arithmetic::div_mod::lemma_fundamental_div_mod(a, p);
            vstd::arithmetic::div_mod::lemma_fundamental_div_mod(-a, p);
            if b < 0 {
                lemma_neg_divisor(a, b);
                lemma_neg_divisor(-a, b);
            }
            if a < 0 {
                lemma_mod_opposite(a, p);
                lemma_div_opposite(a, p);
            }
        }
        let d = self / rhs;
        let m = self % rhs;
        if (m > 0 && rhs > 0) || (m < 0 && rhs < 0) {
            d + 1
        } else {
            d
        }
    }

    fn div_floor(self, rhs: Self) -> (r: Self) {
        proof {
            let a = self as int;
            let b = rhs as int;
            let p = if b < 0 { -b } else { b };
            vstd::arithmetic::div_mod::lemma_mod_division_less_than_divisor(a, p);
            vstd::arithmetic::div_mod::lemma_mod_division_less_than_divisor(-a, p);
            vstd::arithmetic::div_mod::lemma_fundamental_div_mod(a, p);
            vstd::arithmetic::div_mod::lemma_fundamental_div_mod(-a, p);
            if b < 0 {
                lemma_neg_divisor(a, b);
                lemma_neg_divisor(-a, b);
            }
            if a < 0 {
                lemma_mod_opposite(a, p);
                lemma_div_opposite(a, p);
            }
        }
        let d = self / rhs;
        let m = self % rhs;
        if (m > 0 && rhs < 0) || (m < 0 && rhs > 0) {
            d - 1
        } else {
            d
        }
    }
}

impl Integer for i32 {
    open spec fn as_int(self) -> int {
        self as int
    }

    open spec fn min_spec() -> int {
        i32::MIN as int
    }

    open spec fn max_spec() -> int {
        i32::MAX as int
    }

    fn is_even(self) -> (r: bool) {
        self % 2 == 0
    }

    fn is_odd(self) -> (r: bool) {
        self % 2 != 0
    }

    fn next_multiple_of(self, rhs: Self) -> (r: Self) {
        if rhs == -1 {
            return self;
        }
        let m0 = self % rhs;
        let m = if (m0 > 0 && rhs < 0) || (m0 < 0 && rhs > 0) {
            m0 + rhs
        } else {
            m0
        };
        proof {
            let a = self as int;
            let b = rhs as int;
            let p = if b < 0 { -b } else { b };
            vstd::arithmetic::div_mod::lemma_mod_division_less_than_divisor(a, p);
            vstd::arithmetic::div_mod::lemma_mod_division_less_than_divisor(-a, p);
            if b < 0 {
                lemma_neg_divisor(a, b);
                lemma_neg_divisor(-a, b);
            }
            if a < 0 {
                lemma_mod_opposite(a, p);
            }
            if b > 0 {
                assert(m as int == a % b);
                if m != 0 {
                    vstd::arithmetic::div_mod::lemma_small_mod((b - m) as nat, b as nat);
                } else {
                    vstd::arithmetic::div_mod::lemma_mod_self_0(b);
                }
            } else {
                assert(m as int == (if a % p == 0 { 0int } else { a % p + b }));
            }
        }
        if m == 0 {
            self
        } else {
            self + (rhs - m)
        }
    }

    fn div_ceil(self, rhs: Self) -> (r: Self) {
        proof {
            let a = self as int;
            let b = rhs as int;
            let p = if b < 0 { -b } else { b };
            vstd::arithmetic::div_mod::lemma_mod_division_less_than_divisor(a, p);
            vstd::arithmetic::div_mod::lemma_mod_division_less_than_divisor(-a, p);
            vstd::arithmetic::div_mod::lemma_fundamental_div_mod(a, p);
            vstd::arithmetic::div_mod::lemma_fundamental_div_mod(-a, p);
            if b < 0 {
                lemma_neg_divisor(a, b);
                lemma_neg_divisor(-a, b);
            }
            if a < 0 {
                lemma_mod_opposite(a, p);
                lemma_div_opposite(a, p);
            }
        }
        let d = self / rhs;
        let m = self % rhs;
        if (m > 0 && rhs > 0) || (m < 0 && rhs < 0) {
            d + 1
        } else {
            d
        }
    }

    fn div_floor(self, rhs: Self) -> (r: Self) {
        proof {
            let a = self as int;
            let b = rhs as int;
            let p = if b < 0 { -b } else { b };
            vstd::arithmetic::div_mod::lemma_mod_division_less_than_divisor(a, p);
            vstd::arithmetic::div_mod::lemma_mod_division_less_than_divisor(-a, p);
            vstd::arithmetic::div_mod::lemma_fundamental_div_mod(a, p);
            vstd::arithmetic::div_mod::lemma_fundamental_div_mod(-a, p);
            if b < 0 {
                lemma_neg_divisor(a, b);
                lemma_neg_divisor(-a, b);
            }
            if a < 0 {
                lemma_mod_opposite(a, p);
                lemma_div_opposite(a, p);
            }
        }
        let d = self / rhs;
        let m = self % rhs;
        if (m > 0 && rhs < 0) || (m < 0 && rhs > 0) {
            d - 1
        } else {
            d
        }
    }
}

impl Integer for i64 {
    open spec fn as_int(self) -> int {
        self as int
    }

    open spec fn min_spec() -> int {
        i64::MIN as int
    }

    open spec fn max_spec() -> int {
        i64::MAX as int
    }

    fn is_even(self) -> (r: bool) {
        self % 2 == 0
    }

    fn is_odd(self) -> (r: bool) {
        self % 2 != 0
    }

    fn next_multiple_of(self, rhs: Self) -> (r: Self) {
        if rhs == -1 {
            return self;
        }
        let m0 = self % rhs;
        let m = if (m0 > 0 && rhs < 0) || (m0 < 0 && rhs > 0) {
            m0 + rhs
        } else {
            m0
        };
        proof {
            let a = self as int;
            let b = rhs as int;
            let p = if b < 0 { -b } else { b };
            vstd::arithmetic::div_mod::lemma_mod_division_less_than_divisor(a, p);
            vstd::arithmetic::div_mod::lemma_mod_division_less_than_divisor(-a, p);
            if b < 0 {
                lemma_neg_divisor(a, b);
                lemma_neg_divisor(-a, b);
            }
            if a < 0 {
                lemma_mod_opposite(a, p);
            }
            if b > 0 {
                assert(m as int == a % b);
                if m != 0 {
                    vstd::arithmetic::div_mod::lemma_small_mod((b - m) as nat, b as nat);
                } else {
                    vstd::arithmetic::div_mod::lemma_mod_self_0(b);
                }
            } else {
                assert(m as int == (if a % p == 0 { 0int } else { a % p + b }));
            }
        }
        if m == 0 {
            self
        } else {
            self + (rhs - m)
        }
    }

    fn div_ceil(self, rhs: Self) -> (r: Self) {
        proof {
            let a = self as int;
            let b = rhs as int;
            let p = if b < 0 { -b } else { b };
            vstd::arithmetic::div_mod::lemma_mod_division_less_than_divisor(a, p);
            vstd::arithmetic::div_mod::lemma_mod_division_less_than_divisor(-a, p);
            vstd::arithmetic::div_mod::lemma_fundamental_div_mod(a, p);
            vstd::arithmetic::div_mod::lemma_fundamental_div_mod(-a, p);
            if b < 0 {
                lemma_neg_divisor(a, b);
                lemma_neg_divisor(-a, b);
            }
            if a < 0 {
                lemma_mod_opposite(a, p);
                lemma_div_opposite(a, p);
            }
        }
        let d = self / rhs;
        let m = self % rhs;
        if (m > 0 && rhs > 0) || (m < 0 && rhs < 0) {
            d + 1
        } else {
            d
        }
    }

    fn div_floor(self, rhs: Self) -> (r: Self) {
        proof {
            let a = self as int;
            let b = rhs as int;
            let p = if b < 0 { -b } else { b };
            vstd::arithmetic::div_mod::lemma_mod_division_less_than_divisor(a, p);
            vstd::arithmetic::div_mod::lemma_mod_division_less_than_divisor(-a, p);
            vstd::arithmetic::div_mod::lemma_fundamental_div_mod(a, p);
            vstd::arithmetic::div_mod::lemma_fundamental_div_mod(-a, p);
            if b < 0 {
                lemma_neg_divisor(a, b);
                lemma_neg_divisor(-a, b);
            }
            if a < 0 {
                lemma_mod_opposite(a, p);
                lemma_div_opposite(a, p);
            }
        }
        let d = self / rhs;
        let m = self % rhs;
        if (m > 0 && rhs < 0) || (m < 0 && rhs > 0) {
            d - 1
        } else {
            d
        }
    }
}

impl Integer for i128 {
    open spec fn as_int(self) -> int {
        self as int
    }

    open spec fn min_spec() -> int {
        i128::MIN as int
    }

    open spec fn max_spec() -> int {
        i128::MAX as int
    }

    fn is_even(self) -> (r: bool) {
        self % 2 == 0
    }

    fn is_odd(self) -> (r: bool) {
        self % 2 != 0
    }

    fn next_multiple_of(self, rhs: Self) -> (r: Self) {
        if rhs == -1 {
            return self;
        }
        let m0 = self % rhs;
        let m = if (m0 > 0 && rhs < 0) || (m0 < 0 && rhs > 0) {
            m0 + rhs
        } else {
            m0
        };
        proof {
            let a = self as int;
            let b = rhs as int;
            let p = if b < 0 { -b } else { b };
            vstd::arithmetic::div_mod::lemma_mod_division_less_than_divisor(a, p);
            vstd::arithmetic::div_mod::lemma_mod_division_less_than_divisor(-a, p);
            if b < 0 {
                lemma_neg_divisor(a, b);
                lemma_neg_divisor(-a, b);
            }
            if a < 0 {
                lemma_mod_opposite(a, p);
            }
            if b > 0 {
                assert(m as int == a % b);
                if m != 0 {
                    vstd::arithmetic::div_mod::lemma_small_mod((b - m) as nat, b as nat);
                } else {
                    vstd::arithmetic::div_mod::lemma_mod_self_0(b);
                }
            } else {
                assert(m as int == (if a % p == 0 { 0int } else { a % p + b }));
            }
        }
        if m == 0 {
            self
        } else {
            self + (rhs - m)
        }
    }

    fn div_ceil(self, rhs: Self) -> (r: Self) {
        proof {
            let a = self as int;
            let b = rhs as int;
            let p = if b < 0 { -b } else { b };
            vstd::arithmetic::div_mod::lemma_mod_division_less_than_divisor(a, p);
            vstd::arithmetic::div_mod::lemma_mod_division_less_than_divisor(-a, p);
            vstd::arithmetic::div_mod::lemma_fundamental_div_mod(a, p);
            vstd::arithmetic::div_mod::lemma_fundamental_div_mod(-a, p);
            if b < 0 {
                lemma_neg_divisor(a, b);
                lemma_neg_divisor(-a, b);
            }
            if a < 0 {
                lemma_mod_opposite(a, p);
                lemma_div_opposite(a, p);
            }
        }
        let d = self / rhs;
        let m = self % rhs;
        if (m > 0 && rhs > 0) || (m < 0 && rhs < 0) {
            d + 1
        } else {
            d
        }
    }

    fn div_floor(self, rhs: Self) -> (r: Self) {
        proof {
            let a = self as int;
            let b = rhs as int;
            let p = if b < 0 { -b } else { b };
            vstd::arithmetic::div_mod::lemma_mod_division_less_than_divisor(a, p);
            vstd::arithmetic::div_mod::lemma_mod_division_less_than_divisor(-a, p);
            vstd::arithmetic::div_mod::lemma_fundamental_div_mod(a, p);
            vstd::arithmetic::div_mod::lemma_fundamental_div_mod(-a, p);
            if b < 0 {
                lemma_neg_divisor(a, b);
                lemma_neg_divisor(-a, b);
            }
            if a < 0 {
                lemma_mod_opposite(a, p);
                lemma_div_opposite(a, p);
            }
        }
        let d = self / rhs;
        let m = self % rhs;
        if (m > 0 && rhs < 0) || (m < 0 && rhs > 0) {
            d - 1
        } else {
            d
        }
    }
}

impl Integer for isize {
    open spec fn as_int(self) -> int {
        self as int
    }

    open spec fn min_spec() -> int {
        isize::MIN as int
    }

    open spec fn max_spec() -> int {
        isize::MAX as int
    }

    fn is_even(self) -> (r: bool) {
        self % 2 == 0
    }

    fn is_odd(self) -> (r: bool) {
        self % 2 != 0
    }

    fn next_multiple_of(self, rhs: Self) -> (r: Self) {
        if rhs == -1 {
            return self;
        }
        let m0 = self % rhs;
        let m = if (m0 > 0 && rhs < 0) || (m0 < 0 && rhs > 0) {
            m0 + rhs
        } else {
            m0
        };
        proof {
            let a = self as int;
            let b = rhs as int;
            let p = if b < 0 { -b } else { b };
            vstd::arithmetic::div_mod::lemma_mod_division_less_than_divisor(a, p);
            vstd::arithmetic::div_mod::lemma_mod_division_less_than_divisor(-a, p);
            if b < 0 {
                lemma_neg_divisor(a, b);
                lemma_neg_divisor(-a, b);
            }
            if a < 0 {
                lemma_mod_opposite(a, p);
            }
            if b > 0 {
                assert(m as int == a % b);
                if m != 0 {
                    vstd::arithmetic::div_mod::lemma_small_mod((b - m) as nat, b as nat);
                } else {
                    vstd::arithmetic::div_mod::lemma_mod_self_0(b);
                }
            } else {
                assert(m as int == (if a % p == 0 { 0int } else { a % p + b }));
            }
        }
        if m == 0 {
            self
        } else {
            self + (rhs - m)
        }
    }

    fn div_ceil(self, rhs: Self) -> (r: Self) {
        proof {
            let a = self as int;
            let b = rhs as int;
            let p = if b < 0 { -b } else { b };
            vstd::arithmetic::div_mod::lemma_mod_division_less_than_divisor(a, p);
            vstd::arithmetic::div_mod::lemma_mod_division_less_than_divisor(-a, p);
            vstd::arithmetic::div_mod::lemma_fundamental_div_mod(a, p);
            vstd::arithmetic::div_mod::lemma_fundamental_div_mod(-a, p);
            if b < 0 {
                lemma_neg_divisor(a, b);
                lemma_neg_divisor(-a, b);
            }
            if a < 0 {
                lemma_mod_opposite(a, p);
                lemma_div_opposite(a, p);
            }
        }
        let d = self / rhs;
        let m = self % rhs;
        if (m > 0 && rhs > 0) || (m < 0 && rhs < 0) {
            d + 1
        } else {
            d
        }
    }

    fn div_floor(self, rhs: Self) -> (r: Self) {
        proof {
            let a = self as int;
            let b = rhs as int;
            let p = if b < 0 { -b } else { b };
            vstd::arithmetic::div_mod::lemma_mod_division_less_than_divisor(a, p);
            vstd::arithmetic::div_mod::lemma_mod_division_less_than_divisor(-a, p);
            vstd::arithmetic::div_mod::lemma_fundamental_div_mod(a, p);
            vstd::arithmetic::div_mod::lemma_fundamental_div_mod(-a, p);
            if b < 0 {
                lemma_neg_divisor(a, b);
                lemma_neg_divisor(-a, b);
            }
            if a < 0 {
                lemma_mod_opposite(a, p);
                lemma_div_opposite(a, p);
            }
        }
        let d = self / rhs;
        let m = self % rhs;
        if (m > 0 && rhs < 0) || (m < 0 && rhs > 0) {
            d - 1
        } else {
            d
        }
    }
}

/// With a negative divisor, the Euclidean quotient and remainder are the
/// negated quotient and the unchanged remainder for the positive divisor.
proof fn lemma_neg_divisor(a: int, b: int)
    requires
        b < 0,
    ensures
        a % b == a % (-b),
        a / b == -(a / (-b)),
{
    assert(a % b == a % (-b) && a / b == -(a / (-b))) by (nonlinear_arith)
        requires
            b < 0,
    ;
}

/// The remainders of `a` and `-a` by `p` are complements of each other.
proof fn lemma_mod_opposite(a: int, p: int)
    requires
        p > 0,
    ensures
        (-a) % p == 0 ==> a % p == 0,
        (-a) % p != 0 ==> a % p == p - (-a) % p,
{
    vstd::arithmetic::div_mod::lemma_fundamental_div_mod(-a, p);
    vstd::arithmetic::div_mod::lemma_mod_division_less_than_divisor(-a, p);
    let q2 = (-a) / p;
    let r2 = (-a) % p;
    assert(-a == p * q2 + r2);
    if r2 == 0 {
        assert(a == (-q2) * p + 0) by (nonlinear_arith)
            requires
                -a == p * q2 + 0,
        ;
        vstd::arithmetic::div_mod::lemma_fundamental_div_mod_converse_mod(a, p, -q2, 0);
    } else {
        assert(a == (-q2 - 1) * p + (p - r2)) by (nonlinear_arith)
            requires
                -a == p * q2 + r2,
        ;
        vstd::arithmetic::div_mod::lemma_fundamental_div_mod_converse_mod(a, p, -q2 - 1, p - r2);
    }
}

/// The quotients of `a` and `-a` by `p` are opposites, shifted by one when
/// the division is inexact.
proof fn lemma_div_opposite(a: int, p: int)
    requires
        p > 0,
    ensures
        (-a) % p == 0 ==> a / p == -((-a) / p),
        (-a) % p != 0 ==> a / p == -((-a) / p) - 1,
{
    vstd::arithmetic::div_mod::lemma_fundamental_div_mod(-a, p);
    vstd::arithmetic::div_mod::lemma_mod_division_less_than_divisor(-a, p);
    let q2 = (-a) / p;
    let r2 = (-a) % p;
    if r2 == 0 {
        assert(a == (-q2) * p + 0) by (nonlinear_arith)
            requires
                -a == p * q2 + 0,
        ;
        vstd::arithmetic::div_mod::lemma_fundamental_div_mod_converse_div(a, p, -q2, 0);
    } else {
        assert(a == (-q2 - 1) * p + (p - r2)) by (nonlinear_arith)
            requires
                -a == p * q2 + r2,
        ;
        vstd::arithmetic::div_mod::lemma_fundamental_div_mod_converse_div(a, p, -q2 - 1, p - r2);
    }
}

} // verus!
