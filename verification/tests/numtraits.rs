use absurd::Integer;
use absurd::one;
use absurd::zero;

#[test]
fn test_u128() {
    let a = 0b1010u128;
    let b = 0b1100u128;
    assert_eq!(a & b, 0b1000u128);
    assert_eq!(a | b, 0b1110u128);
    assert_eq!(a ^ b, 0b0110u128);
    assert_eq!((a << 99) >> 100, 0b101u128);

    assert_eq!(Integer::next_multiple_of(a, 3), 12);
    assert_eq!(Integer::next_multiple_of(a, 10), 10);
    assert_eq!(Integer::div_ceil(a, 3), 4);
    assert_eq!(Integer::div_floor(a, 3), 3);
}

#[test]
fn one_and_zero() {
    assert_eq!(one::<u32>(), 1);
    assert_eq!(one::<i64>(), 1);
    assert_eq!(zero::<u8>(), 0);
    assert_eq!(zero::<isize>(), 0);
}

#[test]
fn parity() {
    assert!(Integer::is_even(4u16));
    assert!(Integer::is_odd(5u16));
    assert!(Integer::is_even(-4i32));
    assert!(Integer::is_odd(-5i32));
    assert!(Integer::is_even(0u8));
}

#[test]
fn signed_rounding() {
    // Positive divisor: round up to the next multiple at or above.
    assert_eq!(Integer::next_multiple_of(7i32, 3), 9);
    assert_eq!(Integer::next_multiple_of(-7i32, 3), -6);
    assert_eq!(Integer::next_multiple_of(9i32, 3), 9);
    // Negative divisor: round down to the next multiple at or below.
    assert_eq!(Integer::next_multiple_of(7i32, -3), 6);
    assert_eq!(Integer::next_multiple_of(-7i32, -3), -9);
    // Dividing by minus one keeps the value.
    assert_eq!(Integer::next_multiple_of(7i32, -1), 7);
}

#[test]
fn signed_division() {
    assert_eq!(Integer::div_floor(7i32, 2), 3);
    assert_eq!(Integer::div_ceil(7i32, 2), 4);
    assert_eq!(Integer::div_floor(-7i32, 2), -4);
    assert_eq!(Integer::div_ceil(-7i32, 2), -3);
    assert_eq!(Integer::div_floor(7i32, -2), -4);
    assert_eq!(Integer::div_ceil(7i32, -2), -3);
    assert_eq!(Integer::div_floor(-7i32, -2), 3);
    assert_eq!(Integer::div_ceil(-7i32, -2), 4);
    assert_eq!(Integer::div_floor(8i32, 2), 4);
    assert_eq!(Integer::div_ceil(8i32, 2), 4);
}

#[test]
fn unsigned_division() {
    assert_eq!(Integer::div_ceil(7u32, 2), 4);
    assert_eq!(Integer::div_floor(7u32, 2), 3);
    assert_eq!(Integer::div_ceil(8u32, 2), 4);
    assert_eq!(Integer::next_multiple_of(0u32, 5), 0);
    assert_eq!(Integer::next_multiple_of(11usize, 4), 12);
}
