use absurd::BitSet;
use absurd::ExtForOption;
use absurd::ExtForResult;
use absurd::ManyTimesCell;
use absurd::NewUninitPrimitive;
use absurd::SizedExtForApply;
use absurd::SizedExtForLeak;
use absurd::VecExtForPrimitives;
use absurd::Xorshift32;
use absurd::ExtForIgnore;
use absurd::leak;
use absurd::new_uninit_primitive;

#[test]
fn test_bitset() {
    let mut set: BitSet = Default::default();
    assert!(!set.contains(&5usize));
    assert!(set.insert(5usize));
    assert!(!set.insert(5usize));
    assert!(set.contains(&5usize));
    assert!(set.remove(&5usize));
    assert!(!set.contains(&5usize));
    assert!(!set.remove(&5usize));
}

#[test]
fn bitset_growth() {
    let mut set = BitSet::new();
    assert!(set.insert(666));
    assert!(set.contains(&666));
    assert!(!set.contains(&665));
    assert!(!set.contains(&667));
    assert!(set.insert(0));
    assert!(set.contains(&666));
    let mut reserved = BitSet::with_capacity(256);
    assert!(!reserved.contains(&7));
    assert!(reserved.insert(7));
    assert!(reserved.contains(&7));
}

#[test]
fn manytimescell() {
    let mut cell = ManyTimesCell::new([1, 2, 3, 4]);

    cell.get_mut().iter_mut().for_each(|x| *x += 1);
    cell.get_mut().iter_mut().for_each(|x| *x += 1);

    assert_eq!(cell.get(), &[3, 4, 5, 6]);
}

#[test]
fn manytimescell_manytimescell() {
    let mut cell = ManyTimesCell::new([1, 2, 3, 4]);

    cell.get_mut().iter_mut().for_each(|x| *x += 1);
    cell.get_mut().iter_mut().for_each(|x| *x += 1);

    assert_eq!(cell.get(), &[3, 4, 5, 6]);
}

#[test]
fn manytimescell_into_inner() {
    let cell = ManyTimesCell::new(7);
    assert_eq!(cell.into_inner(), 7);
}

#[test]
fn ignore() {
    ().ignore();
}

#[test]
fn apply() {
    let x = 4.apply(|x| x + 1);
    assert_eq!(x, 5)
}

#[test]
fn test_xorshift32() {
    let mut rng = Xorshift32::new(39393);
    let a = rng.gen_u32();
    let b = rng.gen_u32();
    assert_ne!(a, b);
}

#[test]
fn test_xorshift32_usize() {
    let x = Xorshift32::new(39393).gen_usize();
    assert!(x > u32::MAX as usize);
}

#[test]
fn set_len_uninit_primitive() {
    let mut a = vec![1, 2, 3];
    a.set_len_uninit_primitive(4);
    a[1] = a[3];
    let mut b = vec![1u8, 2, 3];
    b.set_len_uninit_primitive(2);
    assert_eq!(&b[..], &[1, 2]);
}

#[test]
fn new_uninitialized_vec() {
    let mut a: Vec<u8> = new_uninit_primitive(4);
    a[1] = a[3];
    assert_eq!(a.len(), 4);
}

#[test]
fn new_uninitialized_boxed_slice() {
    let mut a: Box<[u8]> = new_uninit_primitive(4);
    a[1] = a[3];
    assert_eq!(a.len(), 4);
}

#[test]
fn leak_a_value() {
    let r = leak(41);
    *r += 1;
    assert_eq!(*r, 42);
    let s = 10usize.box_and_leak();
    assert_eq!(*s, 10);
}

#[test]
fn option_result_assertions() {
    Some(1).assert_some();
    Some(1).debug_assert_some();
    None::<u8>.assert_none();
    Ok::<u8, u8>(1).assert_ok();
    Err::<u8, u8>(2).assert_err();
    Err::<u8, u8>(2).debug_assert_err();
}

#[test]
fn bisection() {
    // x^3 + x > 5 flips from false to true between 1 and 2.
    let f = |x: i64| x * x * x + x > 5;
    let (l, r) = absurd::binary_search((0, 100), 1, f);
    assert!(!f(l) && f(r));
    assert!(r - l <= 1);
    assert_eq!((l, r), (1, 2));
}
