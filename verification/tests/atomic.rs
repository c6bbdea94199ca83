use absurd::Atomic;
use absurd::AtomicPrimitive;
use absurd::Xorshift32;

#[test]
fn atomic_facade() {
    let mut a: Atomic<usize, usize> = Atomic::new(5);
    assert_eq!(a.load(), 5);
    a.store(7);
    assert_eq!(a.swap(9), 7);
    assert_eq!(a.load(), 9);
    assert_eq!(a.fetch_add(1), 9);
    assert_eq!(a.fetch_sub(4), 10);
    assert_eq!(a.load(), 6);
    assert_eq!(a.fetch_max(8), 6);
    assert_eq!(a.fetch_min(3), 8);
    assert_eq!(a.into_inner(), 3);
}

#[test]
fn atomic_fetch_add_wraps() {
    let mut a: Atomic<usize, usize> = Atomic::new(usize::MAX);
    assert_eq!(a.fetch_add(2), usize::MAX);
    assert_eq!(a.load(), 1);
}

#[test]
fn atomic_compare_exchange() {
    let mut a: Atomic<usize, usize> = Atomic::new(6);
    assert_eq!(a.compare_exchange(6, 7), Ok(6));
    assert_eq!(a.compare_exchange(6, 8), Err(7));
    assert_eq!(a.compare_exchange_weak(7, 9), Ok(7));
    assert_eq!(a.load(), 9);
}

#[test]
fn atomic_fetch_update() {
    let mut a: Atomic<usize, usize> = Atomic::new(4);
    assert_eq!(a.fetch_update(|x| Some(x + 1)), Ok(4));
    assert_eq!(a.load(), 5);
    assert_eq!(a.fetch_update(|_| None), Err(5));
    assert_eq!(a.load(), 5);
}

#[test]
fn primitive_storage() {
    let mut p = <u32 as AtomicPrimitive>::new(3);
    assert_eq!(p.fetch_add(4), 3);
    assert_eq!(p.load(), 7);
    assert_eq!(p.compare_exchange(7, 9), Ok(7));
    assert_eq!(p.into_inner(), 9);
}

#[test]
fn timestamp_seeding() {
    // Nothing is promised of the seed; the generator must still step.
    let mut rng = Xorshift32::new_with_system_timestamp();
    let a = rng.gen_u32();
    let b = rng.gen_u32();
    assert_ne!(a, b);
}
