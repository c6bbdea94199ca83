use std::collections::hash_map::RandomState;
use std::hash::BuildHasher;
use std::hash::Hash;
use std::hash::Hasher;
use absurd::HyperLogLog;

// The floating-point estimate over the sketch's integer summaries, as the
// register counts alone determine it.
fn count(hll: &HyperLogLog) -> usize {
    let alpha = 0.7213 / (1.0 + 1.079 / 16384.);

    let z = hll.harmonic_scaled() as f32 / 65536.0;

    let mut raw = alpha * 16384. * 16384. / z;

    if raw <= 2.5 * 16384. {
        let zeros = hll.zero_registers() as i32;
        raw = 16384. * (16384. / zeros as f32).ln()
    }

    raw as _
}

fn insert<T: Hash>(hll: &mut HyperLogLog, state: &RandomState, v: T) {
    let mut hasher = state.build_hasher();
    v.hash(&mut hasher);
    hll.insert(hasher.finish());
}

#[test]
fn test_hyperloglog() {
    let state = RandomState::new();
    let mut hll = HyperLogLog::new();
    assert!(count(&hll) == 0);

    for i in 0..1000 {
        insert(&mut hll, &state, i);
    }
    assert!((count(&hll) as i64 - 1000).abs() < 25);

    for i in 0..10000 {
        insert(&mut hll, &state, i);
    }
    assert!((count(&hll) as i64 - 10000).abs() < 244);

    for i in 0..100000 {
        insert(&mut hll, &state, i);
    }
    assert!((count(&hll) as i64 - 100000).abs() < 2438);

    for i in 0..100000 {
        insert(&mut hll, &state, i);
    }
    assert!((count(&hll) as i64 - 100000).abs() < 2438);
}
