use core::sync::atomic::AtomicUsize;
use core::sync::atomic::Ordering;
use absurd::ArrayMap;
use absurd::ArraySet;
use absurd::ArrayVec;
use absurd::MapOps;
use absurd::SetOps;

#[test]
fn test_array_vec() {
    let mut vec = ArrayVec::<usize, 3>::new();
    vec.push(2);
    vec.push(3);
    vec.push(4);
    assert!(vec.push_within_capacity(5).is_err());
    assert_eq!(vec.pop(), Some(4));
    assert_eq!(vec.len(), 2);
    assert_eq!(*vec.get(0), 2);
    assert_eq!(*vec.get(1), 3);
    vec.set(0, 1);
    *vec.index_mut(1) = 2;
    assert_eq!(*vec.get(0), 1);
    assert_eq!(*vec.get(1), 2);
    vec.push(3);
    assert_eq!(vec.swap_remove(0), 1);
    assert_eq!(*vec.get(0), 3);
    assert_eq!(*vec.get(1), 2);
}

struct Dropable<'a>(&'a AtomicUsize);

impl Drop for Dropable<'_> {
    fn drop(&mut self) {
        self.0.fetch_add(1, Ordering::SeqCst);
    }
}

#[test]
fn test_array_vec_drop() {
    let counter = AtomicUsize::new(0);
    let mut vec = ArrayVec::<Dropable, 3>::new();
    vec.push(Dropable(&counter));
    vec.push(Dropable(&counter));
    vec.push(Dropable(&counter));
    assert_eq!(counter.load(Ordering::SeqCst), 0);
    vec.swap_remove(2);
    assert_eq!(counter.load(Ordering::SeqCst), 1);
    drop(vec);
    assert_eq!(counter.load(Ordering::SeqCst), 3);
}

#[test]
fn mod_test_array_vec_drop() {
    let counter = AtomicUsize::new(0);
    let mut vec = ArrayVec::<Dropable, 3>::new();
    vec.push(Dropable(&counter));
    vec.push(Dropable(&counter));
    vec.push(Dropable(&counter));
    assert_eq!(counter.load(Ordering::SeqCst), 0);
    vec.swap_remove(2);
    assert_eq!(counter.load(Ordering::SeqCst), 1);
    drop(vec);
    assert_eq!(counter.load(Ordering::SeqCst), 3);
}

#[test]
fn test_array_map() {
    let mut map = ArrayMap::<usize, usize, 3>::new();
    map.insert(1, 2);
    map.insert(2, 3);
    map.insert(3, 4);
    assert_eq!(map.get(&1), Some(&2));
    assert_eq!(map.get(&2), Some(&3));
    assert_eq!(map.get(&3), Some(&4));
    assert_eq!(map.get(&4), None);
    map.insert(2, 4);
    *map.get_mut(&3) = 5;
    assert_eq!(map.get(&2), Some(&4));
    assert_eq!(map.get(&3), Some(&5));
}

#[test]
fn array_map_remove() {
    let mut map = ArrayMap::<usize, usize, 3>::new();
    map.insert(1, 2);
    map.insert(2, 3);
    assert_eq!(map.remove(&1), Some(2));
    assert_eq!(map.remove(&1), None);
    assert!(!map.contains_key(&1));
    assert_eq!(map.remove_entry(&2), Some((2, 3)));
    assert_eq!(map.remove_entry(&2), None);
}

#[test]
fn array_map_full_replaces() {
    let mut map = ArrayMap::<usize, usize, 2>::new();
    map.insert(1, 10);
    map.insert(2, 20);
    // Replacing an existing key needs no extra room.
    map.insert(1, 11);
    assert_eq!(map.get(&1), Some(&11));
    assert_eq!(map.get(&2), Some(&20));
}

#[test]
fn array_set_constructor() {
    fn foo<S: absurd::SetConstructor<usize>>() {
        let mut set = S::new();
        set.insert(1);
        assert!(set.contains(&1));
        assert!(!set.contains(&2));
        set.insert(2);
        assert!(set.contains(&2));
        assert!(set.remove(&1));
        assert!(!set.remove(&1));
    }

    foo::<absurd::ArraySetConstructor<3>>();
}

#[test]
fn array_map_constructor() {
    fn foo<M: absurd::MapConstructor<usize, usize>>() {
        let mut map = M::new();
        map.insert(1, 2);
        assert_eq!(map.get(&1), Some(&2));
        assert_eq!(map.get(&2), None);
        map.insert(2, 3);
        assert_eq!(map.get(&2), Some(&3));
        assert_eq!(map.remove(&1), Some(2));
    }

    foo::<absurd::ArrayMapConstructor<3>>();
}

#[test]
fn array_set_basics() {
    let mut set = ArraySet::<usize, 3>::new();
    assert!(set.insert(5));
    assert!(!set.insert(5));
    assert!(set.contains(&5));
    assert!(!set.contains(&6));
    assert!(set.remove(&5));
    assert!(!set.remove(&5));
    assert!(!set.contains(&5));
}
