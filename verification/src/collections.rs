//! Fixed-capacity collections: a vector, a map and a set backed by an array
//! of at most `N` entries, together with the trait interfaces they satisfy
//! and constructor helpers for picking an implementation.

use vstd::prelude::*;

pub mod hyperloglog;

verus! {

use vstd::std_specs::cmp::PartialEqSpec;

/// The first position in `s` whose key equals `k` (by `K`'s equality), or
/// the length of `s` when there is none.
pub open spec fn key_index_in<K: PartialEq, V>(s: Seq<(K, V)>, k: K) -> int
    decreases s.len(),
{
    if s.len() == 0 {
        0
    } else if s[0].0.eq_spec(&k) {
        0
    } else {
        1 + key_index_in(s.drop_first(), k)
    }
}

/// Whether some entry of `s` has key `k` (by `K`'s equality).
pub open spec fn has_key_in<K: PartialEq, V>(s: Seq<(K, V)>, k: K) -> bool {
    exists|i: int| 0 <= i < s.len() && #[trigger] s[i].0.eq_spec(&k)
}

/// When some entry matches `k`, `key_index_in` lands on a matching entry.
proof fn lemma_key_index_bounds<K: PartialEq, V>(s: Seq<(K, V)>, k: K)
    requires
        has_key_in(s, k),
    ensures
        0 <= key_index_in(s, k) < s.len(),
        s[key_index_in(s, k)].0.eq_spec(&k),
    decreases s.len(),
{
    if s[0].0.eq_spec(&k) {
    } else {
        let i = choose|i: int| 0 <= i < s.len() && #[trigger] s[i].0.eq_spec(&k);
        assert(i != 0);
        assert(s.drop_first()[i - 1] == s[i]);
        assert(has_key_in(s.drop_first(), k));
        lemma_key_index_bounds(s.drop_first(), k);
        let j = key_index_in(s.drop_first(), k);
        assert(s[1 + j] == s.drop_first()[j]);
    }
}

/// If `s[i]` is the first entry matching `k`, then `key_index_in` finds `i`.
proof fn lemma_key_index_first<K: PartialEq, V>(s: Seq<(K, V)>, k: K, i: int)
    requires
        0 <= i < s.len(),
        s[i].0.eq_spec(&k),
        forall|j: int| 0 <= j < i ==> !(#[trigger] s[j].0.eq_spec(&k)),
    ensures
        key_index_in(s, k) == i,
    decreases i,
{
    if i == 0 {
    } else {
        assert(!s[0].0.eq_spec(&k));
        assert(s.drop_first()[i - 1] == s[i]);
        assert forall|j: int| 0 <= j < i - 1 implies !(#[trigger] s.drop_first()[j].0.eq_spec(
            &k,
        )) by {
            assert(s.drop_first()[j] == s[j + 1]);
        }
        lemma_key_index_first(s.drop_first(), k, i - 1);
    }
}

/// A vector backed by storage of fixed capacity `N`.  Pushing beyond the
/// capacity is either refused (`push_within_capacity`) or a fatal error
/// (`push`), which is excluded here by precondition.
#[derive(Clone)]
pub struct ArrayVec<T, const N: usize> {
    data: Vec<T>,
}

impl<T, const N: usize> View for ArrayVec<T, N> {
    type V = Seq<T>;

    closed spec fn view(&self) -> Seq<T> {
        self.data@
    }
}

impl<T, const N: usize> ArrayVec<T, N> {
    /// The stored elements never exceed the capacity.
    pub open spec fn inv(self) -> bool {
        self@.len() <= N
    }

    pub fn new() -> (r: Self)
        ensures
            r.inv(),
            r@ == Seq::<T>::empty(),
    {
        ArrayVec { data: Vec::new() }
    }

    pub fn len(&self) -> (r: usize)
        ensures
            r == self@.len(),
    {
        self.data.len()
    }

    /// Grows the vector by one element; pushing into a full vector is a
    /// fatal caller error and is excluded by precondition.
    pub fn push(&mut self, item: T)
        requires
            old(self).inv(),
            old(self)@.len() < N,
        ensures
            final(self).inv(),
            final(self)@ == old(self)@.push(item),
    {
        self.data.push(item);
    }

    /// Grows the vector by one element, handing `item` back when the vector
    /// is already at capacity.
    pub fn push_within_capacity(&mut self, item: T) -> (r: Result<(), T>)
        requires
            old(self).inv(),
        ensures
            final(self).inv(),
            old(self)@.len() < N ==> final(self)@ == old(self)@.push(item) && r is Ok,
            old(self)@.len() >= N ==> final(self)@ == old(self)@ && r == Result::<(), T>::Err(
                item,
            ),
    {
        if self.data.len() < N {
            self.data.push(item);
            Ok(())
        } else {
            Err(item)
        }
    }

    /// Removes and returns the last element; `None` exactly when the vector
    /// is empty.
    pub fn pop(&mut self) -> (r: Option<T>)
        requires
            old(self).inv(),
        ensures
            final(self).inv(),
            old(self)@.len() > 0 ==> final(self)@ == old(self)@.drop_last() && r == Some(
                old(self)@.last(),
            ),
            old(self)@.len() == 0 ==> final(self)@ == old(self)@ && r is None,
    {
        self.data.pop()
    }

    /// Removes and returns the element at `index`, moving the last element
    /// into its place; an out-of-bounds index is a fatal caller error and is
    /// excluded by precondition.
    pub fn swap_remove(&mut self, index: usize) -> (r: T)
        requires
            old(self).inv(),
            index < old(self)@.len(),
        ensures
            final(self).inv(),
            r == old(self)@[index as int],
            final(self)@ == old(self)@.update(index as int, old(self)@.last()).drop_last(),
    {
        self.data.swap_remove(index)
    }

    /// Overwrites the element at `index`.
    pub fn set(&mut self, index: usize, value: T)
        requires
            old(self).inv(),
            index < old(self)@.len(),
        ensures
            final(self).inv(),
            final(self)@ == old(self)@.update(index as int, value),
    {
        let cell: &mut T = &mut self.data[index];
        *cell = value;
    }

    /// Borrows the element at `index` mutably.
    pub fn index_mut(&mut self, index: usize) -> (r: &mut T)
        requires
            old(self).inv(),
            index < old(self)@.len(),
        ensures
            *r == old(self)@[index as int],
            final(self)@ == old(self)@.update(index as int, *final(r)),
    {
        &mut self.data[index]
    }

    /// Reads the element at `index`.
    pub fn get(&self, index: usize) -> (r: &T)
        requires
            index < self@.len(),
        ensures
            *r == self@[index as int],
    {
        &self.data[index]
    }

    /// Builds an `ArrayVec` from the elements of a `Vec`, as collecting
    /// from a producer does; elements beyond the capacity are a fatal
    /// caller error and are excluded by precondition.
    pub fn from_vec(items: Vec<T>) -> (r: Self)
        requires
            items@.len() <= N,
        ensures
            r.inv(),
            r@ == items@,
    {
        ArrayVec { data: items }
    }
}

impl<T, const N: usize> Default for ArrayVec<T, N> {
    fn default() -> (r: Self)
        ensures
            r.inv(),
            r@ == Seq::<T>::empty(),
    {
        ArrayVec::new()
    }
}

/// The interface of a map from `K` to `V`, described by its entry sequence.
/// Removal moves the last entry into the vacated position, as the
/// array-backed implementation does.
pub trait MapOps<K: PartialEq, V>: Sized {
    /// The implementation's internal invariant.
    spec fn inv(self) -> bool;

    /// The entries of the map, in storage order.
    spec fn entries(self) -> Seq<(K, V)>;

    /// Room (or an existing entry to replace) is available for `item`.
    spec fn may_insert(self, item: K) -> bool;

    fn get(&self, item: &K) -> (r: Option<&V>)
        requires
            K::obeys_eq_spec(),
            self.inv(),
        ensures
            has_key_in(self.entries(), *item) ==> r == Some(
                &self.entries()[key_index_in(self.entries(), *item)].1,
            ),
            !has_key_in(self.entries(), *item) ==> r is None,
    ;

    fn insert(&mut self, item: K, value: V)
        requires
            K::obeys_eq_spec(),
            old(self).inv(),
            old(self).may_insert(item),
        ensures
            final(self).inv(),
            has_key_in(old(self).entries(), item) ==> final(self).entries() == old(
                self,
            ).entries().update(key_index_in(old(self).entries(), item), (item, value)),
            !has_key_in(old(self).entries(), item) ==> final(self).entries() == old(
                self,
            ).entries().push((item, value)),
    ;

    fn contains_key(&self, item: &K) -> (r: bool)
        requires
            K::obeys_eq_spec(),
            self.inv(),
        ensures
            r == has_key_in(self.entries(), *item),
    ;

    fn get_mut(&mut self, item: &K) -> (r: &mut V)
        requires
            K::obeys_eq_spec(),
            old(self).inv(),
            has_key_in(old(self).entries(), *item),
        ensures
            *r == old(self).entries()[key_index_in(old(self).entries(), *item)].1,
            final(self).inv(),
            final(self).entries() == old(self).entries().update(
                key_index_in(old(self).entries(), *item),
                (old(self).entries()[key_index_in(old(self).entries(), *item)].0, *final(r)),
            ),
    ;

    fn remove(&mut self, item: &K) -> (r: Option<V>)
        requires
            K::obeys_eq_spec(),
            old(self).inv(),
        ensures
            final(self).inv(),
            !has_key_in(old(self).entries(), *item) ==> final(self).entries() == old(
                self,
            ).entries() && r is None,
            has_key_in(old(self).entries(), *item) ==> {
                &&& r == Some(old(self).entries()[key_index_in(old(self).entries(), *item)].1)
                &&& final(self).entries() == old(self).entries().update(
                    key_index_in(old(self).entries(), *item),
                    old(self).entries().last(),
                ).drop_last()
            },
    ;

    fn remove_entry(&mut self, item: &K) -> (r: Option<(K, V)>)
        requires
            K::obeys_eq_spec(),
            old(self).inv(),
        ensures
            final(self).inv(),
            !has_key_in(old(self).entries(), *item) ==> final(self).entries() == old(
                self,
            ).entries() && r is None,
            has_key_in(old(self).entries(), *item) ==> {
                &&& r == Some(old(self).entries()[key_index_in(old(self).entries(), *item)])
                &&& final(self).entries() == old(self).entries().update(
                    key_index_in(old(self).entries(), *item),
                    old(self).entries().last(),
                ).drop_last()
            },
    ;
}

/// A map based on a fixed-length array: constant-time insert of a fresh key,
/// linear-time lookup.
#[derive(Clone)]
pub struct ArrayMap<K: PartialEq, V, const N: usize> {
    data: ArrayVec<(K, V), N>,
}

impl<K: PartialEq, V, const N: usize> ArrayMap<K, V, N> {
    pub fn new() -> (r: Self)
        ensures
            r.inv(),
            r.entries() == Seq::<(K, V)>::empty(),
    {
        ArrayMap { data: ArrayVec::new() }
    }

    /// The position of the first entry whose key equals `item`, if any.
    fn position_of(&self, item: &K) -> (r: Option<usize>)
        requires
            K::obeys_eq_spec(),
        ensures
            has_key_in(self.entries(), *item) ==> r == Some(
                key_index_in(self.entries(), *item) as usize,
            ),
            !has_key_in(self.entries(), *item) ==> r is None,
    {
        let mut i: usize = 0;
        let n = self.data.len();
        while i < n
            invariant
                K::obeys_eq_spec(),
                n == self.entries().len(),
                i <= n,
                forall|j: int| 0 <= j < i ==> !(#[trigger] self.entries()[j].0.eq_spec(item)),
            decreases n - i,
        {
            let pair = self.data.get(i);
            if pair.0 == *item {
                proof {
                    lemma_key_index_first(self.entries(), *item, i as int);
                }
                return Some(i);
            }
            i += 1;
        }
        None
    }
}

impl<K: PartialEq, V, const N: usize> MapOps<K, V> for ArrayMap<K, V, N> {
    closed spec fn inv(self) -> bool {
        self.data.inv()
    }

    closed spec fn entries(self) -> Seq<(K, V)> {
        self.data@
    }

    open spec fn may_insert(self, item: K) -> bool {
        has_key_in(self.entries(), item) || self.entries().len() < N
    }

    fn get(&self, item: &K) -> (r: Option<&V>) {
        match self.position_of(item) {
            Some(i) => {
                proof {
                    lemma_key_index_bounds(self.entries(), *item);
                }
                Some(&self.data.get(i).1)
            },
            None => None,
        }
    }

    fn insert(&mut self, item: K, value: V) {
        match self.position_of(&item) {
            Some(i) => {
                proof {
                    lemma_key_index_bounds(self.entries(), item);
                }
                self.data.set(i, (item, value));
            },
            None => {
                self.data.push((item, value));
            },
        }
    }

    fn contains_key(&self, item: &K) -> (r: bool) {
        self.position_of(item).is_some()
    }

    fn get_mut(&mut self, item: &K) -> (r: &mut V) {
        proof {
            lemma_key_index_bounds(self.entries(), *item);
        }
        let i = match self.position_of(item) {
            Some(i) => i,
            None => {
                proof {
                    assert(false);
                }
                0
            },
        };
        let pair: &mut (K, V) = self.data.index_mut(i);
        &mut pair.1
    }

    fn remove(&mut self, item: &K) -> (r: Option<V>) {
        match self.position_of(item) {
            Some(i) => {
                proof {
                    lemma_key_index_bounds(self.entries(), *item);
                }
                let pair = self.data.swap_remove(i);
                Some(pair.1)
            },
            None => None,
        }
    }

    fn remove_entry(&mut self, item: &K) -> (r: Option<(K, V)>) {
        match self.position_of(item) {
            Some(i) => {
                proof {
                    lemma_key_index_bounds(self.entries(), *item);
                }
                Some(self.data.swap_remove(i))
            },
            None => None,
        }
    }
}

impl<K: PartialEq, V, const N: usize> Default for ArrayMap<K, V, N> {
    fn default() -> (r: Self)
        ensures
            r.inv(),
            r.entries() == Seq::<(K, V)>::empty(),
    {
        ArrayMap::new()
    }
}

/// Whether some element of `s` equals `k` (by `T`'s equality).
pub open spec fn has_elem_in<T: PartialEq>(s: Seq<T>, k: T) -> bool {
    exists|i: int| 0 <= i < s.len() && #[trigger] s[i].eq_spec(&k)
}

/// The interface of a set of `T`, described by its element sequence.
pub trait SetOps<T: PartialEq>: Sized {
    /// The implementation's internal invariant.
    spec fn inv(self) -> bool;

    /// The elements of the set, in storage order.
    spec fn elems(self) -> Seq<T>;

    /// Room (or an existing copy of `item`) is available.
    spec fn may_insert(self, item: T) -> bool;

    fn contains(&self, item: &T) -> (r: bool)
        requires
            T::obeys_eq_spec(),
            self.inv(),
        ensures
            r == has_elem_in(self.elems(), *item),
    ;

    /// Returns true if the item is newly inserted (i.e. true means the item
    /// was not present).
    fn insert(&mut self, item: T) -> (r: bool)
        requires
            T::obeys_eq_spec(),
            old(self).inv(),
            old(self).may_insert(item),
        ensures
            final(self).inv(),
            r == !has_elem_in(old(self).elems(), item),
            r ==> final(self).elems() == old(self).elems().push(item),
            !r ==> final(self).elems() == old(self).elems(),
    ;

    /// Returns true if the item is removed (i.e. true means the item was
    /// present).  The last element moves into the vacated position.
    fn remove(&mut self, item: &T) -> (r: bool)
        requires
            T::obeys_eq_spec(),
            old(self).inv(),
        ensures
            final(self).inv(),
            r == has_elem_in(old(self).elems(), *item),
            !r ==> final(self).elems() == old(self).elems(),
            r ==> exists|i: int|
                0 <= i < old(self).elems().len() && (#[trigger] old(self).elems()[i]).eq_spec(
                    item,
                ) && final(self).elems() == old(self).elems().update(
                    i,
                    old(self).elems().last(),
                ).drop_last(),
    ;
}

/// A set of `T` backed by a fixed-length array of at most `N` elements.
#[derive(Clone)]
pub struct ArraySet<T: PartialEq, const N: usize> {
    data: ArrayMap<T, (), N>,
}

impl<T: PartialEq, const N: usize> ArraySet<T, N> {
    pub fn new() -> (r: Self)
        ensures
            r.inv(),
            r.elems() == Seq::<T>::empty(),
    {
        ArraySet { data: ArrayMap::new() }
    }
}

impl<T: PartialEq, const N: usize> Default for ArraySet<T, N> {
    fn default() -> (r: Self)
        ensures
            r.inv(),
            r.elems() == Seq::<T>::empty(),
    {
        ArraySet::new()
    }
}

impl<T: PartialEq, const N: usize> SetOps<T> for ArraySet<T, N> {
    closed spec fn inv(self) -> bool {
        self.data.inv()
    }

    closed spec fn elems(self) -> Seq<T> {
        self.data.entries().map(|i: int, p: (T, ())| p.0)
    }

    open spec fn may_insert(self, item: T) -> bool {
        has_elem_in(self.elems(), item) || self.elems().len() < N
    }

    fn contains(&self, item: &T) -> (r: bool) {
        proof {
            lemma_has_key_elems(self.data.entries(), *item);
        }
        self.data.contains_key(item)
    }

    fn insert(&mut self, item: T) -> (r: bool) {
        proof {
            lemma_has_key_elems(self.data.entries(), item);
        }
        if self.data.contains_key(&item) {
            false
        } else {
            self.data.insert(item, ());
            proof {
                assert(self.elems() =~= old(self).elems().push(item));
            }
            true
        }
    }

    fn remove(&mut self, item: &T) -> (r: bool) {
        proof {
            lemma_has_key_elems(self.data.entries(), *item);
        }
        match self.data.remove(item) {
            Some(_) => {
                proof {
                    let k = key_index_in(old(self).data.entries(), *item);
                    lemma_key_index_bounds(old(self).data.entries(), *item);
                    assert(old(self).elems()[k].eq_spec(item));
                    assert(self.elems() =~= old(self).elems().update(
                        k,
                        old(self).elems().last(),
                    ).drop_last());
                }
                true
            },
            None => false,
        }
    }
}

/// The element sequence of a unit-valued entry list has a matching element
/// exactly when the entry list has a matching key.
proof fn lemma_has_key_elems<T: PartialEq>(s: Seq<(T, ())>, k: T)
    ensures
        has_key_in(s, k) == has_elem_in(s.map(|i: int, p: (T, ())| p.0), k),
{
    let m = s.map(|i: int, p: (T, ())| p.0);
    if has_key_in(s, k) {
        let i = choose|i: int| 0 <= i < s.len() && #[trigger] s[i].0.eq_spec(&k);
        assert(m[i] == s[i].0);
        assert(has_elem_in(m, k));
    }
    if has_elem_in(m, k) {
        let i = choose|i: int| 0 <= i < m.len() && #[trigger] m[i].eq_spec(&k);
        assert(m[i] == s[i].0);
        assert(has_key_in(s, k));
    }
}

/// Picks a map implementation, abstracting over the backing store.
pub trait MapConstructor<K: PartialEq, V> {
    type M: MapOps<K, V>;

    fn new() -> (r: Self::M)
        ensures
            r.inv(),
            r.entries() == Seq::<(K, V)>::empty(),
    ;
}

/// Constructs array-backed maps of capacity `N`.
pub struct ArrayMapConstructor<const N: usize>;

impl<K: PartialEq, V, const N: usize> MapConstructor<K, V> for ArrayMapConstructor<N> {
    type M = ArrayMap<K, V, N>;

    fn new() -> (r: Self::M) {
        ArrayMap::new()
    }
}

/// Picks a set implementation, abstracting over the backing store.
pub trait SetConstructor<T: PartialEq> {
    type S: SetOps<T>;

    fn new() -> (r: Self::S)
        ensures
            r.inv(),
            r.elems() == Seq::<T>::empty(),
    ;
}

/// Constructs array-backed sets of capacity `N`.
pub struct ArraySetConstructor<const N: usize>;

impl<T: PartialEq, const N: usize> SetConstructor<T> for ArraySetConstructor<N> {
    type S = ArraySet<T, N>;

    fn new() -> (r: Self::S) {
        ArraySet::new()
    }
}

} // verus!
