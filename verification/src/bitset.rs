//! A set of small unsigned integers stored one bit per member in a growable
//! vector of 32-bit words.

use vstd::prelude::*;

verus! {

/// Whether bit `b` of word `w` is set.
pub open spec fn bit_of(w: u32, b: u32) -> bool {
    (w >> b) & 1 == 1
}

/// `BitSet` is a set of `usize` values, one bit per possible member.
pub struct BitSet {
    storage: Vec<u32>,
}

impl BitSet {
    /// The backing words.
    pub closed spec fn words(self) -> Seq<u32> {
        self.storage@
    }

    /// Whether `v` is a member: its bit lies inside the backing words and is
    /// set.
    pub open spec fn has(self, v: usize) -> bool {
        &&& v as int / 32 < self.words().len()
        &&& bit_of(self.words()[v as int / 32], (v as int % 32) as u32)
    }

    /// Wraps existing backing words.
    pub fn with_storage(storage: Vec<u32>) -> (r: Self)
        ensures
            r.words() == storage@,
    {
        BitSet { storage }
    }

    /// An empty set.
    pub fn new() -> (r: Self)
        ensures
            r.words() == Seq::<u32>::empty(),
            forall|v: usize| !r.has(v),
    {
        BitSet { storage: Vec::new() }
    }

    /// An empty set with room reserved for members below `capacity`.
    pub fn with_capacity(capacity: usize) -> (r: Self)
        ensures
            r.words() == Seq::<u32>::empty(),
            forall|v: usize| !r.has(v),
    {
        let words = if capacity % 32 == 0 {
            capacity / 32
        } else {
            capacity / 32 + 1
        };
        BitSet { storage: Vec::with_capacity(words) }
    }

    /// Adds `v`; true when it was not yet a member.  Other members are
    /// untouched.
    pub fn insert(&mut self, index: usize) -> (r: bool)
        requires
            index as int / 32 < usize::MAX,
        ensures
            r == !old(self).has(index),
            final(self).has(index),
            forall|w: usize| w != index ==> final(self).has(w) == old(self).has(w),
    {
        let element_index = index / 32;
        let bit = (index % 32) as u32;
        if element_index >= self.storage.len() {
            self.resize_words(element_index + 1);
        }
        let word = *self.storage_at(element_index);
        let old_bit = (word >> bit) & 1 == 1;
        let updated = word | (1u32 << bit);
        self.storage_set(element_index, updated);
        proof {
            assert(((word | (1u32 << bit)) >> bit) & 1 == 1) by (bit_vector)
                requires
                    bit < 32,
            ;
            assert((0u32 >> bit) & 1 == 0) by (bit_vector);
            assert forall|w: usize| w != index implies self.has(w) == old(self).has(w) by {
                let wi = w as int / 32;
                let wb = (w as int % 32) as u32;
                assert((0u32 >> wb) & 1 == 0) by (bit_vector);
                if wi == index as int / 32 {
                    assert(wb != bit);
                    assert(((word | (1u32 << bit)) >> wb) & 1 == (word >> wb) & 1)
                        by (bit_vector)
                        requires
                            bit < 32,
                            wb < 32,
                            wb != bit,
                    ;
                }
            }
        }
        !old_bit
    }

    /// Removes `v`; true when it was a member.  Other members are untouched.
    pub fn remove(&mut self, index: &usize) -> (r: bool)
        ensures
            r == old(self).has(*index),
            !final(self).has(*index),
            forall|w: usize| w != *index ==> final(self).has(w) == old(self).has(w),
    {
        let element_index = *index / 32;
        let bit = (*index % 32) as u32;
        if element_index >= self.storage.len() {
            return false;
        }
        let word = *self.storage_at(element_index);
        let old_bit = (word >> bit) & 1 == 1;
        let updated = word & !(1u32 << bit);
        self.storage_set(element_index, updated);
        proof {
            assert(((word & !(1u32 << bit)) >> bit) & 1 == 0) by (bit_vector)
                requires
                    bit < 32,
            ;
            assert forall|w: usize| w != *index implies self.has(w) == old(self).has(w) by {
                let wi = w as int / 32;
                let wb = (w as int % 32) as u32;
                if wi == *index as int / 32 {
                    assert(wb != bit);
                    assert(((word & !(1u32 << bit)) >> wb) & 1 == (word >> wb) & 1)
                        by (bit_vector)
                        requires
                            bit < 32,
                            wb < 32,
                            wb != bit,
                    ;
                }
            }
        }
        old_bit
    }

    /// Whether `v` is a member.
    pub fn contains(&self, index: &usize) -> (r: bool)
        ensures
            r == self.has(*index),
    {
        let element_index = *index / 32;
        let bit = (*index % 32) as u32;
        if element_index >= self.storage.len() {
            return false;
        }
        (*self.storage_at(element_index) >> bit) & 1 == 1
    }

    /// Grows the backing words to `n`, clearing the fresh ones.
    #[verifier::loop_isolation(false)]
    fn resize_words(&mut self, n: usize)
        requires
            old(self).words().len() < n,
        ensures
            final(self).words().len() == n,
            forall|i: int|
                0 <= i < old(self).words().len() ==> final(self).words()[i] == old(
                    self,
                ).words()[i],
            forall|i: int| old(self).words().len() <= i < n ==> final(self).words()[i] == 0u32,
    {
        let ghost base = self.storage@.len() as int;
        proof {
            assert(self.storage@.subrange(0, base) =~= old(self).storage@);
        }
        let mut i = self.storage.len();
        while i < n
            invariant
                i == self.storage@.len(),
                i <= n,
                base <= i,
                self.storage@.subrange(0, base) == old(self).storage@,
                forall|j: int| base <= j < i ==> self.storage@[j] == 0u32,
            decreases n - i,
        {
            let ghost prev = self.storage@;
            self.storage.push(0u32);
            proof {
                assert forall|j: int| 0 <= j < prev.len() implies self.storage@[j] == prev[j] by {
                    assert(self.storage@[j] == prev.push(0u32)[j]);
                }
                assert(self.storage@[prev.len() as int] == 0u32);
                    assert forall|j: int|
                    0 <= j < base implies self.storage@.subrange(0, base)[j] == prev.subrange(
                    0,
                    base,
                )[j] by {
                    assert(self.storage@.subrange(0, base)[j] == self.storage@[j]);
                    assert(prev.subrange(0, base)[j] == prev[j]);
                }
                assert(self.storage@.subrange(0, base) =~= prev.subrange(0, base));
            }
            i += 1;
        }
        proof {
            assert forall|j: int| 0 <= j < base implies self.storage@[j] == old(
                self,
            ).storage@[j] by {
                assert(self.storage@.subrange(0, base)[j] == self.storage@[j]);
            }
        }
    }

    /// Reads the backing word at `i`.
    fn storage_at(&self, i: usize) -> (r: &u32)
        requires
            i < self.words().len(),
        ensures
            *r == self.words()[i as int],
    {
        &self.storage[i]
    }

    /// Overwrites the backing word at `i`.
    fn storage_set(&mut self, i: usize, w: u32)
        requires
            i < old(self).words().len(),
        ensures
            final(self).words() == old(self).words().update(i as int, w),
    {
        let cell: &mut u32 = &mut self.storage[i];
        *cell = w;
    }
}

impl Default for BitSet {
    fn default() -> (r: Self)
        ensures
            r.words() == Seq::<u32>::empty(),
            forall|v: usize| !r.has(v),
    {
        BitSet::new()
    }
}

} // verus!
