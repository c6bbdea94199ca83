//! A minimum-priority heap: entries carry a numeric priority, and the entry
//! with the smallest priority is always at the front.  The classic binary
//! heap over an array, verified: the order invariant, the minimality of
//! what `pop` and `peek` hand out, and preservation of the stored entries
//! as a multiset.

use vstd::prelude::*;

verus! {

/// The index of the parent of heap slot `j`.
pub open spec fn heap_parent(j: int) -> int {
    (j - 1) / 2
}

/// The binary-heap order: every entry's priority is at least its parent's.
pub open spec fn heap_ordered<T>(s: Seq<(T, u64)>) -> bool {
    forall|j: int| 1 <= j < s.len() ==> (#[trigger] s[j]).1 >= s[heap_parent(j)].1
}

/// The heap order, except that nothing is demanded of `hole`'s link to its
/// parent.
pub open spec fn heap_ordered_except<T>(s: Seq<(T, u64)>, hole: int) -> bool {
    forall|j: int| 1 <= j < s.len() && j != hole ==> (#[trigger] s[j]).1 >= s[heap_parent(j)].1
}

/// The heap order, except that nothing is demanded of the links from
/// `hole`'s children to `hole`.
pub open spec fn heap_ordered_except_below<T>(s: Seq<(T, u64)>, hole: int) -> bool {
    forall|j: int|
        1 <= j < s.len() && heap_parent(j) != hole ==> (#[trigger] s[j]).1 >= s[heap_parent(
            j,
        )].1
}

/// In a heap-ordered sequence the front priority is minimal.
proof fn lemma_front_minimal<T>(s: Seq<(T, u64)>, i: int)
    requires
        heap_ordered(s),
        0 <= i < s.len(),
    ensures
        s[0].1 <= s[i].1,
    decreases i,
{
    if i > 0 {
        lemma_front_minimal(s, heap_parent(i));
    }
}

/// Overwriting position `i` trades the old entry for the new one in the
/// multiset of entries.
proof fn lemma_update_multiset<A>(s: Seq<A>, i: int, v: A)
    requires
        0 <= i < s.len(),
    ensures
        s.update(i, v).to_multiset() =~= s.to_multiset().remove(s[i]).insert(v),
{
    let su = s.update(i, v);
    s.to_multiset_ensures();
    su.to_multiset_ensures();
    assert(su.remove(i) =~= s.remove(i));
    assert(su.remove(i).to_multiset() =~= su.to_multiset().remove(v));
    assert(s.remove(i).to_multiset() =~= s.to_multiset().remove(s[i]));
    assert(su.contains(v)) by {
        assert(su[i] == v);
    }
    assert(su.to_multiset().count(v) > 0);
    assert forall|x: A| su.to_multiset().count(x) == s.to_multiset().remove(s[i]).insert(
        v,
    ).count(x) by {
        if x == v {
            assert(su.to_multiset().remove(v).count(v) == su.to_multiset().count(v) - 1);
        } else {
            assert(su.to_multiset().remove(v).count(x) == su.to_multiset().count(x));
        }
    }
}

/// Swapping two positions leaves the multiset of entries unchanged.
proof fn lemma_swap_multiset<A>(s: Seq<A>, i: int, j: int)
    requires
        0 <= i < s.len(),
        0 <= j < s.len(),
    ensures
        s.update(i, s[j]).update(j, s[i]).to_multiset() =~= s.to_multiset(),
{
    if i == j {
        assert(s.update(i, s[j]).update(j, s[i]) =~= s);
    } else {
        let s1 = s.update(i, s[j]);
        lemma_update_multiset(s, i, s[j]);
        assert(s1[j] == s[j]);
        lemma_update_multiset(s1, j, s[i]);
        s.to_multiset_ensures();
        assert(s.contains(s[i]));
        assert(s.to_multiset().count(s[i]) > 0);
    }
}

/// A heap of `T` entries keyed by `u64` priorities, smallest in front.
pub struct MinHeap<T> {
    data: Vec<(T, u64)>,
}

impl<T> MinHeap<T> {
    /// The stored entries, in array order.
    pub closed spec fn entries(self) -> Seq<(T, u64)> {
        self.data@
    }

    /// The heap order holds of the stored entries.
    pub open spec fn inv(self) -> bool {
        heap_ordered(self.entries())
    }

    pub fn new() -> (r: Self)
        ensures
            r.inv(),
            r.entries() == Seq::<(T, u64)>::empty(),
    {
        MinHeap { data: Vec::new() }
    }

    pub fn with_capacity(capacity: usize) -> (r: Self)
        ensures
            r.inv(),
            r.entries() == Seq::<(T, u64)>::empty(),
    {
        MinHeap { data: Vec::with_capacity(capacity) }
    }

    pub fn len(&self) -> (r: usize)
        ensures
            r == self.entries().len(),
    {
        self.data.len()
    }

    pub fn is_empty(&self) -> (r: bool)
        ensures
            r == (self.entries().len() == 0),
    {
        self.data.len() == 0
    }

    pub fn clear(&mut self)
        ensures
            final(self).inv(),
            final(self).entries() == Seq::<(T, u64)>::empty(),
    {
        self.data.clear();
    }

    /// The front entry's payload: the one with minimal priority.
    pub fn peek(&self) -> (r: Option<&T>)
        requires
            self.inv(),
        ensures
            self.entries().len() == 0 ==> r is None,
            self.entries().len() > 0 ==> r == Some(&self.entries()[0].0) && forall|k: int|
                0 <= k < self.entries().len() ==> self.entries()[0].1 <= (
                #[trigger] self.entries()[k]).1,
    {
        if self.data.len() == 0 {
            None
        } else {
            proof {
                assert forall|k: int| 0 <= k < self.entries().len() implies self.entries()[0].1
                    <= (#[trigger] self.entries()[k]).1 by {
                    lemma_front_minimal(self.entries(), k);
                }
            }
            Some(&self.data[0].0)
        }
    }

    /// The front entry and its priority.
    pub fn peek_with_priority(&self) -> (r: Option<(&T, &u64)>)
        requires
            self.inv(),
        ensures
            self.entries().len() == 0 ==> r is None,
            self.entries().len() > 0 ==> (r matches Some(p) && *p.0 == self.entries()[0].0
                && *p.1 == self.entries()[0].1) && forall|k: int|
                0 <= k < self.entries().len() ==> self.entries()[0].1 <= (
                #[trigger] self.entries()[k]).1,
    {
        if self.data.len() == 0 {
            None
        } else {
            proof {
                assert forall|k: int| 0 <= k < self.entries().len() implies self.entries()[0].1
                    <= (#[trigger] self.entries()[k]).1 by {
                    lemma_front_minimal(self.entries(), k);
                }
            }
            let pair = &self.data[0];
            Some((&pair.0, &pair.1))
        }
    }

    /// Adds an entry, restoring the heap order by floating it up.
    pub fn push(&mut self, data: T, priority: u64)
        requires
            old(self).inv(),
            old(self).entries().len() < usize::MAX,
        ensures
            final(self).inv(),
            final(self).entries().len() == old(self).entries().len() + 1,
            final(self).entries().to_multiset() == old(self).entries().to_multiset().insert(
                (data, priority),
            ),
    {
        proof {
            self.data@.to_multiset_ensures();
        }
        self.data.push((data, priority));
        let mut i = self.data.len() - 1;
        while i > 0
            invariant
                0 <= i < self.entries().len(),
                self.entries().len() == old(self).entries().len() + 1,
                heap_ordered_except(self.entries(), i as int),
                i > 0 ==> forall|c: int|
                    1 <= c < self.entries().len() && heap_parent(c) == i as int ==> (
                    #[trigger] self.entries()[c]).1 >= self.entries()[heap_parent(i as int)].1,
                self.entries().to_multiset() == old(self).entries().to_multiset().insert(
                    (data, priority),
                ),
            decreases i,
        {
            let parent = (i - 1) / 2;
            let stop = {
                let a = &self.data[parent];
                let b = &self.data[i];
                a.1 <= b.1
            };
            if stop {
                proof {
                    assert(heap_ordered(self.entries()));
                }
                return ;
            }
            let ghost before = self.entries();
            vec_swap(&mut self.data, parent, i);
            proof {
                lemma_swap_multiset(before, parent as int, i as int);
                assert forall|j: int|
                    1 <= j < self.entries().len() && j != parent as int implies (
                #[trigger] self.entries()[j]).1 >= self.entries()[heap_parent(j)].1 by {
                    if j == i as int {
                    } else if heap_parent(j) == i as int {
                        assert(before[j].1 >= before[heap_parent(i as int)].1);
                    } else if heap_parent(j) == parent as int {
                        assert(before[j].1 >= before[heap_parent(j)].1);
                        assert(before[i as int].1 < before[parent as int].1);
                    } else {
                        assert(before[j].1 >= before[heap_parent(j)].1);
                    }
                }
                if parent > 0 {
                    assert forall|c: int|
                        1 <= c < self.entries().len() && heap_parent(c) == parent as int implies (
                    #[trigger] self.entries()[c]).1 >= self.entries()[heap_parent(
                        parent as int,
                    )].1 by {
                        if c == i as int {
                            assert(before[parent as int].1 >= before[heap_parent(
                                parent as int,
                            )].1);
                        } else {
                            assert(before[c].1 >= before[heap_parent(c)].1);
                        }
                    }
                }
            }
            i = parent;
        }
        proof {
            assert(heap_ordered(self.entries()));
        }
    }

    /// Removes and returns the front entry and its priority: the minimum of
    /// the heap; `None` exactly when the heap is empty.
    pub fn pop_with_priority(&mut self) -> (r: Option<(T, u64)>)
        requires
            old(self).inv(),
        ensures
            final(self).inv(),
            old(self).entries().len() == 0 ==> r is None && final(self).entries() == old(
                self,
            ).entries(),
            old(self).entries().len() > 0 ==> {
                &&& r == Some(old(self).entries()[0])
                &&& final(self).entries().to_multiset() == old(
                    self,
                ).entries().to_multiset().remove(old(self).entries()[0])
                &&& forall|k: int|
                    0 <= k < old(self).entries().len() ==> old(self).entries()[0].1 <= (
                    #[trigger] old(self).entries()[k]).1
            },
    {
        let n = self.data.len();
        if n == 0 {
            return None;
        }
        proof {
            assert forall|k: int| 0 <= k < self.entries().len() implies self.entries()[0].1 <= (
            #[trigger] self.entries()[k]).1 by {
                lemma_front_minimal(self.entries(), k);
            }
        }
        vec_swap(&mut self.data, 0, n - 1);
        let ghost swapped = self.entries();
        let top = match self.data.pop() {
            Some(pair) => pair,
            None => {
                proof {
                    assert(false);
                }
                return None;
            },
        };
        proof {
            lemma_swap_multiset(old(self).entries(), 0, n - 1 as int);
            swapped.to_multiset_ensures();
            assert(self.entries() =~= swapped.remove(n - 1 as int));
            assert(self.entries().to_multiset() =~= swapped.to_multiset().remove(
                swapped[n - 1 as int],
            ));
            assert(swapped[n - 1 as int] == old(self).entries()[0]);
            assert forall|j: int|
                1 <= j < self.entries().len() && heap_parent(j) != 0 implies (
            #[trigger] self.entries()[j]).1 >= self.entries()[heap_parent(j)].1 by {
                assert(old(self).entries()[j].1 >= old(self).entries()[heap_parent(j)].1);
            }
        }
        self.sift_down();
        Some(top)
    }

    /// Removes and returns the front payload: the entry with the smallest
    /// priority; `None` exactly when the heap is empty.
    pub fn pop(&mut self) -> (r: Option<T>)
        requires
            old(self).inv(),
        ensures
            final(self).inv(),
            old(self).entries().len() == 0 ==> r is None && final(self).entries() == old(
                self,
            ).entries(),
            old(self).entries().len() > 0 ==> {
                &&& r == Some(old(self).entries()[0].0)
                &&& final(self).entries().to_multiset() == old(
                    self,
                ).entries().to_multiset().remove(old(self).entries()[0])
                &&& forall|k: int|
                    0 <= k < old(self).entries().len() ==> old(self).entries()[0].1 <= (
                    #[trigger] old(self).entries()[k]).1
            },
    {
        match self.pop_with_priority() {
            Some(pair) => Some(pair.0),
            None => None,
        }
    }

    /// Restores the heap order from the front downwards, assuming it holds
    /// everywhere but possibly on the links from the front's children.
    #[verifier::rlimit(100)]
    fn sift_down(&mut self)
        requires
            heap_ordered_except_below(old(self).entries(), 0),
        ensures
            final(self).inv(),
            final(self).entries().to_multiset() == old(self).entries().to_multiset(),
            final(self).entries().len() == old(self).entries().len(),
    {
        proof {
            old(self).entries().to_multiset_ensures();
        }
        let n = self.data.len();
        let mut i: usize = 0;
        while i < n / 2
            invariant
                n == self.entries().len(),
                n == old(self).entries().len(),
                0 <= i <= n,
                heap_ordered_except_below(self.entries(), i as int),
                i as int > 0 ==> forall|c: int|
                    1 <= c < self.entries().len() && heap_parent(c) == i as int ==> (
                    #[trigger] self.entries()[c]).1 >= self.entries()[heap_parent(i as int)].1,
                self.entries().to_multiset() == old(self).entries().to_multiset(),
            decreases n - i,
        {
            proof {
                assert(2 * i + 1 < n);
            }
            let c1 = 2 * i + 1;
            let c2 = c1 + 1;
            let child = if c2 < n {
                let a = &self.data[c2];
                let b = &self.data[c1];
                if a.1 < b.1 {
                    c2
                } else {
                    c1
                }
            } else {
                c1
            };
            let stop = {
                let a = &self.data[i];
                let b = &self.data[child];
                a.1 <= b.1
            };
            if stop {
                proof {
                    assert(heap_ordered(self.entries()));
                }
                return ;
            }
            let ghost before = self.entries();
            vec_swap(&mut self.data, i, child);
            proof {
                lemma_swap_multiset(before, i as int, child as int);
                assert forall|j: int|
                    1 <= j < self.entries().len() && heap_parent(j) != child as int implies (
                #[trigger] self.entries()[j]).1 >= self.entries()[heap_parent(j)].1 by {
                    if j == child as int {
                        assert(before[child as int].1 < before[i as int].1);
                    } else if j == i as int {
                        if i > 0 {
                            assert(before[i as int].1 >= before[heap_parent(i as int)].1);
                        }
                    } else if heap_parent(j) == i as int {
                        // The other child of `i`, if any, is at least the
                        // chosen child's priority.
                        assert(before[j].1 >= before[child as int].1);
                    } else {
                        assert(before[j].1 >= before[heap_parent(j)].1);
                    }
                }
                assert forall|c: int|
                    1 <= c < self.entries().len() && heap_parent(c) == child as int implies (
                #[trigger] self.entries()[c]).1 >= self.entries()[heap_parent(child as int)].1 by {
                    assert(before[c].1 >= before[heap_parent(c)].1);
                    assert(before[child as int].1 < before[i as int].1);
                }
            }
            i = child;
        }
        proof {
            assert forall|j: int| 1 <= j < self.entries().len() implies (
            #[trigger] self.entries()[j]).1 >= self.entries()[heap_parent(j)].1 by {
                if heap_parent(j) == i as int {
                    assert(j >= 2 * (i as int) + 1);
                    assert(2 * (i as int) + 1 >= n);
                }
            }
        }
    }

    /// The stored entries, handed over in array order.
    pub fn into_vec(self) -> (r: Vec<(T, u64)>)
        ensures
            r@ == self.entries(),
    {
        self.data
    }

    /// Builds a heap from arbitrary entries by pushing them in order.
    pub fn from_vec(items: Vec<(T, u64)>) -> (r: Self)
        requires
            items@.len() < usize::MAX,
        ensures
            r.inv(),
            r.entries().len() == items@.len(),
    {
        let mut heap = MinHeap::new();
        let mut items = items;
        let ghost all = items@;
        // Consume from the back to move entries out without cloning.
        while items.len() > 0
            invariant
                heap.inv(),
                heap.entries().len() + items@.len() == all.len(),
                all.len() < usize::MAX,
            decreases items@.len(),
        {
            match items.pop() {
                Some(pair) => {
                    heap.push(pair.0, pair.1);
                },
                None => {
                    proof {
                        assert(false);
                    }
                },
            }
        }
        heap
    }
}

/// Relies on the slice `swap` of std: exchanges the elements at `i` and
/// `j`.
#[verifier::external_body]
fn vec_swap<T>(v: &mut Vec<T>, i: usize, j: usize)
    requires
        i < old(v)@.len(),
        j < old(v)@.len(),
    ensures
        final(v)@ == old(v)@.update(i as int, old(v)@[j as int]).update(j as int, old(v)@[i as int]),
{
    v.swap(i, j)
}

} // verus!
