//! A bump (arena) allocator with exponential chunk growth.
//!
//! The arena owns a growing list of memory chunks and hands out byte ranges
//! (`Slot`s) inside them.  Chunk `i` (0-indexed) holds `N * 2^i` bytes, so the
//! backing storage doubles on every growth, up to a hard cap of `C` chunks.
//! Chunks are never moved or resized in place: growth only appends a fresh
//! chunk, so every range handed out earlier keeps its place and its contents
//! until the arena itself is dropped.
//!
//! Alignment is measured from the start of a chunk: each chunk begins at a
//! fresh base taken to satisfy every requested alignment, and a slot's
//! offset is padded up to the alignment its request named.

use vstd::prelude::*;

verus! {

use vstd::arithmetic::power2::pow2;
use vstd::arithmetic::power2::lemma_pow2_unfold;
use vstd::arithmetic::power2::lemma_pow2_strictly_increases;
use vstd::arithmetic::power2::lemma2_to64;
use vstd::arithmetic::mul::lemma_mul_inequality;

/// One allocation handed out by the arena: `size` bytes starting at byte
/// `offset` of chunk `chunk`.
#[derive(Clone, Copy, Debug, PartialEq, Eq, Structural)]
pub struct Slot {
    pub chunk: usize,
    pub offset: usize,
    pub size: usize,
}

impl Slot {
    /// The byte ranges of `self` and `other` have no byte in common.
    pub open spec fn disjoint_from(self, other: Slot) -> bool {
        ||| self.chunk != other.chunk
        ||| self.offset + self.size <= other.offset
        ||| other.offset + other.size <= self.offset
    }
}

/// Number of padding bytes needed to round `cursor` up to a multiple of
/// `align`.
pub open spec fn align_pad(cursor: int, align: int) -> int {
    (align - cursor % align) % align
}

/// A bump allocator over chunks of bytes.  `N` is the capacity in bytes of
/// the first chunk; `C` is the maximum number of chunks.
pub struct Arena<const N: usize, const C: usize> {
    chunks: Vec<Vec<u8>>,
    /// Offset of the first free byte of the active (= last) chunk.
    cursor: usize,
    /// Free bytes from `cursor` to the end of the active chunk.
    remaining: usize,
    /// Every slot handed out so far, in allocation order.
    slots: Ghost<Seq<Slot>>,
}

impl<const N: usize, const C: usize> Arena<N, C> {
    /// Capacity in bytes of chunk `i`: the initial size doubled `i` times.
    pub open spec fn chunk_capacity(i: int) -> int {
        N as int * pow2(i as nat) as int
    }

    /// How many chunks have been allocated so far.
    pub closed spec fn num_chunks(self) -> int {
        self.chunks@.len() as int
    }

    /// The bytes of each chunk.
    pub closed spec fn chunk_bytes(self) -> Seq<Seq<u8>> {
        self.chunks@.map(|i: int, c: Vec<u8>| c@)
    }

    /// Every slot handed out so far, in allocation order.
    pub closed spec fn slots(self) -> Seq<Slot> {
        self.slots@
    }

    /// Offset of the first free byte of the active chunk.
    pub closed spec fn cursor_pos(self) -> int {
        self.cursor as int
    }

    /// Free bytes left in the active chunk.
    pub closed spec fn free_bytes(self) -> int {
        self.remaining as int
    }

    /// The bytes a slot refers to.
    pub open spec fn slot_bytes(self, s: Slot) -> Seq<u8> {
        self.chunk_bytes()[s.chunk as int].subrange(
            s.offset as int,
            s.offset + s.size,
        )
    }

    /// A slot lies inside an allocated chunk, within the region already
    /// reserved (at or below the cursor for the active chunk).
    pub open spec fn slot_in_reserved(self, s: Slot) -> bool {
        &&& (s.chunk as int) < self.num_chunks()
        &&& s.offset + s.size <= Self::chunk_capacity(s.chunk as int)
        &&& (s.chunk as int == self.num_chunks() - 1 ==> s.offset + s.size <= self.cursor_pos())
    }

    /// The size parameters are usable on this machine: at least one byte per
    /// chunk, at least one chunk slot, and even the largest chunk fits in a
    /// `usize`.
    pub open spec fn params_ok() -> bool {
        &&& N >= 1
        &&& C >= 1
        &&& Self::chunk_capacity(C as int - 1) <= usize::MAX as int
    }

    /// Arena well-formedness: the chunk list respects the doubling schedule,
    /// the cursor bookkeeping matches the active chunk, every slot handed out
    /// lies in reserved memory, and no two slots overlap.
    pub closed spec fn wf(self) -> bool {
        &&& Self::params_ok()
        &&& self.num_chunks() <= C as int
        &&& forall|i: int|
            0 <= i < self.num_chunks() ==> (#[trigger] self.chunk_bytes()[i]).len()
                == Self::chunk_capacity(i)
        &&& (self.num_chunks() == 0 ==> self.cursor == 0 && self.remaining == 0)
        &&& (self.num_chunks() > 0 ==> self.cursor_pos() + self.free_bytes()
            == Self::chunk_capacity(self.num_chunks() - 1))
        &&& forall|k: int|
            0 <= k < self.slots().len() ==> self.slot_in_reserved(#[trigger] self.slots()[k])
        &&& forall|k1: int, k2: int|
            0 <= k1 < k2 < self.slots().len() ==> (#[trigger] self.slots()[k1]).disjoint_from(
                #[trigger] self.slots()[k2],
            )
    }

    /// Creates an empty arena: no chunks yet, zero capacity.  Chunks are
    /// allocated lazily by the first allocation.
    pub fn new() -> (r: Self)
        requires
            Self::params_ok(),
        ensures
            r.wf(),
            r.num_chunks() == 0,
            r.slots() == Seq::<Slot>::empty(),
    {
        Arena { chunks: Vec::new(), cursor: 0, remaining: 0, slots: Ghost(Seq::empty()) }
    }

    /// The request fits in the active chunk once the cursor is padded up to
    /// `align`.
    pub open spec fn fits_in_active(self, size: int, align: int) -> bool {
        self.num_chunks() > 0 && align_pad(self.cursor_pos(), align) + size <= self.free_bytes()
    }

    /// A request for `size` bytes at alignment `align` can be served from the
    /// current state: either it fits in the active chunk after padding the
    /// cursor up to `align`, or a free chunk slot remains and even a maximal
    /// chunk can hold the request.
    pub open spec fn fits(self, size: int, align: int) -> bool {
        ||| self.fits_in_active(size, align)
        ||| (self.num_chunks() < C as int && size <= Self::chunk_capacity(C as int - 1))
    }

    /// The index of the chunk that growth starting at chunk `from` reaches
    /// for a request of `size` bytes: chunks too small to hold it are
    /// allocated and skipped.
    pub open spec fn grown_chunks(size: int, from: int) -> int
        decreases C as int - from,
    {
        if from >= C as int || size <= Self::chunk_capacity(from) {
            from
        } else {
            Self::grown_chunks(size, from + 1)
        }
    }

    /// Helper: `pow2(i) <= pow2(j)` for `i <= j`, scaled by `N`.
    proof fn lemma_capacity_monotone(i: int, j: int)
        requires
            0 <= i <= j,
        ensures
            Self::chunk_capacity(i) <= Self::chunk_capacity(j),
    {
        if i < j {
            lemma_pow2_strictly_increases(i as nat, j as nat);
            lemma_mul_inequality(pow2(i as nat) as int, pow2(j as nat) as int, N as int);
        }
    }

    /// Computes the capacity of chunk `i` by repeated doubling.
    fn chunk_capacity_exec(i: usize) -> (r: usize)
        requires
            Self::params_ok(),
            i < C,
        ensures
            r as int == Self::chunk_capacity(i as int),
    {
        proof {
            lemma2_to64();
            assert(Self::chunk_capacity(0) == N as int * 1);
        }
        let mut cap: usize = N;
        let mut j: usize = 0;
        while j < i
            invariant
                j <= i,
                i < C,
                Self::params_ok(),
                cap as int == Self::chunk_capacity(j as int),
            decreases i - j,
        {
            proof {
                lemma_pow2_unfold((j + 1) as nat);
                Self::lemma_capacity_monotone(j as int + 1, C as int - 1);
                assert(Self::chunk_capacity(j as int + 1) == 2 * Self::chunk_capacity(j as int))
                    by (nonlinear_arith)
                    requires
                        pow2((j + 1) as nat) == 2 * pow2(j as nat),
                        Self::chunk_capacity(j as int) == N as int * pow2(j as nat) as int,
                        Self::chunk_capacity(j as int + 1) == N as int * pow2((j + 1) as nat) as int,
                ;
            }
            cap = cap * 2;
            j = j + 1;
        }
        cap
    }

    /// Appends a brand-new chunk of capacity `N * 2^k` (`k` being its index)
    /// and makes it the active chunk.  Existing chunks, their contents and
    /// all slots handed out are untouched.
    fn grow(&mut self)
        requires
            old(self).wf(),
            old(self).num_chunks() < C as int,
        ensures
            final(self).wf(),
            final(self).num_chunks() == old(self).num_chunks() + 1,
            final(self).slots() == old(self).slots(),
            final(self).cursor_pos() == 0,
            final(self).free_bytes() == Self::chunk_capacity(final(self).num_chunks() - 1),
            forall|i: int|
                0 <= i < old(self).num_chunks() ==> final(self).chunk_bytes()[i] == old(
                    self,
                ).chunk_bytes()[i],
    {
        let idx = self.chunks.len();
        let cap = Self::chunk_capacity_exec(idx);
        let chunk: Vec<u8> = vec![0u8; cap];
        self.chunks.push(chunk);
        self.cursor = 0;
        self.remaining = cap;
        proof {
            assert(self.chunks@ == old(self).chunks@.push(chunk));
            assert forall|i: int| 0 <= i < self.num_chunks() implies (
            #[trigger] self.chunk_bytes()[i]).len() == Self::chunk_capacity(i) by {
                if i < self.num_chunks() - 1 {
                    assert(old(self).chunk_bytes()[i].len() == Self::chunk_capacity(i));
                    assert(self.chunks@[i] == old(self).chunks@[i]);
                } else {
                    assert(self.chunks@[i] == chunk);
                }
            }
            assert forall|k: int| 0 <= k < self.slots().len() implies self.slot_in_reserved(
                #[trigger] self.slots()[k],
            ) by {
                let s = self.slots()[k];
                assert(s == old(self).slots()[k]);
                assert(old(self).slot_in_reserved(s));
                if s.chunk as int == old(self).num_chunks() - 1 {
                    assert(s.offset + s.size <= old(self).cursor_pos());
                }
            }
            assert forall|i: int|
                0 <= i < old(self).num_chunks() implies self.chunk_bytes()[i] == old(
                self,
            ).chunk_bytes()[i] by {
                assert(self.chunks@[i] == old(self).chunks@[i]);
            }
        }
    }

    /// The raw allocation primitive.  Serves `size` bytes at alignment
    /// `align`, growing the backing storage as needed; returns `None`, and
    /// changes nothing, exactly when the request cannot be served (the chunk
    /// table is full, or no chunk could ever hold `size` bytes).
    pub fn try_alloc_layout(&mut self, size: usize, align: usize) -> (r: Option<Slot>)
        requires
            old(self).wf(),
            align >= 1,
        ensures
            final(self).wf(),
            r is Some <==> old(self).fits(size as int, align as int),
            r matches Some(s) ==> {
                &&& s.size == size
                &&& s.offset as int % align as int == 0
                &&& s.chunk as int == final(self).num_chunks() - 1
                &&& final(self).cursor_pos() == s.offset + s.size
                &&& final(self).free_bytes() == Self::chunk_capacity(final(self).num_chunks() - 1)
                    - final(self).cursor_pos()
                &&& final(self).slots() == old(self).slots().push(s)
                &&& final(self).slots().contains(s)
                &&& final(self).num_chunks() >= old(self).num_chunks()
                &&& s.offset as int == (if old(self).fits_in_active(size as int, align as int) {
                    old(self).cursor_pos() + align_pad(old(self).cursor_pos(), align as int)
                } else {
                    0
                })
                &&& final(self).num_chunks() == (if old(self).fits_in_active(
                    size as int,
                    align as int,
                ) {
                    old(self).num_chunks()
                } else {
                    Self::grown_chunks(size as int, old(self).num_chunks()) + 1
                })
            },
            r is None ==> final(self).num_chunks() == old(self).num_chunks() && final(self).slots()
                == old(self).slots() && final(self).cursor_pos() == old(self).cursor_pos()
                && final(self).free_bytes() == old(self).free_bytes(),
            forall|i: int|
                0 <= i < old(self).num_chunks() ==> final(self).chunk_bytes()[i] == old(
                    self,
                ).chunk_bytes()[i],
            forall|k: int|
                0 <= k < old(self).slots().len() ==> final(self).slots()[k] == old(self).slots()[k],
            forall|s0: Slot|
                old(self).slots().contains(s0) ==> final(self).slots().contains(s0) && final(self).slot_bytes(s0) == old(self).slot_bytes(s0),
    {
        proof {
            Self::lemma_old_slot_bytes_preserved(*old(self), *old(self));
        }
        if self.chunks.len() > 0 {
            let pad = compute_pad(self.cursor, align);
            if size <= self.remaining && pad <= self.remaining - size {
                let r = self.bump(size, pad, Ghost(align as int));
                proof {
                    Self::lemma_old_slot_bytes_preserved(*old(self), *self);
                }
                return Some(r);
            }
        }
        if self.chunks.len() >= C {
            return None;
        }
        let max_cap = Self::chunk_capacity_exec(C - 1);
        if size > max_cap {
            return None;
        }
        while self.chunks.len() < C
            invariant
                self.wf(),
                old(self).wf(),
                old(self).num_chunks() < C as int,
                old(self).fits(size as int, align as int),
                !old(self).fits_in_active(size as int, align as int),
                align >= 1,
                size as int <= Self::chunk_capacity(C as int - 1),
                self.slots() == old(self).slots(),
                self.num_chunks() >= old(self).num_chunks(),
                Self::grown_chunks(size as int, old(self).num_chunks()) == Self::grown_chunks(
                    size as int,
                    self.num_chunks(),
                ),
                self.num_chunks() > old(self).num_chunks() ==> self.cursor_pos() == 0 && size
                    as int > self.free_bytes(),
                forall|i: int|
                    0 <= i < old(self).num_chunks() ==> self.chunk_bytes()[i] == old(
                        self,
                    ).chunk_bytes()[i],
            decreases C as int - self.num_chunks(),
        {
            let ghost pre_num = self.num_chunks();
            self.grow();
            if size <= self.remaining {
                proof {
                    assert(align as int % align as int == 0 && 0 as int % align as int == 0)
                        by (nonlinear_arith)
                        requires
                            align >= 1,
                    ;
                    assert(align_pad(0, align as int) == 0);
                    // The fresh chunk is the one growth was after.
                    assert(Self::grown_chunks(size as int, pre_num) == pre_num);
                }
                let r = self.bump(size, 0, Ghost(align as int));
                proof {
                    Self::lemma_old_slot_bytes_preserved(*old(self), *self);
                }
                return Some(r);
            }
            proof {
                // The fresh chunk was still too small: growth skips it.
                assert(Self::grown_chunks(size as int, pre_num) == Self::grown_chunks(
                    size as int,
                    pre_num + 1,
                ));
            }
        }
        proof {
            // The loop above cannot run to completion: its last iteration
            // grows the chunk of index `C - 1`, whose capacity is at least
            // `size`, and returns.
            assert(self.num_chunks() == C as int);
            assert(self.num_chunks() > old(self).num_chunks());
            assert(self.free_bytes() == Self::chunk_capacity(C as int - 1));
            assert(false);
        }
        None
    }

    /// Advances the cursor past `pad + size` bytes and records the slot.
    fn bump(&mut self, size: usize, pad: usize, align: Ghost<int>) -> (r: Slot)
        requires
            old(self).wf(),
            old(self).num_chunks() > 0,
            pad + size <= old(self).free_bytes(),
            align@ >= 1,
            align_pad(old(self).cursor_pos(), align@) == pad,
        ensures
            final(self).wf(),
            r.size == size,
            r.offset as int % align@ == 0,
            r.offset as int == old(self).cursor_pos() + align_pad(old(self).cursor_pos(), align@),
            r.chunk as int == final(self).num_chunks() - 1,
            final(self).num_chunks() == old(self).num_chunks(),
            final(self).cursor_pos() == r.offset + r.size,
            final(self).free_bytes() == Self::chunk_capacity(final(self).num_chunks() - 1) - final(self).cursor_pos(),
            final(self).slots() == old(self).slots().push(r),
            final(self).slots().contains(r),
            forall|k: int|
                0 <= k < old(self).slots().len() ==> final(self).slots()[k] == old(self).slots()[k],
            final(self).chunk_bytes() == old(self).chunk_bytes(),
    {
        proof {
            lemma_align_pad(old(self).cursor_pos(), align@);
            Self::lemma_capacity_monotone(self.num_chunks() - 1, C as int - 1);
            assert(self.cursor_pos() + self.free_bytes() <= usize::MAX as int);
        }
        let chunk = self.chunks.len() - 1;
        let offset = self.cursor + pad;
        let r = Slot { chunk, offset, size };
        self.cursor = offset + size;
        self.remaining = self.remaining - (pad + size);
        proof {
            let ghost pre = self.slots@;
            self.slots@ = self.slots@.push(r);
            assert(self.chunks@ == old(self).chunks@);
            assert forall|i: int| 0 <= i < self.num_chunks() implies (
            #[trigger] self.chunk_bytes()[i]).len() == Self::chunk_capacity(i) by {
                assert(self.chunk_bytes()[i] == old(self).chunk_bytes()[i]);
                assert(old(self).chunk_bytes()[i].len() == Self::chunk_capacity(i));
            }
            assert forall|k: int| 0 <= k < pre.len() implies self.slots()[k] == pre[k] by {
                assert(self.slots()[k] == pre.push(r)[k]);
            }
            assert(self.slots()[pre.len() as int] == r);
            assert(self.slots().contains(r));
            assert(self.slot_in_reserved(r));
            assert forall|k: int| 0 <= k < self.slots().len() implies self.slot_in_reserved(
                #[trigger] self.slots()[k],
            ) by {
                if k < pre.len() {
                    assert(self.slots()[k] == old(self).slots()[k]);
                    assert(old(self).slot_in_reserved(old(self).slots()[k]));
                }
            }
            assert forall|k1: int, k2: int|
                0 <= k1 < k2 < self.slots().len() implies (#[trigger] self.slots()[k1]).disjoint_from(
                #[trigger] self.slots()[k2],
            ) by {
                if k2 < pre.len() {
                    assert(self.slots()[k1] == old(self).slots()[k1]);
                    assert(self.slots()[k2] == old(self).slots()[k2]);
                    assert(old(self).slots()[k1].disjoint_from(old(self).slots()[k2]));
                } else {
                    assert(self.slots()[k2] == r);
                    assert(self.slots()[k1] == old(self).slots()[k1]);
                    assert(old(self).slot_in_reserved(old(self).slots()[k1]));
                }
            }
        }
        r
    }

    /// Helper: when no old chunk's contents changed and the slot log only
    /// grew, the bytes of every old slot are unchanged.
    proof fn lemma_old_slot_bytes_preserved(pre: Self, post: Self)
        requires
            pre.wf(),
            post.num_chunks() >= pre.num_chunks(),
            forall|i: int|
                0 <= i < pre.num_chunks() ==> post.chunk_bytes()[i] == pre.chunk_bytes()[i],
            post.slots().len() >= pre.slots().len(),
            forall|k: int| 0 <= k < pre.slots().len() ==> post.slots()[k] == pre.slots()[k],
        ensures
            forall|s0: Slot|
                pre.slots().contains(s0) ==> post.slots().contains(s0) && post.slot_bytes(s0)
                    == pre.slot_bytes(s0),
    {
        assert forall|s0: Slot| pre.slots().contains(s0) implies post.slots().contains(s0)
            && post.slot_bytes(s0) == pre.slot_bytes(s0) by {
            let k = choose|k: int| 0 <= k < pre.slots().len() && pre.slots()[k] == s0;
            assert(post.slots()[k] == s0);
            assert(pre.slot_in_reserved(pre.slots()[k]));
            assert(post.chunk_bytes()[s0.chunk as int] == pre.chunk_bytes()[s0.chunk as int]);
        }
    }

    /// The raw allocation primitive for requests known to fit: an
    /// unservable request is a fatal caller error, so it is excluded here by
    /// precondition.
    pub fn alloc_layout(&mut self, size: usize, align: usize) -> (r: Slot)
        requires
            old(self).wf(),
            align >= 1,
            old(self).fits(size as int, align as int),
        ensures
            final(self).wf(),
            r.size == size,
            r.offset as int % align as int == 0,
            r.chunk as int == final(self).num_chunks() - 1,
            r.offset as int == (if old(self).fits_in_active(size as int, align as int) {
                old(self).cursor_pos() + align_pad(old(self).cursor_pos(), align as int)
            } else {
                0
            }),
            final(self).cursor_pos() == r.offset + r.size,
            final(self).free_bytes() == Self::chunk_capacity(final(self).num_chunks() - 1) - final(self).cursor_pos(),
            final(self).slots() == old(self).slots().push(r),
            final(self).slots().contains(r),
            final(self).num_chunks() >= old(self).num_chunks(),
            final(self).num_chunks() == (if old(self).fits_in_active(size as int, align as int) {
                old(self).num_chunks()
            } else {
                Self::grown_chunks(size as int, old(self).num_chunks()) + 1
            }),
            forall|k: int|
                0 <= k < old(self).slots().len() ==> final(self).slots()[k] == old(self).slots()[k],
            forall|i: int|
                0 <= i < old(self).num_chunks() ==> final(self).chunk_bytes()[i] == old(
                    self,
                ).chunk_bytes()[i],
            forall|s0: Slot|
                old(self).slots().contains(s0) ==> final(self).slots().contains(s0) && final(self).slot_bytes(s0) == old(self).slot_bytes(s0),
    {
        let r = self.try_alloc_layout(size, align);
        proof {
            Self::lemma_old_slot_bytes_preserved(*old(self), *self);
        }
        match r {
            Some(s) => s,
            None => {
                proof {
                    assert(false);
                }
                Slot { chunk: 0, offset: 0, size: 0 }
            },
        }
    }

    /// Law: validity.  A slot the arena handed out stays inside an
    /// allocated chunk for as long as the arena lives, whatever is
    /// allocated after it.
    pub proof fn lemma_slot_bounds(self, s: Slot)
        requires
            self.wf(),
            self.slots().contains(s),
        ensures
            (s.chunk as int) < self.num_chunks(),
            s.offset + s.size <= self.chunk_bytes()[s.chunk as int].len(),
            s.offset + s.size <= usize::MAX,
    {
        let k = choose|k: int| 0 <= k < self.slots().len() && self.slots()[k] == s;
        assert(self.slot_in_reserved(self.slots()[k]));
        Self::lemma_capacity_monotone(s.chunk as int, C as int - 1);
    }

    /// Writes one byte at index `i` of slot `s`.
    pub fn write(&mut self, s: &Slot, i: usize, b: u8)
        requires
            old(self).wf(),
            old(self).slots().contains(*s),
            i < s.size,
        ensures
            final(self).wf(),
            final(self).num_chunks() == old(self).num_chunks(),
            final(self).slots() == old(self).slots(),
            final(self).cursor_pos() == old(self).cursor_pos(),
            final(self).free_bytes() == old(self).free_bytes(),
            final(self).chunk_bytes() == old(self).chunk_bytes().update(
                s.chunk as int,
                old(self).chunk_bytes()[s.chunk as int].update(s.offset + i, b),
            ),
            final(self).slot_bytes(*s) == old(self).slot_bytes(*s).update(i as int, b),
            forall|s0: Slot|
                old(self).slots().contains(s0) && s0.disjoint_from(*s) ==> final(self).slot_bytes(
                    s0,
                ) == old(self).slot_bytes(s0),
    {
        proof {
            old(self).lemma_slot_bounds(*s);
        }
        let chunk: &mut Vec<u8> = &mut self.chunks[s.chunk];
        let cell: &mut u8 = &mut chunk[s.offset + i];
        *cell = b;
        proof {
            let pre = *old(self);
            let c = s.chunk as int;
            let p = s.offset + i;
            assert(self.chunks@ == pre.chunks@.update(c, self.chunks@[c]));
            assert(self.chunks@[c]@ == pre.chunks@[c]@.update(p as int, b));
            assert(self.chunk_bytes() =~= pre.chunk_bytes().update(
                c,
                pre.chunk_bytes()[c].update(p as int, b),
            ));
            assert forall|i2: int| 0 <= i2 < self.num_chunks() implies (
            #[trigger] self.chunk_bytes()[i2]).len() == Self::chunk_capacity(i2) by {
                assert(pre.chunk_bytes()[i2].len() == Self::chunk_capacity(i2));
            }
            assert(self.slot_bytes(*s) =~= pre.slot_bytes(*s).update(i as int, b));
            assert forall|s0: Slot|
                pre.slots().contains(s0) && s0.disjoint_from(*s) implies self.slot_bytes(s0)
                == pre.slot_bytes(s0) by {
                pre.lemma_slot_bounds(s0);
                if s0.chunk as int == c {
                    assert(self.slot_bytes(s0) =~= pre.slot_bytes(s0));
                } else {
                    assert(self.chunk_bytes()[s0.chunk as int] == pre.chunk_bytes()[s0.chunk as int]);
                }
            }
        }
    }

    /// Reads the byte at index `i` of slot `s`.
    pub fn read(&self, s: &Slot, i: usize) -> (b: u8)
        requires
            self.wf(),
            self.slots().contains(*s),
            i < s.size,
        ensures
            b == self.slot_bytes(*s)[i as int],
    {
        proof {
            self.lemma_slot_bounds(*s);
        }
        self.chunks[s.chunk][s.offset + i]
    }

    /// Allocates room for `value` at alignment `align` and moves its bytes
    /// in, returning the slot now holding them.  An unservable request is a
    /// fatal caller error, so it is excluded by precondition; `fits` says
    /// exactly when service is owed.
    pub fn alloc_value(&mut self, value: &[u8], align: usize) -> (r: Slot)
        requires
            old(self).wf(),
            align >= 1,
            old(self).fits(value@.len() as int, align as int),
        ensures
            final(self).wf(),
            r.size == value@.len(),
            r.offset as int % align as int == 0,
            final(self).slot_bytes(r) == value@,
            final(self).slots() == old(self).slots().push(r),
            final(self).slots().contains(r),
            final(self).num_chunks() >= old(self).num_chunks(),
            forall|k: int|
                0 <= k < old(self).slots().len() ==> final(self).slots()[k] == old(self).slots()[k],
            forall|i: int|
                0 <= i < old(self).num_chunks() ==> final(self).chunk_bytes()[i].len() == old(
                    self,
                ).chunk_bytes()[i].len(),
            forall|s0: Slot|
                old(self).slots().contains(s0) ==> final(self).slots().contains(s0) && final(self).slot_bytes(s0) == old(self).slot_bytes(s0),
    {
        let r = self.alloc_layout(value.len(), align);
        proof {
            assert(self.slots()[old(self).slots().len() as int] == r);
            assert(self.slots().contains(r));
        }
        let ghost mid = *self;
        let mut i: usize = 0;
        while i < value.len()
            invariant
                self.wf(),
                i <= value@.len(),
                r.size == value@.len(),
                self.slots() == mid.slots(),
                self.slots().contains(r),
                self.num_chunks() == mid.num_chunks(),
                forall|j: int| 0 <= j < i ==> self.slot_bytes(r)[j] == value@[j],
                forall|s0: Slot|
                    mid.slots().contains(s0) && s0.disjoint_from(r) ==> self.slot_bytes(s0)
                        == mid.slot_bytes(s0),
            decreases value@.len() - i,
        {
            self.write(&r, i, value[i]);
            i += 1;
        }
        proof {
            assert(self.slot_bytes(r) =~= value@);
            assert forall|s0: Slot| old(self).slots().contains(s0) implies self.slots().contains(
                s0,
            ) && self.slot_bytes(s0) == old(self).slot_bytes(s0) by {
                let k = choose|k: int|
                    0 <= k < old(self).slots().len() && old(self).slots()[k] == s0;
                assert(mid.slots()[k] == s0);
                assert(mid.slots().contains(s0));
                assert(mid.slots()[k].disjoint_from(mid.slots()[mid.slots().len() - 1]));
                assert(s0.disjoint_from(r));
                assert(mid.slot_bytes(s0) == old(self).slot_bytes(s0));
            }
        }
        r
    }

    /// Allocates room for the elements of `value`, which it takes over by
    /// move, and copies them in.
    pub fn calloc(&mut self, value: Vec<u8>, align: usize) -> (r: Slot)
        requires
            old(self).wf(),
            align >= 1,
            old(self).fits(value@.len() as int, align as int),
        ensures
            final(self).wf(),
            r.size == value@.len(),
            r.offset as int % align as int == 0,
            final(self).slot_bytes(r) == value@,
            final(self).slots() == old(self).slots().push(r),
            final(self).slots().contains(r),
            forall|s0: Slot|
                old(self).slots().contains(s0) ==> final(self).slots().contains(s0) && final(self).slot_bytes(s0) == old(self).slot_bytes(s0),
    {
        let r = self.alloc_value(value.as_slice(), align);
        proof {
            assert forall|s0: Slot| old(self).slots().contains(s0) implies self.slots().contains(
                s0,
            ) && self.slot_bytes(s0) == old(self).slot_bytes(s0) by {}
        }
        r
    }

    /// Fills a fresh allocation from `items`, whose producer promised
    /// `reported_len` elements.  Storage is sized to the promise; the
    /// returned slot is sized to what was actually produced, so a shorter
    /// producer yields a shorter slot.  A producer overrunning its promise
    /// is a fatal caller error and is excluded by precondition.
    pub fn collect(&mut self, items: &[u8], reported_len: usize, align: usize) -> (r: Slot)
        requires
            old(self).wf(),
            align >= 1,
            items@.len() <= reported_len,
            old(self).fits(reported_len as int, align as int),
        ensures
            final(self).wf(),
            r.size == items@.len(),
            r.offset as int % align as int == 0,
            final(self).slot_bytes(r) == items@,
            final(self).slots() == old(self).slots().push(r),
            final(self).slots().contains(r),
            forall|s0: Slot|
                old(self).slots().contains(s0) ==> final(self).slots().contains(s0) && final(self).slot_bytes(s0) == old(self).slot_bytes(s0),
    {
        let full = self.alloc_layout(reported_len, align);
        let ghost a1 = *self;
        let r = Slot { chunk: full.chunk, offset: full.offset, size: items.len() };
        proof {
            // Shrink the recorded slot to the bytes actually produced: a
            // sub-range of a reserved range is reserved, and disjointness
            // only improves.
            let k = self.slots@.len() - 1;
            assert(self.slots@[k] == full);
            self.slots@ = self.slots@.update(k, r);
            assert(self.slots@[k] == r);
            assert(self.slot_in_reserved(full));
            assert forall|k0: int| 0 <= k0 < self.slots().len() implies self.slot_in_reserved(
                #[trigger] self.slots()[k0],
            ) by {
                if k0 < k {
                    assert(self.slots()[k0] == old(self).slots()[k0]);
                    assert(old(self).slot_in_reserved(old(self).slots()[k0]));
                }
            }
            assert forall|k1: int, k2: int|
                0 <= k1 < k2 < self.slots().len() implies (#[trigger] self.slots()[k1]).disjoint_from(
                #[trigger] self.slots()[k2],
            ) by {
                if k2 < k {
                    assert(self.slots()[k1] == old(self).slots()[k1]);
                    assert(self.slots()[k2] == old(self).slots()[k2]);
                    assert(old(self).slots()[k1].disjoint_from(old(self).slots()[k2]));
                } else {
                    assert(self.slots()[k1] == old(self).slots()[k1]);
                    assert(old(self).slot_in_reserved(old(self).slots()[k1]));
                }
            }
            assert(self.slots() =~= old(self).slots().push(r));
            assert(self.chunks@ == a1.chunks@);
            assert forall|i2: int| 0 <= i2 < self.num_chunks() implies (
            #[trigger] self.chunk_bytes()[i2]).len() == Self::chunk_capacity(i2) by {
                assert(self.chunk_bytes()[i2] == a1.chunk_bytes()[i2]);
                assert(a1.chunk_bytes()[i2].len() == Self::chunk_capacity(i2));
            }
            assert(self.wf());
            assert(self.slots()[self.slots().len() - 1] == r);
            assert(self.slots().contains(r));
            assert forall|s0: Slot| old(self).slots().contains(s0) implies self.slots().contains(
                s0,
            ) && self.slot_bytes(s0) == old(self).slot_bytes(s0) by {
                let k0 = choose|k0: int|
                    0 <= k0 < old(self).slots().len() && old(self).slots()[k0] == s0;
                assert(self.slots()[k0] == s0);
                assert(a1.slot_bytes(s0) == old(self).slot_bytes(s0));
                assert(self.chunk_bytes() =~= a1.chunk_bytes());
            }
        }
        let ghost mid = *self;
        let mut i: usize = 0;
        while i < items.len()
            invariant
                self.wf(),
                i <= items@.len(),
                r.size == items@.len(),
                self.slots() == mid.slots(),
                self.slots().contains(r),
                self.num_chunks() == mid.num_chunks(),
                forall|j: int| 0 <= j < i ==> self.slot_bytes(r)[j] == items@[j],
                forall|s0: Slot|
                    mid.slots().contains(s0) && s0.disjoint_from(r) ==> self.slot_bytes(s0)
                        == mid.slot_bytes(s0),
            decreases items@.len() - i,
        {
            self.write(&r, i, items[i]);
            i += 1;
        }
        proof {
            assert(self.slot_bytes(r) =~= items@);
            assert forall|s0: Slot| #![trigger old(self).slots().contains(s0)]
                old(self).slots().contains(s0) implies self.slots().contains(s0)
                && self.slot_bytes(s0) == old(self).slot_bytes(s0) by {
                let k0 = choose|k0: int|
                    0 <= k0 < old(self).slots().len() && old(self).slots()[k0] == s0;
                assert(mid.slots()[k0] == s0);
                assert(mid.slots().contains(s0));
                assert(mid.slots()[mid.slots().len() - 1] == r);
                assert(mid.slots()[k0].disjoint_from(mid.slots()[mid.slots().len() - 1]));
                assert(s0.disjoint_from(r));
                assert(mid.slot_bytes(s0) == old(self).slot_bytes(s0));
                assert(self.slots()[k0] == s0);
                assert(self.slots().contains(s0));
            }
        }
        r
    }

    /// Reserves `size` bytes at alignment `align` without writing them: the
    /// caller is expected to fill the slot before reading it back.
    pub fn alloc_uninitialized(&mut self, size: usize, align: usize) -> (r: Slot)
        requires
            old(self).wf(),
            align >= 1,
            old(self).fits(size as int, align as int),
        ensures
            final(self).wf(),
            r.size == size,
            r.offset as int % align as int == 0,
            final(self).slots() == old(self).slots().push(r),
            final(self).slots().contains(r),
            forall|s0: Slot|
                old(self).slots().contains(s0) ==> final(self).slots().contains(s0) && final(self).slot_bytes(s0) == old(self).slot_bytes(s0),
    {
        let r = self.alloc_layout(size, align);
        proof {
            Self::lemma_old_slot_bytes_preserved(*old(self), *self);
        }
        r
    }

    /// Reserves room for `count` contiguous elements of `elem_size` bytes
    /// each.  An overflowing total size is a fatal caller error and is
    /// excluded by precondition.
    pub fn calloc_uninitialized(&mut self, count: usize, elem_size: usize, align: usize) -> (r:
        Slot)
        requires
            old(self).wf(),
            align >= 1,
            count * elem_size <= usize::MAX,
            old(self).fits(count as int * elem_size as int, align as int),
        ensures
            final(self).wf(),
            r.size == count * elem_size,
            r.offset as int % align as int == 0,
            final(self).slots() == old(self).slots().push(r),
            final(self).slots().contains(r),
            forall|s0: Slot|
                old(self).slots().contains(s0) ==> final(self).slots().contains(s0) && final(self).slot_bytes(s0) == old(self).slot_bytes(s0),
    {
        let r = self.alloc_layout(count * elem_size, align);
        proof {
            Self::lemma_old_slot_bytes_preserved(*old(self), *self);
        }
        r
    }

    /// Law: no cross-allocation aliasing.  Any two slots the arena has
    /// handed out by distinct calls occupy disjoint byte ranges.
    pub proof fn lemma_no_overlap(self, k1: int, k2: int)
        requires
            self.wf(),
            0 <= k1 < self.slots().len(),
            0 <= k2 < self.slots().len(),
            k1 != k2,
        ensures
            self.slots()[k1].disjoint_from(self.slots()[k2]),
    {
    }

    /// The cursor bookkeeping visible to callers: the free bytes and the
    /// cursor together span the active chunk.
    pub proof fn lemma_cursor_accounting(self)
        requires
            self.wf(),
        ensures
            0 <= self.num_chunks() <= C as int,
            self.num_chunks() == 0 ==> self.cursor_pos() == 0 && self.free_bytes() == 0,
            self.num_chunks() > 0 ==> self.cursor_pos() + self.free_bytes()
                == Self::chunk_capacity(self.num_chunks() - 1),
    {
    }

    /// Law: growth doubling.  Chunk `i` holds `N * 2^i` bytes, so each chunk
    /// doubles the capacity of the one allocated before it.
    pub proof fn lemma_growth_doubling(self, i: int)
        requires
            self.wf(),
            0 <= i < self.num_chunks(),
        ensures
            self.chunk_bytes()[i].len() == Self::chunk_capacity(i),
            i + 1 < self.num_chunks() ==> self.chunk_bytes()[i + 1].len() == 2
                * self.chunk_bytes()[i].len(),
    {
        if i + 1 < self.num_chunks() {
            lemma_pow2_unfold((i + 1) as nat);
            assert(Self::chunk_capacity(i + 1) == 2 * Self::chunk_capacity(i))
                by (nonlinear_arith)
                requires
                    pow2((i + 1) as nat) == 2 * pow2(i as nat),
                    Self::chunk_capacity(i) == N as int * pow2(i as nat) as int,
                    Self::chunk_capacity(i + 1) == N as int * pow2((i + 1) as nat) as int,
            ;
        }
    }

    /// Sum of the capacities of chunks `0 .. k`.
    pub open spec fn total_capacity(k: int) -> int
        decreases k,
    {
        if k <= 0 {
            0
        } else {
            Self::total_capacity(k - 1) + Self::chunk_capacity(k - 1)
        }
    }

    /// Law: the total capacity after `k` chunks is `N * (2^k - 1)`.
    pub proof fn lemma_total_capacity(k: int)
        requires
            0 <= k,
        ensures
            Self::total_capacity(k) == N as int * (pow2(k as nat) - 1),
        decreases k,
    {
        if k == 0 {
            lemma2_to64();
            assert(Self::total_capacity(0) == 0);
            assert(N as int * (pow2(0) - 1) == 0);
        } else {
            Self::lemma_total_capacity(k - 1);
            lemma_pow2_unfold(k as nat);
            assert(N as int * (pow2((k - 1) as nat) - 1) + N as int * pow2((k - 1) as nat) as int
                == N as int * (pow2(k as nat) - 1)) by (nonlinear_arith)
                requires
                    pow2(k as nat) == 2 * pow2((k - 1) as nat),
            ;
            assert(Self::total_capacity(k) == Self::total_capacity(k - 1) + Self::chunk_capacity(
                k - 1,
            ));
        }
    }
}

/// Number of bytes needed to round `cursor` up to a multiple of `align`,
/// computed without overflow.
fn compute_pad(cursor: usize, align: usize) -> (r: usize)
    requires
        align >= 1,
    ensures
        r as int == align_pad(cursor as int, align as int),
        r < align,
{
    proof {
        lemma_align_pad(cursor as int, align as int);
    }
    (align - cursor % align) % align
}

/// Rounding the cursor up by `align_pad` lands on a multiple of `align`.
proof fn lemma_align_pad(cursor: int, align: int)
    requires
        cursor >= 0,
        align >= 1,
    ensures
        0 <= align_pad(cursor, align) < align,
        (cursor + align_pad(cursor, align)) % align == 0,
{
    let r = cursor % align;
    assert(0 <= r < align);
    if r == 0 {
        assert(align % align == 0) by (nonlinear_arith)
            requires
                align >= 1,
        ;
        assert(align_pad(cursor, align) == 0);
        assert((cursor + 0) % align == 0);
    } else {
        vstd::arithmetic::div_mod::lemma_small_mod((align - r) as nat, align as nat);
        assert(align_pad(cursor, align) == align - r);
        assert((cursor + (align - r)) % align == 0) by (nonlinear_arith)
            requires
                align >= 1,
                r == cursor % align,
                0 < r < align,
        ;
    }
}

} // verus!
