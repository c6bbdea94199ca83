//! A HyperLogLog cardinality sketch over 16384 4-bit registers, two packed
//! into each byte.  The sketch itself works on 64-bit hash values; hashing
//! and the floating-point estimate drawn from the registers live with the
//! caller, fed by the integer summaries offered here.
//!
//! Of the hash, 14 bits index a register and 15 bits feed the leading-zero
//! rank stored in it.  A rank is clamped to the 4 bits a register can hold.

use vstd::prelude::*;

verus! {

use vstd::std_specs::bits::u16_leading_zeros;

/// How many registers the sketch holds.
pub const REGISTER_COUNT: usize = 16384;

pub struct HyperLogLog {
    registers: Vec<u8>,
}

impl HyperLogLog {
    /// The packed register bytes.
    pub closed spec fn bytes(self) -> Seq<u8> {
        self.registers@
    }

    /// The sketch holds one byte for each pair of registers.
    pub open spec fn inv(self) -> bool {
        self.bytes().len() == REGISTER_COUNT / 2
    }

    /// The 4-bit value of register `j`: odd registers sit in the low
    /// nibble, even ones in the high nibble.
    pub open spec fn register_value(self, j: int) -> u8 {
        if j % 2 == 1 {
            self.bytes()[j / 2] & 0x0f
        } else {
            self.bytes()[j / 2] >> 4
        }
    }

    /// The register a hash selects, and the rank it contributes: one more
    /// than the count of leading zeros of its low 15 bits, clamped to what
    /// a register can hold.
    pub open spec fn hash_register(hash: u64) -> int {
        ((hash >> 15) & 0x3fff) as int
    }

    pub open spec fn hash_rank(hash: u64) -> u8 {
        let lz = u16_leading_zeros((hash as u16) & 0x7fff);
        if lz > 15 {
            15
        } else {
            lz as u8
        }
    }

    /// A fresh sketch with all registers zero.
    pub fn new() -> (r: Self)
        ensures
            r.inv(),
            forall|j: int| 0 <= j < REGISTER_COUNT ==> r.register_value(j) == 0,
    {
        let registers = vec![0u8; REGISTER_COUNT / 2];
        proof {
            let hll = HyperLogLog { registers };
            assert forall|j: int| 0 <= j < REGISTER_COUNT implies hll.register_value(j)
                == 0 by {
                assert(hll.bytes()[j / 2] == 0u8);
                assert(0u8 & 0x0f == 0 && 0u8 >> 4 == 0) by (bit_vector);
            }
        }
        HyperLogLog { registers }
    }

    /// Records one hashed observation: the selected register rises to the
    /// hash's rank if that is larger; everything else is untouched.
    pub fn insert(&mut self, hash: u64)
        requires
            old(self).inv(),
        ensures
            final(self).inv(),
            final(self).register_value(Self::hash_register(hash)) == max_u8(
                old(self).register_value(Self::hash_register(hash)),
                Self::hash_rank(hash),
            ),
            forall|j: int|
                0 <= j < REGISTER_COUNT && j != Self::hash_register(hash) ==> final(self).register_value(j) == old(self).register_value(j),
    {
        let j = ((hash >> 15u64) & 0x3fff) as usize;
        let w = (hash as u16) & 0x7fff;
        let lz = w.leading_zeros();
        let rho: u8 = if lz > 15 {
            15
        } else {
            lz as u8
        };
        proof {
            assert(((hash >> 15u64) & 0x3fff) < 16384u64) by (bit_vector);
        }
        let byte = *vec_ref(&self.registers, j / 2);
        let updated: u8;
        let old_nibble: u8;
        if j % 2 == 1 {
            proof {
                assert(byte & 0x0f < 16u8) by (bit_vector);
            }
            old_nibble = byte & 0x0f;
            let new_nibble = if old_nibble > rho {
                old_nibble
            } else {
                rho
            };
            updated = (byte & 0xf0) | new_nibble;
            proof {
                let v = new_nibble;
                assert(((byte & 0xf0) | v) & 0x0f == v && ((byte & 0xf0) | v) >> 4 == byte >> 4)
                    by (bit_vector)
                    requires
                        v < 16,
                ;
            }
        } else {
            old_nibble = byte >> 4;
            let new_nibble = if old_nibble > rho {
                old_nibble
            } else {
                rho
            };
            updated = (byte & 0x0f) | (new_nibble << 4u8);
            proof {
                let v = new_nibble;
                assert(byte >> 4 < 16u8) by (bit_vector);
                assert(v < 16 ==> ((byte & 0x0f) | (v << 4u8)) >> 4 == v && ((byte & 0x0f) | (v
                    << 4u8)) & 0x0f == byte & 0x0f && (v << 4u8) < 256) by (bit_vector);
            }
        }
        vec_set(&mut self.registers, j / 2, updated);
        proof {
            assert forall|j2: int|
                0 <= j2 < REGISTER_COUNT && j2 != j implies self.register_value(j2) == old(
                self,
            ).register_value(j2) by {
                if j2 / 2 != j as int / 2 {
                    assert(self.bytes()[j2 / 2] == old(self).bytes()[j2 / 2]);
                }
            }
        }
    }

    /// How many registers are still zero, for the linear-counting estimate.
    pub fn zero_registers(&self) -> (r: usize)
        requires
            self.inv(),
        ensures
            r == self.zero_count(REGISTER_COUNT as int),
    {
        let mut count: usize = 0;
        let mut j: usize = 0;
        while j < REGISTER_COUNT
            invariant
                self.inv(),
                j <= REGISTER_COUNT,
                count <= j,
                count == self.zero_count(j as int),
            decreases REGISTER_COUNT - j,
        {
            let byte = *vec_ref(&self.registers, j / 2);
            let reg = if j % 2 == 1 {
                byte & 0x0f
            } else {
                byte >> 4
            };
            if reg == 0 {
                count += 1;
            }
            j += 1;
        }
        count
    }

    /// The number of zero registers among the first `upto`.
    pub open spec fn zero_count(self, upto: int) -> int
        decreases upto,
    {
        if upto <= 0 {
            0
        } else {
            self.zero_count(upto - 1) + if self.register_value(upto - 1) == 0 {
                1int
            } else {
                0int
            }
        }
    }

    /// The harmonic indicator sum `2^-r` over all registers, scaled by
    /// `2^16` so it stays an integer: each register `r` contributes
    /// `2^(16-r)`.
    pub fn harmonic_scaled(&self) -> (r: u64)
        requires
            self.inv(),
        ensures
            r == self.harmonic_sum(REGISTER_COUNT as int),
    {
        let mut sum: u64 = 0;
        let mut j: usize = 0;
        while j < REGISTER_COUNT
            invariant
                self.inv(),
                j <= REGISTER_COUNT,
                sum == self.harmonic_sum(j as int),
                sum <= j * 0x10000,
            decreases REGISTER_COUNT - j,
        {
            let byte = *vec_ref(&self.registers, j / 2);
            let reg = if j % 2 == 1 {
                byte & 0x0f
            } else {
                byte >> 4
            };
            proof {
                assert(byte & 0x0f < 16u8 && byte >> 4 < 16u8) by (bit_vector);
                assert(reg < 16 ==> (1u64 << ((16 - reg) as u64)) <= 0x10000u64)
                    by (bit_vector);
            }
            sum = sum + (1u64 << ((16 - reg) as u64));
            j += 1;
        }
        sum
    }

    /// The scaled harmonic sum over the first `upto` registers.
    pub open spec fn harmonic_sum(self, upto: int) -> int
        decreases upto,
    {
        if upto <= 0 {
            0
        } else {
            self.harmonic_sum(upto - 1) + (1u64 << ((16 - self.register_value(upto - 1)) as u64))
        }
    }
}

/// The larger of two bytes.
pub open spec fn max_u8(a: u8, b: u8) -> u8 {
    if a > b {
        a
    } else {
        b
    }
}

/// Reads element `i` of a vector.
fn vec_ref<T>(v: &Vec<T>, i: usize) -> (r: &T)
    requires
        i < v@.len(),
    ensures
        *r == v@[i as int],
{
    &v[i]
}

/// Overwrites element `i` of a vector.
fn vec_set<T>(v: &mut Vec<T>, i: usize, value: T)
    requires
        i < old(v)@.len(),
    ensures
        final(v)@ == old(v)@.update(i as int, value),
{
    let cell: &mut T = &mut v[i];
    *cell = value;
}

} // verus!
