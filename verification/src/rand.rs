//! A xorshift pseudo-random generator over 32-bit state.

use vstd::prelude::*;

verus! {

/// One step of the 32-bit xorshift recurrence.
pub open spec fn xorshift32_step(x: u32) -> u32 {
    let a = x ^ (x << 13);
    let b = a ^ (a >> 17);
    b ^ (b << 5)
}

pub struct Xorshift32 {
    state: u32,
}

impl Xorshift32 {
    /// The current generator state.
    pub closed spec fn state_spec(self) -> u32 {
        self.state
    }

    pub fn new(seed: u32) -> (r: Self)
        ensures
            r.state_spec() == seed,
    {
        Xorshift32 { state: seed }
    }

    /// Seeds the generator from the system clock.
    /// Relies on std::time::SystemTime::now; the seed depends on the clock,
    /// so nothing is promised of it.  A clock before the Unix epoch yields
    /// seed 0.
    pub fn new_with_system_timestamp() -> Self {
        Self::new(system_millis_low())
    }

    /// Advances the state by one xorshift step and returns it.
    pub fn gen_u32(&mut self) -> (r: u32)
        ensures
            r == xorshift32_step(old(self).state_spec()),
            final(self).state_spec() == r,
    {
        self.state = self.state ^ (self.state << 13u32);
        self.state = self.state ^ (self.state >> 17u32);
        self.state = self.state ^ (self.state << 5u32);
        self.state
    }

    /// Draws two 32-bit values and packs them into one machine word (the
    /// first in the high half, the second in the low half).
    pub fn gen_usize(&mut self) -> (r: usize)
        ensures
            ({
                let hi = xorshift32_step(old(self).state_spec());
                let lo = xorshift32_step(hi);
                &&& r == (((hi as u64) << 32u64) | lo as u64) as usize
                &&& final(self).state_spec() == lo
            }),
    {
        let a = self.gen_u32();
        let b = self.gen_u32();
        (((a as u64) << 32u64) | b as u64) as usize
    }
}

/// Relies on std::time::SystemTime::now and duration_since: the milliseconds
/// since the Unix epoch, truncated to 32 bits; 0 when the clock reads
/// earlier than the epoch.  The result depends on the clock, so nothing is
/// promised of it.
#[verifier::external_body]
fn system_millis_low() -> u32 {
    std::time::SystemTime::now().duration_since(std::time::UNIX_EPOCH).map(
        |d| d.as_millis() as u32,
    ).unwrap_or(0)
}

} // verus!
