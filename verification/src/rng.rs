//! Xorshift pseudo-random generator used to pick ignition sites.

use vstd::prelude::*;

verus! {

/// One round of the 13/17/5 xorshift permutation on a 32-bit state.
pub open spec fn xorshift_spec(s: u32) -> u32 {
    let a = s ^ (s << 13);
    let b = a ^ (a >> 17);
    b ^ (b << 5)
}

/// The generator state after `n` rounds starting from `s`.
pub open spec fn rng_after(s: u32, n: nat) -> u32
    decreases n,
{
    if n == 0 {
        s
    } else {
        xorshift_spec(rng_after(s, (n - 1) as nat))
    }
}

/// Fast xorshift generator; seeded from the wall clock at startup, so the
/// flame differs from run to run.
pub struct Rng(pub u32);

/// Relies on std::time::SystemTime::now and Duration::as_nanos: the current
/// time as nanoseconds since the Unix epoch, truncated to 64 bits. Nothing
/// is promised of the value; a clock before the epoch yields 0.
#[verifier::external_body]
fn now_nanos() -> u64 {
    std::time::SystemTime::now()
        .duration_since(std::time::UNIX_EPOCH)
        .map(|d| d.as_nanos() as u64)
        .unwrap_or(0)
}

impl Rng {
    /// Seed from the wall clock; the low bit is forced on so the state is
    /// never zero (a zero xorshift state would stay zero forever).
    pub fn new() -> (r: Self)
        ensures
            r.0 & 1 == 1,
    {
        let seed = now_nanos() as u32;
        proof {
            assert((seed | 1) & 1 == 1u32) by (bit_vector);
        }
        Rng(seed | 1)
    }

    /// Deterministic construction for reproducible runs.
    pub fn with_seed(seed: u32) -> (r: Self)
        ensures
            r.0 == seed,
    {
        Rng(seed)
    }

    /// Advance one xorshift round and return the new state.
    pub fn next(&mut self) -> (r: u32)
        ensures
            final(self).0 == xorshift_spec(old(self).0),
            r == final(self).0,
    {
        self.0 ^= self.0 << 13;
        self.0 ^= self.0 >> 17;
        self.0 ^= self.0 << 5;
        self.0
    }
}

} // verus!
