//! Timestamps for the crank edges.
//!
//! The processor counts its clock cycles in a register of 32 bits that
//! wraps around every few seconds.  The edge clock is read at every edge; it
//! adds up the cycles that went by since the reading before and gives the
//! time since start in microseconds.  The time never runs backwards and
//! stops, rather than wrapping, should the sum ever reach its limit.

use vstd::prelude::*;

verus! {

/// The clock from which the edges take their timestamps.
pub struct EdgeClock {
    last_count: u32,
    cycles: u64,
    cycles_per_micro: u32,
}

/// Cycles that went by between two readings of the wrapping counter, the
/// later of which came less than one wrap after the earlier.
pub open spec fn elapsed(earlier: u32, later: u32) -> int {
    if later >= earlier {
        later - earlier
    } else {
        later + 0x1_0000_0000 - earlier
    }
}

/// A sum of cycles that stops at the largest number it can hold.
pub open spec fn capped(cycles: int) -> int {
    if cycles > u64::MAX {
        u64::MAX as int
    } else {
        cycles
    }
}

impl EdgeClock {
    /// The counter value of the last reading.
    pub closed spec fn last_count(&self) -> u32 {
        self.last_count
    }

    /// Cycles added up since start.
    pub closed spec fn cycles(&self) -> u64 {
        self.cycles
    }

    /// Cycles that the processor counts per microsecond.
    pub closed spec fn rate(&self) -> u32 {
        self.cycles_per_micro
    }

    #[verifier::type_invariant]
    spec fn rate_is_positive(&self) -> bool {
        self.cycles_per_micro > 0
    }

    /// A clock that starts at zero with the counter at `count`; `None` for a
    /// rate of zero.
    pub fn new(count: u32, cycles_per_micro: u32) -> (clock: Option<EdgeClock>)
        ensures
            clock is Some <==> cycles_per_micro > 0,
            clock matches Some(c) ==> c.last_count() == count && c.cycles() == 0 && c.rate()
                == cycles_per_micro,
    {
        if cycles_per_micro == 0 {
            None
        } else {
            Some(EdgeClock { last_count: count, cycles: 0, cycles_per_micro })
        }
    }

    /// Reads the clock with the counter at `count`: the time since start,
    /// in microseconds.
    pub fn now(&mut self, count: u32) -> (micros: u64)
        ensures
            final(self).rate() == old(self).rate(),
            final(self).last_count() == count,
            final(self).cycles() == capped(old(self).cycles() + elapsed(old(self).last_count(), count)),
            final(self).cycles() >= old(self).cycles(),
            micros == final(self).cycles() / (final(self).rate() as u64),
            micros >= old(self).cycles() / (old(self).rate() as u64),
    {
        proof {
            use_type_invariant(&*self);
        }
        let step: u64 = if count >= self.last_count {
            (count - self.last_count) as u64
        } else {
            (count as u64) + 0x1_0000_0000 - (self.last_count as u64)
        };
        let cycles: u64 = if step > u64::MAX - self.cycles {
            u64::MAX
        } else {
            self.cycles + step
        };
        proof {
            vstd::arithmetic::div_mod::lemma_div_is_ordered(
                self.cycles as int,
                cycles as int,
                self.cycles_per_micro as int,
            );
        }
        self.last_count = count;
        self.cycles = cycles;
        cycles / (self.cycles_per_micro as u64)
    }
}

} // verus!
