//! A fixed buffer of cycle durations, from which the loop rates that the
//! telemetry reports are derived. Durations are whole nanoseconds.

use vstd::prelude::*;

verus! {

/// Number of durations that the buffer holds.
pub const RATE_SLOTS: usize = 100;

/// Sum of the first `n` entries of `durations`.
pub open spec fn sum_of(durations: Seq<u64>, n: nat) -> nat
    decreases n,
{
    if n == 0 || n > durations.len() {
        0
    } else {
        sum_of(durations, (n - 1) as nat) + durations[n - 1] as nat
    }
}

/// `value` is the greatest of the first `n` entries of `durations`.
pub open spec fn is_max_of(durations: Seq<u64>, n: nat, value: u64) -> bool {
    &&& forall|i: int| 0 <= i < n ==> durations[i] <= value
    &&& exists|i: int| 0 <= i < n && durations[i] == value
}

/// The write position after a write at `index`: the position reduced
/// modulo the number of slots.
pub open spec fn position_after(index: nat) -> nat {
    index % (RATE_SLOTS as nat)
}

/// A hundred durations and a write position.
pub struct RateRingBuffer {
    buffer: [u64; 100],
    index: usize,
}

impl RateRingBuffer {
    /// The durations that are held, slot by slot.
    pub closed spec fn view(&self) -> Seq<u64> {
        self.buffer@
    }

    /// The slot that the next write goes to.
    pub closed spec fn position(&self) -> nat {
        self.index as nat
    }

    /// The write position lies inside the buffer.
    #[verifier::type_invariant]
    pub closed spec fn in_range(&self) -> bool {
        self.index < RATE_SLOTS
    }

    /// A buffer of a hundred zero durations, written from slot zero.
    pub fn new() -> (ring: Self)
        ensures
            ring@ == Seq::new(RATE_SLOTS as nat, |i: int| 0u64),
            ring.position() == 0,
    {
        let ring = RateRingBuffer { buffer: [0u64; 100], index: 0 };
        assert(ring.buffer@ =~= Seq::new(RATE_SLOTS as nat, |i: int| 0u64));
        ring
    }

    /// Writes `duration` to the slot at the write position, which is then
    /// reduced modulo the number of slots. All other slots keep what they
    /// held.
    pub fn push(&mut self, duration: u64)
        ensures
            old(self).position() < RATE_SLOTS,
            final(self)@ == old(self)@.update(old(self).position() as int, duration),
            final(self).position() == position_after(old(self).position()),
    {
        proof {
            use_type_invariant(&*self);
        }
        self.buffer[self.index] = duration;
        self.index = self.index % RATE_SLOTS;
    }

    /// The slot that the next write goes to.
    pub fn index(&self) -> (index: usize)
        ensures
            index == self.position(),
            index < RATE_SLOTS,
    {
        proof {
            use_type_invariant(self);
        }
        self.index
    }

    /// The longest duration that is held. The rate of the slowest cycle is
    /// one second divided by it.
    pub fn longest(&self) -> (longest: u64)
        ensures
            is_max_of(self@, RATE_SLOTS as nat, longest),
    {
        let mut longest: u64 = self.buffer[0];
        let mut i: usize = 1;
        while i < RATE_SLOTS
            invariant
                1 <= i <= RATE_SLOTS,
                is_max_of(self.buffer@, i as nat, longest),
            decreases RATE_SLOTS - i,
        {
            let ghost before = longest;
            let ghost at = choose|k: int| 0 <= k < i && self.buffer@[k] == before;
            if self.buffer[i] > longest {
                longest = self.buffer[i];
                assert(self.buffer@[i as int] == longest);
            } else {
                assert(self.buffer@[at] == longest);
            }
            i += 1;
        }
        longest
    }

    /// The sum of the durations that are held. The average rate is the
    /// number of slots times one second, divided by it.
    pub fn total(&self) -> (total: u128)
        ensures
            total == sum_of(self@, RATE_SLOTS as nat),
    {
        let mut total: u128 = 0;
        let mut i: usize = 0;
        while i < RATE_SLOTS
            invariant
                i <= RATE_SLOTS,
                total == sum_of(self.buffer@, i as nat),
                total <= i * 0xFFFF_FFFF_FFFF_FFFF,
            decreases RATE_SLOTS - i,
        {
            total = total + self.buffer[i] as u128;
            i += 1;
        }
        total
    }
}

} // verus!
