//! Platform-level interrupt controller: external-interrupt routing with a
//! claim/complete handshake.
//!
//! The controller holds one priority per interrupt source, an enable bit
//! per source, a global priority threshold, and the set of pending sources.
//! Claiming returns the best pending source — highest priority above the
//! threshold, lowest id among equals — and a claimed source cannot be
//! claimed again until it is completed exactly once. The memory-mapped
//! register accesses of real hardware are the surrounding runtime's; this
//! is the controller's observable protocol over plain values.

use vstd::prelude::*;

verus! {

/// Number of interrupt source ids; source 0 is reserved, sources `1..=31`
/// are usable.
pub const PLIC_SOURCE_COUNT: usize = 32;

/// Largest priority a source or the threshold can hold.
pub const PLIC_MAX_PRIORITY: u8 = 7;

/// The platform-level interrupt controller's architectural state.
pub struct Plic {
    priorities: Vec<u8>,
    enabled: u32,
    threshold: u8,
    pending: u32,
    claimed: u32,
}

impl Plic {
    /// The priority of each source.
    pub closed spec fn priorities(self) -> Seq<u8> {
        self.priorities@
    }

    /// The per-source enable bits, source `id` at bit `id`.
    pub closed spec fn enabled(self) -> u32 {
        self.enabled
    }

    /// The global priority threshold.
    pub closed spec fn threshold(self) -> u8 {
        self.threshold
    }

    /// The pending sources, source `id` at bit `id`.
    pub closed spec fn pending(self) -> u32 {
        self.pending
    }

    /// The claimed-and-not-yet-completed sources, source `id` at bit `id`.
    pub closed spec fn claimed(self) -> u32 {
        self.claimed
    }

    /// The controller's invariant: one priority slot per source, every
    /// priority and the threshold within range.
    pub open spec fn wf(self) -> bool {
        &&& self.priorities().len() == PLIC_SOURCE_COUNT
        &&& forall|i: int|
            0 <= i < PLIC_SOURCE_COUNT ==> #[trigger] self.priorities()[i] <= PLIC_MAX_PRIORITY
        &&& self.threshold() <= PLIC_MAX_PRIORITY
    }

    /// Source `id` can be claimed: it is pending, enabled, its priority
    /// exceeds the threshold, and it is not sitting in a claim that has not
    /// been completed yet — the gateway holds a claimed source back until
    /// its completion.
    pub open spec fn eligible(self, id: int) -> bool {
        &&& 1 <= id < PLIC_SOURCE_COUNT
        &&& self.pending() & (1u32 << id) != 0
        &&& self.enabled() & (1u32 << id) != 0
        &&& self.claimed() & (1u32 << id) == 0
        &&& self.priorities()[id] > self.threshold()
    }

    /// Source `a` is served before source `b`: higher priority, or the
    /// lower id among equal priorities.
    pub open spec fn beats(self, a: int, b: int) -> bool {
        self.priorities()[a] > self.priorities()[b] || (self.priorities()[a]
            == self.priorities()[b] && a < b)
    }

    /// The controller in its reset state: every priority zero, no source
    /// enabled, threshold zero, nothing pending or claimed.
    pub fn new() -> (r: Plic)
        ensures
            r.wf(),
            r.priorities() == Seq::new(PLIC_SOURCE_COUNT as nat, |i: int| 0u8),
            r.enabled() == 0u32,
            r.threshold() == 0u8,
            r.pending() == 0u32,
            r.claimed() == 0u32,
    {
        let mut priorities: Vec<u8> = Vec::new();
        let mut i: usize = 0;
        while i < PLIC_SOURCE_COUNT
            invariant
                i <= PLIC_SOURCE_COUNT,
                priorities@.len() == i,
                forall|k: int| 0 <= k < i ==> #[trigger] priorities@[k] == 0u8,
            decreases PLIC_SOURCE_COUNT - i,
        {
            priorities.push(0);
            i = i + 1;
        }
        proof {
            assert(priorities@ =~= Seq::new(PLIC_SOURCE_COUNT as nat, |i: int| 0u8));
        }
        Plic { priorities, enabled: 0, threshold: 0, pending: 0, claimed: 0 }
    }

    /// Enable the interrupt source with the given id.
    pub fn enable(&mut self, id: u8)
        requires
            1 <= id < PLIC_SOURCE_COUNT,
        ensures
            final(self).enabled() == (old(self).enabled() | (1u32 << id)),
            final(self).priorities() == old(self).priorities(),
            final(self).threshold() == old(self).threshold(),
            final(self).pending() == old(self).pending(),
            final(self).claimed() == old(self).claimed(),
    {
        self.enabled = self.enabled | (1u32 << id);
    }

    /// Disable the interrupt source with the given id.
    pub fn disable(&mut self, id: u8)
        requires
            1 <= id < PLIC_SOURCE_COUNT,
        ensures
            final(self).enabled() == (old(self).enabled() & !(1u32 << id)),
            final(self).priorities() == old(self).priorities(),
            final(self).threshold() == old(self).threshold(),
            final(self).pending() == old(self).pending(),
            final(self).claimed() == old(self).claimed(),
    {
        self.enabled = self.enabled & !(1u32 << id);
    }

    /// Whether the given interrupt source is enabled.
    pub fn is_enabled(&self, id: u8) -> (r: bool)
        requires
            1 <= id < PLIC_SOURCE_COUNT,
        ensures
            r == (self.enabled() & (1u32 << id) != 0),
    {
        self.enabled & (1u32 << id) != 0
    }

    /// Set the priority of the given source; only the low three bits count.
    pub fn set_priority(&mut self, id: u8, priority: u8)
        requires
            old(self).wf(),
            1 <= id < PLIC_SOURCE_COUNT,
        ensures
            final(self).wf(),
            final(self).priorities() == old(self).priorities().update(
                id as int,
                priority & PLIC_MAX_PRIORITY,
            ),
            final(self).enabled() == old(self).enabled(),
            final(self).threshold() == old(self).threshold(),
            final(self).pending() == old(self).pending(),
            final(self).claimed() == old(self).claimed(),
    {
        let masked = priority & PLIC_MAX_PRIORITY;
        proof {
            assert(priority & PLIC_MAX_PRIORITY <= PLIC_MAX_PRIORITY) by (bit_vector);
        }
        self.priorities[id as usize] = masked;
    }

    /// The priority of the given source.
    pub fn get_priority(&self, id: u8) -> (r: u8)
        requires
            self.wf(),
            1 <= id < PLIC_SOURCE_COUNT,
        ensures
            r == self.priorities()[id as int],
    {
        self.priorities[id as usize]
    }

    /// Set the global threshold; only the low three bits count.
    pub fn set_threshold(&mut self, global_threshold: u8)
        requires
            old(self).wf(),
        ensures
            final(self).wf(),
            final(self).threshold() == (global_threshold & PLIC_MAX_PRIORITY),
            final(self).priorities() == old(self).priorities(),
            final(self).enabled() == old(self).enabled(),
            final(self).pending() == old(self).pending(),
            final(self).claimed() == old(self).claimed(),
    {
        proof {
            assert(global_threshold & PLIC_MAX_PRIORITY <= PLIC_MAX_PRIORITY) by (bit_vector);
        }
        self.threshold = global_threshold & PLIC_MAX_PRIORITY;
    }

    /// The global threshold.
    pub fn get_threshold(&self) -> (r: u8)
        ensures
            r == self.threshold(),
    {
        self.threshold
    }

    /// A device raises the interrupt source with the given id: the source
    /// becomes pending.
    pub fn set_pending(&mut self, id: u8)
        requires
            1 <= id < PLIC_SOURCE_COUNT,
        ensures
            final(self).pending() == (old(self).pending() | (1u32 << id)),
            final(self).priorities() == old(self).priorities(),
            final(self).enabled() == old(self).enabled(),
            final(self).threshold() == old(self).threshold(),
            final(self).claimed() == old(self).claimed(),
    {
        self.pending = self.pending | (1u32 << id);
    }

    /// Claim the next interrupt to serve: among the pending, enabled,
    /// not-currently-claimed sources whose priority exceeds the threshold,
    /// the one with the highest priority, taking the lowest id among
    /// equals. The claimed source stops being pending and — even if raised
    /// again — cannot be claimed once more until it is completed. Returns
    /// nothing when no source is eligible.
    pub fn claim(&mut self) -> (r: Option<u8>)
        requires
            old(self).wf(),
        ensures
            final(self).wf(),
            final(self).priorities() == old(self).priorities(),
            final(self).enabled() == old(self).enabled(),
            final(self).threshold() == old(self).threshold(),
            (r is Some) == (exists|j: int| old(self).eligible(j)),
            r is None ==> *final(self) == *old(self),
            r matches Some(id) ==> old(self).eligible(id as int) && (forall|j: int|
                old(self).eligible(j) && j != id ==> old(self).beats(id as int, j))
                && final(self).pending() == (old(self).pending() & !(1u32 << id))
                && final(self).claimed() == (old(self).claimed() | (1u32 << id)),
    {
        let mut best: Option<u8> = None;
        let mut id: u8 = 1;
        while id < PLIC_SOURCE_COUNT as u8
            invariant
                self.wf(),
                *self == *old(self),
                1 <= id <= PLIC_SOURCE_COUNT,
                (best is Some) == (exists|j: int| 1 <= j < id && self.eligible(j)),
                best matches Some(b) ==> self.eligible(b as int) && b < id && (forall|j: int|
                    1 <= j < id && self.eligible(j) && j != b ==> self.beats(b as int, j)),
            decreases PLIC_SOURCE_COUNT - id,
    {
            let eligible_here = self.pending & (1u32 << id) != 0 && self.enabled & (1u32 << id)
                != 0 && self.claimed & (1u32 << id) == 0 && self.priorities[id as usize]
                > self.threshold;
            proof {
                assert(eligible_here == self.eligible(id as int));
                assert forall|j: int| 1 <= j < id + 1 && self.eligible(j) implies 1 <= j < id
                    || j == id by {}
            }
            if eligible_here {
                match best {
                    None => {
                        best = Some(id);
                    },
                    Some(b) => {
                        if self.priorities[id as usize] > self.priorities[b as usize] {
                            best = Some(id);
                        }
                    },
                }
            }
            id = id + 1;
        }
        match best {
            Some(id) => {
                self.pending = self.pending & !(1u32 << id);
                self.claimed = self.claimed | (1u32 << id);
                Some(id)
            },
            None => None,
        }
    }

    /// Complete a previously claimed interrupt. Each claimed id must be
    /// completed exactly once, and only then can the source be claimed
    /// again.
    pub fn complete(&mut self, id: u8)
        requires
            1 <= id < PLIC_SOURCE_COUNT,
            old(self).claimed() & (1u32 << id) != 0,
        ensures
            final(self).claimed() == (old(self).claimed() & !(1u32 << id)),
            final(self).priorities() == old(self).priorities(),
            final(self).enabled() == old(self).enabled(),
            final(self).threshold() == old(self).threshold(),
            final(self).pending() == old(self).pending(),
    {
        self.claimed = self.claimed & !(1u32 << id);
    }
}

} // verus!
