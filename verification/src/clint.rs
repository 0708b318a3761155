//! Core-local interruptor: per-hart software-interrupt pending flags and
//! the machine timer with its per-hart comparators.
//!
//! On hardware these are memory-mapped registers; the runtime performs the
//! volatile accesses. This is their observable state: a timer interrupt for
//! a hart is pending exactly when the global timer has reached that hart's
//! comparator.

use vstd::prelude::*;

verus! {

/// The core-local interruptor's architectural state.
pub struct Clint {
    msip: Vec<bool>,
    mtimecmp: Vec<u64>,
    mtime: u64,
}

impl Clint {
    /// The per-hart software-interrupt pending flags.
    pub closed spec fn msip(self) -> Seq<bool> {
        self.msip@
    }

    /// The per-hart timer comparators.
    pub closed spec fn mtimecmp(self) -> Seq<u64> {
        self.mtimecmp@
    }

    /// The global cycle counter.
    pub closed spec fn mtime(self) -> u64 {
        self.mtime
    }

    /// Number of harts the interruptor serves.
    pub open spec fn hart_count(self) -> int {
        self.msip().len() as int
    }

    /// One flag and one comparator per hart.
    pub open spec fn wf(self) -> bool {
        self.mtimecmp().len() == self.msip().len()
    }

    /// The interruptor at reset, serving `hart_count` harts: no software
    /// interrupt pending, every comparator and the counter at zero.
    pub fn new(hart_count: usize) -> (r: Clint)
        ensures
            r.wf(),
            r.hart_count() == hart_count,
            forall|h: int| 0 <= h < hart_count ==> !(#[trigger] r.msip()[h]),
            forall|h: int| 0 <= h < hart_count ==> #[trigger] r.mtimecmp()[h] == 0u64,
            r.mtime() == 0u64,
    {
        let mut msip: Vec<bool> = Vec::new();
        let mut mtimecmp: Vec<u64> = Vec::new();
        let mut h: usize = 0;
        while h < hart_count
            invariant
                h <= hart_count,
                msip@.len() == h,
                mtimecmp@.len() == h,
                forall|k: int| 0 <= k < h ==> !(#[trigger] msip@[k]),
                forall|k: int| 0 <= k < h ==> #[trigger] mtimecmp@[k] == 0u64,
            decreases hart_count - h,
        {
            msip.push(false);
            mtimecmp.push(0);
            h = h + 1;
        }
        Clint { msip, mtimecmp, mtime: 0 }
    }

    /// Raise the software-interrupt pending flag of the given hart.
    pub fn set_msip(&mut self, hartid: usize)
        requires
            old(self).wf(),
            hartid < old(self).hart_count(),
        ensures
            final(self).wf(),
            final(self).msip() == old(self).msip().update(hartid as int, true),
            final(self).mtimecmp() == old(self).mtimecmp(),
            final(self).mtime() == old(self).mtime(),
    {
        self.msip[hartid] = true;
    }

    /// Whether the software-interrupt pending flag of the given hart is
    /// raised.
    pub fn get_msip(&self, hartid: usize) -> (r: bool)
        requires
            self.wf(),
            hartid < self.hart_count(),
        ensures
            r == self.msip()[hartid as int],
    {
        self.msip[hartid]
    }

    /// Set the timer comparator of the given hart.
    pub fn set_mtimecmp(&mut self, hartid: usize, timecmp: u64)
        requires
            old(self).wf(),
            hartid < old(self).hart_count(),
        ensures
            final(self).wf(),
            final(self).mtimecmp() == old(self).mtimecmp().update(hartid as int, timecmp),
            final(self).msip() == old(self).msip(),
            final(self).mtime() == old(self).mtime(),
    {
        self.mtimecmp[hartid] = timecmp;
    }

    /// The timer comparator of the given hart.
    pub fn get_mtimecmp(&self, hartid: usize) -> (r: u64)
        requires
            self.wf(),
            hartid < self.hart_count(),
        ensures
            r == self.mtimecmp()[hartid as int],
    {
        self.mtimecmp[hartid]
    }

    /// Overwrite the global cycle counter.
    pub fn set_mtime(&mut self, time: u64)
        ensures
            final(self).wf() == old(self).wf(),
            final(self).mtime() == time,
            final(self).msip() == old(self).msip(),
            final(self).mtimecmp() == old(self).mtimecmp(),
    {
        self.mtime = time;
    }

    /// The global cycle counter.
    pub fn get_mtime(&self) -> (r: u64)
        ensures
            r == self.mtime(),
    {
        self.mtime
    }

    /// A timer interrupt is pending for the given hart: the counter has
    /// reached its comparator.
    pub fn timer_pending(&self, hartid: usize) -> (r: bool)
        requires
            self.wf(),
            hartid < self.hart_count(),
        ensures
            r == (self.mtime() >= self.mtimecmp()[hartid as int]),
    {
        self.mtime >= self.mtimecmp[hartid]
    }
}

} // verus!
