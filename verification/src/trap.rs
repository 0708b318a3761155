//! Machine trap routing: the per-hart trap frame and the classification of
//! trapped events.
//!
//! The hardware's trap-vector entry path saves minimal scratch state into
//! the hart's [`TrapFrame`] and records the raw cause, faulting value and
//! faulting program counter. Handling has two outcomes only: an
//! asynchronous interrupt is acknowledged and execution resumes at the
//! interrupted instruction, while a synchronous fault is fatal — the hart is
//! halted and never resumes the faulting code.

use vstd::prelude::*;

verus! {

/// Capacity of the per-hart ring of pending trap records.
pub const MAX_TRAPS_COUNT: usize = 256;

/// The bit of the trap cause that marks an asynchronous interrupt.
pub const TRAP_INTERRUPT_BIT: usize = 1 << (usize::BITS - 1);

/// The bits of the trap cause that hold the exception code: every bit but
/// the interrupt bit.
pub const TRAP_CODE_MASK: usize = usize::MAX >> 1;

/// The trap cause describes an asynchronous interrupt rather than a
/// synchronous fault.
pub open spec fn is_interrupt(mcause: usize) -> bool {
    mcause & TRAP_INTERRUPT_BIT != 0
}

/// The exception code of a trap cause: the cause without its interrupt bit.
pub open spec fn exception_code(mcause: usize) -> usize {
    mcause & TRAP_CODE_MASK
}

/// One trapped event, as the trap-vector entry path records it.
#[derive(Clone, Copy, PartialEq, Eq, Structural, Debug)]
pub struct Trap {
    /// Raw trap cause.
    pub mcause: usize,
    /// Faulting value.
    pub mtval: usize,
    /// Faulting program counter.
    pub mepc: usize,
}

/// The two ways trap handling can end.
#[derive(Clone, Copy, PartialEq, Eq, Structural, Debug)]
pub enum TrapOutcome {
    /// A synchronous fault: the hart halts with this exception code and the
    /// faulting code is never resumed.
    Fatal(usize),
    /// An asynchronous interrupt: acknowledge it and resume at the
    /// interrupted instruction.
    Ignored,
}

impl Trap {
    /// The trap is an asynchronous interrupt.
    pub fn interrupt(&self) -> (r: bool)
        ensures
            r == is_interrupt(self.mcause),
    {
        self.mcause & TRAP_INTERRUPT_BIT != 0
    }

    /// The exception code of the trap.
    pub fn code(&self) -> (r: usize)
        ensures
            r == exception_code(self.mcause),
    {
        self.mcause & TRAP_CODE_MASK
    }

    /// The faulting value.
    pub fn val(&self) -> (r: usize)
        ensures
            r == self.mtval,
    {
        self.mtval
    }

    /// The faulting program counter.
    pub fn pc(&self) -> (r: usize)
        ensures
            r == self.mepc,
    {
        self.mepc
    }

    /// Route the trap: an interrupt is acknowledged and ignored, any
    /// synchronous fault is fatal.
    pub fn outcome(&self) -> (r: TrapOutcome)
        ensures
            is_interrupt(self.mcause) ==> r is Ignored,
            !is_interrupt(self.mcause) ==> r == TrapOutcome::Fatal(exception_code(self.mcause)),
    {
        if self.interrupt() {
            TrapOutcome::Ignored
        } else {
            TrapOutcome::Fatal(self.code())
        }
    }
}

/// The synchronous fault causes the fatal path can name; an unrecognized
/// code is reported numerically instead.
#[derive(Clone, Copy, PartialEq, Eq, Structural, Debug)]
pub enum FaultCause {
    /// Exception code 0.
    InstructionAddressMisaligned,
    /// Exception code 1.
    InstructionAccessFault,
    /// Exception code 2.
    IllegalInstruction,
    /// Exception code 3.
    Breakpoint,
    /// Exception code 4.
    LoadAddressMisaligned,
    /// Exception code 5.
    LoadAccessFault,
    /// Exception code 6.
    StoreAddressMisaligned,
    /// Exception code 7.
    StoreAccessFault,
    /// Exception code 12.
    InstructionPageFault,
    /// Exception code 13.
    LoadPageFault,
    /// Exception code 15.
    StorePageFault,
}

/// The named fault for each recognized exception code.
pub open spec fn spec_fault_cause(code: usize) -> Option<FaultCause> {
    if code == 0 {
        Some(FaultCause::InstructionAddressMisaligned)
    } else if code == 1 {
        Some(FaultCause::InstructionAccessFault)
    } else if code == 2 {
        Some(FaultCause::IllegalInstruction)
    } else if code == 3 {
        Some(FaultCause::Breakpoint)
    } else if code == 4 {
        Some(FaultCause::LoadAddressMisaligned)
    } else if code == 5 {
        Some(FaultCause::LoadAccessFault)
    } else if code == 6 {
        Some(FaultCause::StoreAddressMisaligned)
    } else if code == 7 {
        Some(FaultCause::StoreAccessFault)
    } else if code == 12 {
        Some(FaultCause::InstructionPageFault)
    } else if code == 13 {
        Some(FaultCause::LoadPageFault)
    } else if code == 15 {
        Some(FaultCause::StorePageFault)
    } else {
        None
    }
}

/// Classify a synchronous fault code for the fatal path's report; `None`
/// for a code with no name, which is reported numerically.
pub fn fault_cause(code: usize) -> (r: Option<FaultCause>)
    ensures
        r == spec_fault_cause(code),
{
    if code == 0 {
        Some(FaultCause::InstructionAddressMisaligned)
    } else if code == 1 {
        Some(FaultCause::InstructionAccessFault)
    } else if code == 2 {
        Some(FaultCause::IllegalInstruction)
    } else if code == 3 {
        Some(FaultCause::Breakpoint)
    } else if code == 4 {
        Some(FaultCause::LoadAddressMisaligned)
    } else if code == 5 {
        Some(FaultCause::LoadAccessFault)
    } else if code == 6 {
        Some(FaultCause::StoreAddressMisaligned)
    } else if code == 7 {
        Some(FaultCause::StoreAccessFault)
    } else if code == 12 {
        Some(FaultCause::InstructionPageFault)
    } else if code == 13 {
        Some(FaultCause::LoadPageFault)
    } else if code == 15 {
        Some(FaultCause::StorePageFault)
    } else {
        None
    }
}

/// The per-hart trap frame: scratch registers for the trap-vector entry
/// path, and the bounded ring of pending trap records it fills.
pub struct TrapFrame {
    /// Scratch register save slot.
    pub t0: usize,
    /// Scratch register save slot.
    pub t1: usize,
    /// Scratch register save slot.
    pub t2: usize,
    /// Number of traps recorded since startup.
    pub traps_count: usize,
    /// The pending trap records; at most [`MAX_TRAPS_COUNT`] are retained,
    /// the oldest being overwritten first.
    pub traps: Vec<Trap>,
}

impl TrapFrame {
    /// The ring holds one record per trap taken so far, up to its capacity.
    pub open spec fn wf(self) -> bool {
        self.traps@.len() == (if self.traps_count < MAX_TRAPS_COUNT {
            self.traps_count as int
        } else {
            MAX_TRAPS_COUNT as int
        })
    }

    /// A fresh trap frame with no recorded trap.
    pub fn new() -> (r: TrapFrame)
        ensures
            r.wf(),
            r.t0 == 0,
            r.t1 == 0,
            r.t2 == 0,
            r.traps_count == 0,
            r.traps@ == Seq::<Trap>::empty(),
    {
        TrapFrame { t0: 0, t1: 0, t2: 0, traps_count: 0, traps: Vec::new() }
    }

    /// Record one trapped event, as the trap-vector entry path does: append
    /// while the ring has room, then overwrite the oldest slot.
    pub fn record(&mut self, t: Trap)
        requires
            old(self).wf(),
            old(self).traps_count < usize::MAX,
        ensures
            final(self).wf(),
            final(self).t0 == old(self).t0,
            final(self).t1 == old(self).t1,
            final(self).t2 == old(self).t2,
            final(self).traps_count == old(self).traps_count + 1,
            old(self).traps_count < MAX_TRAPS_COUNT ==> final(self).traps@ == old(
                self,
            ).traps@.push(t),
            old(self).traps_count >= MAX_TRAPS_COUNT ==> final(self).traps@ == old(
                self,
            ).traps@.update((old(self).traps_count % MAX_TRAPS_COUNT) as int, t),
    {
        if self.traps_count < MAX_TRAPS_COUNT {
            self.traps.push(t);
        } else {
            let slot = self.traps_count % MAX_TRAPS_COUNT;
            self.traps[slot] = t;
        }
        self.traps_count = self.traps_count + 1;
    }
}

} // verus!
