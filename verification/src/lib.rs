//! A verified model of a minimal cooperative kernel's execution substrate:
//! a physical page allocator, a process table with a round-robin scheduler,
//! trap and interrupt routing, and a spinlock primitive.
//!
//! Hardware effects (control/status registers, memory-mapped devices, the
//! context-switch instruction sequence) live outside this crate; the library
//! holds the decisions and bookkeeping, stated over plain values, and the
//! surrounding runtime performs the effects.

pub mod block;
pub mod clint;
pub mod cpu;
pub mod driver;
pub mod page;
pub mod plic;
pub mod process;
pub mod sync;
pub mod trap;
pub mod uart;
pub mod virtio;
