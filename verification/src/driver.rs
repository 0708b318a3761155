//! The driver lifecycle every device driver offers the kernel.

use vstd::prelude::*;
use crate::block::BlockDriver;

verus! {

/// A driver's lifecycle hooks.
pub trait Driver {
    /// Called once when the driver is loaded, at startup, after the
    /// process and memory core is ready.
    fn load(&self);

    /// Called once when the driver is unloaded.
    fn unload(&self);
}

impl Driver for BlockDriver {
    /// The block driver needs no work of its own at load time: devices are
    /// registered by the drivers that probe them.
    fn load(&self) {
    }

    fn unload(&self) {
    }
}

} // verus!
