//! Core block device driver: a registry of block devices behind one
//! uniform read/write interface.
//!
//! Each registered device carries its backend data — a closed set of
//! concrete variants, dispatched when the device is built — its name, its
//! sector size and whether it can be written. A transfer builds a request,
//! takes one page for it, enqueues it on the backend's queue under the
//! device's lock, and hands the runtime the queue notification to deliver.

use vstd::prelude::*;
use crate::page::{PageAllocator, PAGE_SIZE, first_fit_from, alloc_apply};
use crate::sync::Mutex;
use crate::sync::MutexState;
use crate::virtio::{BlockDeviceData, BlockRequest, block_chain_enqueued,
    build_block_request, enqueue_block_operation, spec_block_request,
    BLOCK_REQUEST_STATUS_OFFSET};

verus! {

/// Maximum number of registered block devices.
pub const BLOCK_DEVICE_COUNT: usize = 256;

/// Length of a block device name, padded with trailing zero bytes.
pub const BLOCK_DEVICE_NAME_SIZE: usize = 16;

/// Why a block transfer was rejected.
#[derive(Clone, Copy, PartialEq, Eq, Structural, Debug)]
pub enum BlockIoError {
    /// The block device is read-only.
    ReadOnly,
    /// The given offset is not aligned to a sector of the block device.
    UnalignedOffset,
    /// Internal error of the backend of the block device.
    Internal,
}

/// What the runtime must do to launch one enqueued transfer: write the
/// request record at its page — the first descriptor of the enqueued chain
/// points there — and then ring the device queue.
#[derive(Clone, Copy, PartialEq, Eq, Structural, Debug)]
pub struct BlockTransfer {
    /// The request record to write at `request_addr`: the kind, the sector
    /// the byte offset falls in, the buffer address and the unwritten
    /// status byte.
    pub request: BlockRequest,
    /// Address of the page taken for the request record.
    pub request_addr: usize,
    /// Base address of the device's memory-mapped registers.
    pub mmio: usize,
    /// The device queue to notify; this driver only uses queue zero.
    pub queue_index: u32,
    /// Head descriptor index of the enqueued chain.
    pub head_index: u16,
}

/// Where the readable part of a name buffer ends: the index of the first
/// zero byte at or after `from`, or the buffer's length if none is zero.
pub open spec fn name_prefix_len(bytes: Seq<u8>, from: int) -> int
    decreases bytes.len() - from when 0 <= from <= bytes.len()
{
    if from >= bytes.len() {
        from
    } else if bytes[from] == 0 {
        from
    } else {
        name_prefix_len(bytes, from + 1)
    }
}

/// The backend data of a block device: a closed set of concrete variants,
/// chosen when the device is built. The data sits behind a lock because
/// transfers may race from any caller.
pub enum BlockBackend {
    /// A virtio block device.
    Virtio(Mutex<BlockDeviceData>),
}

/// A fixed-shape entry of the block device registry.
pub struct BlockDevice {
    name: Vec<u8>,
    data: BlockBackend,
    writable: bool,
    sector_size: u64,
}

impl BlockDevice {
    /// The device's name buffer.
    pub closed spec fn name_bytes(self) -> Seq<u8> {
        self.name@
    }

    /// The device's backend data.
    pub closed spec fn backend(self) -> BlockBackend {
        self.data
    }

    /// Whether the device accepts writes.
    pub closed spec fn writable(self) -> bool {
        self.writable
    }

    /// The device's sector size in bytes.
    pub closed spec fn sector_size_spec(self) -> u64 {
        self.sector_size
    }

    /// The device is between transfers — its backend lock is released and
    /// its queue sound — and its name buffer has its fixed size.
    pub open spec fn wf(self) -> bool {
        &&& match self.backend() {
            BlockBackend::Virtio(m) => m.state() is Released && m.value().queue.wf(),
        }
        &&& self.name_bytes().len() == BLOCK_DEVICE_NAME_SIZE
    }

    /// The backend's register base address.
    pub open spec fn backend_mmio(self) -> usize {
        match self.backend() {
            BlockBackend::Virtio(m) => m.value().mmio,
        }
    }

    /// The backend's queue.
    pub open spec fn backend_queue(self) -> crate::virtio::QueueHandler {
        match self.backend() {
            BlockBackend::Virtio(m) => m.value().queue,
        }
    }

    /// Build a block device over its backend data and access parameters;
    /// the name starts zeroed and is set before registration.
    pub fn new(data: BlockBackend, writable: bool, sector_size: u64) -> (r: BlockDevice)
        requires
            (match data {
                BlockBackend::Virtio(m) => m.state() is Released && m.value().queue.wf(),
            }),
        ensures
            r.wf(),
            r.backend() == data,
            r.writable() == writable,
            r.sector_size_spec() == sector_size,
            r.name_bytes() == Seq::new(BLOCK_DEVICE_NAME_SIZE as nat, |i: int| 0u8),
    {
        let mut name: Vec<u8> = Vec::new();
        let mut i: usize = 0;
        while i < BLOCK_DEVICE_NAME_SIZE
            invariant
                i <= BLOCK_DEVICE_NAME_SIZE,
                name@.len() == i,
                forall|k: int| 0 <= k < i ==> #[trigger] name@[k] == 0u8,
            decreases BLOCK_DEVICE_NAME_SIZE - i,
        {
            name.push(0);
            i = i + 1;
        }
        proof {
            assert(name@ =~= Seq::new(BLOCK_DEVICE_NAME_SIZE as nat, |k: int| 0u8));
        }
        BlockDevice { name, data, writable, sector_size }
    }

    /// The name buffer, for the builder to fill before registering the
    /// device.
    pub fn raw_name_mut(&mut self) -> (r: &mut Vec<u8>)
        ensures
            r@ == old(self).name_bytes(),
            final(self).name_bytes() == final(r)@,
            final(self).backend() == old(self).backend(),
            final(self).writable() == old(self).writable(),
            final(self).sector_size_spec() == old(self).sector_size_spec(),
    {
        &mut self.name
    }

    /// The device's name: the bytes of the buffer before its first zero,
    /// or the whole buffer if no byte is zero.
    pub fn name(&self) -> (r: Vec<u8>)
        ensures
            r@ == self.name_bytes().take(name_prefix_len(self.name_bytes(), 0)),
    {
        let mut r: Vec<u8> = Vec::new();
        let mut i: usize = 0;
        let n = self.name.len();
        while i < n
            invariant
                i <= n,
                n == self.name_bytes().len(),
                r@ == self.name_bytes().take(i as int),
                name_prefix_len(self.name_bytes(), 0) == name_prefix_len(
                    self.name_bytes(),
                    i as int,
                ),
                forall|k: int| 0 <= k < i ==> #[trigger] self.name_bytes()[k] != 0u8,
            decreases n - i,
        {
            let b = self.name[i];
            if b == 0 {
                proof {
                    assert(r@ =~= self.name_bytes().take(name_prefix_len(self.name_bytes(), 0)));
                }
                return r;
            }
            r.push(b);
            proof {
                assert(r@ =~= self.name_bytes().take(i + 1));
            }
            i = i + 1;
        }
        proof {
            assert(r@ =~= self.name_bytes().take(name_prefix_len(self.name_bytes(), 0)));
        }
        r
    }

    /// The sector size of the device.
    pub fn sector_size(&self) -> (r: u64)
        ensures
            r == self.sector_size_spec(),
    {
        self.sector_size
    }

    /// The device takes no writes.
    pub fn read_only(&self) -> (r: bool)
        ensures
            r == !self.writable(),
    {
        !self.writable
    }

    /// Enqueue one transfer on the backend under its lock: take one page
    /// for the request structure, chain it with the buffer and the status
    /// byte, and offer the chain to the device. Fails with an internal
    /// error exactly when the allocator has no page for the request.
    fn do_block_operation(
        &mut self,
        a: &mut PageAllocator,
        buf_addr: usize,
        len: u32,
        off: u64,
        write: bool,
    ) -> (r: Result<BlockTransfer, BlockIoError>)
        requires
            old(self).wf(),
            old(a).wf(),
        ensures
            final(self).wf(),
            final(a).wf(),
            final(a).heap_start() == old(a).heap_start(),
            final(a).page_start() == old(a).page_start(),
            final(a).pages().len() == old(a).pages().len(),
            final(self).name_bytes() == old(self).name_bytes(),
            final(self).writable() == old(self).writable(),
            final(self).sector_size_spec() == old(self).sector_size_spec(),
            final(self).backend_mmio() == old(self).backend_mmio(),
            (r is Ok) == (first_fit_from(old(a).pages(), old(a).page_start(), 1) is Some),
            r is Err ==> r == Err::<BlockTransfer, BlockIoError>(BlockIoError::Internal)
                && final(a).pages() == old(a).pages() && final(self).backend_queue() == old(
                self,
            ).backend_queue(),
            r matches Ok(t) ==> (first_fit_from(old(a).pages(), old(a).page_start(), 1)
                matches Some(i) && final(a).pages() == alloc_apply(old(a).pages(), i, 1)
                && t.request == spec_block_request(buf_addr, off, write) && t.request_addr == old(
                a,
            ).page_addr(i) && t.mmio == old(self).backend_mmio() && t.queue_index == 0
                && block_chain_enqueued(
                old(self).backend_queue(),
                final(self).backend_queue(),
                t.request_addr as u64,
                buf_addr as u64,
                len,
                write,
                t.head_index,
            )),
    {
        match &mut self.data {
            BlockBackend::Virtio(device_data) => {
                // lock the backend for the whole operation
                let guard = device_data.spin_lock();
                let request_addr = match a.allocate(1) {
                    Ok(addr) => addr,
                    Err(_) => {
                        device_data.unlock(guard);
                        return Err(BlockIoError::Internal);
                    },
                };
                proof {
                    let ghost a0 = *old(a);
                    crate::page::lemma_first_fit_props(a0.pages(), a0.page_start(), 1);
                    let ghost w = first_fit_from(a0.pages(), a0.page_start(), 1).unwrap();
                    assert(a0.heap_start() + w * PAGE_SIZE + BLOCK_REQUEST_STATUS_OFFSET
                        <= usize::MAX) by (nonlinear_arith)
                        requires
                            a0.heap_start() + a0.pages().len() * PAGE_SIZE <= usize::MAX,
                            0 <= w < a0.pages().len(),
                            PAGE_SIZE as int == 4096,
                            BLOCK_REQUEST_STATUS_OFFSET as int == 24,
                    ;
                }
                let request = build_block_request(buf_addr, off, write);
                let data = device_data.data_mut(&guard);
                let mmio = data.mmio;
                let head_index = enqueue_block_operation(
                    &mut data.queue,
                    request_addr as u64,
                    buf_addr as u64,
                    len,
                    write,
                );
                device_data.unlock(guard);
                Ok(BlockTransfer { request, request_addr, mmio, queue_index: 0, head_index })
            },
        }
    }

    /// Read from the device into the buffer at the given address: enqueue
    /// the transfer and hand back the notification to deliver.
    pub fn read(
        &mut self,
        a: &mut PageAllocator,
        buf_addr: usize,
        len: u32,
        off: u64,
    ) -> (r: Result<BlockTransfer, BlockIoError>)
        requires
            old(self).wf(),
            old(a).wf(),
        ensures
            final(self).wf(),
            final(a).wf(),
            final(a).heap_start() == old(a).heap_start(),
            final(a).page_start() == old(a).page_start(),
            final(a).pages().len() == old(a).pages().len(),
            (r is Ok) == (first_fit_from(old(a).pages(), old(a).page_start(), 1) is Some),
            r is Err ==> r == Err::<BlockTransfer, BlockIoError>(BlockIoError::Internal)
                && final(a).pages() == old(a).pages(),
            r matches Ok(t) ==> (first_fit_from(old(a).pages(), old(a).page_start(), 1)
                matches Some(i) && final(a).pages() == alloc_apply(old(a).pages(), i, 1)
                && t.request == spec_block_request(buf_addr, off, false) && t.request_addr == old(
                a,
            ).page_addr(i) && t.mmio == old(self).backend_mmio() && t.queue_index == 0
                && block_chain_enqueued(
                old(self).backend_queue(),
                final(self).backend_queue(),
                t.request_addr as u64,
                buf_addr as u64,
                len,
                false,
                t.head_index,
            )),
    {
        self.do_block_operation(a, buf_addr, len, off, false)
    }

    /// Write to the device from the buffer at the given address: rejected
    /// on a read-only device, otherwise enqueue the transfer and hand back
    /// the notification to deliver.
    pub fn write(
        &mut self,
        a: &mut PageAllocator,
        buf_addr: usize,
        len: u32,
        off: u64,
    ) -> (r: Result<BlockTransfer, BlockIoError>)
        requires
            old(self).wf(),
            old(a).wf(),
        ensures
            final(self).wf(),
            final(a).wf(),
            final(a).heap_start() == old(a).heap_start(),
            final(a).page_start() == old(a).page_start(),
            final(a).pages().len() == old(a).pages().len(),
            !old(self).writable() ==> r == Err::<BlockTransfer, BlockIoError>(
                BlockIoError::ReadOnly,
            ) && *final(self) == *old(self) && final(a).pages() == old(a).pages(),
            old(self).writable() ==> {
                &&& (r is Ok) == (first_fit_from(old(a).pages(), old(a).page_start(), 1) is Some)
                &&& (r is Err ==> r == Err::<BlockTransfer, BlockIoError>(
                    BlockIoError::Internal,
                ) && final(a).pages() == old(a).pages())
                &&& (r matches Ok(t) ==> (first_fit_from(old(a).pages(), old(a).page_start(), 1)
                    matches Some(i) && final(a).pages() == alloc_apply(old(a).pages(), i, 1)
                    && t.request == spec_block_request(buf_addr, off, true) && t.request_addr
                    == old(a).page_addr(i) && t.mmio == old(self).backend_mmio() && t.queue_index
                    == 0 && block_chain_enqueued(
                    old(self).backend_queue(),
                    final(self).backend_queue(),
                    t.request_addr as u64,
                    buf_addr as u64,
                    len,
                    true,
                    t.head_index,
                )))
            },
    {
        if !self.writable {
            return Err(BlockIoError::ReadOnly);
        }
        self.do_block_operation(a, buf_addr, len, off, true)
    }
}

/// The registry of block devices, locked because registration and lookup
/// may race.
pub struct BlockDriver {
    devices: Mutex<Vec<BlockDevice>>,
}

impl BlockDriver {
    /// The registered devices.
    pub closed spec fn devices(self) -> Seq<BlockDevice> {
        self.registry().value()@
    }

    /// The lock around the registry.
    pub closed spec fn registry(self) -> Mutex<Vec<BlockDevice>> {
        self.devices
    }

    /// The registry is between operations: unlocked and below capacity.
    pub open spec fn wf(self) -> bool {
        &&& self.registry().state() == MutexState::Released
        &&& self.devices().len() <= BLOCK_DEVICE_COUNT
    }

    /// An empty registry.
    pub fn new() -> (r: BlockDriver)
        ensures
            r.wf(),
            r.devices() == Seq::<BlockDevice>::empty(),
    {
        BlockDriver { devices: Mutex::new(Vec::new()) }
    }

    /// Register a new block device. The registry has a fixed capacity that
    /// the callers stay below.
    pub fn register(&mut self, dev: BlockDevice)
        requires
            old(self).wf(),
            old(self).devices().len() < BLOCK_DEVICE_COUNT,
        ensures
            final(self).wf(),
            final(self).devices() == old(self).devices().push(dev),
    {
        let guard = self.devices.spin_lock();
        let registry = self.devices.data_mut(&guard);
        registry.push(dev);
        self.devices.unlock(guard);
    }
}

} // verus!
