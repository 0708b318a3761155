//! Device discovery and split-virtqueue bookkeeping for virtio devices.
//!
//! A probed port is identified by a magic word and a device-type id; a
//! usable block device is then brought up by a fixed negotiation over its
//! status register. Requests travel through a split virtqueue: a descriptor
//! table, an available ring the driver fills, and a used ring the device
//! fills. The volatile register accesses and the shared-memory layout are
//! the runtime's; this module keeps the rings and indices, and decides each
//! step of the negotiation from the values read back.

use vstd::prelude::*;
use crate::page::{PageAllocator, PAGE_SIZE, first_fit_from, alloc_apply};

verus! {

/// The magic word identifying a virtio port.
pub const VIRTIO_MAGIC: u32 = 0x74_72_69_76;

/// Number of entries in each queue used by this driver.
pub const VIRTIO_QUEUE_SIZE: u16 = 128;

/// Sector size of virtio block devices, in bytes.
pub const VIRTIO_BLOCK_SECTOR_SIZE: u64 = 512;

/// A queue of [`VIRTIO_QUEUE_SIZE`] entries spans two pages in the legacy
/// layout: the descriptor table and available ring fill the first page and
/// the page-aligned used ring begins the second.
pub const VIRTIO_QUEUE_PAGES: usize = 2;

/// Status bit: the guest has noticed the device.
pub const STATUS_ACKNOWLEDGE: u32 = 0x01;

/// Status bit: the guest knows how to drive the device.
pub const STATUS_DRIVER: u32 = 0x02;

/// Status bit: the driver is set up and ready.
pub const STATUS_DRIVER_OK: u32 = 0x04;

/// Status bit: feature negotiation is complete.
pub const STATUS_FEATURES_OK: u32 = 0x08;

/// Descriptor flag: the buffer continues in the descriptor named by `next`.
pub const DESC_NEXT: u16 = 0x1;

/// Descriptor flag: the buffer is device write-only.
pub const DESC_WRITE: u16 = 0x2;

/// Descriptor flag: the buffer holds a list of buffer descriptors.
pub const DESC_INDIRECT: u16 = 0x4;

/// Block device feature bit: the device is read-only.
pub const FEATURE_READ_ONLY: u32 = 1 << 5;

/// The device types this driver recognizes.
#[derive(Clone, Copy, PartialEq, Eq, Structural, Debug)]
pub enum DeviceType {
    /// A network card.
    Network,
    /// A block device.
    Block,
    /// A console.
    Console,
    /// An entropy source.
    Entropy,
    /// A graphics adapter.
    Gpu,
    /// An input device.
    Input,
}

/// The device type a port's device-id register denotes; zero means no
/// device is connected, and unlisted ids are unsupported.
pub open spec fn spec_device_type(device_id: u32) -> Option<DeviceType> {
    if device_id == 1 {
        Some(DeviceType::Network)
    } else if device_id == 2 {
        Some(DeviceType::Block)
    } else if device_id == 4 {
        Some(DeviceType::Entropy)
    } else if device_id == 16 {
        Some(DeviceType::Gpu)
    } else if device_id == 18 {
        Some(DeviceType::Input)
    } else {
        None
    }
}

/// A probed, connected device.
#[derive(Clone, Copy, PartialEq, Eq, Structural, Debug)]
pub struct Device {
    /// Index of the port the device sits on.
    pub idx: usize,
    /// Base address of the device's memory-mapped registers.
    pub mmio: usize,
    /// Device type.
    pub typ: DeviceType,
}

/// Decide what a probed port holds, from its register values: the port's
/// device, or nothing for a bad magic word, a disconnected port, or an
/// unsupported device type.
pub fn probe_device(idx: usize, mmio: usize, magic: u32, device_id: u32) -> (r: Option<Device>)
    ensures
        magic != VIRTIO_MAGIC ==> r is None,
        magic == VIRTIO_MAGIC ==> r == (match spec_device_type(device_id) {
            Some(typ) => Some(Device { idx, mmio, typ }),
            None => None,
        }),
{
    if magic != VIRTIO_MAGIC {
        return None;
    }
    let typ = if device_id == 1 {
        DeviceType::Network
    } else if device_id == 2 {
        DeviceType::Block
    } else if device_id == 4 {
        DeviceType::Entropy
    } else if device_id == 16 {
        DeviceType::Gpu
    } else if device_id == 18 {
        DeviceType::Input
    } else {
        return None;
    };
    Some(Device { idx, mmio, typ })
}

/// One entry of the descriptor table.
#[derive(Clone, Copy, PartialEq, Eq, Structural, Debug)]
pub struct QueueDescriptor {
    /// Physical address of the buffer.
    pub addr: u64,
    /// Length of the buffer in bytes.
    pub len: u32,
    /// Descriptor flags; see [`DESC_NEXT`], [`DESC_WRITE`], [`DESC_INDIRECT`].
    pub flags: u16,
    /// The descriptor the buffer continues in; meaningful only with
    /// [`DESC_NEXT`] set.
    pub next: u16,
}

impl QueueDescriptor {
    /// A descriptor for one buffer: device write-only if `write` is set,
    /// device read-only otherwise, not yet chained to another.
    pub fn new(addr: u64, len: u32, write: bool) -> (r: QueueDescriptor)
        ensures
            r == (QueueDescriptor {
                addr,
                len,
                flags: if write {
                    DESC_WRITE
                } else {
                    0
                },
                next: 0,
            }),
    {
        QueueDescriptor { addr, len, flags: if write { DESC_WRITE } else { 0 }, next: 0 }
    }
}

/// The available ring: descriptor chains the driver hands to the device.
#[derive(Clone, PartialEq, Eq, Debug)]
pub struct QueueAvailable {
    /// Ring flags.
    pub flags: u16,
    /// Where the driver writes the next entry.
    pub index: u16,
    /// Head descriptor indices of the offered chains.
    pub ring: Vec<u16>,
    /// Used-event suppression slot.
    pub event: u16,
}

/// One entry of the used ring.
#[derive(Clone, Copy, PartialEq, Eq, Structural, Debug)]
pub struct QueueUsedElement {
    /// Head of the used descriptor chain.
    pub id: u32,
    /// Bytes the device wrote into the chain's writable buffers.
    pub len: u32,
}

/// The used ring: descriptor chains the device has finished with.
#[derive(Clone, PartialEq, Eq, Debug)]
pub struct QueueUsed {
    /// Ring flags.
    pub flags: u16,
    /// Where the device writes the next entry.
    pub index: u16,
    /// The finished chains.
    pub ring: Vec<QueueUsedElement>,
    /// Available-event suppression slot.
    pub event: u16,
}

/// A split virtqueue: descriptor table, available ring and used ring.
#[derive(Clone, PartialEq, Eq, Debug)]
pub struct Queue {
    /// The descriptor table.
    pub descriptor: Vec<QueueDescriptor>,
    /// The available ring.
    pub available: QueueAvailable,
    /// The used ring.
    pub used: QueueUsed,
}

/// Every table and ring holds exactly [`VIRTIO_QUEUE_SIZE`] entries and the
/// write cursors stay inside them.
pub open spec fn queue_wf(q: Queue) -> bool {
    &&& q.descriptor@.len() == VIRTIO_QUEUE_SIZE
    &&& q.available.ring@.len() == VIRTIO_QUEUE_SIZE
    &&& q.used.ring@.len() == VIRTIO_QUEUE_SIZE
    &&& q.available.index < VIRTIO_QUEUE_SIZE
}

/// Handle on a virtqueue: the queue's pages and the index of the last
/// descriptor handed out.
pub struct QueueHandler {
    queue: Queue,
    addr: usize,
    index: u16,
}

impl QueueHandler {
    /// The queue contents.
    pub closed spec fn queue(self) -> Queue {
        self.queue
    }

    /// The address of the queue's backing pages.
    pub closed spec fn addr(self) -> usize {
        self.addr
    }

    /// The index of the last descriptor handed out.
    pub closed spec fn index(self) -> u16 {
        self.index
    }

    /// The handler's invariant: a sound queue and an in-range cursor.
    pub open spec fn wf(self) -> bool {
        &&& queue_wf(self.queue())
        &&& self.index() < VIRTIO_QUEUE_SIZE
    }

    /// Allocate the queue's pages and hand back a handler over the zeroed
    /// rings. Fails exactly when the allocator has no room for the queue's
    /// pages, which the caller reports as a failed device setup.
    pub fn new(a: &mut PageAllocator) -> (r: Result<QueueHandler, ()>)
        requires
            old(a).wf(),
        ensures
            final(a).wf(),
            final(a).heap_start() == old(a).heap_start(),
            final(a).page_start() == old(a).page_start(),
            final(a).pages().len() == old(a).pages().len(),
            (r is Ok) == (first_fit_from(
                old(a).pages(),
                old(a).page_start(),
                VIRTIO_QUEUE_PAGES as int,
            ) is Some),
            r is Err ==> final(a).pages() == old(a).pages(),
            r matches Ok(h) ==> (first_fit_from(
                old(a).pages(),
                old(a).page_start(),
                VIRTIO_QUEUE_PAGES as int,
            ) matches Some(i) && h.addr() == old(a).page_addr(i) && final(a).pages()
                == alloc_apply(old(a).pages(), i, VIRTIO_QUEUE_PAGES as int) && h.wf() && h.index()
                == 0 && is_zeroed_queue(h.queue())),
    {
        let addr = match a.alloc_zeroed(VIRTIO_QUEUE_PAGES) {
            Ok(addr) => addr,
            Err(_) => {
                return Err(());
            },
        };
        let mut descriptor: Vec<QueueDescriptor> = Vec::new();
        let mut avail_ring: Vec<u16> = Vec::new();
        let mut used_ring: Vec<QueueUsedElement> = Vec::new();
        let mut k: usize = 0;
        while k < VIRTIO_QUEUE_SIZE as usize
            invariant
                k <= VIRTIO_QUEUE_SIZE,
                descriptor@.len() == k,
                avail_ring@.len() == k,
                used_ring@.len() == k,
                forall|j: int|
                    0 <= j < k ==> #[trigger] descriptor@[j] == (QueueDescriptor {
                        addr: 0,
                        len: 0,
                        flags: 0,
                        next: 0,
                    }),
                forall|j: int| 0 <= j < k ==> #[trigger] avail_ring@[j] == 0u16,
                forall|j: int|
                    0 <= j < k ==> #[trigger] used_ring@[j] == (QueueUsedElement { id: 0, len: 0 }),
            decreases VIRTIO_QUEUE_SIZE - k,
        {
            descriptor.push(QueueDescriptor { addr: 0, len: 0, flags: 0, next: 0 });
            avail_ring.push(0);
            used_ring.push(QueueUsedElement { id: 0, len: 0 });
            k = k + 1;
        }
        let queue = Queue {
            descriptor,
            available: QueueAvailable { flags: 0, index: 0, ring: avail_ring, event: 0 },
            used: QueueUsed { flags: 0, index: 0, ring: used_ring, event: 0 },
        };
        proof {
            assert(queue.descriptor@ =~= Seq::new(
                VIRTIO_QUEUE_SIZE as nat,
                |j: int| QueueDescriptor { addr: 0, len: 0, flags: 0, next: 0 },
            ));
            assert(queue.available.ring@ =~= Seq::new(VIRTIO_QUEUE_SIZE as nat, |j: int| 0u16));
            assert(queue.used.ring@ =~= Seq::new(
                VIRTIO_QUEUE_SIZE as nat,
                |j: int| QueueUsedElement { id: 0, len: 0 },
            ));
        }
        Ok(QueueHandler { queue, addr, index: 0 })
    }

    /// Number of entries in the queue.
    pub fn size(&self) -> (r: u32)
        ensures
            r == VIRTIO_QUEUE_SIZE,
    {
        VIRTIO_QUEUE_SIZE as u32
    }

    /// The page size the device must be told for the legacy layout.
    pub fn page_size(&self) -> (r: u32)
        ensures
            r == PAGE_SIZE,
    {
        PAGE_SIZE as u32
    }

    /// The physical page number of the queue's pages, as the legacy
    /// queue-address register takes it.
    pub fn page_number(&self) -> (r: u32)
        requires
            self.addr() / PAGE_SIZE <= u32::MAX,
        ensures
            r == self.addr() / PAGE_SIZE,
    {
        (self.addr / PAGE_SIZE) as u32
    }

    /// Write a descriptor into the next table slot, advancing the cursor
    /// one entry with wraparound, and hand back the start of a fresh chain.
    pub fn append(&mut self, descriptor: QueueDescriptor) -> (r: QueueHandlerNext)
        requires
            old(self).wf(),
        ensures
            final(self).wf(),
            final(self).addr() == old(self).addr(),
            final(self).index() == (old(self).index() + 1) % (VIRTIO_QUEUE_SIZE as int),
            r.index == final(self).index(),
            r.head_index == r.index,
            final(self).queue().descriptor@ == old(self).queue().descriptor@.update(
                final(self).index() as int,
                descriptor,
            ),
            final(self).queue().available == old(self).queue().available,
            final(self).queue().used == old(self).queue().used,
    {
        let index = ((self.index as u32 + 1) % VIRTIO_QUEUE_SIZE as u32) as u16;
        self.index = index;
        self.queue.descriptor[index as usize] = descriptor;
        QueueHandlerNext { index, head_index: index }
    }

    /// Offer the chain headed by the given descriptor to the device: write
    /// it into the available ring and advance the ring's cursor with
    /// wraparound.
    pub fn mark_available(&mut self, head_index: u16)
        requires
            old(self).wf(),
        ensures
            final(self).wf(),
            final(self).addr() == old(self).addr(),
            final(self).index() == old(self).index(),
            final(self).queue().descriptor@ == old(self).queue().descriptor@,
            final(self).queue().used == old(self).queue().used,
            final(self).queue().available.ring@ == old(self).queue().available.ring@.update(
                old(self).queue().available.index as int,
                head_index,
            ),
            final(self).queue().available.index == (old(self).queue().available.index + 1)
                % (VIRTIO_QUEUE_SIZE as int),
            final(self).queue().available.flags == old(self).queue().available.flags,
            final(self).queue().available.event == old(self).queue().available.event,
    {
        let index = self.queue.available.index;
        self.queue.available.ring[index as usize] = head_index;
        self.queue.available.index = ((index as u32 + 1) % VIRTIO_QUEUE_SIZE as u32) as u16;
    }
}

/// The queue's tables and rings are zeroed, as a fresh zero-filled
/// allocation reads back.
pub open spec fn is_zeroed_queue(q: Queue) -> bool {
    &&& q.descriptor@ == Seq::new(
        VIRTIO_QUEUE_SIZE as nat,
        |j: int| QueueDescriptor { addr: 0, len: 0, flags: 0, next: 0 },
    )
    &&& q.available == (QueueAvailable {
        flags: 0,
        index: 0,
        ring: q.available.ring,
        event: 0,
    })
    &&& q.available.ring@ == Seq::new(VIRTIO_QUEUE_SIZE as nat, |j: int| 0u16)
    &&& q.used == (QueueUsed { flags: 0, index: 0, ring: q.used.ring, event: 0 })
    &&& q.used.ring@ == Seq::new(
        VIRTIO_QUEUE_SIZE as nat,
        |j: int| QueueUsedElement { id: 0, len: 0 },
    )
}

/// The running end of a descriptor chain being built: the descriptor just
/// written and the head the chain started with.
#[derive(Clone, Copy, PartialEq, Eq, Structural, Debug)]
pub struct QueueHandlerNext {
    /// Index of the descriptor written last.
    pub index: u16,
    /// Index of the first descriptor of the chain; constant along the chain.
    pub head_index: u16,
}

impl QueueHandlerNext {
    /// Chain one more descriptor: write it into the next table slot and
    /// link the previous descriptor to it with the continuation flag.
    pub fn next(self, h: &mut QueueHandler, descriptor: QueueDescriptor) -> (r: QueueHandlerNext)
        requires
            old(h).wf(),
            self.index < VIRTIO_QUEUE_SIZE,
        ensures
            final(h).wf(),
            final(h).addr() == old(h).addr(),
            final(h).index() == (old(h).index() + 1) % (VIRTIO_QUEUE_SIZE as int),
            r.index == final(h).index(),
            r.head_index == self.head_index,
            final(h).queue().descriptor@ == ({
                let appended = old(h).queue().descriptor@.update(
                    final(h).index() as int,
                    descriptor,
                );
                let prev = appended[self.index as int];
                appended.update(
                    self.index as int,
                    (QueueDescriptor { flags: prev.flags | DESC_NEXT, next: r.index, ..prev }),
                )
            }),
            final(h).queue().available == old(h).queue().available,
            final(h).queue().used == old(h).queue().used,
    {
        let n = h.append(descriptor);
        let prev = &mut h.queue.descriptor[self.index as usize];
        prev.flags = prev.flags | DESC_NEXT;
        prev.next = n.index;
        QueueHandlerNext { index: n.index, head_index: self.head_index }
    }

    /// The index of the descriptor written last.
    pub fn index(&self) -> (r: u16)
        ensures
            r == self.index,
    {
        self.index
    }

    /// The index of the first descriptor of the chain.
    pub fn head_index(&self) -> (r: u16)
        ensures
            r == self.head_index,
    {
        self.head_index
    }
}

/// Byte size of [`BlockRequestHeader`] in the device-visible layout.
pub const BLOCK_REQUEST_HEADER_SIZE: u32 = 16;

/// Byte offset of the status field inside a [`BlockRequest`] in the
/// device-visible layout.
pub const BLOCK_REQUEST_STATUS_OFFSET: u64 = 24;

/// A status value no device ever writes, marking a request the device has
/// not answered yet.
pub const BLOCK_STATUS_UNWRITTEN: u8 = 111;

/// The request kinds a block device takes.
#[derive(Clone, Copy, PartialEq, Eq, Structural, Debug)]
pub enum BlockRequestType {
    /// Read sectors into the buffer.
    In,
    /// Write sectors from the buffer.
    Out,
    /// Flush the device's cache.
    Flush,
    /// Read the device id.
    GetId,
    /// Read the device's lifetime information.
    GetLifetime,
    /// Discard sectors.
    Discard,
    /// Write zeroes over sectors.
    WriteZeros,
    /// Securely erase sectors.
    SecureErase,
}

/// The wire code of each request kind.
pub open spec fn spec_block_request_type_code(t: BlockRequestType) -> u32 {
    match t {
        BlockRequestType::In => 0,
        BlockRequestType::Out => 1,
        BlockRequestType::Flush => 4,
        BlockRequestType::GetId => 8,
        BlockRequestType::GetLifetime => 10,
        BlockRequestType::Discard => 11,
        BlockRequestType::WriteZeros => 13,
        BlockRequestType::SecureErase => 14,
    }
}

impl BlockRequestType {
    /// The wire code of this request kind.
    pub fn code(&self) -> (r: u32)
        ensures
            r == spec_block_request_type_code(*self),
    {
        match self {
            BlockRequestType::In => 0,
            BlockRequestType::Out => 1,
            BlockRequestType::Flush => 4,
            BlockRequestType::GetId => 8,
            BlockRequestType::GetLifetime => 10,
            BlockRequestType::Discard => 11,
            BlockRequestType::WriteZeros => 13,
            BlockRequestType::SecureErase => 14,
        }
    }
}

/// How a block device answers a request.
#[derive(Clone, Copy, PartialEq, Eq, Structural, Debug)]
pub enum BlockRequestStatus {
    /// The request succeeded.
    Success,
    /// The request failed in the device.
    IoError,
    /// The device does not support the request.
    Unsupported,
}

/// The wire code of each answer.
pub open spec fn spec_block_request_status_code(st: BlockRequestStatus) -> u8 {
    match st {
        BlockRequestStatus::Success => 0,
        BlockRequestStatus::IoError => 1,
        BlockRequestStatus::Unsupported => 2,
    }
}

impl BlockRequestStatus {
    /// The wire code of this answer.
    pub fn code(&self) -> (r: u8)
        ensures
            r == spec_block_request_status_code(*self),
    {
        match self {
            BlockRequestStatus::Success => 0,
            BlockRequestStatus::IoError => 1,
            BlockRequestStatus::Unsupported => 2,
        }
    }

    /// Decode the status byte a device wrote back.
    pub fn from_code(code: u8) -> (r: Option<BlockRequestStatus>)
        ensures
            r == (if code == 0 {
                Some(BlockRequestStatus::Success)
            } else if code == 1 {
                Some(BlockRequestStatus::IoError)
            } else if code == 2 {
                Some(BlockRequestStatus::Unsupported)
            } else {
                Option::<BlockRequestStatus>::None
            }),
    {
        if code == 0 {
            Some(BlockRequestStatus::Success)
        } else if code == 1 {
            Some(BlockRequestStatus::IoError)
        } else if code == 2 {
            Some(BlockRequestStatus::Unsupported)
        } else {
            None
        }
    }
}

/// The fixed header of a block request.
#[derive(Clone, Copy, PartialEq, Eq, Structural, Debug)]
pub struct BlockRequestHeader {
    /// Request kind, as a [`BlockRequestType`] wire code.
    pub typ: u32,
    /// Reserved; always zero.
    pub reserved: u32,
    /// First sector touched; meaningful for `In` and `Out` requests.
    pub sector: u64,
}

/// One block request as the device sees it: the header, the buffer address,
/// and the status byte the device writes back.
#[derive(Clone, Copy, PartialEq, Eq, Structural, Debug)]
pub struct BlockRequest {
    /// The request header.
    pub header: BlockRequestHeader,
    /// Address of the data buffer.
    pub data: usize,
    /// Written by the device; decode with [`BlockRequestStatus::from_code`].
    pub status: u8,
}

/// The request record for one transfer: the sector is the byte offset
/// divided by the sector size, the kind is a write-out or a read-in, and
/// the status starts at the unwritten marker.
pub open spec fn spec_block_request(buf_addr: usize, off: u64, write: bool) -> BlockRequest {
    BlockRequest {
        header: BlockRequestHeader {
            typ: if write {
                spec_block_request_type_code(BlockRequestType::Out)
            } else {
                spec_block_request_type_code(BlockRequestType::In)
            },
            reserved: 0,
            sector: off / VIRTIO_BLOCK_SECTOR_SIZE,
        },
        data: buf_addr,
        status: BLOCK_STATUS_UNWRITTEN,
    }
}

/// Fill a block request for one transfer; see [`spec_block_request`].
pub fn build_block_request(buf_addr: usize, off: u64, write: bool) -> (r: BlockRequest)
    ensures
        r == spec_block_request(buf_addr, off, write),
{
    let typ = if write {
        BlockRequestType::Out
    } else {
        BlockRequestType::In
    };
    BlockRequest {
        header: BlockRequestHeader {
            typ: typ.code(),
            reserved: 0,
            sector: off / VIRTIO_BLOCK_SECTOR_SIZE,
        },
        data: buf_addr,
        status: BLOCK_STATUS_UNWRITTEN,
    }
}

/// Why bringing a probed block device up was abandoned.
#[derive(Clone, Copy, PartialEq, Eq, Structural, Debug)]
pub enum BlockSetupError {
    /// Only the legacy interface version is supported.
    UnsupportedVersion,
    /// The device rejected the offered feature set.
    UnsupportedFeatures,
    /// The device's queue cannot hold [`VIRTIO_QUEUE_SIZE`] entries.
    QueueTooShort,
}

/// What the negotiation settles for a usable block device.
#[derive(Clone, Copy, PartialEq, Eq, Structural, Debug)]
pub struct BlockDeviceConfig {
    /// The features to acknowledge back to the device: everything it
    /// offered.
    pub guest_features: u32,
    /// The device is read-only.
    pub read_only: bool,
}

/// The decision of the block device negotiation, from the values read back
/// along it.
pub open spec fn spec_check_block_device(
    version: u32,
    host_features: u32,
    status_readback: u32,
    queue_num_max: u32,
) -> Result<BlockDeviceConfig, BlockSetupError> {
    if version != 1 {
        Err(BlockSetupError::UnsupportedVersion)
    } else if status_readback & STATUS_FEATURES_OK == 0 {
        Err(BlockSetupError::UnsupportedFeatures)
    } else if queue_num_max < VIRTIO_QUEUE_SIZE as u32 {
        Err(BlockSetupError::QueueTooShort)
    } else {
        Ok(
            BlockDeviceConfig {
                guest_features: host_features,
                read_only: host_features & FEATURE_READ_ONLY != 0,
            },
        )
    }
}

/// Decide the block device negotiation: only interface version one is
/// driven, the device must have accepted the offered features, and its
/// queue must be long enough. On success the device's own feature word is
/// acknowledged back and its read-only flag is honored.
pub fn check_block_device(
    version: u32,
    host_features: u32,
    status_readback: u32,
    queue_num_max: u32,
) -> (r: Result<BlockDeviceConfig, BlockSetupError>)
    ensures
        r == spec_check_block_device(version, host_features, status_readback, queue_num_max),
{
    if version != 1 {
        Err(BlockSetupError::UnsupportedVersion)
    } else if status_readback & STATUS_FEATURES_OK == 0 {
        Err(BlockSetupError::UnsupportedFeatures)
    } else if queue_num_max < VIRTIO_QUEUE_SIZE as u32 {
        Err(BlockSetupError::QueueTooShort)
    } else {
        Ok(
            BlockDeviceConfig {
                guest_features: host_features,
                read_only: host_features & FEATURE_READ_ONLY != 0,
            },
        )
    }
}

/// Everything a registered block device needs: its registers' base address
/// and its request queue.
pub struct BlockDeviceData {
    /// Base address of the device's memory-mapped registers.
    pub mmio: usize,
    /// The device's request queue.
    pub queue: QueueHandler,
}

/// The queue moved from `q0` to `q1` by enqueueing one block transfer: a
/// three-descriptor chain — the request header, the data buffer (device
/// write-only exactly for a read), the device-written status byte — offered
/// to the device through the available ring, with `head` its first
/// descriptor.
pub open spec fn block_chain_enqueued(
    q0: QueueHandler,
    q1: QueueHandler,
    request_addr: u64,
    buf_addr: u64,
    len: u32,
    write: bool,
    head: u16,
) -> bool {
    let sz = VIRTIO_QUEUE_SIZE as int;
    let i1 = (q0.index() + 1) % sz;
    let i2 = (i1 + 1) % sz;
    let i3 = (i2 + 1) % sz;
    &&& head == i1
    &&& q1.addr() == q0.addr()
    &&& q1.index() == i3
    &&& q1.queue().descriptor@ == q0.queue().descriptor@.update(
        i1,
        (QueueDescriptor {
            addr: request_addr,
            len: BLOCK_REQUEST_HEADER_SIZE,
            flags: 0u16 | DESC_NEXT,
            next: i2 as u16,
        }),
    ).update(
        i2,
        (QueueDescriptor {
            addr: buf_addr,
            len,
            flags: (if !write {
                DESC_WRITE
            } else {
                0u16
            }) | DESC_NEXT,
            next: i3 as u16,
        }),
    ).update(
        i3,
        (QueueDescriptor {
            addr: (request_addr + BLOCK_REQUEST_STATUS_OFFSET) as u64,
            len: 1,
            flags: DESC_WRITE,
            next: 0,
        }),
    )
    &&& q1.queue().available.ring@ == q0.queue().available.ring@.update(
        q0.queue().available.index as int,
        head,
    )
    &&& q1.queue().available.index == (q0.queue().available.index + 1) % sz
    &&& q1.queue().available.flags == q0.queue().available.flags
    &&& q1.queue().available.event == q0.queue().available.event
    &&& q1.queue().used == q0.queue().used
}

/// Enqueue one block transfer on the device's queue: chain the request
/// header, the data buffer and the status byte, offer the chain to the
/// device, and hand back its head descriptor index. The runtime then
/// notifies the device's queue.
pub fn enqueue_block_operation(
    queue: &mut QueueHandler,
    request_addr: u64,
    buf_addr: u64,
    len: u32,
    write: bool,
) -> (r: u16)
    requires
        old(queue).wf(),
        request_addr + BLOCK_REQUEST_STATUS_OFFSET <= u64::MAX,
    ensures
        final(queue).wf(),
        block_chain_enqueued(*old(queue), *final(queue), request_addr, buf_addr, len, write, r),
{
    let ghost q0 = *queue;
    let first = queue.append(
        QueueDescriptor::new(request_addr, BLOCK_REQUEST_HEADER_SIZE, false),
    );
    let second = first.next(queue, QueueDescriptor::new(buf_addr, len, !write));
    let third = second.next(
        queue,
        QueueDescriptor::new(request_addr + BLOCK_REQUEST_STATUS_OFFSET, 1, true),
    );
    let head_index = third.head_index();
    proof {
        let sz = VIRTIO_QUEUE_SIZE as int;
        let i1 = (q0.index() + 1) % sz;
        let i2 = (i1 + 1) % sz;
        let i3 = (i2 + 1) % sz;
        lemma_ring_step(q0.index() as int);
        lemma_ring_step(i1);
        lemma_ring_step(i2);
        assert(queue.queue().descriptor@ =~= q0.queue().descriptor@.update(
            i1,
            (QueueDescriptor {
                addr: request_addr,
                len: BLOCK_REQUEST_HEADER_SIZE,
                flags: 0u16 | DESC_NEXT,
                next: i2 as u16,
            }),
        ).update(
            i2,
            (QueueDescriptor {
                addr: buf_addr,
                len,
                flags: (if !write {
                    DESC_WRITE
                } else {
                    0u16
                }) | DESC_NEXT,
                next: i3 as u16,
            }),
        ).update(
            i3,
            (QueueDescriptor {
                addr: (request_addr + BLOCK_REQUEST_STATUS_OFFSET) as u64,
                len: 1,
                flags: DESC_WRITE,
                next: 0,
            }),
        ));
    }
    queue.mark_available(head_index);
    head_index
}

/// Advancing a ring cursor one entry with wraparound stays in the ring, and
/// moves to the next slot.
proof fn lemma_ring_step(x: int)
    requires
        0 <= x < VIRTIO_QUEUE_SIZE,
    ensures
        (x + 1) % (VIRTIO_QUEUE_SIZE as int) == (if x + 1 == VIRTIO_QUEUE_SIZE {
            0int
        } else {
            x + 1
        }),
        0 <= (x + 1) % (VIRTIO_QUEUE_SIZE as int) < VIRTIO_QUEUE_SIZE,
{
    let sz = VIRTIO_QUEUE_SIZE as int;
    if x + 1 == sz {
        vstd::arithmetic::div_mod::lemma_mod_self_0(sz);
    } else {
        vstd::arithmetic::div_mod::lemma_small_mod((x + 1) as nat, sz as nat);
    }
}

/// The connected devices among a port table, in port order.
pub open spec fn connected_devices(devs: Seq<Option<Device>>) -> Seq<Device>
    decreases devs.len(),
{
    if devs.len() == 0 {
        Seq::empty()
    } else {
        connected_devices(devs.drop_last()) + (match devs.last() {
            Some(d) => seq![d],
            None => Seq::empty(),
        })
    }
}

/// The connected devices of one type among a port table, in port order.
pub open spec fn connected_devices_of_type(devs: Seq<Option<Device>>, typ: DeviceType) -> Seq<
    Device,
>
    decreases devs.len(),
{
    if devs.len() == 0 {
        Seq::empty()
    } else {
        connected_devices_of_type(devs.drop_last(), typ) + (match devs.last() {
            Some(d) => if d.typ == typ {
                seq![d]
            } else {
                Seq::empty()
            },
            None => Seq::empty(),
        })
    }
}

/// Discovery over a row of `COUNT` virtio ports: port `i` sits at address
/// `ADDR + i * STRIDE`. The runtime probes each port's registers and
/// records what [`probe_device`] makes of them; block devices are brought
/// up further when block support is switched on.
pub struct VirtioDriver<const ADDR: usize, const STRIDE: usize, const COUNT: usize> {
    devices: Vec<Option<Device>>,
    block_devices: bool,
}

impl<const ADDR: usize, const STRIDE: usize, const COUNT: usize> VirtioDriver<
    ADDR,
    STRIDE,
    COUNT,
> {
    /// The port table: what was probed on each port.
    pub closed spec fn devices(self) -> Seq<Option<Device>> {
        self.devices@
    }

    /// Whether probed block devices are to be brought up and registered.
    pub closed spec fn block_enabled(self) -> bool {
        self.block_devices
    }

    /// One slot per port.
    pub open spec fn wf(self) -> bool {
        self.devices().len() == COUNT
    }

    /// The driver before discovery: every port empty, block support off.
    pub fn new() -> (r: Self)
        ensures
            r.wf(),
            r.block_enabled() == false,
            forall|i: int| 0 <= i < COUNT ==> (#[trigger] r.devices()[i]) is None,
    {
        let mut devices: Vec<Option<Device>> = Vec::new();
        let mut i: usize = 0;
        while i < COUNT
            invariant
                i <= COUNT,
                devices@.len() == i,
                forall|k: int| 0 <= k < i ==> (#[trigger] devices@[k]) is None,
            decreases COUNT - i,
        {
            devices.push(None);
            i = i + 1;
        }
        VirtioDriver { devices, block_devices: false }
    }

    /// Switch on the loading of block devices found during discovery, which
    /// the runtime registers with the block driver.
    pub fn with_block(self) -> (r: Self)
        ensures
            r.devices() == self.devices(),
            r.block_enabled() == true,
    {
        VirtioDriver { block_devices: true, ..self }
    }

    /// Record a device the runtime probed on its port.
    pub fn record_device(&mut self, dev: Device)
        requires
            old(self).wf(),
            dev.idx < COUNT,
        ensures
            final(self).wf(),
            final(self).devices() == old(self).devices().update(dev.idx as int, Some(dev)),
            final(self).block_enabled() == old(self).block_enabled(),
    {
        self.devices[dev.idx] = Some(dev);
    }

    /// The connected devices, in port order.
    pub fn iter(&self) -> (r: Vec<Device>)
        requires
            self.wf(),
        ensures
            r@ == connected_devices(self.devices()),
    {
        let mut found: Vec<Device> = Vec::new();
        let mut i: usize = 0;
        while i < COUNT
            invariant
                self.wf(),
                i <= COUNT,
                found@ == connected_devices(self.devices().subrange(0, i as int)),
            decreases COUNT - i,
        {
            match self.devices[i] {
                Some(dev) => {
                    found.push(dev);
                },
                None => {},
            }
            proof {
                assert(self.devices().subrange(0, i + 1).drop_last() =~= self.devices().subrange(
                    0,
                    i as int,
                ));
            }
            i = i + 1;
        }
        proof {
            assert(self.devices().subrange(0, COUNT as int) =~= self.devices());
        }
        found
    }

    /// The connected devices of the given type, in port order.
    pub fn iter_type(&self, typ: DeviceType) -> (r: Vec<Device>)
        requires
            self.wf(),
        ensures
            r@ == connected_devices_of_type(self.devices(), typ),
    {
        let mut found: Vec<Device> = Vec::new();
        let mut i: usize = 0;
        while i < COUNT
            invariant
                self.wf(),
                i <= COUNT,
                found@ == connected_devices_of_type(self.devices().subrange(0, i as int), typ),
            decreases COUNT - i,
        {
            match self.devices[i] {
                Some(dev) => {
                    if dev.typ == typ {
                        found.push(dev);
                    }
                },
                None => {},
            }
            proof {
                assert(self.devices().subrange(0, i + 1).drop_last() =~= self.devices().subrange(
                    0,
                    i as int,
                ));
            }
            i = i + 1;
        }
        proof {
            assert(self.devices().subrange(0, COUNT as int) =~= self.devices());
        }
        found
    }
}

} // verus!
