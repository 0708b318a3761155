//! Tests for virtio device discovery, the virtqueue bookkeeping and the
//! block driver.

use aves::block::{BlockBackend, BlockDevice, BlockDriver, BlockIoError};
use aves::driver::Driver;
use aves::page::{PageAllocator, PAGE_SIZE};
use aves::sync::Mutex;
use aves::virtio::{
    build_block_request, check_block_device, enqueue_block_operation, probe_device,
    BlockDeviceData, BlockRequestStatus, BlockRequestType, BlockSetupError, Device, DeviceType,
    QueueDescriptor, QueueHandler, VirtioDriver, DESC_NEXT, DESC_WRITE, STATUS_FEATURES_OK,
    VIRTIO_BLOCK_SECTOR_SIZE, VIRTIO_MAGIC, VIRTIO_QUEUE_SIZE,
};

const HEAP_START: usize = 0x8000_0000;

fn allocator(pages: usize) -> PageAllocator {
    PageAllocator::new(HEAP_START, pages * PAGE_SIZE)
}

#[test]
fn probe_recognizes_devices() {
    let base = 0x1000_1000;
    // wrong magic: not a virtio port
    assert_eq!(probe_device(0, base, 0x1234_5678, 2), None);
    // disconnected port
    assert_eq!(probe_device(0, base, VIRTIO_MAGIC, 0), None);
    // unsupported device type
    assert_eq!(probe_device(0, base, VIRTIO_MAGIC, 9), None);
    // the supported types
    assert_eq!(
        probe_device(3, base, VIRTIO_MAGIC, 2),
        Some(Device {
            idx: 3,
            mmio: base,
            typ: DeviceType::Block
        })
    );
    assert_eq!(probe_device(0, base, VIRTIO_MAGIC, 1).unwrap().typ, DeviceType::Network);
    assert_eq!(probe_device(0, base, VIRTIO_MAGIC, 4).unwrap().typ, DeviceType::Entropy);
    assert_eq!(probe_device(0, base, VIRTIO_MAGIC, 16).unwrap().typ, DeviceType::Gpu);
    assert_eq!(probe_device(0, base, VIRTIO_MAGIC, 18).unwrap().typ, DeviceType::Input);
}

#[test]
fn virtio_driver_registry() {
    let mut drv: VirtioDriver<0x1000_1000, 0x1000, 8> = VirtioDriver::new().with_block();
    assert_eq!(drv.iter(), vec![]);
    let blk = probe_device(2, 0x1000_3000, VIRTIO_MAGIC, 2).unwrap();
    let net = probe_device(5, 0x1000_6000, VIRTIO_MAGIC, 1).unwrap();
    drv.record_device(blk);
    drv.record_device(net);
    assert_eq!(drv.iter(), vec![blk, net]);
    assert_eq!(drv.iter_type(DeviceType::Block), vec![blk]);
    assert_eq!(drv.iter_type(DeviceType::Network), vec![net]);
    assert_eq!(drv.iter_type(DeviceType::Gpu), vec![]);
}

#[test]
fn block_negotiation_decisions() {
    // only the legacy interface version is driven
    assert_eq!(
        check_block_device(2, 0, STATUS_FEATURES_OK, 128),
        Err(BlockSetupError::UnsupportedVersion)
    );
    // the device must accept the offered features
    assert_eq!(
        check_block_device(1, 0, 0, 128),
        Err(BlockSetupError::UnsupportedFeatures)
    );
    // the queue must hold enough entries
    assert_eq!(
        check_block_device(1, 0, STATUS_FEATURES_OK, 64),
        Err(BlockSetupError::QueueTooShort)
    );
    // a writable device
    let cfg = check_block_device(1, 0b100, STATUS_FEATURES_OK, 128).unwrap();
    assert_eq!(cfg.guest_features, 0b100);
    assert!(!cfg.read_only);
    // a read-only device
    let cfg = check_block_device(1, 1 << 5, STATUS_FEATURES_OK, 256).unwrap();
    assert!(cfg.read_only);
}

#[test]
fn queue_handler_geometry() {
    let mut a = allocator(8);
    let h = QueueHandler::new(&mut a).unwrap();
    assert_eq!(h.size(), 128);
    assert_eq!(h.page_size(), PAGE_SIZE as u32);
    // the queue pages follow the metadata page
    assert_eq!(
        h.page_number() as usize,
        (HEAP_START + PAGE_SIZE) / PAGE_SIZE
    );
    // the queue takes two pages: the next allocation comes after them
    assert_eq!(a.allocate(1).unwrap(), HEAP_START + 3 * PAGE_SIZE);
}

#[test]
fn queue_handler_fails_without_room() {
    // metadata page plus a single usable page: no room for a queue
    let mut a = allocator(2);
    assert!(QueueHandler::new(&mut a).is_err());
}

#[test]
fn queue_descriptor_construction() {
    let d = QueueDescriptor::new(0xABCD, 512, false);
    assert_eq!((d.addr, d.len, d.flags, d.next), (0xABCD, 512, 0, 0));
    let d = QueueDescriptor::new(0x1000, 16, true);
    assert_eq!(d.flags, DESC_WRITE);
}

#[test]
fn queue_chain_links_descriptors() {
    let mut a = allocator(8);
    let mut h = QueueHandler::new(&mut a).unwrap();
    let first = h.append(QueueDescriptor::new(0x100, 16, false));
    assert_eq!(first.index(), 1);
    assert_eq!(first.head_index(), 1);
    let second = first.next(&mut h, QueueDescriptor::new(0x200, 512, true));
    assert_eq!(second.index(), 2);
    assert_eq!(second.head_index(), 1);
    h.mark_available(second.head_index());
}

#[test]
fn enqueue_block_chain_layout() {
    let mut a = allocator(8);
    let mut h = QueueHandler::new(&mut a).unwrap();
    let head = enqueue_block_operation(&mut h, 0x9000, 0x4000, 1024, false);
    assert_eq!(head, 1);
    let again = enqueue_block_operation(&mut h, 0xA000, 0x5000, 512, true);
    assert_eq!(again, 4);
}

#[test]
fn block_request_codes() {
    assert_eq!(BlockRequestType::In.code(), 0);
    assert_eq!(BlockRequestType::Out.code(), 1);
    assert_eq!(BlockRequestType::Flush.code(), 4);
    assert_eq!(BlockRequestType::GetId.code(), 8);
    assert_eq!(BlockRequestType::GetLifetime.code(), 10);
    assert_eq!(BlockRequestType::Discard.code(), 11);
    assert_eq!(BlockRequestType::WriteZeros.code(), 13);
    assert_eq!(BlockRequestType::SecureErase.code(), 14);
    assert_eq!(BlockRequestStatus::Success.code(), 0);
    assert_eq!(BlockRequestStatus::IoError.code(), 1);
    assert_eq!(BlockRequestStatus::Unsupported.code(), 2);
    assert_eq!(BlockRequestStatus::from_code(0), Some(BlockRequestStatus::Success));
    assert_eq!(BlockRequestStatus::from_code(1), Some(BlockRequestStatus::IoError));
    assert_eq!(BlockRequestStatus::from_code(2), Some(BlockRequestStatus::Unsupported));
    assert_eq!(BlockRequestStatus::from_code(111), None);
}

#[test]
fn block_request_construction() {
    let r = build_block_request(0x4000, 3 * VIRTIO_BLOCK_SECTOR_SIZE, false);
    assert_eq!(r.header.typ, 0);
    assert_eq!(r.header.reserved, 0);
    assert_eq!(r.header.sector, 3);
    assert_eq!(r.data, 0x4000);
    assert_eq!(r.status, 111);
    let w = build_block_request(0x4000, 1024, true);
    assert_eq!(w.header.typ, 1);
    assert_eq!(w.header.sector, 2);
}

fn test_block_device(a: &mut PageAllocator, writable: bool) -> BlockDevice {
    let queue = QueueHandler::new(a).unwrap();
    let data = BlockDeviceData {
        mmio: 0x1000_3000,
        queue,
    };
    BlockDevice::new(
        BlockBackend::Virtio(Mutex::new(data)),
        writable,
        VIRTIO_BLOCK_SECTOR_SIZE,
    )
}

#[test]
fn block_device_accessors() {
    let mut a = allocator(16);
    let mut dev = test_block_device(&mut a, false);
    assert_eq!(dev.sector_size(), VIRTIO_BLOCK_SECTOR_SIZE);
    assert!(dev.read_only());
    let name = dev.raw_name_mut();
    assert_eq!(name.len(), 16);
    assert!(name.iter().all(|&b| b == 0));
    name[0] = b'v';
    name[1] = b'd';
    name[2] = b'a';
    assert_eq!(&dev.raw_name_mut()[..3], b"vda");
}

#[test]
fn block_device_read_enqueues() {
    let mut a = allocator(16);
    let mut dev = test_block_device(&mut a, true);
    let t = dev.read(&mut a, 0x4000, 1024, 3 * VIRTIO_BLOCK_SECTOR_SIZE).unwrap();
    assert_eq!(t.mmio, 0x1000_3000);
    assert_eq!(t.queue_index, 0);
    assert_eq!(t.head_index, 1);
    // the request record carries the transfer: a read-in of the sector the
    // byte offset falls in, aimed at the buffer
    assert_eq!(t.request.header.typ, BlockRequestType::In.code());
    assert_eq!(t.request.header.sector, 3);
    assert_eq!(t.request.data, 0x4000);
    assert_eq!(t.request.status, 111);
    // the request page follows the metadata page and the queue's two pages
    assert_eq!(t.request_addr, HEAP_START + 3 * PAGE_SIZE);
    // the next transfer chains three more descriptors and writes out
    let t = dev.write(&mut a, 0x5000, 512, 1024).unwrap();
    assert_eq!(t.head_index, 4);
    assert_eq!(t.request.header.typ, BlockRequestType::Out.code());
    assert_eq!(t.request.header.sector, 2);
}

#[test]
fn block_device_name_round_trip() {
    let mut a = allocator(16);
    let mut dev = test_block_device(&mut a, true);
    // a fresh device reads back an empty name
    assert_eq!(dev.name(), b"");
    let buffer = dev.raw_name_mut();
    buffer[0] = b'v';
    buffer[1] = b'd';
    buffer[2] = b'a';
    // bytes before the first zero read back as the name
    assert_eq!(dev.name(), b"vda");
    // a name filling the whole buffer reads back whole
    let buffer = dev.raw_name_mut();
    for (k, b) in b"0123456789abcdef".iter().enumerate() {
        buffer[k] = *b;
    }
    assert_eq!(dev.name(), b"0123456789abcdef");
}

#[test]
fn block_device_write_read_only() {
    let mut a = allocator(16);
    let mut dev = test_block_device(&mut a, false);
    assert_eq!(
        dev.write(&mut a, 0x4000, 512, 0),
        Err(BlockIoError::ReadOnly)
    );
    // reading is still allowed
    assert!(dev.read(&mut a, 0x4000, 512, 0).is_ok());
}

#[test]
fn block_device_internal_error_without_pages() {
    let mut a = allocator(16);
    let mut dev = test_block_device(&mut a, true);
    // an allocator with no usable page cannot hold the request structure
    let mut empty = allocator(1);
    assert_eq!(
        dev.read(&mut empty, 0x4000, 512, 0),
        Err(BlockIoError::Internal)
    );
}

#[test]
fn block_driver_registers_devices() {
    let mut a = allocator(32);
    let mut driver = BlockDriver::new();
    driver.load();
    let dev = test_block_device(&mut a, true);
    driver.register(dev);
    let dev = test_block_device(&mut a, false);
    driver.register(dev);
    driver.unload();
}

#[test]
fn queue_size_is_a_power_of_two() {
    // the split virtqueue layout requires it
    let size = VIRTIO_QUEUE_SIZE;
    assert_eq!(size & (size - 1), 0);
    assert_eq!(size, 128);
}
