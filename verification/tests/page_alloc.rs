//! Tests for the page allocator: placement, rejection, reclamation and the
//! usage statistics.

use aves::page::{DeallocError, PageAllocator, PageMetadata, PAGE_SIZE};

const HEAP_START: usize = 0x8000_0000;

/// 8 pages of managed region: one metadata page, 7 usable pages.
fn small_allocator() -> PageAllocator {
    PageAllocator::new(HEAP_START, 8 * PAGE_SIZE)
}

#[test]
fn first_fit_places_after_metadata() {
    let mut a = small_allocator();
    let p = a.allocate(2).unwrap();
    assert_eq!(p, HEAP_START + PAGE_SIZE);
    assert_eq!(p % PAGE_SIZE, 0);
}

#[test]
fn allocations_are_disjoint() {
    let mut a = small_allocator();
    let p1 = a.allocate(2).unwrap();
    let p2 = a.allocate(3).unwrap();
    let p3 = a.allocate(1).unwrap();
    // ranges [p, p + n * PAGE_SIZE) never overlap
    assert!(p1 + 2 * PAGE_SIZE <= p2);
    assert!(p2 + 3 * PAGE_SIZE <= p3);
}

#[test]
fn dealloc_then_realloc_same_region() {
    let mut a = small_allocator();
    let p1 = a.allocate(2).unwrap();
    let p2 = a.allocate(1).unwrap();
    a.dealloc(p1).unwrap();
    // the identical region is handed out again
    let p3 = a.allocate(2).unwrap();
    assert_eq!(p3, p1);
    assert_ne!(p3, p2);
}

#[test]
fn alloc_too_large_fails() {
    let mut a = small_allocator();
    // only 7 usable pages exist
    assert!(a.allocate(8).is_err());
    assert!(a.allocate(7).is_ok());
}

#[test]
fn alloc_fails_when_fragmented() {
    let mut a = small_allocator();
    let p1 = a.allocate(2).unwrap();
    let _p2 = a.allocate(2).unwrap();
    let _p3 = a.allocate(2).unwrap();
    a.dealloc(p1).unwrap();
    // 3 pages are free (2 + the trailing one) but no 3 in a row
    assert!(a.allocate(3).is_err());
    assert_eq!(a.allocate(2).unwrap(), p1);
}

#[test]
fn dealloc_out_of_range() {
    let mut a = small_allocator();
    assert_eq!(
        a.dealloc(HEAP_START - PAGE_SIZE),
        Err(DeallocError::OutOfRangePointer)
    );
    assert_eq!(
        a.dealloc(HEAP_START + 8 * PAGE_SIZE),
        Err(DeallocError::OutOfRangePointer)
    );
}

#[test]
fn dealloc_mid_run_rejected() {
    let mut a = small_allocator();
    let p = a.allocate(3).unwrap();
    // the second page of the run is taken but not first
    assert_eq!(a.dealloc(p + PAGE_SIZE), Err(DeallocError::InvalidPointer));
    // a free page is not a run start either
    assert_eq!(
        a.dealloc(p + 3 * PAGE_SIZE),
        Err(DeallocError::InvalidPointer)
    );
    // the run itself is still intact
    assert_eq!(a.dealloc(p), Ok(()));
}

#[test]
fn dealloc_frees_whole_run_only() {
    let mut a = small_allocator();
    let p1 = a.allocate(2).unwrap();
    let p2 = a.allocate(2).unwrap();
    a.dealloc(p1).unwrap();
    // the neighbouring run survives: its pages cannot be re-allocated
    let p3 = a.allocate(3).unwrap();
    assert!(p3 > p2);
    assert_eq!(a.dealloc(p2), Ok(()));
}

#[test]
fn alloc_zeroed_places_like_alloc() {
    let mut a = small_allocator();
    let p = a.alloc_zeroed(2).unwrap();
    assert_eq!(p, HEAP_START + PAGE_SIZE);
}

#[test]
fn info_counts() {
    let mut a = small_allocator();
    let info0 = a.info();
    assert_eq!(info0.metadata_pages_start, HEAP_START);
    assert_eq!(info0.metadata_pages_end, HEAP_START + PAGE_SIZE);
    assert_eq!(info0.usable_pages_start, HEAP_START + PAGE_SIZE);
    assert_eq!(info0.usable_pages_end, HEAP_START + 8 * PAGE_SIZE);
    assert_eq!(info0.metadata_pages_count, 1);
    assert_eq!(info0.usable_pages_count, 7);
    assert_eq!(info0.total_pages_count, 8);
    assert_eq!(info0.allocated_pages_count, 0);
    assert_eq!(info0.free_pages_count, 7);
    assert_eq!(info0.allocations_count, 0);

    let p1 = a.allocate(2).unwrap();
    let _p2 = a.allocate(3).unwrap();
    let info1 = a.info();
    assert_eq!(info1.allocated_pages_count, 5);
    assert_eq!(info1.free_pages_count, 2);
    assert_eq!(info1.allocations_count, 2);
    assert_eq!(
        info1.usable_pages_count,
        info1.allocated_pages_count + info1.free_pages_count
    );

    a.dealloc(p1).unwrap();
    let info2 = a.info();
    assert_eq!(info2.allocated_pages_count, 3);
    assert_eq!(info2.free_pages_count, 4);
    assert_eq!(info2.allocations_count, 1);
}

#[test]
fn metadata_prefix_scales_with_region() {
    // a region of 4097 pages needs two metadata pages for its records
    let a = PageAllocator::new(0, 4097 * PAGE_SIZE);
    let info = a.info();
    assert_eq!(info.metadata_pages_count, 2);
    assert_eq!(info.total_pages_count, 4097);
    assert_eq!(info.usable_pages_count, 4095);
}

#[test]
fn page_metadata_flags() {
    let free = PageMetadata {
        taken: false,
        first: false,
        metadata: false,
    };
    let first = PageMetadata {
        taken: true,
        first: true,
        metadata: false,
    };
    let rest = PageMetadata {
        taken: true,
        first: false,
        metadata: false,
    };
    let reserved = PageMetadata {
        taken: true,
        first: false,
        metadata: true,
    };
    assert!(!free.is_taken() && !free.is_taken_and_not_first());
    assert!(first.is_taken() && first.is_first() && first.is_taken_and_first());
    assert!(!first.is_taken_and_not_first());
    assert!(rest.is_taken_and_not_first() && !rest.is_taken_and_first());
    // a reserved metadata record is taken and not a run start
    assert!(reserved.is_taken() && reserved.is_taken_and_not_first());
    assert!(!reserved.is_taken_and_first());
}
