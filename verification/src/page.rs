//! Paged physical memory allocation.
//!
//! A fixed region of physical memory is divided into pages of `PAGE_SIZE`
//! bytes. A prefix of the region is reserved to hold one metadata record per
//! page (one byte each in the kernel's layout); the remaining pages are handed
//! out as contiguous runs by a first-fit scan. Each run is marked with one
//! `first` page followed by zero or more `taken`-but-not-`first` pages.

use vstd::prelude::*;

verus! {

/// Size in bytes of one physical page.
pub const PAGE_SIZE: usize = 4096;

/// Metadata record for a single physical page.
#[derive(Clone, Copy, PartialEq, Eq, Structural, Debug)]
pub struct PageMetadata {
    /// The page is part of an allocated run.
    pub taken: bool,
    /// The page is the first page of an allocated run.
    pub first: bool,
    /// The page is reserved for the metadata array itself.
    pub metadata: bool,
}

/// The record of a page that is free.
pub open spec fn free_meta() -> PageMetadata {
    PageMetadata { taken: false, first: false, metadata: false }
}

/// The record of the first page of an allocated run.
pub open spec fn run_first_meta() -> PageMetadata {
    PageMetadata { taken: true, first: true, metadata: false }
}

/// The record of a later page of an allocated run.
pub open spec fn run_rest_meta() -> PageMetadata {
    PageMetadata { taken: true, first: false, metadata: false }
}

/// The record of a page reserved for the metadata array.
pub open spec fn reserved_meta() -> PageMetadata {
    PageMetadata { taken: true, first: false, metadata: true }
}

/// The page starts an allocated run.
pub open spec fn is_run_first(p: PageMetadata) -> bool {
    p.taken && p.first
}

/// The page continues an allocated run started by an earlier page.
pub open spec fn is_run_rest(p: PageMetadata) -> bool {
    p.taken && !p.first && !p.metadata
}

impl PageMetadata {
    /// The page is part of an allocated run (or reserved).
    pub fn is_taken(&self) -> (r: bool)
        ensures
            r == self.taken,
    {
        self.taken
    }

    /// The page is the first page of an allocated run.
    pub fn is_first(&self) -> (r: bool)
        ensures
            r == self.first,
    {
        self.first
    }

    /// The page starts an allocated run.
    pub fn is_taken_and_first(&self) -> (r: bool)
        ensures
            r == is_run_first(*self),
    {
        self.taken && self.first
    }

    /// The page is taken but does not start a run: a run continuation or a
    /// reserved metadata record.
    pub fn is_taken_and_not_first(&self) -> (r: bool)
        ensures
            r == (self.taken && !self.first),
    {
        self.taken && !self.first
    }
}

/// A marker error when an allocation fails.
#[derive(Debug, Clone, Copy, PartialEq, Eq, Structural)]
pub struct AllocError;

/// Why a deallocation request was rejected.
#[derive(Debug, Clone, Copy, PartialEq, Eq, Structural)]
pub enum DeallocError {
    /// The given address points to a free or non-first memory page.
    InvalidPointer,
    /// The given address is out of the valid memory pages range.
    OutOfRangePointer,
}

/// Pages `[i, i + n)` all exist and are free.
pub open spec fn free_run(pages: Seq<PageMetadata>, i: int, n: int) -> bool {
    &&& 0 <= i
    &&& i + n <= pages.len()
    &&& forall|j: int| i <= j < i + n ==> !(#[trigger] pages[j]).taken
}

/// The index of the leftmost run of `n` free pages at or after `i`,
/// if one exists: the page the first-fit scan selects.
pub open spec fn first_fit_from(pages: Seq<PageMetadata>, i: int, n: int) -> Option<int>
    decreases pages.len() - i when 0 <= i && 1 <= n
{
    if i + n > pages.len() {
        None
    } else if free_run(pages, i, n) {
        Some(i)
    } else {
        first_fit_from(pages, i + 1, n)
    }
}

/// The metadata array after marking the run `[i, i + n)` allocated.
pub open spec fn alloc_apply(pages: Seq<PageMetadata>, i: int, n: int) -> Seq<PageMetadata> {
    Seq::new(
        pages.len(),
        |k: int|
            if k == i {
                run_first_meta()
            } else if i < k < i + n {
                run_rest_meta()
            } else {
                pages[k]
            },
    )
}

/// One past the last page of the allocated run starting at `i`: the first
/// index after `i` that is not a run continuation.
pub open spec fn run_end(pages: Seq<PageMetadata>, i: int) -> int
    decreases pages.len() - i when i < pages.len()
{
    if i + 1 >= pages.len() {
        i + 1
    } else if is_run_rest(pages[i + 1]) {
        run_end(pages, i + 1)
    } else {
        i + 1
    }
}

/// The metadata array after clearing the run starting at `i` back to free.
pub open spec fn dealloc_apply(pages: Seq<PageMetadata>, i: int) -> Seq<PageMetadata> {
    Seq::new(
        pages.len(),
        |k: int| if i <= k < run_end(pages, i) { free_meta() } else { pages[k] },
    )
}

/// Structural soundness of a metadata array whose reserved prefix ends at
/// `page_start`: reserved records sit exactly on the prefix, a free page is
/// never a run start, and a run continuation always follows a taken,
/// non-reserved page.
pub open spec fn wf_pages(pages: Seq<PageMetadata>, page_start: int) -> bool {
    &&& 0 <= page_start <= pages.len()
    &&& forall|k: int| 0 <= k < page_start ==> #[trigger] pages[k] == reserved_meta()
    &&& forall|k: int| page_start <= k < pages.len() ==> !(#[trigger] pages[k]).metadata
    &&& forall|k: int| 0 <= k < pages.len() && !(#[trigger] pages[k]).taken ==> !pages[k].first
    &&& forall|k: int|
        0 <= k < pages.len() && is_run_rest(#[trigger] pages[k]) ==> k >= 1 && pages[k - 1].taken
            && !pages[k - 1].metadata
}

/// Statistics over the managed region, as reported by [`PageAllocator::info`].
#[derive(Debug, Clone, Copy, PartialEq, Eq, Structural)]
pub struct PageMemoryInfo {
    /// Address of the first metadata page.
    pub metadata_pages_start: usize,
    /// One past the last address of the last metadata page.
    pub metadata_pages_end: usize,
    /// Address of the first usable page.
    pub usable_pages_start: usize,
    /// One past the last address of the last usable page.
    pub usable_pages_end: usize,
    /// Number of pages reserved for metadata.
    pub metadata_pages_count: usize,
    /// Number of usable pages; always `allocated_pages_count + free_pages_count`.
    pub usable_pages_count: usize,
    /// Number of pages, counting both metadata and usable ones.
    pub total_pages_count: usize,
    /// Number of allocated usable pages.
    pub allocated_pages_count: usize,
    /// Number of free usable pages.
    pub free_pages_count: usize,
    /// Number of live allocations (allocated run starts).
    pub allocations_count: usize,
}

/// Number of taken pages among the usable suffix `[from, pages.len())`.
pub open spec fn count_taken(pages: Seq<PageMetadata>, from: int) -> int
    decreases pages.len() - from when 0 <= from <= pages.len()
{
    if from >= pages.len() {
        0
    } else {
        (if pages[from].taken {
            1int
        } else {
            0int
        }) + count_taken(pages, from + 1)
    }
}

/// Number of free pages among `[from, pages.len())`.
pub open spec fn count_free(pages: Seq<PageMetadata>, from: int) -> int
    decreases pages.len() - from when 0 <= from <= pages.len()
{
    if from >= pages.len() {
        0
    } else {
        (if pages[from].taken {
            0int
        } else {
            1int
        }) + count_free(pages, from + 1)
    }
}

/// Number of run starts among `[from, pages.len())`: the live allocations.
pub open spec fn count_runs(pages: Seq<PageMetadata>, from: int) -> int
    decreases pages.len() - from when 0 <= from <= pages.len()
{
    if from >= pages.len() {
        0
    } else {
        (if is_run_first(pages[from]) {
            1int
        } else {
            0int
        }) + count_runs(pages, from + 1)
    }
}

/// First-fit allocator over the metadata records of a fixed physical region.
pub struct PageAllocator {
    /// Base address of the managed region; page aligned.
    heap_start: usize,
    /// Index of the first allocable page; earlier pages hold the metadata
    /// array itself.
    page_start: usize,
    /// One metadata record per page of the region.
    pages: Vec<PageMetadata>,
}

impl PageAllocator {
    /// The metadata records, one per page.
    pub closed spec fn pages(self) -> Seq<PageMetadata> {
        self.pages@
    }

    /// Base address of the managed region.
    pub closed spec fn heap_start(self) -> int {
        self.heap_start as int
    }

    /// Index of the first allocable page.
    pub closed spec fn page_start(self) -> int {
        self.page_start as int
    }

    /// The allocator's invariant: a sound metadata array over a page-aligned
    /// region whose addresses all fit in a machine word.
    pub open spec fn wf(self) -> bool {
        &&& wf_pages(self.pages(), self.page_start())
        &&& self.heap_start() % (PAGE_SIZE as int) == 0
        &&& self.heap_start() + self.pages().len() * PAGE_SIZE <= usize::MAX
    }

    /// The address of the page with the given index.
    pub open spec fn page_addr(self, i: int) -> int {
        self.heap_start() + i * PAGE_SIZE
    }

    /// The index of the page holding the given address.
    pub open spec fn page_index(self, addr: int) -> int {
        (addr - self.heap_start()) / (PAGE_SIZE as int)
    }

    /// The address lies within the managed region.
    pub open spec fn addr_in_range(self, addr: int) -> bool {
        self.heap_start() <= addr && self.page_index(addr) < self.pages().len()
    }

    /// Initialize the allocator for the region `[heap_start, heap_start +
    /// heap_size)`. A prefix of the region is set aside for the metadata
    /// array (one byte per page in the kernel's layout); every other page
    /// starts out free.
    pub fn new(heap_start: usize, heap_size: usize) -> (r: PageAllocator)
        requires
            heap_start % PAGE_SIZE == 0,
            heap_start + heap_size <= usize::MAX,
        ensures
            r.wf(),
            r.heap_start() == heap_start,
            r.pages().len() == heap_size / PAGE_SIZE,
            r.page_start() == (heap_size / PAGE_SIZE + PAGE_SIZE - 1) / (PAGE_SIZE as int),
            forall|k: int|
                r.page_start() <= k < r.pages().len() ==> #[trigger] r.pages()[k] == free_meta(),
    {
        let pages_count: usize = heap_size / PAGE_SIZE;
        // The metadata array needs one byte per page; round up to whole pages.
        let page_start: usize = (pages_count + (PAGE_SIZE - 1)) / PAGE_SIZE;
        assert(page_start <= pages_count) by (nonlinear_arith)
            requires page_start == (pages_count as int + (PAGE_SIZE - 1)) / (PAGE_SIZE as int) && pages_count >= 0;
        let mut pages: Vec<PageMetadata> = Vec::new();
        let mut i: usize = 0;
        while i < pages_count
            invariant
                i <= pages_count,
                page_start <= pages_count,
                pages@.len() == i,
                forall|k: int| 0 <= k < i && k < page_start ==> #[trigger] pages@[k] == reserved_meta(),
                forall|k: int| page_start <= k < i ==> #[trigger] pages@[k] == free_meta(),
            decreases pages_count - i,
        {
            if i < page_start {
                pages.push(PageMetadata { taken: true, first: false, metadata: true });
            } else {
                pages.push(PageMetadata { taken: false, first: false, metadata: false });
            }
            i = i + 1;
        }
        assert(pages_count * PAGE_SIZE <= heap_size) by (nonlinear_arith)
            requires pages_count == heap_size as int / (PAGE_SIZE as int) && heap_size >= 0;
        PageAllocator { heap_start, page_start, pages }
    }

    /// Scan for the leftmost run of `n` free pages after the metadata
    /// prefix, keeping a counter of consecutive free pages that resets on
    /// every taken page.
    #[verifier::rlimit(30)]
    fn find_free_run(&self, n: usize) -> (r: Option<usize>)
        requires
            self.wf(),
            n >= 1,
        ensures
            (r is Some) == (first_fit_from(self.pages(), self.page_start(), n as int) is Some),
            r matches Some(w) ==> first_fit_from(self.pages(), self.page_start(), n as int)
                == Some(w as int),
    {
        let len = self.pages.len();
        let ghost p = self.pages@;
        let mut i: usize = self.page_start;
        // Length of the free stretch ending just before `i`.
        let mut run: usize = 0;
        while i < len
            invariant
                p == self.pages@,
                len == p.len(),
                n >= 1,
                self.page_start <= i <= len,
                run < n,
                run <= i - self.page_start,
                free_run(p, i - run, run as int),
                i - run == self.page_start || p[i - run - 1].taken,
                forall|s: int| self.page_start <= s && s + n <= i ==> !free_run(p, s, n as int),
            decreases len - i,
        {
            if !self.pages[i].is_taken() {
                run = run + 1;
                if run == n {
                    let w = i + 1 - n;
                    proof {
                        assert forall|s: int| self.page_start <= s < w implies !free_run(
                            p,
                            s,
                            n as int,
                        ) by {
                            if s + n <= i {
                                // ruled out while scanning the prefix
                            } else {
                                // the run would cross the taken page just before
                                // the current free stretch
                                assert(s <= w - 1 < s + n);
                                assert(p[w - 1].taken);
                            }
                        }
                        lemma_first_fit_found(p, self.page_start as int, n as int, w as int);
                    }
                    return Some(w);
                }
            } else {
                run = 0;
            }
            proof {
                assert forall|s: int| self.page_start <= s && s + n <= i + 1 implies !free_run(
                    p,
                    s,
                    n as int,
                ) by {
                    if s + n == i + 1 {
                        if p[i as int].taken {
                            assert(s <= i < s + n);
                        } else {
                            // a free window ending at `i + 1` would cross the
                            // taken page before the current free stretch
                            assert(s <= i - run < s + n);
                            assert(p[i - run].taken);
                        }
                    }
                }
            }
            i = i + 1;
        }
        proof {
            lemma_first_fit_exhausted(p, self.page_start as int, n as int);
        }
        None
    }

    /// Mark the free run `[first_page, first_page + n)` as one allocation.
    fn mark_run(&mut self, first_page: usize, n: usize)
        requires
            old(self).wf(),
            n >= 1,
            old(self).page_start() <= first_page,
            free_run(old(self).pages(), first_page as int, n as int),
        ensures
            final(self).wf(),
            final(self).heap_start() == old(self).heap_start(),
            final(self).page_start() == old(self).page_start(),
            final(self).pages() == alloc_apply(old(self).pages(), first_page as int, n as int),
    {
        let ghost p = self.pages@;
        let ghost q = alloc_apply(p, first_page as int, n as int);
        let len = self.pages.len();
        self.pages[first_page] = PageMetadata { taken: true, first: true, metadata: false };
        let mut j: usize = first_page + 1;
        while j < first_page + n
            invariant
                first_page + n <= len,
                first_page < j <= first_page + n,
                self.heap_start == old(self).heap_start,
                self.page_start == old(self).page_start,
                wf_pages(p, self.page_start as int),
                self.pages@.len() == p.len() == len,
                q == alloc_apply(p, first_page as int, n as int),
                forall|k: int| 0 <= k < j ==> self.pages@[k] == q[k],
                forall|k: int| j <= k < len ==> self.pages@[k] == p[k],
            decreases first_page + n - j,
        {
            self.pages[j] = PageMetadata { taken: true, first: false, metadata: false };
            j = j + 1;
        }
        assert(self.pages@ =~= q);
        proof {
            lemma_alloc_apply_wf(p, self.page_start as int, first_page as int, n as int);
        }
    }

    /// Allocate `pages_count` contiguous pages. On success the returned
    /// address is the page-aligned start of the leftmost free run of that
    /// length after the metadata prefix; the run's first page is marked
    /// `first | taken` and the remainder `taken`. Fails exactly when no such
    /// run exists.
    pub fn allocate(&mut self, pages_count: usize) -> (r: Result<usize, AllocError>)
        requires
            old(self).wf(),
            pages_count >= 1,
        ensures
            final(self).wf(),
            final(self).heap_start() == old(self).heap_start(),
            final(self).page_start() == old(self).page_start(),
            final(self).pages().len() == old(self).pages().len(),
            (r is Ok) == (first_fit_from(
                old(self).pages(),
                old(self).page_start(),
                pages_count as int,
            ) is Some),
            r matches Ok(addr) ==> (first_fit_from(
                old(self).pages(),
                old(self).page_start(),
                pages_count as int,
            ) matches Some(i) && addr == old(self).page_addr(i) && addr % PAGE_SIZE == 0
                && old(self).page_start() <= i && free_run(old(self).pages(), i, pages_count as int)
                && final(self).pages() == alloc_apply(old(self).pages(), i, pages_count as int)),
            r is Err ==> final(self).pages() == old(self).pages(),
    {
        proof {
            lemma_first_fit_props(self.pages@, self.page_start as int, pages_count as int);
        }
        match self.find_free_run(pages_count) {
            Some(first_page) => {
                let len = self.pages.len();
                self.mark_run(first_page, pages_count);
                proof {
                    assert((self.heap_start + first_page * PAGE_SIZE) % (PAGE_SIZE as int) == 0
                        && self.heap_start + first_page * PAGE_SIZE <= self.heap_start + len
                        * PAGE_SIZE) by (nonlinear_arith)
                        requires
                            self.heap_start as int % (PAGE_SIZE as int) == 0,
                            0 <= first_page < len,
                            PAGE_SIZE as int == 4096,
                    ;
                }
                Ok(self.heap_start + first_page * PAGE_SIZE)
            },
            None => Err(AllocError),
        }
    }

    /// Allocate `pages_count` contiguous pages whose bytes the surrounding
    /// runtime then clears to zero. The metadata transition is exactly that
    /// of [`PageAllocator::allocate`]; the page contents themselves are not
    /// tracked by this model.
    pub fn alloc_zeroed(&mut self, pages_count: usize) -> (r: Result<usize, AllocError>)
        requires
            old(self).wf(),
            pages_count >= 1,
        ensures
            final(self).wf(),
            final(self).heap_start() == old(self).heap_start(),
            final(self).page_start() == old(self).page_start(),
            final(self).pages().len() == old(self).pages().len(),
            (r is Ok) == (first_fit_from(
                old(self).pages(),
                old(self).page_start(),
                pages_count as int,
            ) is Some),
            r matches Ok(addr) ==> (first_fit_from(
                old(self).pages(),
                old(self).page_start(),
                pages_count as int,
            ) matches Some(i) && addr == old(self).page_addr(i) && addr % PAGE_SIZE == 0
                && old(self).page_start() <= i && free_run(old(self).pages(), i, pages_count as int)
                && final(self).pages() == alloc_apply(old(self).pages(), i, pages_count as int)),
            r is Err ==> final(self).pages() == old(self).pages(),
    {
        self.allocate(pages_count)
    }

    /// Free the allocated run that starts at the page holding `addr`.
    /// An address outside the managed region is rejected as out of range; an
    /// address whose page is free, mid-run or reserved is rejected as
    /// invalid. On success the run's first page and every following
    /// continuation page are cleared back to free.
    pub fn dealloc(&mut self, addr: usize) -> (r: Result<(), DeallocError>)
        requires
            old(self).wf(),
        ensures
            final(self).wf(),
            final(self).heap_start() == old(self).heap_start(),
            final(self).page_start() == old(self).page_start(),
            final(self).pages().len() == old(self).pages().len(),
            (r matches Err(e) && e is OutOfRangePointer) == !old(self).addr_in_range(addr as int),
            old(self).addr_in_range(addr as int) ==> {
                let idx = old(self).page_index(addr as int);
                &&& (r is Ok) == is_run_first(old(self).pages()[idx])
                &&& (r is Ok ==> final(self).pages() == dealloc_apply(old(self).pages(), idx))
            },
            r is Err ==> final(self).pages() == old(self).pages(),
    {
        if addr < self.heap_start {
            return Err(DeallocError::OutOfRangePointer);
        }
        let idx = (addr - self.heap_start) / PAGE_SIZE;
        let len = self.pages.len();
        if idx >= len {
            return Err(DeallocError::OutOfRangePointer);
        }
        if !self.pages[idx].is_taken_and_first() {
            return Err(DeallocError::InvalidPointer);
        }
        let ghost p = self.pages@;
        proof {
            // the run start is not reserved, so it lies after the prefix
            assert(p[idx as int] != reserved_meta());
            lemma_run_end_bounds(p, idx as int);
        }
        self.pages[idx] = PageMetadata { taken: false, first: false, metadata: false };
        let mut j: usize = idx + 1;
        while j < len && self.pages[j].is_taken_and_not_first()
            invariant
                idx < j <= len,
                self.heap_start == old(self).heap_start,
                self.page_start == old(self).page_start,
                self.page_start <= idx,
                forall|k: int| self.page_start <= k < len ==> !(#[trigger] p[k]).metadata,
                self.pages@.len() == p.len() == len,
                forall|k: int| idx <= k < j ==> #[trigger] self.pages@[k] == free_meta(),
                forall|k: int| 0 <= k < idx ==> #[trigger] self.pages@[k] == p[k],
                forall|k: int| j <= k < len ==> #[trigger] self.pages@[k] == p[k],
                forall|k: int| idx < k < j ==> is_run_rest(#[trigger] p[k]),
            decreases len - j,
        {
            proof {
                // past the metadata prefix, a taken non-first page is a run
                // continuation
                assert(!p[j as int].metadata);
            }
            self.pages[j] = PageMetadata { taken: false, first: false, metadata: false };
            j = j + 1;
        }
        proof {
            lemma_run_end_char(p, idx as int, j as int);
            assert(self.pages@ =~= dealloc_apply(p, idx as int));
            lemma_dealloc_apply_wf(p, self.page_start as int, idx as int);
        }
        Ok(())
    }

    /// Compute usage statistics for the managed region.
    pub fn info(&self) -> (r: PageMemoryInfo)
        requires
            self.wf(),
        ensures
            r.metadata_pages_start == self.heap_start(),
            r.metadata_pages_end == self.page_addr(self.page_start()),
            r.usable_pages_start == self.page_addr(self.page_start()),
            r.usable_pages_end == self.page_addr(self.pages().len() as int),
            r.metadata_pages_count == self.page_start(),
            r.usable_pages_count == self.pages().len() - self.page_start(),
            r.total_pages_count == self.pages().len(),
            r.allocated_pages_count == count_taken(self.pages(), self.page_start()),
            r.free_pages_count == count_free(self.pages(), self.page_start()),
            r.allocations_count == count_runs(self.pages(), self.page_start()),
            r.usable_pages_count == r.allocated_pages_count + r.free_pages_count,
    {
        let len = self.pages.len();
        let ghost p = self.pages@;
        proof {
            assert(self.page_start * PAGE_SIZE <= len * PAGE_SIZE && self.heap_start + len
                * PAGE_SIZE <= usize::MAX) by (nonlinear_arith)
                requires
                    0 <= self.page_start <= len,
                    self.heap_start as int + len * PAGE_SIZE <= usize::MAX,
                    PAGE_SIZE as int == 4096,
            ;
            lemma_counts_bounded(p, self.page_start as int);
        }
        let mut allocated: usize = 0;
        let mut free: usize = 0;
        let mut allocations: usize = 0;
        let mut i: usize = self.page_start;
        while i < len
            invariant
                self.wf(),
                p == self.pages@,
                len == p.len(),
                self.page_start <= i <= len,
                allocated == count_taken(p, self.page_start as int) - count_taken(p, i as int),
                free == count_free(p, self.page_start as int) - count_free(p, i as int),
                allocations == count_runs(p, self.page_start as int) - count_runs(p, i as int),
                allocated + free == i - self.page_start,
                allocations <= allocated,
            decreases len - i,
        {
            proof {
                lemma_counts_bounded(p, i as int);
            }
            if self.pages[i].is_taken() {
                if self.pages[i].is_first() {
                    allocations = allocations + 1;
                }
                allocated = allocated + 1;
            } else {
                free = free + 1;
            }
            i = i + 1;
        }
        PageMemoryInfo {
            metadata_pages_start: self.heap_start,
            metadata_pages_end: self.heap_start + self.page_start * PAGE_SIZE,
            usable_pages_start: self.heap_start + self.page_start * PAGE_SIZE,
            usable_pages_end: self.heap_start + len * PAGE_SIZE,
            metadata_pages_count: self.page_start,
            usable_pages_count: len - self.page_start,
            total_pages_count: len,
            allocated_pages_count: allocated,
            free_pages_count: free,
            allocations_count: allocations,
        }
    }
}

/// The three usage counters are non-negative, count at most one per page, and
/// the taken and free counts partition the counted suffix.
pub proof fn lemma_counts_bounded(pages: Seq<PageMetadata>, from: int)
    requires
        0 <= from <= pages.len(),
    ensures
        0 <= count_runs(pages, from) <= count_taken(pages, from),
        0 <= count_free(pages, from),
        count_taken(pages, from) + count_free(pages, from) == pages.len() - from,
    decreases pages.len() - from,
{
    if from < pages.len() {
        lemma_counts_bounded(pages, from + 1);
    }
}

/// If `[w, w + n)` is a free run and no free run of length `n` starts in
/// `[start, w)`, the first-fit scan from `start` selects exactly `w`.
proof fn lemma_first_fit_found(pages: Seq<PageMetadata>, start: int, n: int, w: int)
    requires
        0 <= start <= w,
        1 <= n,
        free_run(pages, w, n),
        forall|s: int| start <= s < w ==> !free_run(pages, s, n),
    ensures
        first_fit_from(pages, start, n) == Some(w),
    decreases w - start,
{
    if start < w {
        lemma_first_fit_found(pages, start + 1, n, w);
    }
}

/// If no free run of length `n` starts anywhere at or after `start`, the
/// first-fit scan finds nothing.
proof fn lemma_first_fit_exhausted(pages: Seq<PageMetadata>, start: int, n: int)
    requires
        0 <= start,
        1 <= n,
        forall|s: int| start <= s && s + n <= pages.len() ==> !free_run(pages, s, n),
    ensures
        first_fit_from(pages, start, n) is None,
    decreases pages.len() - start,
{
    if start + n <= pages.len() {
        lemma_first_fit_exhausted(pages, start + 1, n);
    }
}

/// What a successful first-fit result means: the selected run is free, lies
/// after `start`, and is the leftmost such run.
pub proof fn lemma_first_fit_props(pages: Seq<PageMetadata>, start: int, n: int)
    requires
        0 <= start,
        1 <= n,
    ensures
        first_fit_from(pages, start, n) matches Some(w) ==> start <= w && w + n <= pages.len()
            && free_run(pages, w, n) && forall|s: int| start <= s < w ==> !free_run(pages, s, n),
    decreases pages.len() - start,
{
    if start + n <= pages.len() && !free_run(pages, start, n) {
        lemma_first_fit_props(pages, start + 1, n);
    }
}

/// The run starting at `i` extends at least one page and not past the end
/// of the region.
pub proof fn lemma_run_end_bounds(pages: Seq<PageMetadata>, i: int)
    requires
        0 <= i < pages.len(),
    ensures
        i + 1 <= run_end(pages, i) <= pages.len(),
        forall|k: int| i < k < run_end(pages, i) ==> is_run_rest(#[trigger] pages[k]),
        run_end(pages, i) == pages.len() || !is_run_rest(pages[run_end(pages, i)]),
    decreases pages.len() - i,
{
    if i + 1 < pages.len() && is_run_rest(pages[i + 1]) {
        lemma_run_end_bounds(pages, i + 1);
    }
}

/// `run_end` is the first stop after `i`: if everything strictly between `i`
/// and `e` continues the run and `e` does not, the run ends at `e`.
proof fn lemma_run_end_char(pages: Seq<PageMetadata>, i: int, e: int)
    requires
        0 <= i < e <= pages.len(),
        forall|k: int| i < k < e ==> is_run_rest(#[trigger] pages[k]),
        e == pages.len() || !is_run_rest(pages[e]),
    ensures
        run_end(pages, i) == e,
    decreases e - i,
{
    if i + 1 < e {
        lemma_run_end_char(pages, i + 1, e);
    }
}

/// Clearing an allocated run back to free preserves the structural invariant
/// of the metadata array.
#[verifier::rlimit(30)]
proof fn lemma_dealloc_apply_wf(pages: Seq<PageMetadata>, page_start: int, i: int)
    requires
        wf_pages(pages, page_start),
        0 <= i < pages.len(),
        is_run_first(pages[i]),
    ensures
        wf_pages(dealloc_apply(pages, i), page_start),
{
    let e = run_end(pages, i);
    lemma_run_end_bounds(pages, i);
    let q = dealloc_apply(pages, i);
    assert(pages[i] != reserved_meta());
    assert forall|k: int| 0 <= k < q.len() && is_run_rest(#[trigger] q[k]) implies k >= 1 && q[k
        - 1].taken && !q[k - 1].metadata by {
        assert(q[k] == pages[k]);
        if i <= k - 1 < e {
            // a continuation just past the cleared run would have made the
            // run extend further
            assert(k == e);
            assert(!is_run_rest(pages[k]));
        }
    }
}

/// Marking a free run allocated preserves the structural invariant of the
/// metadata array.
proof fn lemma_alloc_apply_wf(pages: Seq<PageMetadata>, page_start: int, i: int, n: int)
    requires
        wf_pages(pages, page_start),
        1 <= n,
        page_start <= i,
        free_run(pages, i, n),
    ensures
        wf_pages(alloc_apply(pages, i, n), page_start),
{
    let q = alloc_apply(pages, i, n);
    assert forall|k: int| 0 <= k < q.len() && is_run_rest(#[trigger] q[k]) implies k >= 1 && q[k
        - 1].taken && !q[k - 1].metadata by {
        if i < k < i + n {
            // inside the new run: the predecessor is part of the run as well
        } else {
            assert(is_run_rest(pages[k]));
            assert(k >= 1 && pages[k - 1].taken && !pages[k - 1].metadata);
            // the predecessor cannot lie inside the new run, which was free
            if i <= k - 1 < i + n {
                assert(!pages[k - 1].taken);
            }
        }
    }
}

/// The run starting at `i` ends at or before any later stop index.
proof fn lemma_run_end_le_stop(pages: Seq<PageMetadata>, i: int, t: int)
    requires
        0 <= i < t < pages.len(),
        !is_run_rest(pages[t]),
    ensures
        run_end(pages, i) <= t,
    decreases t - i,
{
    if i + 1 < t && i + 1 < pages.len() && is_run_rest(pages[i + 1]) {
        lemma_run_end_le_stop(pages, i + 1, t);
    }
}

/// Allocated runs are disjoint: in a sound metadata array, the run starting
/// at `i` ends at or before the start of any later run, so the page ranges
/// of two distinct allocations never overlap.
pub proof fn lemma_runs_disjoint(pages: Seq<PageMetadata>, page_start: int, i: int, j: int)
    requires
        wf_pages(pages, page_start),
        0 <= i < j < pages.len(),
        is_run_first(pages[i]),
        is_run_first(pages[j]),
    ensures
        run_end(pages, i) <= j,
{
    lemma_run_end_le_stop(pages, i, j);
}

/// If some free run of length `n` starts at or after `start`, the first-fit
/// scan finds one.
pub proof fn lemma_first_fit_exists(pages: Seq<PageMetadata>, start: int, n: int, w: int)
    requires
        0 <= start <= w,
        1 <= n,
        free_run(pages, w, n),
    ensures
        first_fit_from(pages, start, n) is Some,
    decreases w - start,
{
    if start < w && !free_run(pages, start, n) {
        lemma_first_fit_exists(pages, start + 1, n, w);
    }
}

/// A single free usable page is enough for a one-page allocation to succeed:
/// in particular, a page reclaimed by a deallocation can be handed out again.
pub proof fn lemma_free_page_alloc_succeeds(pages: Seq<PageMetadata>, page_start: int, f: int)
    requires
        0 <= page_start <= f < pages.len(),
        !pages[f].taken,
    ensures
        first_fit_from(pages, page_start, 1) is Some,
{
    assert(free_run(pages, f, 1));
    lemma_first_fit_exists(pages, page_start, 1, f);
}

/// A request for more pages than the usable region holds always fails.
pub proof fn lemma_alloc_over_capacity(pages: Seq<PageMetadata>, page_start: int, n: int)
    requires
        0 <= page_start <= pages.len(),
        n > pages.len() - page_start,
    ensures
        first_fit_from(pages, page_start, n) is None,
{
}

/// A one-page allocation can be placed exactly when some usable page is
/// free.
pub proof fn lemma_single_fit_iff_free(pages: Seq<PageMetadata>, start: int)
    requires
        0 <= start <= pages.len(),
    ensures
        (first_fit_from(pages, start, 1) is Some) == (count_free(pages, start) >= 1),
    decreases pages.len() - start,
{
    if start < pages.len() {
        lemma_counts_bounded(pages, start + 1);
        if !pages[start].taken {
            assert(free_run(pages, start, 1));
        } else {
            lemma_single_fit_iff_free(pages, start + 1);
        }
    }
}

/// Marking one free page allocated lowers the free count of any suffix that
/// contains it by exactly one.
pub proof fn lemma_count_free_alloc_one(pages: Seq<PageMetadata>, i: int, from: int)
    requires
        0 <= from <= pages.len(),
        0 <= i < pages.len(),
        !pages[i].taken,
    ensures
        count_free(alloc_apply(pages, i, 1), from) == count_free(pages, from) - (if from <= i {
            1int
        } else {
            0int
        }),
    decreases pages.len() - from,
{
    if from < pages.len() {
        lemma_count_free_alloc_one(pages, i, from + 1);
    }
}

/// Allocation round-trip: deallocating the run an allocation just produced
/// succeeds, restores the metadata array exactly, and a repeated allocation
/// of the same length is again given the identical region.
pub proof fn lemma_alloc_dealloc_roundtrip(pages: Seq<PageMetadata>, page_start: int, n: int)
    requires
        wf_pages(pages, page_start),
        1 <= n,
        first_fit_from(pages, page_start, n) is Some,
    ensures
        first_fit_from(pages, page_start, n) matches Some(i) ==> {
            let after = alloc_apply(pages, i, n);
            &&& is_run_first(after[i])
            &&& run_end(after, i) == i + n
            &&& dealloc_apply(after, i) == pages
            &&& first_fit_from(dealloc_apply(after, i), page_start, n) == Some(i)
        },
{
    lemma_first_fit_props(pages, page_start, n);
    let i = first_fit_from(pages, page_start, n).unwrap();
    let after = alloc_apply(pages, i, n);
    assert forall|k: int| i < k < i + n implies is_run_rest(#[trigger] after[k]) by {}
    if i + n < pages.len() {
        // the page just past the fresh run cannot continue it: a run
        // continuation must follow a taken page, and the run was free before
        assert(after[i + n] == pages[i + n]);
        if is_run_rest(pages[i + n]) {
            assert(pages[i + n - 1].taken);
            assert(!pages[i + n - 1].taken);
        }
    }
    lemma_run_end_char(after, i, i + n);
    assert(dealloc_apply(after, i) =~= pages);
}

} // verus!
