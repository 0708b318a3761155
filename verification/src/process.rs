//! Process table and cooperative round-robin scheduler.
//!
//! Process records live in a chain of pages taken from the page allocator.
//! Each page holds `PROCESS_COUNT_PER_PAGE` record slots plus one trailing
//! slot that is reinterpreted as a link to the next page when the chain
//! grows. Process ids are assigned consecutively and never reused; the slot
//! of process `i` is found by page/slot division.
//!
//! Scheduling is strict round-robin by ascending process id with wraparound,
//! skipping `Dead` and `Invalid` entries. A process runs until it yields
//! ([`ProcessManager::wait`]) or terminates ([`ProcessManager::exit`]). The
//! actual control transfer — saving and restoring the program counter, stack
//! pointer and callee-saved registers — is an opaque operation of the
//! surrounding runtime; this module decides who runs next, keeps the table,
//! and hands the runtime a [`SwitchAction`] describing the transfer.

use vstd::prelude::*;
use crate::page::{PageAllocator, AllocError, PAGE_SIZE, first_fit_from, alloc_apply, run_end,
    is_run_first, is_run_rest, count_free, free_meta};

verus! {

/// Process id, assigned at spawn, unique and never reused.
pub type Pid = usize;

/// Size in bytes of one process record slot in the kernel's layout.
pub const PROCESS_ENTRY_SIZE: usize = 296;

/// Number of process record slots per chain page; the one remaining slot
/// holds the link to the next page.
pub const PROCESS_COUNT_PER_PAGE: usize = PAGE_SIZE / PROCESS_ENTRY_SIZE - 1;

/// Maximum length of a process name in bytes.
pub const PROCESS_NAME_MAX_LEN: usize = 128;

/// Number of callee-saved registers preserved across a context switch.
pub const CONTEXT_SAVED_REGS: usize = 12;

/// Scheduling state of one process record.
#[derive(Clone, Copy, PartialEq, Eq, Structural, Debug)]
pub enum ProcessState {
    /// Marker for unused record slots; no other field is meaningful.
    Invalid,
    /// Just spawned, not yet run.
    Spawned,
    /// Yielded, waiting to be resumed.
    Waiting,
    /// Currently running.
    Running,
    /// Returned from its entry point; the record is retained, the slot is
    /// not reused.
    Dead,
}

/// Saved execution context: what the context-switch operation persists and
/// restores.
#[derive(Clone, PartialEq, Eq, Debug)]
pub struct Context {
    /// Program counter.
    pub pc: usize,
    /// Stack pointer.
    pub sp: usize,
    /// Callee-saved general registers.
    pub sx: Vec<usize>,
}

/// One process record.
#[derive(Clone, PartialEq, Eq, Debug)]
pub struct Process {
    /// Id of this process.
    pub pid: Pid,
    /// Id of the parent process.
    pub parent_pid: Pid,
    /// Lowest address of the dedicated one-page stack.
    pub stack_start: usize,
    /// One past the highest address of the stack; where the stack pointer
    /// starts.
    pub stack_end: usize,
    /// Saved execution context.
    pub context: Context,
    /// Name of the process.
    pub name: Vec<u8>,
    /// Scheduling state.
    pub state: ProcessState,
}

impl Process {
    /// The name of the process.
    pub fn name(&self) -> (r: &Vec<u8>)
        ensures
            r@ == self.name@,
    {
        &self.name
    }
}

/// One slot of a chain page: either a process record or, for the trailing
/// slot of a non-final page, the link to the next page.
pub enum ProcessEntry {
    /// Slot not written yet.
    Vacant,
    /// Slot holding a process record.
    Record(Process),
    /// Trailing slot reinterpreted as the address of the next chain page.
    NextPage(usize),
}

/// One page of the process chain.
pub struct ProcessPage {
    /// Address of the backing page, taken from the page allocator.
    pub addr: usize,
    /// The page's slots: `PROCESS_COUNT_PER_PAGE` records plus the link slot.
    pub entries: Vec<ProcessEntry>,
}

/// The process record held by a slot; meaningful only for `Record` slots.
pub open spec fn entry_process(e: ProcessEntry) -> Process {
    match e {
        ProcessEntry::Record(p) => p,
        _ => arbitrary(),
    }
}

/// The state is eligible to be scheduled.
pub open spec fn runnable(s: ProcessState) -> bool {
    s is Spawned || s is Waiting
}

/// The record describes a live process: one whose stack page is still held.
pub open spec fn live(s: ProcessState) -> bool {
    !(s is Dead) && !(s is Invalid)
}

/// The smallest pid in `[lo, hi)` whose process is runnable.
pub open spec fn first_runnable_in(procs: Seq<Process>, lo: int, hi: int) -> Option<int>
    decreases hi - lo when lo <= hi
{
    if lo >= hi {
        None
    } else if runnable(procs[lo].state) {
        Some(lo)
    } else {
        first_runnable_in(procs, lo + 1, hi)
    }
}

/// The pid the round-robin policy selects after `cur`: the first runnable
/// pid above `cur`, or failing that the first runnable pid below it.
pub open spec fn next_runnable(procs: Seq<Process>, cur: int) -> Option<int> {
    match first_runnable_in(procs, cur + 1, procs.len() as int) {
        Some(i) => Some(i),
        None => first_runnable_in(procs, 0, cur),
    }
}

/// The allocator page holding `addr` backs exactly one page of kernel data:
/// it starts an allocated run, and the run is one page long, so freeing
/// `addr` gives back exactly that page.
pub open spec fn owned_page(a: PageAllocator, addr: int) -> bool {
    &&& a.heap_start() <= addr
    &&& addr % (PAGE_SIZE as int) == 0
    &&& a.page_start() <= a.page_index(addr) < a.pages().len()
    &&& is_run_first(a.pages()[a.page_index(addr)])
    &&& a.page_index(addr) + 1 == a.pages().len() || !is_run_rest(
        a.pages()[a.page_index(addr) + 1],
    )
}

/// The context-switch request handed to the surrounding runtime: persist the
/// context of `from` and restore the context of `to`.
#[derive(Clone, Copy, PartialEq, Eq, Structural, Debug)]
pub struct SwitchAction {
    /// The process whose context is to be saved.
    pub from: Pid,
    /// The process whose context is to be restored.
    pub to: Pid,
}

/// What the scheduler asks of the runtime when the caller's context will
/// never be resumed: restore the context of a process, or halt the hart.
#[derive(Clone, Copy, PartialEq, Eq, Structural, Debug)]
pub enum ScheduleOutcome {
    /// Restore the named process's context; the caller never resumes.
    SwitchTo(Pid),
    /// No runnable process is left: halt the hart, unrecoverably.
    Halt,
}

/// The process table: a chain of record pages, the count of processes ever
/// spawned, and the currently running process.
pub struct ProcessManager {
    pages: Vec<ProcessPage>,
    process_count: usize,
    running: Option<Pid>,
}

impl ProcessManager {
    /// Number of processes spawned so far, dead or not.
    pub closed spec fn count(self) -> int {
        self.process_count as int
    }

    /// The currently running process, if any.
    pub closed spec fn running(self) -> Option<Pid> {
        self.running
    }

    /// The chain pages.
    pub closed spec fn chain(self) -> Seq<ProcessPage> {
        self.pages@
    }

    /// The addresses of the chain's backing pages.
    pub open spec fn page_addrs(self) -> Seq<int> {
        Seq::new(self.chain().len(), |q: int| self.chain()[q].addr as int)
    }

    /// The process records, in pid order.
    pub open spec fn procs(self) -> Seq<Process> {
        Seq::new(
            self.count() as nat,
            |i: int| entry_process(
                self.chain()[i / (PROCESS_COUNT_PER_PAGE as int)].entries@[i % (
                PROCESS_COUNT_PER_PAGE as int)],
            ),
        )
    }

    /// Number of chain pages the table needs for `count` processes: one,
    /// plus one more for each time the count filled a page.
    pub open spec fn pages_needed(count: int) -> int {
        1 + (if count == 0 {
            0int
        } else {
            (count - 1) / (PROCESS_COUNT_PER_PAGE as int)
        })
    }

    /// Structural invariant of the table, except for the exact chain
    /// length: what keeps holding while the chain has grown for a record
    /// that is not yet inserted.
    pub open spec fn wf_core(self) -> bool {
        let per = PROCESS_COUNT_PER_PAGE as int;
        &&& forall|q: int|
            0 <= q < self.chain().len() ==> (#[trigger] self.chain()[q]).entries@.len() == per + 1
        &&& forall|q: int|
            0 <= q && q + 1 < self.chain().len() ==> (#[trigger] self.chain()[q]).entries@[per]
                == (ProcessEntry::NextPage(self.chain()[q + 1].addr))
        &&& forall|i: int|
            0 <= i < self.count() ==> (#[trigger] self.chain()[i / per].entries@[i % per])
                is Record
        &&& forall|i: int| 0 <= i < self.count() ==> (#[trigger] self.procs()[i]).pid == i
        &&& forall|i: int|
            0 <= i < self.count() ==> !((#[trigger] self.procs()[i]).state is Invalid)
        &&& forall|i: int|
            0 <= i < self.count() ==> (#[trigger] self.procs()[i]).name@.len()
                <= PROCESS_NAME_MAX_LEN
        &&& forall|i: int|
            0 <= i < self.count() ==> (#[trigger] self.procs()[i]).context.sx@.len()
                == CONTEXT_SAVED_REGS
        &&& forall|i: int|
            0 <= i < self.count() && live((#[trigger] self.procs()[i]).state) ==> self.procs()[i].stack_end
                == self.procs()[i].stack_start + PAGE_SIZE
        &&& self.running() matches Some(p) ==> 0 <= p < self.count()
        &&& forall|i: int|
            0 <= i < self.count() ==> (((#[trigger] self.procs()[i]).state is Running)
                <==> self.running() == Some(i as usize))
    }

    /// Structural invariant of the table itself.
    pub open spec fn wf(self) -> bool {
        &&& self.wf_core()
        &&& self.chain().len() == Self::pages_needed(self.count())
    }

    /// The table's relation to the page allocator it draws from: every chain
    /// page and every live process's stack page is a one-page allocation of
    /// its own, and all those pages are distinct.
    pub open spec fn wf_with(self, a: PageAllocator) -> bool {
        &&& self.wf()
        &&& a.wf()
        &&& forall|q: int| 0 <= q < self.chain().len() ==> owned_page(a, #[trigger] self.page_addrs()[q])
        &&& forall|i: int|
            0 <= i < self.count() && live((#[trigger] self.procs()[i]).state) ==> owned_page(
                a,
                self.procs()[i].stack_start as int,
            )
        &&& forall|q1: int, q2: int|
            0 <= q1 < q2 < self.chain().len() ==> #[trigger] self.page_addrs()[q1]
                != #[trigger] self.page_addrs()[q2]
        &&& forall|i: int, j: int|
            0 <= i < j < self.count() && live(self.procs()[i].state) && live(
                self.procs()[j].state,
            ) ==> (#[trigger] self.procs()[i]).stack_start != (#[trigger] self.procs()[j]).stack_start
        &&& forall|i: int, q: int|
            0 <= i < self.count() && live((#[trigger] self.procs()[i]).state) && 0 <= q
                < self.chain().len() ==> self.procs()[i].stack_start != #[trigger] self.page_addrs()[q]
    }

    /// A fresh chain page backed by the page at `addr`, all slots vacant.
    fn fresh_page(addr: usize) -> (r: ProcessPage)
        ensures
            r.addr == addr,
            r.entries@.len() == PROCESS_COUNT_PER_PAGE + 1,
            forall|k: int| 0 <= k < r.entries@.len() ==> (#[trigger] r.entries@[k]) is Vacant,
    {
        let mut entries: Vec<ProcessEntry> = Vec::new();
        let mut k: usize = 0;
        while k < PROCESS_COUNT_PER_PAGE + 1
            invariant
                k <= PROCESS_COUNT_PER_PAGE + 1,
                entries@.len() == k,
                forall|j: int| 0 <= j < k ==> (#[trigger] entries@[j]) is Vacant,
            decreases PROCESS_COUNT_PER_PAGE + 1 - k,
        {
            entries.push(ProcessEntry::Vacant);
            k = k + 1;
        }
        ProcessPage { addr, entries }
    }

    /// Initialize the process manager, allocating the first chain page.
    /// Called once, after the page allocator is ready. Fails exactly when
    /// the allocator has no free page left.
    pub fn init(a: &mut PageAllocator) -> (r: Result<ProcessManager, AllocError>)
        requires
            old(a).wf(),
        ensures
            final(a).wf(),
            final(a).heap_start() == old(a).heap_start(),
            final(a).page_start() == old(a).page_start(),
            (r is Ok) == (first_fit_from(old(a).pages(), old(a).page_start(), 1) is Some),
            r is Err ==> final(a).pages() == old(a).pages(),
            r matches Ok(m) ==> m.wf_with(*final(a)) && m.count() == 0 && m.running() is None
                && m.chain().len() == 1,
    {
        let addr = match a.allocate(1) {
            Ok(addr) => addr,
            Err(e) => {
                return Err(e);
            },
        };
        let mut pages: Vec<ProcessPage> = Vec::new();
        pages.push(Self::fresh_page(addr));
        let m = ProcessManager { pages, process_count: 0, running: None };
        proof {
            lemma_fresh_alloc_owned(*old(a), *a, addr as int);
            assert(m.page_addrs() =~= seq![addr as int]);
            assert(m.procs() =~= Seq::<Process>::empty());
        }
        Ok(m)
    }

    /// Append a fresh page backed by `new_addr` to the chain, writing the
    /// link into the trailing slot of the page that was last so far.
    fn grow_chain(&mut self, new_addr: usize)
        requires
            old(self).wf(),
            old(self).count() > 0,
            old(self).count() % (PROCESS_COUNT_PER_PAGE as int) == 0,
        ensures
            final(self).wf_core(),
            final(self).count() == old(self).count(),
            final(self).running() == old(self).running(),
            final(self).chain().len() == old(self).chain().len() + 1,
            final(self).procs() == old(self).procs(),
            final(self).page_addrs() == old(self).page_addrs().push(new_addr as int),
            forall|q: int|
                0 <= q < final(self).chain().len() ==> (#[trigger] final(self).chain()[q]).entries@.len()
                    == PROCESS_COUNT_PER_PAGE + 1,
    {
        let ghost m0 = *self;
        let last = self.pages.len() - 1;
        let link = ProcessEntry::NextPage(new_addr);
        let page = &mut self.pages[last];
        page.entries[PROCESS_COUNT_PER_PAGE] = link;
        self.pages.push(Self::fresh_page(new_addr));
        proof {
            let per = PROCESS_COUNT_PER_PAGE as int;
            assert(self.page_addrs() =~= m0.page_addrs().push(new_addr as int));
            assert forall|i: int| 0 <= i < self.count() implies #[trigger] self.chain()[i
                / per].entries@[i % per] == m0.chain()[i / per].entries@[i % per] by {
                lemma_slot_of_pid(i, self.count());
            }
            assert(self.procs() =~= m0.procs());
        }
    }

    /// Write the record of the next process into its slot and account for
    /// it. The chain must already be long enough for the new count.
    fn insert_record(&mut self, process: Process)
        requires
            old(self).wf_core(),
            old(self).count() < usize::MAX,
            old(self).chain().len() == Self::pages_needed(old(self).count() + 1),
            forall|q: int|
                0 <= q < old(self).chain().len() ==> (#[trigger] old(self).chain()[q]).entries@.len()
                    == PROCESS_COUNT_PER_PAGE + 1,
            process.pid == old(self).count(),
            !(process.state is Invalid),
            !(process.state is Running),
            process.name@.len() <= PROCESS_NAME_MAX_LEN,
            process.context.sx@.len() == CONTEXT_SAVED_REGS,
            live(process.state) ==> process.stack_end == process.stack_start + PAGE_SIZE,
        ensures
            final(self).wf(),
            final(self).count() == old(self).count() + 1,
            final(self).running() == old(self).running(),
            final(self).procs() == old(self).procs().push(process),
            final(self).page_addrs() == old(self).page_addrs(),
    {
        let ghost m0 = *self;
        let pid = self.process_count;
        proof {
            lemma_pages_needed_step(pid as int);
            lemma_slot_of_pid(pid as int, pid as int + 1);
        }
        let page_idx = pid / PROCESS_COUNT_PER_PAGE;
        let slot = pid % PROCESS_COUNT_PER_PAGE;
        let entry = ProcessEntry::Record(process);
        let page = &mut self.pages[page_idx];
        page.entries[slot] = entry;
        self.process_count = pid + 1;
        proof {
            let per = PROCESS_COUNT_PER_PAGE as int;
            assert(self.page_addrs() =~= m0.page_addrs());
            assert forall|i: int| 0 <= i < m0.count() implies #[trigger] self.chain()[i
                / per].entries@[i % per] == m0.chain()[i / per].entries@[i % per] by {
                lemma_slot_of_pid(i, m0.count());
                lemma_pid_slot_distinct(i, pid as int);
            }
            assert(self.procs() =~= m0.procs().push(process));
            assert forall|i: int| 0 <= i < self.count() implies (#[trigger] self.chain()[i
                / per].entries@[i % per]) is Record by {
                lemma_slot_of_pid(i, self.count());
                if i < m0.count() {
                    lemma_pid_slot_distinct(i, pid as int);
                }
            }
        }
    }

    /// Spawn a new process: take one fresh page for its stack (and one more
    /// for the chain when the table has just filled a page), write its
    /// record, and hand back its id. The saved context is set up so that the
    /// program counter is `entry_pc` and the stack pointer is the top of the
    /// new stack. Fails, leaving the table and the allocator exactly as they
    /// were, when the allocator has fewer free pages than the spawn needs.
    pub fn spawn(&mut self, a: &mut PageAllocator, entry_pc: usize, name: Vec<u8>) -> (r: Result<
        Pid,
        AllocError,
    >)
        requires
            old(self).wf_with(*old(a)),
            name@.len() <= PROCESS_NAME_MAX_LEN,
            old(self).count() < usize::MAX,
        ensures
            final(self).wf_with(*final(a)),
            final(a).heap_start() == old(a).heap_start(),
            final(a).page_start() == old(a).page_start(),
            final(a).pages().len() == old(a).pages().len(),
            final(self).running() == old(self).running(),
            (r is Ok) == (count_free(old(a).pages(), old(a).page_start()) >= spawn_pages_needed(
                old(self).count(),
            )),
            r matches Ok(pid) ==> {
                &&& pid == old(self).count()
                &&& final(self).count() == old(self).count() + 1
                &&& final(self).procs().drop_last() == old(self).procs()
                &&& spawned_record(final(self).procs().last(), pid as int, entry_pc, name@)
                &&& owned_page(*final(a), final(self).procs().last().stack_start as int)
                &&& (first_fit_from(old(a).pages(), old(a).page_start(), 1) matches Some(i)
                    && final(self).procs().last().stack_start == old(a).page_addr(i))
            },
            r is Err ==> *final(self) == *old(self) && final(a).pages() == old(a).pages(),
    {
        let ghost a0 = *old(a);
        let ghost m0 = *old(self);
        let count = self.process_count;
        proof {
            crate::page::lemma_single_fit_iff_free(a0.pages(), a0.page_start());
            crate::page::lemma_counts_bounded(a0.pages(), a0.page_start());
        }
        let stack_start = match a.allocate(1) {
            Ok(addr) => addr,
            Err(e) => {
                return Err(e);
            },
        };
        let ghost a1 = *a;
        proof {
            lemma_fresh_alloc_owned(a0, a1, stack_start as int);
            crate::page::lemma_first_fit_props(a0.pages(), a0.page_start(), 1);
            let i = a1.page_index(stack_start as int);
            crate::page::lemma_count_free_alloc_one(a0.pages(), i, a0.page_start());
        }
        if count > 0 && count % PROCESS_COUNT_PER_PAGE == 0 {
            proof {
                crate::page::lemma_single_fit_iff_free(a1.pages(), a1.page_start());
                crate::page::lemma_counts_bounded(a1.pages(), a1.page_start());
            }
            match a.allocate(1) {
                Ok(new_addr) => {
                    proof {
                        lemma_fresh_alloc_owned(a1, *a, new_addr as int);
                        crate::page::lemma_first_fit_props(a1.pages(), a1.page_start(), 1);
                        let j = a.page_index(new_addr as int);
                        crate::page::lemma_count_free_alloc_one(a1.pages(), j, a1.page_start());
                    }
                    self.grow_chain(new_addr);
                },
                Err(e) => {
                    // roll the stack page back: the allocator must be left
                    // exactly as it was before the failed spawn
                    proof {
                        crate::page::lemma_alloc_dealloc_roundtrip(
                            a0.pages(),
                            a0.page_start(),
                            1,
                        );
                    }
                    let _rollback = a.dealloc(stack_start);
                    return Err(e);
                },
            }
        }
        let ghost a2 = *a;
        proof {
            lemma_pages_needed_step(count as int);
        }
        let stack_end = stack_start + PAGE_SIZE;
        let mut sx: Vec<usize> = Vec::new();
        let mut k: usize = 0;
        while k < CONTEXT_SAVED_REGS
            invariant
                k <= CONTEXT_SAVED_REGS,
                sx@.len() == k,
                forall|j: int| 0 <= j < k ==> #[trigger] sx@[j] == 0usize,
            decreases CONTEXT_SAVED_REGS - k,
        {
            sx.push(0);
            k = k + 1;
        }
        let process = Process {
            pid: count,
            parent_pid: 0,
            stack_start,
            stack_end,
            context: Context { pc: entry_pc, sp: stack_end, sx },
            name,
            state: ProcessState::Spawned,
        };
        self.insert_record(process);
        proof {
            assert(self.procs().drop_last() =~= m0.procs());
            assert(process.context.sx@ =~= Seq::new(CONTEXT_SAVED_REGS as nat, |j: int| 0usize));
            lemma_spawn_wf_with(m0, *self, a0, a1, a2, process);
        }
        Ok(count)
    }

    /// The chain is laid out so that every pid up to the count has a record
    /// slot: the part of the invariant that locating and rewriting a single
    /// record relies on.
    pub open spec fn wf_slots(self) -> bool {
        let per = PROCESS_COUNT_PER_PAGE as int;
        &&& self.chain().len() == Self::pages_needed(self.count())
        &&& forall|q: int|
            0 <= q < self.chain().len() ==> (#[trigger] self.chain()[q]).entries@.len() == per + 1
        &&& forall|i: int|
            0 <= i < self.count() ==> (#[trigger] self.chain()[i / per].entries@[i % per])
                is Record
    }

    /// Rewrite the state field of the record of process `pid`.
    fn set_state(&mut self, pid: Pid, st: ProcessState)
        requires
            old(self).wf_slots(),
            pid < old(self).count(),
        ensures
            final(self).wf_slots(),
            final(self).count() == old(self).count(),
            final(self).running() == old(self).running(),
            final(self).page_addrs() == old(self).page_addrs(),
            final(self).procs() == old(self).procs().update(
                pid as int,
                with_state(old(self).procs()[pid as int], st),
            ),
            forall|q: int|
                0 <= q < final(self).chain().len()
                    ==> (#[trigger] final(self).chain()[q]).entries@[PROCESS_COUNT_PER_PAGE as int]
                    == old(self).chain()[q].entries@[PROCESS_COUNT_PER_PAGE as int]
                    && final(self).chain()[q].addr == old(self).chain()[q].addr,
    {
        let ghost m0 = *self;
        proof {
            lemma_slot_of_pid(pid as int, self.count());
        }
        let page_idx = pid / PROCESS_COUNT_PER_PAGE;
        let slot = pid % PROCESS_COUNT_PER_PAGE;
        let page = &mut self.pages[page_idx];
        let entry = &mut page.entries[slot];
        match entry {
            ProcessEntry::Record(pr) => {
                pr.state = st;
            },
            _ => {
                proof {
                    assert(false);
                }
            },
        }
        proof {
            lemma_record_update(m0, *self, pid as int);
        }
    }

    /// Rewrite the record of process `pid` as terminated: state `Dead`, the
    /// saved program counter and stack pointer cleared.
    fn set_dead(&mut self, pid: Pid)
        requires
            old(self).wf_slots(),
            pid < old(self).count(),
        ensures
            final(self).wf_slots(),
            final(self).count() == old(self).count(),
            final(self).running() == old(self).running(),
            final(self).page_addrs() == old(self).page_addrs(),
            final(self).procs() == old(self).procs().update(
                pid as int,
                dead_record(old(self).procs()[pid as int]),
            ),
            forall|q: int|
                0 <= q < final(self).chain().len()
                    ==> (#[trigger] final(self).chain()[q]).entries@[PROCESS_COUNT_PER_PAGE as int]
                    == old(self).chain()[q].entries@[PROCESS_COUNT_PER_PAGE as int]
                    && final(self).chain()[q].addr == old(self).chain()[q].addr,
    {
        let ghost m0 = *self;
        proof {
            lemma_slot_of_pid(pid as int, self.count());
        }
        let page_idx = pid / PROCESS_COUNT_PER_PAGE;
        let slot = pid % PROCESS_COUNT_PER_PAGE;
        let page = &mut self.pages[page_idx];
        let entry = &mut page.entries[slot];
        match entry {
            ProcessEntry::Record(pr) => {
                pr.state = ProcessState::Dead;
                pr.context.pc = 0;
                pr.context.sp = 0;
            },
            _ => {
                proof {
                    assert(false);
                }
            },
        }
        proof {
            lemma_record_update(m0, *self, pid as int);
        }
    }

    /// Read access to the record of process `pid`.
    pub fn get(&self, pid: Pid) -> (r: &Process)
        requires
            self.wf(),
            pid < self.count(),
        ensures
            *r == self.procs()[pid as int],
    {
        proof {
            lemma_slot_of_pid(pid as int, self.count());
        }
        let page_idx = pid / PROCESS_COUNT_PER_PAGE;
        let slot = pid % PROCESS_COUNT_PER_PAGE;
        match &self.pages[page_idx].entries[slot] {
            ProcessEntry::Record(p) => p,
            _ => vstd::pervasive::unreached(),
        }
    }

    /// Scan `[lo, hi)` in pid order for the first runnable process.
    fn find_runnable_in(&self, lo: usize, hi: usize) -> (r: Option<Pid>)
        requires
            self.wf(),
            lo <= hi,
            hi <= self.count(),
        ensures
            (r is Some) == (first_runnable_in(self.procs(), lo as int, hi as int) is Some),
            r matches Some(p) ==> first_runnable_in(self.procs(), lo as int, hi as int) == Some(
                p as int,
            ) && lo <= p < hi,
    {
        let mut i = lo;
        while i < hi
            invariant
                self.wf(),
                lo <= i <= hi <= self.count(),
                first_runnable_in(self.procs(), lo as int, hi as int) == first_runnable_in(
                    self.procs(),
                    i as int,
                    hi as int,
                ),
            decreases hi - i,
        {
            let state = self.get(i).state;
            match state {
                ProcessState::Spawned | ProcessState::Waiting => {
                    return Some(i);
                },
                _ => {},
            }
            i = i + 1;
        }
        None
    }

    /// The process the round-robin policy runs after `current_pid`: the
    /// first runnable process with a higher pid, wrapping around to the
    /// first runnable process below; none if no other process is runnable.
    pub fn get_next_process(&self, current_pid: Pid) -> (r: Option<Pid>)
        requires
            self.wf(),
            current_pid < self.count(),
        ensures
            (r is Some) == (next_runnable(self.procs(), current_pid as int) is Some),
            r matches Some(p) ==> next_runnable(self.procs(), current_pid as int) == Some(
                p as int,
            ) && p < self.count() && p != current_pid,
    {
        match self.find_runnable_in(current_pid + 1, self.process_count) {
            Some(p) => Some(p),
            None => self.find_runnable_in(0, current_pid),
        }
    }

    /// Voluntarily yield the running process. If another process is
    /// runnable, the current one is marked `Waiting`, the chosen one becomes
    /// the running process, and the returned action asks the runtime to
    /// switch contexts; the yielded process resumes when a later switch
    /// picks it again. With no running process, or no other runnable
    /// process, nothing changes and no switch is requested.
    pub fn wait(&mut self) -> (r: Option<SwitchAction>)
        requires
            old(self).wf(),
        ensures
            final(self).wf(),
            final(self).count() == old(self).count(),
            final(self).page_addrs() == old(self).page_addrs(),
            match old(self).running() {
                None => r is None && *final(self) == *old(self),
                Some(p) => match next_runnable(old(self).procs(), p as int) {
                    None => r is None && *final(self) == *old(self),
                    Some(q) => {
                        &&& r == Some(SwitchAction { from: p, to: q as usize })
                        &&& final(self).running() == Some(q as usize)
                        &&& final(self).procs() == yield_step_procs(
                            old(self).procs(),
                            p as int,
                            q,
                        )
                    },
                },
            },
    {
        let ghost m0 = *self;
        let p = match self.running {
            Some(p) => p,
            None => {
                return None;
            },
        };
        let next = match self.get_next_process(p) {
            Some(q) => q,
            None => {
                return None;
            },
        };
        self.set_state(p, ProcessState::Waiting);
        self.set_state(next, ProcessState::Running);
        self.running = Some(next);
        proof {
            lemma_first_runnable_props(m0.procs(), p as int + 1, m0.count());
            lemma_first_runnable_props(m0.procs(), 0, p as int);
            lemma_switch_wf(m0, *self, p as int, next as int);
        }
        Some(SwitchAction { from: p, to: next })
    }

    /// Enter the scheduler for the first time: pick the first runnable
    /// process in table order, mark it running, and ask the runtime to
    /// restore its context; the caller's own context is never saved. With no
    /// runnable process at all, the hart is to be halted. Called once per
    /// hart at boot, before any process runs.
    pub fn start_schedule(&mut self) -> (r: ScheduleOutcome)
        requires
            old(self).wf(),
            old(self).running() is None,
        ensures
            final(self).wf(),
            final(self).count() == old(self).count(),
            final(self).page_addrs() == old(self).page_addrs(),
            match first_runnable_in(old(self).procs(), 0, old(self).count()) {
                None => r is Halt && *final(self) == *old(self),
                Some(q) => {
                    &&& r == ScheduleOutcome::SwitchTo(q as usize)
                    &&& final(self).running() == Some(q as usize)
                    &&& final(self).procs() == old(self).procs().update(
                        q,
                        with_state(old(self).procs()[q], ProcessState::Running),
                    )
                },
            },
    {
        let ghost m0 = *self;
        match self.find_runnable_in(0, self.process_count) {
            Some(q) => {
                self.set_state(q, ProcessState::Running);
                self.running = Some(q);
                proof {
                    lemma_first_runnable_props(m0.procs(), 0, m0.count());
                    lemma_start_wf(m0, *self, q as int);
                }
                ScheduleOutcome::SwitchTo(q)
            },
            None => ScheduleOutcome::Halt,
        }
    }

    /// Terminate the running process: mark it `Dead`, give its stack page
    /// back to the allocator, clear its saved program counter and stack
    /// pointer, and pick the next runnable process in round-robin order. The
    /// returned outcome asks the runtime to restore that process's context —
    /// the exiting context is never saved — or to halt the hart if no
    /// runnable process is left. With no running process the table is
    /// untouched and the hart is halted.
    pub fn exit(&mut self, a: &mut PageAllocator) -> (r: ScheduleOutcome)
        requires
            old(self).wf_with(*old(a)),
        ensures
            final(self).wf_with(*final(a)),
            final(a).heap_start() == old(a).heap_start(),
            final(a).page_start() == old(a).page_start(),
            final(a).pages().len() == old(a).pages().len(),
            final(self).count() == old(self).count(),
            final(self).page_addrs() == old(self).page_addrs(),
            match old(self).running() {
                None => r is Halt && *final(self) == *old(self) && final(a).pages() == old(
                    a,
                ).pages(),
                Some(p) => {
                    let s = old(a).page_index(old(self).procs()[p as int].stack_start as int);
                    &&& final(a).pages() == old(a).pages().update(s, free_meta())
                    &&& old(a).page_start() <= s < old(a).pages().len()
                    &&& !final(a).pages()[s].taken
                    &&& match next_runnable(old(self).procs(), p as int) {
                        None => r is Halt && final(self).running() is None && final(self).procs()
                            == old(self).procs().update(
                            p as int,
                            dead_record(old(self).procs()[p as int]),
                        ),
                        Some(q) => {
                            &&& r == ScheduleOutcome::SwitchTo(q as usize)
                            &&& final(self).running() == Some(q as usize)
                            &&& final(self).procs() == old(self).procs().update(
                                p as int,
                                dead_record(old(self).procs()[p as int]),
                            ).update(q, with_state(old(self).procs()[q], ProcessState::Running))
                        },
                    }
                },
            },
    {
        let ghost m0 = *old(self);
        let ghost a0 = *old(a);
        let p = match self.running {
            Some(p) => p,
            None => {
                return ScheduleOutcome::Halt;
            },
        };
        let stack_start = self.get(p).stack_start;
        let ghost s = a0.page_index(stack_start as int);
        proof {
            // the running process is live, so its stack page is owned and
            // the deallocation below must succeed
            assert(m0.procs()[p as int].state is Running);
            assert(owned_page(a0, stack_start as int));
        }
        let _freed = a.dealloc(stack_start);
        proof {
            assert(run_end(a0.pages(), s) == s + 1);
            assert(a.pages() =~= a0.pages().update(s, free_meta()));
        }
        let next = self.get_next_process(p);
        self.set_dead(p);
        match next {
            Some(q) => {
                self.set_state(q, ProcessState::Running);
                self.running = Some(q);
                proof {
                    lemma_first_runnable_props(m0.procs(), p as int + 1, m0.count());
                    lemma_first_runnable_props(m0.procs(), 0, p as int);
                    lemma_exit_wf(m0, *self, p as int, Some(q as int));
                    lemma_exit_wf_with(m0, *self, a0, *a, p as int);
                }
                ScheduleOutcome::SwitchTo(q)
            },
            None => {
                self.running = None;
                proof {
                    lemma_exit_wf(m0, *self, p as int, None);
                    lemma_exit_wf_with(m0, *self, a0, *a, p as int);
                }
                ScheduleOutcome::Halt
            },
        }
    }

    /// The pid of the currently running process.
    pub fn pid(&self) -> (r: Pid)
        requires
            self.running() is Some,
        ensures
            self.running() == Some(r),
    {
        match self.running {
            Some(p) => p,
            None => vstd::pervasive::unreached(),
        }
    }
}

/// After a switch, the table is still sound: the yielded process is only
/// waiting, the chosen one is the single running process.
proof fn lemma_switch_wf(m0: ProcessManager, m1: ProcessManager, p: int, q: int)
    requires
        m0.wf(),
        m0.running() == Some(p as usize),
        0 <= p < m0.count(),
        0 <= q < m0.count(),
        p != q,
        runnable(m0.procs()[q].state),
        m1.wf_slots(),
        m1.count() == m0.count(),
        m1.running() == Some(q as usize),
        m1.page_addrs() == m0.page_addrs(),
        m1.procs() == m0.procs().update(p, with_state(m0.procs()[p], ProcessState::Waiting)).update(
            q,
            with_state(m0.procs()[q], ProcessState::Running),
        ),
        forall|x: int|
            0 <= x < m1.chain().len()
                ==> (#[trigger] m1.chain()[x]).entries@[PROCESS_COUNT_PER_PAGE as int]
                == m0.chain()[x].entries@[PROCESS_COUNT_PER_PAGE as int] && m1.chain()[x].addr
                == m0.chain()[x].addr,
    ensures
        m1.wf(),
{
    assert forall|i: int| 0 <= i < m1.count() implies (((#[trigger] m1.procs()[i]).state
        is Running) <==> m1.running() == Some(i as usize)) by {
        if i != p && i != q {
            assert(m1.procs()[i] == m0.procs()[i]);
        }
    }
    lemma_record_fields_preserved(m0, m1);
}

/// After the first dispatch, the table is still sound: the chosen process is
/// the single running one.
proof fn lemma_start_wf(m0: ProcessManager, m1: ProcessManager, q: int)
    requires
        m0.wf(),
        m0.running() is None,
        0 <= q < m0.count(),
        runnable(m0.procs()[q].state),
        m1.wf_slots(),
        m1.count() == m0.count(),
        m1.running() == Some(q as usize),
        m1.page_addrs() == m0.page_addrs(),
        m1.procs() == m0.procs().update(q, with_state(m0.procs()[q], ProcessState::Running)),
        forall|x: int|
            0 <= x < m1.chain().len()
                ==> (#[trigger] m1.chain()[x]).entries@[PROCESS_COUNT_PER_PAGE as int]
                == m0.chain()[x].entries@[PROCESS_COUNT_PER_PAGE as int] && m1.chain()[x].addr
                == m0.chain()[x].addr,
    ensures
        m1.wf(),
{
    assert forall|i: int| 0 <= i < m1.count() implies (((#[trigger] m1.procs()[i]).state
        is Running) <==> m1.running() == Some(i as usize)) by {
        if i != q {
            assert(m1.procs()[i] == m0.procs()[i]);
        }
    }
    lemma_record_fields_preserved(m0, m1);
}

/// What the scan for the first runnable pid in a range guarantees: the
/// result is in range and runnable, nothing before it is, and a `None`
/// means nothing in the range is runnable.
pub proof fn lemma_first_runnable_props(procs: Seq<Process>, lo: int, hi: int)
    requires
        0 <= lo <= hi,
        hi <= procs.len(),
    ensures
        first_runnable_in(procs, lo, hi) matches Some(i) ==> lo <= i < hi && runnable(
            procs[i].state,
        ) && (forall|k: int| lo <= k < i ==> !runnable(procs[k].state)),
        (first_runnable_in(procs, lo, hi) is None) ==> forall|k: int|
            lo <= k < hi ==> !runnable(procs[k].state),
    decreases hi - lo,
{
    if lo < hi && !runnable(procs[lo].state) {
        lemma_first_runnable_props(procs, lo + 1, hi);
    }
}

/// When every record keeps its identity, bounds and stack fields — only
/// scheduling states move between the non-`Invalid` ones — the per-record
/// clauses of the invariant carry over, and so does the link structure.
proof fn lemma_record_fields_preserved(m0: ProcessManager, m1: ProcessManager)
    requires
        m0.wf(),
        m1.count() == m0.count(),
        forall|i: int|
            0 <= i < m1.count() ==> {
                let p1 = #[trigger] m1.procs()[i];
                let p0 = m0.procs()[i];
                p1.pid == p0.pid && p1.name == p0.name && p1.context.sx == p0.context.sx
                    && p1.stack_start == p0.stack_start && p1.stack_end == p0.stack_end && !(
                p1.state is Invalid)
            },
        forall|i: int|
            0 <= i < m1.count() ==> (live((#[trigger] m1.procs()[i]).state) ==> live(
                m0.procs()[i].state,
            )),
        m1.chain().len() == m0.chain().len(),
        forall|x: int|
            0 <= x < m1.chain().len()
                ==> (#[trigger] m1.chain()[x]).entries@[PROCESS_COUNT_PER_PAGE as int]
                == m0.chain()[x].entries@[PROCESS_COUNT_PER_PAGE as int] && m1.chain()[x].addr
                == m0.chain()[x].addr,
    ensures
        forall|i: int| 0 <= i < m1.count() ==> (#[trigger] m1.procs()[i]).pid == i,
        forall|i: int| 0 <= i < m1.count() ==> !((#[trigger] m1.procs()[i]).state is Invalid),
        forall|i: int|
            0 <= i < m1.count() ==> (#[trigger] m1.procs()[i]).name@.len()
                <= PROCESS_NAME_MAX_LEN,
        forall|i: int|
            0 <= i < m1.count() ==> (#[trigger] m1.procs()[i]).context.sx@.len()
                == CONTEXT_SAVED_REGS,
        forall|i: int|
            0 <= i < m1.count() && live((#[trigger] m1.procs()[i]).state) ==> m1.procs()[i].stack_end
                == m1.procs()[i].stack_start + PAGE_SIZE,
        forall|q: int|
            0 <= q && q + 1 < m1.chain().len()
                ==> (#[trigger] m1.chain()[q]).entries@[PROCESS_COUNT_PER_PAGE as int]
                == (ProcessEntry::NextPage(m1.chain()[q + 1].addr)),
{
    assert forall|i: int| 0 <= i < m1.count() implies (#[trigger] m1.procs()[i]).pid == i && !((
    m1.procs()[i]).state is Invalid) && (m1.procs()[i]).name@.len() <= PROCESS_NAME_MAX_LEN && (
    m1.procs()[i]).context.sx@.len() == CONTEXT_SAVED_REGS && (live(m1.procs()[i].state)
        ==> m1.procs()[i].stack_end == m1.procs()[i].stack_start + PAGE_SIZE) by {
        let p0 = m0.procs()[i];
        assert(p0.pid == i);
    }
}

/// The address of an owned page is recovered exactly from its page index.
proof fn lemma_owned_addr_exact(a: PageAllocator, x: int)
    requires
        a.wf(),
        a.heap_start() <= x,
        x % (PAGE_SIZE as int) == 0,
    ensures
        x == a.heap_start() + a.page_index(x) * (PAGE_SIZE as int),
{
    let sz = PAGE_SIZE as int;
    let h = a.heap_start();
    let d = x - h;
    vstd::arithmetic::div_mod::lemma_fundamental_div_mod(x, sz);
    vstd::arithmetic::div_mod::lemma_fundamental_div_mod(h, sz);
    vstd::arithmetic::div_mod::lemma_fundamental_div_mod(d, sz);
    vstd::arithmetic::div_mod::lemma_mod_multiples_basic(x / sz - h / sz, sz);
}

/// Owned pages at distinct addresses sit at distinct page indices.
proof fn lemma_owned_index_injective(a: PageAllocator, x: int, y: int)
    requires
        a.wf(),
        owned_page(a, x),
        owned_page(a, y),
        x != y,
    ensures
        a.page_index(x) != a.page_index(y),
{
    lemma_owned_addr_exact(a, x);
    lemma_owned_addr_exact(a, y);
}

/// After the table marked the running process dead (and possibly promoted a
/// successor), it is still sound.
proof fn lemma_exit_wf(m0: ProcessManager, m1: ProcessManager, p: int, next: Option<int>)
    requires
        m0.wf(),
        m0.running() == Some(p as usize),
        0 <= p < m0.count(),
        m1.wf_slots(),
        m1.count() == m0.count(),
        match next {
            None => m1.running() is None && m1.procs() == m0.procs().update(
                p,
                dead_record(m0.procs()[p]),
            ),
            Some(q) => 0 <= q < m0.count() && q != p && runnable(m0.procs()[q].state)
                && m1.running() == Some(q as usize) && m1.procs() == m0.procs().update(
                p,
                dead_record(m0.procs()[p]),
            ).update(q, with_state(m0.procs()[q], ProcessState::Running)),
        },
        m1.page_addrs() == m0.page_addrs(),
        forall|x: int|
            0 <= x < m1.chain().len()
                ==> (#[trigger] m1.chain()[x]).entries@[PROCESS_COUNT_PER_PAGE as int]
                == m0.chain()[x].entries@[PROCESS_COUNT_PER_PAGE as int] && m1.chain()[x].addr
                == m0.chain()[x].addr,
    ensures
        m1.wf(),
        forall|i: int|
            0 <= i < m1.count() && live((#[trigger] m1.procs()[i]).state) ==> i != p && live(
                m0.procs()[i].state,
            ) && m1.procs()[i].stack_start == m0.procs()[i].stack_start,
{
    assert forall|i: int| 0 <= i < m1.count() implies (((#[trigger] m1.procs()[i]).state
        is Running) <==> m1.running() == Some(i as usize)) by {
        if i != p && (next is None || Some(i) != next) {
            assert(m1.procs()[i] == m0.procs()[i]);
        }
    }
    lemma_record_fields_preserved(m0, m1);
}

/// After an exit, the table/allocator relation holds again: only the dead
/// process's stack page was given back, and every other owned page is
/// untouched.
proof fn lemma_exit_wf_with(
    m0: ProcessManager,
    m1: ProcessManager,
    a0: PageAllocator,
    a1: PageAllocator,
    p: int,
)
    requires
        m0.wf_with(a0),
        m1.wf(),
        a1.wf(),
        0 <= p < m0.count(),
        live(m0.procs()[p].state),
        a1.heap_start() == a0.heap_start(),
        a1.page_start() == a0.page_start(),
        a1.pages() == a0.pages().update(
            a0.page_index(m0.procs()[p].stack_start as int),
            free_meta(),
        ),
        m1.count() == m0.count(),
        m1.page_addrs() == m0.page_addrs(),
        forall|i: int|
            0 <= i < m1.count() && live((#[trigger] m1.procs()[i]).state) ==> i != p && live(
                m0.procs()[i].state,
            ) && m1.procs()[i].stack_start == m0.procs()[i].stack_start,
    ensures
        m1.wf_with(a1),
{
    let stack = m0.procs()[p].stack_start as int;
    let s = a0.page_index(stack);
    assert(owned_page(a0, stack));
    assert forall|x: int| owned_page(a0, x) && x != stack implies owned_page(a1, x) by {
        lemma_owned_index_injective(a0, x, stack);
        let k = a0.page_index(x);
        assert(a1.pages()[k] == a0.pages()[k]);
        if k + 1 < a0.pages().len() && k + 1 == s {
            assert(a1.pages()[s] == free_meta());
        }
    }
    assert forall|q: int| 0 <= q < m1.chain().len() implies owned_page(
        a1,
        #[trigger] m1.page_addrs()[q],
    ) by {
        assert(m1.page_addrs()[q] == m0.page_addrs()[q]);
        assert(owned_page(a0, m0.page_addrs()[q]));
    }
    assert forall|i: int|
        0 <= i < m1.count() && live((#[trigger] m1.procs()[i]).state) implies owned_page(
        a1,
        m1.procs()[i].stack_start as int,
    ) by {
        assert(live(m0.procs()[i].state));
        assert(owned_page(a0, m0.procs()[i].stack_start as int));
        if i < p {
            assert(m0.procs()[i].stack_start != m0.procs()[p].stack_start);
        } else {
            assert(m0.procs()[p].stack_start != m0.procs()[i].stack_start);
        }
    }
    assert forall|i: int, j: int|
        0 <= i < j < m1.count() && live(m1.procs()[i].state) && live(
            m1.procs()[j].state,
        ) implies (#[trigger] m1.procs()[i]).stack_start != (
    #[trigger] m1.procs()[j]).stack_start by {
        assert(live(m0.procs()[i].state) && live(m0.procs()[j].state));
    }
    assert forall|i: int, q: int|
        0 <= i < m1.count() && live((#[trigger] m1.procs()[i]).state) && 0 <= q
            < m1.chain().len() implies m1.procs()[i].stack_start != #[trigger] m1.page_addrs()[q] by {
        assert(live(m0.procs()[i].state));
        assert(m1.page_addrs()[q] == m0.page_addrs()[q]);
    }
}

/// The same record with another scheduling state.
pub open spec fn with_state(p: Process, st: ProcessState) -> Process {
    Process { state: st, ..p }
}

/// The record of a process after it exited: `Dead`, with the saved program
/// counter and stack pointer cleared. The stack bounds are retained, but the
/// stack page itself has been given back.
pub open spec fn dead_record(p: Process) -> Process {
    Process {
        state: ProcessState::Dead,
        context: Context { pc: 0, sp: 0, sx: p.context.sx },
        ..p
    }
}

/// After one record slot was rewritten in place, every other slot still
/// holds what it held: the process view changes at one pid only.
proof fn lemma_record_update(m0: ProcessManager, m1: ProcessManager, pid: int)
    requires
        m0.wf_slots(),
        0 <= pid < m0.count(),
        m1.count() == m0.count(),
        m1.chain().len() == m0.chain().len(),
        forall|q: int|
            0 <= q < m1.chain().len() && q != pid / (PROCESS_COUNT_PER_PAGE as int)
                ==> #[trigger] m1.chain()[q] == m0.chain()[q],
        ({
            let q = pid / (PROCESS_COUNT_PER_PAGE as int);
            let sl = pid % (PROCESS_COUNT_PER_PAGE as int);
            &&& m1.chain()[q].addr == m0.chain()[q].addr
            &&& m1.chain()[q].entries@.len() == m0.chain()[q].entries@.len()
            &&& forall|k: int|
                0 <= k < m1.chain()[q].entries@.len() && k != sl
                    ==> #[trigger] m1.chain()[q].entries@[k] == m0.chain()[q].entries@[k]
            &&& m1.chain()[q].entries@[sl] is Record
        }),
    ensures
        m1.wf_slots(),
        m1.page_addrs() == m0.page_addrs(),
        m1.procs() == m0.procs().update(
            pid,
            entry_process(
                m1.chain()[pid / (PROCESS_COUNT_PER_PAGE as int)].entries@[pid % (
                PROCESS_COUNT_PER_PAGE as int)],
            ),
        ),
{
    let per = PROCESS_COUNT_PER_PAGE as int;
    assert(m1.page_addrs() =~= m0.page_addrs());
    assert forall|i: int| 0 <= i < m1.count() implies (#[trigger] m1.chain()[i / per].entries@[i
        % per]) is Record by {
        lemma_slot_of_pid(i, m1.count());
        if i != pid {
            lemma_slot_distinct_pair(i, pid);
        }
    }
    assert forall|i: int| 0 <= i < m1.count() && i != pid implies #[trigger] m1.procs()[i]
        == m0.procs()[i] by {
        lemma_slot_of_pid(i, m1.count());
        lemma_slot_distinct_pair(i, pid);
    }
    assert(m1.procs() =~= m0.procs().update(
        pid,
        entry_process(m1.chain()[pid / per].entries@[pid % per]),
    ));
}

/// Two distinct pids never share a page and slot.
proof fn lemma_slot_distinct_pair(i: int, j: int)
    requires
        0 <= i,
        0 <= j,
        i != j,
    ensures
        i / (PROCESS_COUNT_PER_PAGE as int) != j / (PROCESS_COUNT_PER_PAGE as int) || i % (
        PROCESS_COUNT_PER_PAGE as int) != j % (PROCESS_COUNT_PER_PAGE as int),
{
    if i < j {
        lemma_pid_slot_distinct(i, j);
    } else {
        lemma_pid_slot_distinct(j, i);
    }
}

/// Number of fresh pages a spawn needs from the allocator: one for the
/// stack, and one more when the chain must grow first.
pub open spec fn spawn_pages_needed(count: int) -> int {
    if count > 0 && count % (PROCESS_COUNT_PER_PAGE as int) == 0 {
        2int
    } else {
        1int
    }
}

/// What the record of a just-spawned process holds: consecutive id, no
/// parent, a one-page stack with the stack pointer at its top, the entry
/// point as saved program counter, and cleared saved registers.
pub open spec fn spawned_record(p: Process, pid: int, entry_pc: usize, name: Seq<u8>) -> bool {
    &&& p.pid == pid
    &&& p.parent_pid == 0
    &&& p.state is Spawned
    &&& p.stack_end == p.stack_start + PAGE_SIZE
    &&& p.context.pc == entry_pc
    &&& p.context.sp == p.stack_end
    &&& p.context.sx@ == Seq::new(CONTEXT_SAVED_REGS as nat, |j: int| 0usize)
    &&& p.name@ == name
}

/// Re-establishing the table/allocator relation after a spawn: the chain
/// pages and previous stacks stay owned across the one or two fresh
/// allocations, the fresh pages are owned and distinct from all of them.
proof fn lemma_spawn_wf_with(
    m0: ProcessManager,
    m1: ProcessManager,
    a0: PageAllocator,
    a1: PageAllocator,
    a2: PageAllocator,
    process: Process,
)
    requires
        m0.wf_with(a0),
        m1.wf(),
        a2.wf(),
        m1.count() == m0.count() + 1,
        m1.procs() == m0.procs().push(process),
        process.stack_start as int == a1.page_addr(a1.page_index(process.stack_start as int)),
        owned_page(a1, process.stack_start as int),
        forall|x: int| owned_page(a0, x) ==> owned_page(a1, x),
        forall|x: int| owned_page(a0, x) ==> x != process.stack_start as int,
        forall|x: int| owned_page(a1, x) ==> owned_page(a2, x),
        m1.page_addrs() == m0.page_addrs() || (m1.page_addrs() == m0.page_addrs().push(
            m1.page_addrs().last(),
        ) && owned_page(a2, m1.page_addrs().last()) && (forall|x: int|
            owned_page(a1, x) ==> x != m1.page_addrs().last())),
    ensures
        m1.wf_with(a2),
{
    let stack = process.stack_start as int;
    let n0 = m0.chain().len() as int;
    assert(m0.page_addrs().len() == n0);
    assert(m1.page_addrs().len() == m1.chain().len());
    assert(m1.page_addrs() == m0.page_addrs() || (m1.chain().len() == n0 + 1 && owned_page(
        a2,
        m1.page_addrs()[n0],
    ) && (forall|x: int| owned_page(a1, x) ==> x != m1.page_addrs()[n0])));
    assert(forall|q: int| 0 <= q < n0 ==> #[trigger] m1.page_addrs()[q] == m0.page_addrs()[q]);
    assert forall|q: int| 0 <= q < m1.chain().len() implies owned_page(
        a2,
        #[trigger] m1.page_addrs()[q],
    ) by {
        if q < n0 {
            assert(m1.page_addrs()[q] == m0.page_addrs()[q]);
            assert(owned_page(a0, m0.page_addrs()[q]));
        } else {
            assert(q == n0);
        }
    }
    assert forall|i: int|
        0 <= i < m1.count() && live((#[trigger] m1.procs()[i]).state) implies owned_page(
        a2,
        m1.procs()[i].stack_start as int,
    ) by {
        if i < m0.count() {
            assert(m1.procs()[i] == m0.procs()[i]);
        }
    }
    assert forall|i: int, j: int|
        0 <= i < j < m1.count() && live(m1.procs()[i].state) && live(
            m1.procs()[j].state,
        ) implies (#[trigger] m1.procs()[i]).stack_start != (
    #[trigger] m1.procs()[j]).stack_start by {
        if j < m0.count() {
            assert(m1.procs()[i] == m0.procs()[i] && m1.procs()[j] == m0.procs()[j]);
        } else {
            assert(m1.procs()[i] == m0.procs()[i]);
            assert(owned_page(a0, m0.procs()[i].stack_start as int));
        }
    }
    assert forall|i: int, q: int|
        0 <= i < m1.count() && live((#[trigger] m1.procs()[i]).state) && 0 <= q
            < m1.chain().len() implies m1.procs()[i].stack_start != #[trigger] m1.page_addrs()[q] by {
        if i < m0.count() {
            assert(m1.procs()[i] == m0.procs()[i]);
            if q < n0 {
                assert(m1.page_addrs()[q] == m0.page_addrs()[q]);
            } else {
                assert(q == n0);
                assert(owned_page(a0, m0.procs()[i].stack_start as int));
                assert(owned_page(a1, m0.procs()[i].stack_start as int));
            }
        } else {
            if q < n0 {
                assert(owned_page(a0, m0.page_addrs()[q]));
            } else {
                assert(q == n0);
                assert(owned_page(a1, stack));
            }
        }
    }
    assert forall|q1: int, q2: int|
        0 <= q1 < q2 < m1.chain().len() implies #[trigger] m1.page_addrs()[q1]
        != #[trigger] m1.page_addrs()[q2] by {
        if q2 < n0 {
            assert(m1.page_addrs()[q1] == m0.page_addrs()[q1] && m1.page_addrs()[q2]
                == m0.page_addrs()[q2]);
        } else {
            assert(q2 == n0);
            assert(m1.page_addrs()[q1] == m0.page_addrs()[q1]);
            assert(owned_page(a0, m0.page_addrs()[q1]));
            assert(owned_page(a1, m0.page_addrs()[q1]));
        }
    }
}

/// Pages the table needs for one more process: one more page exactly when
/// the count has just filled a page.
proof fn lemma_pages_needed_step(c: int)
    requires
        0 <= c,
    ensures
        c > 0 && c % (PROCESS_COUNT_PER_PAGE as int) == 0 ==> ProcessManager::pages_needed(c + 1)
            == ProcessManager::pages_needed(c) + 1,
        !(c > 0 && c % (PROCESS_COUNT_PER_PAGE as int) == 0) ==> ProcessManager::pages_needed(
            c + 1,
        ) == ProcessManager::pages_needed(c),
        ProcessManager::pages_needed(c + 1) == 1 + c / (PROCESS_COUNT_PER_PAGE as int),
{
    let per = PROCESS_COUNT_PER_PAGE as int;
    if c > 0 {
        vstd::arithmetic::div_mod::lemma_fundamental_div_mod(c, per);
        vstd::arithmetic::div_mod::lemma_fundamental_div_mod(c - 1, per);
        vstd::arithmetic::div_mod::lemma_mod_bound(c, per);
        vstd::arithmetic::div_mod::lemma_mod_bound(c - 1, per);
        assert((c - 1) / per == if c % per == 0 {
            c / per - 1
        } else {
            c / per
        }) by (nonlinear_arith)
            requires
                per == 12,
                c >= 1,
                c == per * (c / per) + c % per,
                c - 1 == per * ((c - 1) / per) + (c - 1) % per,
                0 <= c % per < per,
                0 <= (c - 1) % per < per,
        ;
    }
}

/// Two distinct pids sit in distinct slots: an earlier pid lies on an
/// earlier page, or on the same page in an earlier slot.
proof fn lemma_pid_slot_distinct(i: int, j: int)
    requires
        0 <= i < j,
    ensures
        i / (PROCESS_COUNT_PER_PAGE as int) < j / (PROCESS_COUNT_PER_PAGE as int) || (i / (
        PROCESS_COUNT_PER_PAGE as int) == j / (PROCESS_COUNT_PER_PAGE as int) && i % (
        PROCESS_COUNT_PER_PAGE as int) < j % (PROCESS_COUNT_PER_PAGE as int)),
{
    let per = PROCESS_COUNT_PER_PAGE as int;
    vstd::arithmetic::div_mod::lemma_div_is_ordered(i, j, per);
    vstd::arithmetic::div_mod::lemma_fundamental_div_mod(i, per);
    vstd::arithmetic::div_mod::lemma_fundamental_div_mod(j, per);
    vstd::arithmetic::div_mod::lemma_mod_bound(i, per);
    vstd::arithmetic::div_mod::lemma_mod_bound(j, per);
}

/// The page/slot division that locates the record of pid `i` stays within
/// the chain a table of `c` processes holds.
proof fn lemma_slot_of_pid(i: int, c: int)
    requires
        0 <= i < c,
    ensures
        0 <= i % (PROCESS_COUNT_PER_PAGE as int) < (PROCESS_COUNT_PER_PAGE as int),
        0 <= i / (PROCESS_COUNT_PER_PAGE as int) <= (c - 1) / (PROCESS_COUNT_PER_PAGE as int),
        i / (PROCESS_COUNT_PER_PAGE as int) < ProcessManager::pages_needed(c),
{
    let per = PROCESS_COUNT_PER_PAGE as int;
    vstd::arithmetic::div_mod::lemma_mod_bound(i, per);
    vstd::arithmetic::div_mod::lemma_div_is_ordered(0, i, per);
    vstd::arithmetic::div_mod::lemma_div_is_ordered(i, c - 1, per);
}

/// A page just handed out by a one-page allocation is an owned page: it
/// starts a run of exactly one page.
proof fn lemma_fresh_alloc_owned(a0: PageAllocator, a1: PageAllocator, addr: int)
    requires
        a0.wf(),
        a1.wf(),
        a1.heap_start() == a0.heap_start(),
        a1.page_start() == a0.page_start(),
        first_fit_from(a0.pages(), a0.page_start(), 1) matches Some(i) && addr == a0.page_addr(i)
            && a1.pages() == alloc_apply(a0.pages(), i, 1),
    ensures
        owned_page(a1, addr),
        forall|x: int| owned_page(a0, x) ==> owned_page(a1, x),
        forall|x: int| owned_page(a0, x) ==> x != addr,
        first_fit_from(a0.pages(), a0.page_start(), 1) matches Some(i) ==> a1.page_index(addr)
            == i,
{
    crate::page::lemma_first_fit_props(a0.pages(), a0.page_start(), 1);
    let i = first_fit_from(a0.pages(), a0.page_start(), 1).unwrap();
    assert(a1.page_index(addr) == i) by (nonlinear_arith)
        requires
            addr == a0.heap_start() + i * (PAGE_SIZE as int),
            a1.heap_start() == a0.heap_start(),
            a1.page_index(addr) == (addr - a1.heap_start()) / (PAGE_SIZE as int),
            PAGE_SIZE as int == 4096,
    ;
    assert(addr % (PAGE_SIZE as int) == 0) by (nonlinear_arith)
        requires
            addr == a0.heap_start() + i * (PAGE_SIZE as int),
            a0.heap_start() % (PAGE_SIZE as int) == 0,
            i >= 0,
            PAGE_SIZE as int == 4096,
    ;
    assert forall|x: int| owned_page(a0, x) implies owned_page(a1, x) && x != addr by {
        let k = a0.page_index(x);
        assert(a1.page_index(x) == k);
        assert(a0.pages()[k].taken);
        assert(k != i);
        if k + 1 < a0.pages().len() && i == k + 1 {
            // the fresh page begins a run of its own, it does not extend this one
        }
    }
}

/// How many steps it takes to reach `x` from `cur` going forward in pid
/// order with wraparound.
pub open spec fn cyclic_distance(cur: int, x: int, len: int) -> int {
    if x > cur {
        x - cur
    } else {
        x - cur + len
    }
}

/// Round-robin never skips: as long as some other process is runnable, the
/// policy picks one, and whatever it picks lies — in cyclic pid order
/// starting just above the current process — no later than any other
/// runnable process. Repeated switches therefore reach every process that
/// stays runnable before coming back around.
pub proof fn lemma_round_robin_no_skip(procs: Seq<Process>, cur: int, q: int)
    requires
        0 <= cur < procs.len(),
        0 <= q < procs.len(),
        q != cur,
        runnable(procs[q].state),
    ensures
        next_runnable(procs, cur) is Some,
        next_runnable(procs, cur) matches Some(c) ==> cyclic_distance(cur, c, procs.len() as int)
            <= cyclic_distance(cur, q, procs.len() as int),
{
    lemma_first_runnable_props(procs, cur + 1, procs.len() as int);
    lemma_first_runnable_props(procs, 0, cur);
}

/// Round-robin progress: every switch strictly shrinks the cyclic distance
/// to any other process that stays runnable and was not itself chosen. A
/// runnable process is therefore reached after at most as many switches as
/// there are processes: repeated switching visits every process that stays
/// runnable before coming back around.
pub proof fn lemma_round_robin_progress(procs: Seq<Process>, cur: int, q: int)
    requires
        0 <= cur < procs.len(),
        0 <= q < procs.len(),
        q != cur,
        runnable(procs[q].state),
        next_runnable(procs, cur) matches Some(c) ==> c != q,
    ensures
        next_runnable(procs, cur) matches Some(c) ==> cyclic_distance(c, q, procs.len() as int)
            < cyclic_distance(cur, q, procs.len() as int),
{
    lemma_round_robin_no_skip(procs, cur, q);
    let len = procs.len() as int;
    let c = next_runnable(procs, cur).unwrap();
    lemma_first_runnable_props(procs, cur + 1, len);
    lemma_first_runnable_props(procs, 0, cur);
    assert(0 <= c < len);
    assert(cyclic_distance(cur, c, len) != cyclic_distance(cur, q, len));
}

/// One voluntary yield as a transition on the table's records: the running
/// process becomes `Waiting` and the process the round-robin policy picked
/// becomes `Running` — exactly the update [`ProcessManager::wait`]'s
/// contract fixes when a switch happens.
pub open spec fn yield_step_procs(procs: Seq<Process>, cur: int, c: int) -> Seq<Process> {
    procs.update(cur, with_state(procs[cur], ProcessState::Waiting)).update(
        c,
        with_state(procs[c], ProcessState::Running),
    )
}

/// The table and the current process after `k` consecutive yields, each
/// switching to the process the round-robin policy picks; a yield with no
/// other runnable process changes nothing.
pub open spec fn yield_chain(procs: Seq<Process>, cur: int, k: nat) -> (Seq<Process>, int)
    decreases k,
{
    if k == 0 {
        (procs, cur)
    } else {
        match next_runnable(procs, cur) {
            Some(c) => yield_chain(yield_step_procs(procs, cur, c), c, (k - 1) as nat),
            None => (procs, cur),
        }
    }
}

/// Scheduler liveness over consecutive yields: every runnable process is
/// the running process within at most its cyclic distance in yields. With
/// processes `0..k` all runnable, each of them therefore runs within `k`
/// yields — every process is visited before the round-robin order comes
/// back around.
pub proof fn lemma_yield_chain_visits(procs: Seq<Process>, cur: int, q: int)
    requires
        0 <= cur < procs.len(),
        0 <= q < procs.len(),
        q != cur,
        runnable(procs[q].state),
    ensures
        exists|j: int|
            1 <= j <= cyclic_distance(cur, q, procs.len() as int) && (#[trigger] yield_chain(
                procs,
                cur,
                j as nat,
            )).1 == q,
    decreases cyclic_distance(cur, q, procs.len() as int),
{
    reveal_with_fuel(yield_chain, 2);
    let len = procs.len() as int;
    lemma_round_robin_no_skip(procs, cur, q);
    lemma_first_runnable_props(procs, cur + 1, len);
    lemma_first_runnable_props(procs, 0, cur);
    let c = next_runnable(procs, cur).unwrap();
    if c == q {
        let j: int = 1;
        assert(1 <= j <= cyclic_distance(cur, q, len) && yield_chain(procs, cur, j as nat).1
            == q);
    } else {
        lemma_round_robin_progress(procs, cur, q);
        let p1 = yield_step_procs(procs, cur, c);
        assert(p1[q] == procs[q]);
        lemma_yield_chain_visits(p1, c, q);
        let j1 = choose|j: int|
            1 <= j <= cyclic_distance(c, q, len) && (#[trigger] yield_chain(p1, c, j as nat)).1
                == q;
        let j: int = j1 + 1;
        assert(yield_chain(procs, cur, j as nat) == yield_chain(p1, c, j1 as nat));
        assert(1 <= j <= cyclic_distance(cur, q, len) && yield_chain(procs, cur, j as nat).1
            == q);
    }
}

/// A scheduling decision touches only scheduling states: when the count,
/// the chain addresses and every record's stack are unchanged and no dead
/// process comes back to life, the table/allocator relation carries over.
pub proof fn lemma_schedule_preserves_wf_with(
    m0: ProcessManager,
    m1: ProcessManager,
    a: PageAllocator,
)
    requires
        m0.wf_with(a),
        m1.wf(),
        m1.count() == m0.count(),
        m1.page_addrs() == m0.page_addrs(),
        forall|i: int|
            0 <= i < m1.count() ==> (#[trigger] m1.procs()[i]).stack_start
                == m0.procs()[i].stack_start && (live(m1.procs()[i].state) ==> live(
                m0.procs()[i].state,
            )),
    ensures
        m1.wf_with(a),
{
    assert forall|q: int| 0 <= q < m1.chain().len() implies owned_page(
        a,
        #[trigger] m1.page_addrs()[q],
    ) by {
        assert(m1.page_addrs()[q] == m0.page_addrs()[q]);
        assert(owned_page(a, m0.page_addrs()[q]));
    }
    assert forall|i: int|
        0 <= i < m1.count() && live((#[trigger] m1.procs()[i]).state) implies owned_page(
        a,
        m1.procs()[i].stack_start as int,
    ) by {
        assert(live(m0.procs()[i].state));
        assert(owned_page(a, m0.procs()[i].stack_start as int));
    }
    assert forall|i: int, j: int|
        0 <= i < j < m1.count() && live(m1.procs()[i].state) && live(
            m1.procs()[j].state,
        ) implies (#[trigger] m1.procs()[i]).stack_start != (
    #[trigger] m1.procs()[j]).stack_start by {
        assert(live(m0.procs()[i].state) && live(m0.procs()[j].state));
    }
    assert forall|i: int, q: int|
        0 <= i < m1.count() && live((#[trigger] m1.procs()[i]).state) && 0 <= q
            < m1.chain().len() implies m1.procs()[i].stack_start != #[trigger] m1.page_addrs()[q] by {
        assert(live(m0.procs()[i].state));
        assert(m1.page_addrs()[q] == m0.page_addrs()[q]);
    }
}

} // verus!
