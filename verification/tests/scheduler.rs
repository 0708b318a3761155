//! Tests for the process table and the cooperative round-robin scheduler.

use aves::page::{PageAllocator, PAGE_SIZE};
use aves::process::{ProcessManager, ScheduleOutcome, PROCESS_COUNT_PER_PAGE};

const HEAP_START: usize = 0x8000_0000;

fn setup(pages: usize) -> (PageAllocator, ProcessManager) {
    let mut a = PageAllocator::new(HEAP_START, pages * PAGE_SIZE);
    let m = ProcessManager::init(&mut a).unwrap();
    (a, m)
}

#[test]
fn spawn_assigns_consecutive_pids() {
    let (mut a, mut m) = setup(64);
    assert_eq!(m.spawn(&mut a, 0x1000, b"[init]".to_vec()).unwrap(), 0);
    assert_eq!(m.spawn(&mut a, 0x2000, b"[shell]".to_vec()).unwrap(), 1);
    assert_eq!(m.spawn(&mut a, 0x3000, b"[idle]".to_vec()).unwrap(), 2);
    assert_eq!(m.get(1).name(), &b"[shell]".to_vec());
}

#[test]
fn spawn_sets_up_context() {
    let (mut a, mut m) = setup(64);
    let pid = m.spawn(&mut a, 0xCAFE, b"[a]".to_vec()).unwrap();
    let p = m.get(pid);
    assert_eq!(p.pid, pid);
    assert_eq!(p.parent_pid, 0);
    assert_eq!(p.context.pc, 0xCAFE);
    assert_eq!(p.context.sp, p.stack_end);
    assert_eq!(p.stack_end, p.stack_start + PAGE_SIZE);
    assert_eq!(p.stack_start % PAGE_SIZE, 0);
    assert!(p.context.sx.iter().all(|&r| r == 0));
    assert_eq!(p.context.sx.len(), 12);
}

#[test]
fn spawn_grows_chain_after_a_page_fills() {
    let (mut a, mut m) = setup(128);
    // fill one chain page worth of processes, then one more
    for i in 0..(PROCESS_COUNT_PER_PAGE + 1) {
        let pid = m.spawn(&mut a, 0x1000 + i, b"[p]".to_vec()).unwrap();
        assert_eq!(pid, i);
    }
    // every record is still reachable after the chain grew
    for i in 0..(PROCESS_COUNT_PER_PAGE + 1) {
        assert_eq!(m.get(i).pid, i);
        assert_eq!(m.get(i).context.pc, 0x1000 + i);
    }
}

#[test]
fn spawn_stacks_are_distinct() {
    let (mut a, mut m) = setup(64);
    let p0 = m.spawn(&mut a, 0x1, b"[a]".to_vec()).unwrap();
    let p1 = m.spawn(&mut a, 0x2, b"[b]".to_vec()).unwrap();
    assert_ne!(m.get(p0).stack_start, m.get(p1).stack_start);
}

#[test]
fn spawn_propagates_allocation_failure() {
    // 3 pages: metadata + chain page + one stack page
    let (mut a, mut m) = setup(3);
    assert!(m.spawn(&mut a, 0x1, b"[a]".to_vec()).is_ok());
    // no page is left for a second stack
    assert!(m.spawn(&mut a, 0x2, b"[b]".to_vec()).is_err());
    // the failed spawn left the table untouched
    assert_eq!(m.spawn(&mut a, 0x3, b"[c]".to_vec()).err().is_some(), true);
    assert_eq!(m.get(0).pid, 0);
}

#[test]
fn start_schedule_picks_first_runnable() {
    let (mut a, mut m) = setup(64);
    m.spawn(&mut a, 0x1, b"[a]".to_vec()).unwrap();
    m.spawn(&mut a, 0x2, b"[b]".to_vec()).unwrap();
    match m.start_schedule() {
        ScheduleOutcome::SwitchTo(p) => assert_eq!(p, 0),
        ScheduleOutcome::Halt => panic!("a runnable process existed"),
    }
    assert_eq!(m.pid(), 0);
}

#[test]
fn start_schedule_halts_with_no_process() {
    let (_a, mut m) = setup(64);
    assert_eq!(m.start_schedule(), ScheduleOutcome::Halt);
}

#[test]
fn wait_without_running_process_is_noop() {
    let (mut a, mut m) = setup(64);
    m.spawn(&mut a, 0x1, b"[a]".to_vec()).unwrap();
    assert_eq!(m.wait(), None);
}

#[test]
fn wait_alone_returns_immediately() {
    let (mut a, mut m) = setup(64);
    m.spawn(&mut a, 0x1, b"[a]".to_vec()).unwrap();
    m.start_schedule();
    // no other runnable process: no switch
    assert_eq!(m.wait(), None);
    assert_eq!(m.pid(), 0);
}

#[test]
fn round_robin_order_after_yield() {
    let (mut a, mut m) = setup(64);
    for i in 0..3 {
        m.spawn(&mut a, 0x1000 + i, b"[p]".to_vec()).unwrap();
    }
    // P0 runs first, then each yield passes to the next pid in order,
    // wrapping back to P0
    assert_eq!(m.start_schedule(), ScheduleOutcome::SwitchTo(0));
    let s1 = m.wait().unwrap();
    assert_eq!((s1.from, s1.to), (0, 1));
    let s2 = m.wait().unwrap();
    assert_eq!((s2.from, s2.to), (1, 2));
    let s3 = m.wait().unwrap();
    assert_eq!((s3.from, s3.to), (2, 0));
    assert_eq!(m.pid(), 0);
}

#[test]
fn get_next_process_wraps_and_skips() {
    let (mut a, mut m) = setup(64);
    for i in 0..4 {
        m.spawn(&mut a, 0x1000 + i, b"[p]".to_vec()).unwrap();
    }
    m.start_schedule();
    // from the running process 0, the next is 1
    assert_eq!(m.get_next_process(0), Some(1));
    // from the last pid the search wraps to the front
    assert_eq!(m.get_next_process(3), Some(1));
}

#[test]
fn scheduler_liveness_every_process_runs() {
    let k = 5;
    let (mut a, mut m) = setup(64);
    for i in 0..k {
        m.spawn(&mut a, 0x1000 + i, b"[p]".to_vec()).unwrap();
    }
    // each process waits exactly once and then exits
    let mut waits_left = vec![1usize; k];
    let mut ran = vec![false; k];
    let mut current = match m.start_schedule() {
        ScheduleOutcome::SwitchTo(p) => p,
        ScheduleOutcome::Halt => panic!("runnable processes existed"),
    };
    ran[current] = true;
    let mut steps = 0;
    loop {
        steps += 1;
        assert!(steps < 100, "scheduler failed to wind down");
        if waits_left[current] > 0 {
            waits_left[current] -= 1;
            if let Some(switch) = m.wait() {
                assert_eq!(switch.from, current);
                current = switch.to;
                ran[current] = true;
            }
        } else {
            match m.exit(&mut a) {
                ScheduleOutcome::SwitchTo(p) => {
                    current = p;
                    ran[current] = true;
                }
                ScheduleOutcome::Halt => break,
            }
        }
    }
    // every process was visited before the hart halted
    assert!(ran.iter().all(|&r| r));
}

#[test]
fn exit_reclaims_stack_page() {
    let (mut a, mut m) = setup(64);
    m.spawn(&mut a, 0x1, b"[a]".to_vec()).unwrap();
    m.start_schedule();
    let stack = m.get(0).stack_start;
    assert_eq!(m.exit(&mut a), ScheduleOutcome::Halt);
    // the freed stack page is the lowest free page, so a one-page
    // allocation gets exactly it back
    assert_eq!(a.allocate(1).unwrap(), stack);
}

#[test]
fn exit_switches_to_next_runnable() {
    let (mut a, mut m) = setup(64);
    m.spawn(&mut a, 0x1, b"[a]".to_vec()).unwrap();
    m.spawn(&mut a, 0x2, b"[b]".to_vec()).unwrap();
    m.start_schedule();
    assert_eq!(m.exit(&mut a), ScheduleOutcome::SwitchTo(1));
    assert_eq!(m.pid(), 1);
    // the dead process keeps its record but loses its context
    let dead = m.get(0);
    assert_eq!(dead.context.pc, 0);
    assert_eq!(dead.context.sp, 0);
}

#[test]
fn exit_without_running_process_halts() {
    let (mut a, mut m) = setup(64);
    m.spawn(&mut a, 0x1, b"[a]".to_vec()).unwrap();
    assert_eq!(m.exit(&mut a), ScheduleOutcome::Halt);
}

#[test]
fn end_to_end_two_processes() {
    let (mut a, mut m) = setup(64);
    // process A waits once and then returns; process B loops forever
    let pa = m.spawn(&mut a, 0xA000, b"[a]".to_vec()).unwrap();
    let pb = m.spawn(&mut a, 0xB000, b"[b]".to_vec()).unwrap();
    let a_stack = m.get(pa).stack_start;

    // A runs first
    assert_eq!(m.start_schedule(), ScheduleOutcome::SwitchTo(pa));
    // A yields: B runs
    let s = m.wait().unwrap();
    assert_eq!((s.from, s.to), (pa, pb));
    // B yields: A resumes
    let s = m.wait().unwrap();
    assert_eq!((s.from, s.to), (pb, pa));
    // A returns from its entry point: it exits, freeing its stack, and B
    // is resumed
    assert_eq!(m.exit(&mut a), ScheduleOutcome::SwitchTo(pb));
    assert_eq!(a.allocate(1).unwrap(), a_stack);
    // from now on B is the only runnable process: every yield returns
    // immediately and B keeps running
    assert_eq!(m.wait(), None);
    assert_eq!(m.wait(), None);
    assert_eq!(m.pid(), pb);
}
