//! Tests for the spinlock, the interrupt controllers, the trap routing,
//! the register decoding and the console device.

use aves::clint::Clint;
use aves::cpu::{self, Mxlen};
use aves::plic::Plic;
use aves::sync::Mutex;
use aves::trap::{fault_cause, FaultCause, Trap, TrapFrame, TrapOutcome, MAX_TRAPS_COUNT};
use aves::uart::{Uart, UART_DIVISOR, UART_LCR_DLAB, UART_LCR_EIGHT_BITS};

#[test]
fn spinlock_exclusion() {
    let mut m = Mutex::new(7usize);
    let g1 = m.try_lock().expect("a released lock must be acquired");
    // a second acquirer loses the race while the guard is held
    assert!(m.try_lock().is_none());
    assert!(m.try_lock().is_none());
    assert_eq!(*m.data(&g1), 7);
    m.unlock(g1);
    // once released, the lock can be taken again
    let g2 = m.try_lock().expect("the lock was released");
    m.unlock(g2);
}

#[test]
fn spinlock_spin_lock_acquires() {
    let mut m = Mutex::new(1u32);
    let g = m.spin_lock();
    *m.data_mut(&g) = 2;
    m.unlock(g);
    let g = m.spin_lock();
    assert_eq!(*m.data(&g), 2);
    m.unlock(g);
}

#[test]
fn plic_claims_highest_priority() {
    let mut p = Plic::new();
    p.set_threshold(0);
    p.enable(3);
    p.enable(5);
    p.set_priority(3, 2);
    p.set_priority(5, 7);
    assert!(p.is_enabled(3) && p.is_enabled(5) && !p.is_enabled(4));
    assert_eq!(p.get_priority(5), 7);
    p.set_pending(3);
    p.set_pending(5);
    // the higher-priority source is served first
    assert_eq!(p.claim(), Some(5));
    assert_eq!(p.claim(), Some(3));
    assert_eq!(p.claim(), None);
}

#[test]
fn plic_tie_breaks_by_lowest_id() {
    let mut p = Plic::new();
    p.enable(4);
    p.enable(9);
    p.set_priority(4, 3);
    p.set_priority(9, 3);
    p.set_pending(9);
    p.set_pending(4);
    assert_eq!(p.claim(), Some(4));
    assert_eq!(p.claim(), Some(9));
}

#[test]
fn plic_threshold_masks_sources() {
    let mut p = Plic::new();
    p.enable(2);
    p.set_priority(2, 3);
    p.set_pending(2);
    p.set_threshold(3);
    // priority must exceed the threshold
    assert_eq!(p.claim(), None);
    p.set_threshold(2);
    assert_eq!(p.claim(), Some(2));
}

#[test]
fn plic_complete_reopens_source() {
    let mut p = Plic::new();
    p.enable(10);
    p.set_priority(10, 1);
    p.set_pending(10);
    assert_eq!(p.claim(), Some(10));
    p.complete(10);
    p.set_pending(10);
    assert_eq!(p.claim(), Some(10));
}

#[test]
fn plic_claimed_source_held_back_until_complete() {
    let mut p = Plic::new();
    p.enable(3);
    p.set_priority(3, 4);
    p.set_pending(3);
    assert_eq!(p.claim(), Some(3));
    // the source is raised again before the first claim is completed:
    // the gateway holds it back
    p.set_pending(3);
    assert_eq!(p.claim(), None);
    // only after completion can it be claimed once more
    p.complete(3);
    assert_eq!(p.claim(), Some(3));
}

#[test]
fn plic_disabled_source_not_claimed() {
    let mut p = Plic::new();
    p.set_priority(6, 5);
    p.set_pending(6);
    assert_eq!(p.claim(), None);
    p.enable(6);
    assert_eq!(p.claim(), Some(6));
}

#[test]
fn clint_registers() {
    let mut c = Clint::new(2);
    assert!(!c.get_msip(0) && !c.get_msip(1));
    c.set_msip(1);
    assert!(!c.get_msip(0) && c.get_msip(1));
    c.set_mtimecmp(0, 1_000);
    assert_eq!(c.get_mtimecmp(0), 1_000);
    assert_eq!(c.get_mtimecmp(1), 0);
    c.set_mtime(999);
    assert_eq!(c.get_mtime(), 999);
    assert!(!c.timer_pending(0));
    c.set_mtime(1_000);
    assert!(c.timer_pending(0));
}

#[test]
fn trap_classification() {
    let fault = Trap {
        mcause: 5,
        mtval: 0xDEAD,
        mepc: 0x8000_0042,
    };
    assert!(!fault.interrupt());
    assert_eq!(fault.code(), 5);
    assert_eq!(fault.val(), 0xDEAD);
    assert_eq!(fault.pc(), 0x8000_0042);
    assert_eq!(fault.outcome(), TrapOutcome::Fatal(5));

    let irq = Trap {
        mcause: (1usize << (usize::BITS - 1)) | 11,
        mtval: 0,
        mepc: 0x8000_0080,
    };
    assert!(irq.interrupt());
    assert_eq!(irq.code(), 11);
    assert_eq!(irq.outcome(), TrapOutcome::Ignored);
}

#[test]
fn fault_cause_names() {
    assert_eq!(fault_cause(0), Some(FaultCause::InstructionAddressMisaligned));
    assert_eq!(fault_cause(1), Some(FaultCause::InstructionAccessFault));
    assert_eq!(fault_cause(2), Some(FaultCause::IllegalInstruction));
    assert_eq!(fault_cause(3), Some(FaultCause::Breakpoint));
    assert_eq!(fault_cause(4), Some(FaultCause::LoadAddressMisaligned));
    assert_eq!(fault_cause(5), Some(FaultCause::LoadAccessFault));
    assert_eq!(fault_cause(6), Some(FaultCause::StoreAddressMisaligned));
    assert_eq!(fault_cause(7), Some(FaultCause::StoreAccessFault));
    assert_eq!(fault_cause(12), Some(FaultCause::InstructionPageFault));
    assert_eq!(fault_cause(13), Some(FaultCause::LoadPageFault));
    assert_eq!(fault_cause(15), Some(FaultCause::StorePageFault));
    // unrecognized codes fall back to a numeric report
    assert_eq!(fault_cause(8), None);
    assert_eq!(fault_cause(16), None);
}

#[test]
fn trap_frame_records_and_wraps() {
    let mut f = TrapFrame::new();
    assert_eq!(f.traps_count, 0);
    for i in 0..MAX_TRAPS_COUNT {
        f.record(Trap {
            mcause: i,
            mtval: 0,
            mepc: i,
        });
    }
    assert_eq!(f.traps_count, MAX_TRAPS_COUNT);
    assert_eq!(f.traps.len(), MAX_TRAPS_COUNT);
    assert_eq!(f.traps[0].mcause, 0);
    // one more trap overwrites the oldest slot
    f.record(Trap {
        mcause: 777,
        mtval: 0,
        mepc: 0,
    });
    assert_eq!(f.traps_count, MAX_TRAPS_COUNT + 1);
    assert_eq!(f.traps.len(), MAX_TRAPS_COUNT);
    assert_eq!(f.traps[0].mcause, 777);
    assert_eq!(f.traps[1].mcause, 1);
}

#[test]
fn isa_decoding() {
    // an all-zero word means the register is not implemented
    assert_eq!(cpu::decode_isa(0), None);
    // length field 2, atomic + integer + multiply extensions
    let raw = (2usize << (usize::BITS - 2)) | (cpu::EXT_ATOMIC | cpu::EXT_INT | cpu::EXT_MATH)
        as usize;
    let isa = cpu::decode_isa(raw).unwrap();
    assert_eq!(isa.mxlen, Mxlen::Len64);
    assert!(isa.extensions.contains(cpu::EXT_ATOMIC));
    assert!(isa.extensions.contains(cpu::EXT_INT | cpu::EXT_MATH));
    assert!(!isa.extensions.contains(cpu::EXT_FLOAT64));
    // length field 1 and 3
    let isa32 = cpu::decode_isa((1usize << (usize::BITS - 2)) | 1).unwrap();
    assert_eq!(isa32.mxlen, Mxlen::Len32);
    let isa128 = cpu::decode_isa(3usize << (usize::BITS - 2)).unwrap();
    assert_eq!(isa128.mxlen, Mxlen::Len128);
    // an out-of-range length field is rejected
    assert_eq!(cpu::decode_isa(1), None);
    // undefined extension bits are dropped
    let noisy = cpu::decode_isa((2usize << (usize::BITS - 2)) | (1 << 6)).unwrap();
    assert_eq!(noisy.extensions.bits, 0);
}

#[test]
fn uart_init_program() {
    let u = Uart::new(0x1000_0000);
    let writes = u.init_writes();
    assert_eq!(
        writes,
        vec![
            (3, UART_LCR_EIGHT_BITS),
            (2, 0b0000_0001),
            (1, 0b0000_0001),
            (3, UART_LCR_DLAB | UART_LCR_EIGHT_BITS),
            (0, (UART_DIVISOR & 0xFF) as u8),
            (1, (UART_DIVISOR >> 8) as u8),
            (3, UART_LCR_EIGHT_BITS),
        ]
    );
    // the divisor bytes are 592 split little-endian
    assert_eq!(writes[4].1, 80);
    assert_eq!(writes[5].1, 2);
}

#[test]
fn uart_read_decoding() {
    // data-ready clear: no byte, whatever the data register holds
    assert_eq!(Uart::decode_read(0b0000_0000, 0x41), None);
    assert_eq!(Uart::decode_read(0b0110_0000, 0x41), None);
    // data-ready set: the data register holds the received byte
    assert_eq!(Uart::decode_read(0b0000_0001, 0x41), Some(0x41));
    assert_eq!(Uart::decode_read(0b0110_0001, 0x07), Some(0x07));
}
