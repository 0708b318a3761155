//! The serial console device: the register program that brings a 16550
//! transceiver up, and the decoding of its read path.
//!
//! The volatile byte accesses to the device's registers are the runtime's;
//! this module states which offsets are written with which values, and what
//! a read of the data register means given the line-status register.

use vstd::prelude::*;

verus! {

/// Line-control value selecting a word length of eight bits.
pub const UART_LCR_EIGHT_BITS: u8 = 0b0000_0011;

/// Line-control bit that exposes the divisor latch.
pub const UART_LCR_DLAB: u8 = 0b1000_0000;

/// Clock divisor for the target baud rate.
pub const UART_DIVISOR: u16 = 592;

/// A serial transceiver at a fixed base address.
pub struct Uart {
    base_addr: usize,
}

impl Uart {
    /// The device's base address.
    pub closed spec fn base_addr(self) -> usize {
        self.base_addr
    }

    /// A transceiver whose registers start at the given address.
    pub fn new(base_addr: usize) -> (r: Uart)
        ensures
            r.base_addr() == base_addr,
    {
        Uart { base_addr }
    }

    /// The initialization program: the register offsets (relative to the
    /// base address) and values to write, in order. It sets the word length
    /// to eight bits, enables the receive queue and its data-ready
    /// interrupt, and programs the clock divisor behind the divisor latch.
    pub fn init_writes(&self) -> (r: Vec<(usize, u8)>)
        ensures
            r@ == seq![
                (3usize, UART_LCR_EIGHT_BITS),
                (2usize, 0b0000_0001u8),
                (1usize, 0b0000_0001u8),
                (3usize, UART_LCR_DLAB | UART_LCR_EIGHT_BITS),
                (0usize, (UART_DIVISOR & 0xFF) as u8),
                (1usize, (UART_DIVISOR >> 8) as u8),
                (3usize, UART_LCR_EIGHT_BITS),
            ],
    {
        let divisor_least = (UART_DIVISOR & 0xFF) as u8;
        let divisor_most = (UART_DIVISOR >> 8) as u8;
        let mut writes: Vec<(usize, u8)> = Vec::new();
        writes.push((3, UART_LCR_EIGHT_BITS));
        writes.push((2, 0b0000_0001));
        writes.push((1, 0b0000_0001));
        writes.push((3, UART_LCR_DLAB | UART_LCR_EIGHT_BITS));
        writes.push((0, divisor_least));
        writes.push((1, divisor_most));
        writes.push((3, UART_LCR_EIGHT_BITS));
        proof {
            assert(writes@ =~= seq![
                (3usize, UART_LCR_EIGHT_BITS),
                (2usize, 0b0000_0001u8),
                (1usize, 0b0000_0001u8),
                (3usize, UART_LCR_DLAB | UART_LCR_EIGHT_BITS),
                (0usize, (UART_DIVISOR & 0xFF) as u8),
                (1usize, (UART_DIVISOR >> 8) as u8),
                (3usize, UART_LCR_EIGHT_BITS),
            ]);
        }
        writes
    }

    /// What a read of the receive register means: with the data-ready bit
    /// of the line-status register clear there is no input, otherwise the
    /// data register holds the received byte.
    pub fn decode_read(lsr: u8, data: u8) -> (r: Option<u8>)
        ensures
            r == (if lsr & 1 == 0 {
                Option::<u8>::None
            } else {
                Option::Some(data)
            }),
    {
        if lsr & 1 == 0 {
            None
        } else {
            Some(data)
        }
    }
}

} // verus!
