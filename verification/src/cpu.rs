//! Decoding of hart-local control/status register values.
//!
//! The registers themselves are read and written by dedicated instructions
//! outside this crate; what can be verified is the interpretation of the raw
//! words they hold. The ISA register packs the maximum instruction length
//! into its top two bits and one flag per supported extension into its low
//! bits.

use vstd::prelude::*;

verus! {

/// Atomic extension.
pub const EXT_ATOMIC: u32 = 1 << 0;

/// Tentatively reserved for the bit-manipulation extension.
pub const EXT_BIT_MANIP: u32 = 1 << 1;

/// Compressed extension.
pub const EXT_COMPRESSED: u32 = 1 << 2;

/// Double-precision floating-point extension.
pub const EXT_FLOAT64: u32 = 1 << 3;

/// Reduced-register base ISA.
pub const EXT_EMBEDDED: u32 = 1 << 4;

/// Single-precision floating-point extension.
pub const EXT_FLOAT32: u32 = 1 << 5;

/// Hypervisor extension.
pub const EXT_HYPERVISOR: u32 = 1 << 7;

/// Base integer instruction set.
pub const EXT_INT: u32 = 1 << 8;

/// Integer multiply/divide extension.
pub const EXT_MATH: u32 = 1 << 12;

/// Tentatively reserved for the packed-SIMD extension.
pub const EXT_PACKED_SIMD: u32 = 1 << 15;

/// Quad-precision floating-point extension.
pub const EXT_FLOAT128: u32 = 1 << 16;

/// Supervisor mode implemented.
pub const EXT_SUPERVISOR: u32 = 1 << 18;

/// User mode implemented.
pub const EXT_USER: u32 = 1 << 20;

/// Non-standard extensions present.
pub const EXT_NON_STANDARD: u32 = 1 << 23;

/// Every extension flag this crate knows.
pub const EXT_ALL: u32 = EXT_ATOMIC | EXT_BIT_MANIP | EXT_COMPRESSED | EXT_FLOAT64 | EXT_EMBEDDED
    | EXT_FLOAT32 | EXT_HYPERVISOR | EXT_INT | EXT_MATH | EXT_PACKED_SIMD | EXT_FLOAT128
    | EXT_SUPERVISOR | EXT_USER | EXT_NON_STANDARD;

/// The low bits of the ISA register that hold one flag per extension letter.
pub const ISA_EXTENSION_MASK: usize = 0x03FF_FFFF;

/// Interrupt-enable flag: supervisor software interrupts.
pub const MIE_SSIE: u16 = 1 << 1;

/// Interrupt-enable flag: machine software interrupts.
pub const MIE_MSIE: u16 = 1 << 3;

/// Interrupt-enable flag: supervisor timer interrupts.
pub const MIE_STIE: u16 = 1 << 5;

/// Interrupt-enable flag: machine timer interrupts.
pub const MIE_MTIE: u16 = 1 << 7;

/// Interrupt-enable flag: supervisor external interrupts.
pub const MIE_SEIE: u16 = 1 << 9;

/// Interrupt-enable flag: machine external interrupts.
pub const MIE_MEIE: u16 = 1 << 11;

/// Extensions supported by the ISA, as a set of flag bits.
#[derive(Clone, Copy, PartialEq, Eq, Structural, Debug)]
pub struct Extensions {
    /// The raw flag bits; only bits of [`EXT_ALL`] are ever set.
    pub bits: u32,
}

impl Extensions {
    /// Keep the known flag bits of a raw word and drop the rest.
    pub fn from_bits_truncate(bits: u32) -> (r: Extensions)
        ensures
            r.bits == bits & EXT_ALL,
    {
        Extensions { bits: bits & EXT_ALL }
    }

    /// All of the given flags are present.
    pub fn contains(&self, flags: u32) -> (r: bool)
        ensures
            r == (self.bits & flags == flags),
    {
        self.bits & flags == flags
    }
}

/// Maximum instruction length of the ISA.
#[derive(Clone, Copy, PartialEq, Eq, Structural, Debug)]
pub enum Mxlen {
    /// Encoded as 1 in the top two bits of the ISA register.
    Len32,
    /// Encoded as 2.
    Len64,
    /// Encoded as 3.
    Len128,
}

/// What the ISA register describes.
#[derive(Clone, Copy, PartialEq, Eq, Structural, Debug)]
pub struct Isa {
    /// Maximum instruction length.
    pub mxlen: Mxlen,
    /// Supported extensions.
    pub extensions: Extensions,
}

/// The decoding of a raw ISA register word: `None` for a zero word (the
/// register is not implemented) or an out-of-range length field.
pub open spec fn spec_decode_isa(raw: usize) -> Option<Isa> {
    if raw == 0 {
        None
    } else {
        let raw_mxlen = raw >> (usize::BITS - 2);
        let bits = ((raw & ISA_EXTENSION_MASK) as u32) & EXT_ALL;
        if raw_mxlen == 1 {
            Some(Isa { mxlen: Mxlen::Len32, extensions: Extensions { bits } })
        } else if raw_mxlen == 2 {
            Some(Isa { mxlen: Mxlen::Len64, extensions: Extensions { bits } })
        } else if raw_mxlen == 3 {
            Some(Isa { mxlen: Mxlen::Len128, extensions: Extensions { bits } })
        } else {
            None
        }
    }
}

/// Decode the raw word of the ISA register: the maximum instruction length
/// from its top two bits, the supported extensions from its low bits.
pub fn decode_isa(raw: usize) -> (r: Option<Isa>)
    ensures
        r == spec_decode_isa(raw),
{
    if raw == 0 {
        return None;
    }
    let raw_mxlen = raw >> (usize::BITS - 2);
    let extensions = Extensions::from_bits_truncate((raw & ISA_EXTENSION_MASK) as u32);
    let mxlen = if raw_mxlen == 1 {
        Mxlen::Len32
    } else if raw_mxlen == 2 {
        Mxlen::Len64
    } else if raw_mxlen == 3 {
        Mxlen::Len128
    } else {
        return None;
    };
    Some(Isa { mxlen, extensions })
}

} // verus!
