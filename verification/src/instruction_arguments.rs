//! Operand types of the instruction set: registers, immediates and addresses.

use vstd::prelude::*;

verus! {

/// One of the sixteen named registers.
///
/// The declaration order fixes the 4-bit encoding of each register: the
/// stack pointer, frame pointer, output register and flags register occupy
/// the low indices, the general-purpose registers `R10`, `R11` and
/// `R0`..`R9` fill the rest.
#[derive(Clone, Copy, PartialEq, Eq, Debug, Hash, Structural)]
pub enum Register {
    RSP,
    RFP,
    ROU,
    RFL,
    R10,
    R11,
    R0,
    R1,
    R2,
    R3,
    R4,
    R5,
    R6,
    R7,
    R8,
    R9,
}

impl Register {
    /// The 4-bit index of this register in the register bank.
    pub fn index(self) -> (r: u8)
        ensures
            r == self.idx(),
    {
        match self {
            Register::RSP => 0,
            Register::RFP => 1,
            Register::ROU => 2,
            Register::RFL => 3,
            Register::R10 => 4,
            Register::R11 => 5,
            Register::R0 => 6,
            Register::R1 => 7,
            Register::R2 => 8,
            Register::R3 => 9,
            Register::R4 => 10,
            Register::R5 => 11,
            Register::R6 => 12,
            Register::R7 => 13,
            Register::R8 => 14,
            Register::R9 => 15,
        }
    }

    pub open spec fn idx(self) -> u8 {
        match self {
            Register::RSP => 0,
            Register::RFP => 1,
            Register::ROU => 2,
            Register::RFL => 3,
            Register::R10 => 4,
            Register::R11 => 5,
            Register::R0 => 6,
            Register::R1 => 7,
            Register::R2 => 8,
            Register::R3 => 9,
            Register::R4 => 10,
            Register::R5 => 11,
            Register::R6 => 12,
            Register::R7 => 13,
            Register::R8 => 14,
            Register::R9 => 15,
        }
    }

    /// The register encoded by the low four bits of `bits`; the upper four
    /// bits are ignored.
    pub fn from_bits(bits: u8) -> (r: Register)
        ensures
            r == Register::spec_from_bits(bits),
    {
        match bits & 0xF {
            0 => Register::RSP,
            1 => Register::RFP,
            2 => Register::ROU,
            3 => Register::RFL,
            4 => Register::R10,
            5 => Register::R11,
            6 => Register::R0,
            7 => Register::R1,
            8 => Register::R2,
            9 => Register::R3,
            10 => Register::R4,
            11 => Register::R5,
            12 => Register::R6,
            13 => Register::R7,
            14 => Register::R8,
            _ => Register::R9,
        }
    }

    pub open spec fn spec_from_bits(bits: u8) -> Register {
        match bits & 0xF {
            0 => Register::RSP,
            1 => Register::RFP,
            2 => Register::ROU,
            3 => Register::RFL,
            4 => Register::R10,
            5 => Register::R11,
            6 => Register::R0,
            7 => Register::R1,
            8 => Register::R2,
            9 => Register::R3,
            10 => Register::R4,
            11 => Register::R5,
            12 => Register::R6,
            13 => Register::R7,
            14 => Register::R8,
            _ => Register::R9,
        }
    }
}

/// An 8-byte little-endian immediate operand, stored as its raw 64 bits.
#[derive(Clone, Copy, PartialEq, Eq, Debug, Hash, Structural)]
pub struct Immediate {
    pub bits: u64,
}

impl Immediate {
    /// The number of payload bytes an immediate occupies.
    pub const BYTES: usize = 8;

    pub fn new(bits: u64) -> (r: Immediate)
        ensures
            r.bits == bits,
    {
        Immediate { bits }
    }

    /// The raw 64 bits, read as an unsigned integer.
    pub fn as_u64(self) -> (r: u64)
        ensures
            r == self.bits,
    {
        self.bits
    }

    /// The raw 64 bits, reinterpreted as a two's-complement signed integer.
    pub fn as_i64(self) -> (r: i64)
        ensures
            r == self.bits as i64,
    {
        self.bits as i64
    }
}

/// An 8-byte little-endian address operand: an instruction index for
/// branches, or a heap key for address-directed instructions.
#[derive(Clone, Copy, PartialEq, Eq, Debug, Hash, Structural)]
pub struct Address {
    pub bits: u64,
}

impl Address {
    /// The number of payload bytes an address occupies.
    pub const BYTES: usize = 8;

    pub fn new(bits: u64) -> (r: Address)
        ensures
            r.bits == bits,
    {
        Address { bits }
    }

    pub fn as_u64(self) -> (r: u64)
        ensures
            r == self.bits,
    {
        self.bits
    }
}

} // verus!
