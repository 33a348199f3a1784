//! The typed instruction set and its binary encoding tables.
//!
//! An instruction is encoded as an opcode byte, followed by its immediates
//! (8 little-endian bytes each), then its addresses (8 little-endian bytes
//! each), then its registers packed two per byte, high nibble first. For
//! each opcode the number of operands of each kind is fixed; the three
//! count functions below are that table.

use vstd::prelude::*;

use crate::instruction_arguments::Address;
use crate::instruction_arguments::Immediate;
use crate::instruction_arguments::Register;

verus! {

/// A decoded instruction: the opcode together with its full operand tuple.
#[derive(Clone, Copy, PartialEq, Eq, Debug, Structural)]
pub enum Instruction {
    Nop,
    Syscall(Immediate),
    Ldb(Immediate, Register),
    Ldi(Immediate, Register),
    Ldf(Immediate, Register),
    Mov(Register, Register),
    Push(Register),
    Pop(Register),
    Sget(Register, Register),
    Malloc(Register, Register),
    Malloci(Immediate, Register),
    Free(Register),
    Freea(Address),
    Setb(Register, Register, Register),
    Seti(Register, Register, Register),
    Isetb(Immediate, Register, Register),
    Iseti(Immediate, Register, Register),
    Getb(Register, Register, Register),
    Geti(Register, Register, Register),
    Igetb(Immediate, Register, Register),
    Igeti(Immediate, Register, Register),
    Last(Register, Register),
    Length(Register, Register),
    Clone(Register, Register),
    Copy(Register, Register, Register, Register, Register),
    Copyi(Immediate, Immediate, Immediate, Register, Register),
    Addi(Register, Register, Register),
    Subi(Register, Register, Register),
    Muli(Register, Register, Register),
    Divi(Register, Register, Register),
    Modi(Register, Register, Register),
    Addu(Register, Register, Register),
    Subu(Register, Register, Register),
    Mulu(Register, Register, Register),
    Divu(Register, Register, Register),
    Modu(Register, Register, Register),
    Addf(Register, Register, Register),
    Subf(Register, Register, Register),
    Mulf(Register, Register, Register),
    Divf(Register, Register, Register),
    Rotl(Register, Register),
    Rotli(Immediate, Register),
    Rotr(Register, Register),
    Rotri(Immediate, Register),
    Sll(Register, Register),
    Slli(Immediate, Register),
    Srl(Register, Register),
    Srli(Immediate, Register),
    Not(Register),
    And(Register, Register, Register),
    Or(Register, Register, Register),
    Xor(Register, Register, Register),
    Cmp(Register, Register),
    Cmpi(Register, Register),
    Cmpf(Register, Register),
    Jmp(Address),
    Jeq(Address),
    Jne(Address),
    Jge(Address),
    Jgt(Address),
    Jle(Address),
    Jlt(Address),
    I2f(Register),
    F2i(Register),
    Swpa(Address, Address),
    Swpar(Register, Register),
    Swpr(Register, Register),
    Call(Address),
    Ret,
    Halt,
}

impl Instruction {
    /// How many 8-byte immediates the given opcode carries, or `None` for
    /// an unknown opcode.
    pub fn immediate_count(opcode: u8) -> (r: Option<u8>)
        ensures
            r == Instruction::spec_immediate_count(opcode),
    {
        if opcode > 0x45 {
            None
        } else {
            match opcode {
                0x01 | 0x02 | 0x03 | 0x04 | 0x0a | 0x0f | 0x10 | 0x13 | 0x14 | 0x29 | 0x2b
                    | 0x2d | 0x2f => Some(1),
                0x19 => Some(3),
                _ => Some(0),
            }
        }
    }

    pub open spec fn spec_immediate_count(opcode: u8) -> Option<u8> {
        if opcode > 0x45 {
            None
        } else {
            match opcode {
                0x01 | 0x02 | 0x03 | 0x04 | 0x0a | 0x0f | 0x10 | 0x13 | 0x14 | 0x29 | 0x2b
                    | 0x2d | 0x2f => Some(1),
                0x19 => Some(3),
                _ => Some(0),
            }
        }
    }

    /// How many 8-byte addresses the given opcode carries, or `None` for an
    /// unknown opcode.
    pub fn address_count(opcode: u8) -> (r: Option<u8>)
        ensures
            r == Instruction::spec_address_count(opcode),
    {
        if opcode > 0x45 {
            None
        } else {
            match opcode {
                0x0c | 0x37 | 0x38 | 0x39 | 0x3a | 0x3b | 0x3c | 0x3d | 0x43 => Some(1),
                0x40 => Some(2),
                _ => Some(0),
            }
        }
    }

    pub open spec fn spec_address_count(opcode: u8) -> Option<u8> {
        if opcode > 0x45 {
            None
        } else {
            match opcode {
                0x0c | 0x37 | 0x38 | 0x39 | 0x3a | 0x3b | 0x3c | 0x3d | 0x43 => Some(1),
                0x40 => Some(2),
                _ => Some(0),
            }
        }
    }

    /// How many packed registers the given opcode carries, or `None` for an
    /// unknown opcode.
    pub fn register_count(opcode: u8) -> (r: Option<u8>)
        ensures
            r == Instruction::spec_register_count(opcode),
    {
        if opcode > 0x45 {
            None
        } else {
            match opcode {
                0x00 | 0x01 | 0x0c | 0x37 | 0x38 | 0x39 | 0x3a | 0x3b | 0x3c | 0x3d | 0x40
                    | 0x43 | 0x44 | 0x45 => Some(0),
                0x02 | 0x03 | 0x04 | 0x06 | 0x07 | 0x0a | 0x0b | 0x29 | 0x2b | 0x2d | 0x2f
                    | 0x30 | 0x3e | 0x3f => Some(1),
                0x0d | 0x0e | 0x11 | 0x12 | 0x1a | 0x1b | 0x1c | 0x1d | 0x1e | 0x1f | 0x20
                    | 0x21 | 0x22 | 0x23 | 0x24 | 0x25 | 0x26 | 0x27 | 0x31 | 0x32 | 0x33 => Some(
                    3,
                ),
                0x18 => Some(5),
                _ => Some(2),
            }
        }
    }

    pub open spec fn spec_register_count(opcode: u8) -> Option<u8> {
        if opcode > 0x45 {
            None
        } else {
            match opcode {
                0x00 | 0x01 | 0x0c | 0x37 | 0x38 | 0x39 | 0x3a | 0x3b | 0x3c | 0x3d | 0x40
                    | 0x43 | 0x44 | 0x45 => Some(0),
                0x02 | 0x03 | 0x04 | 0x06 | 0x07 | 0x0a | 0x0b | 0x29 | 0x2b | 0x2d | 0x2f
                    | 0x30 | 0x3e | 0x3f => Some(1),
                0x0d | 0x0e | 0x11 | 0x12 | 0x1a | 0x1b | 0x1c | 0x1d | 0x1e | 0x1f | 0x20
                    | 0x21 | 0x22 | 0x23 | 0x24 | 0x25 | 0x26 | 0x27 | 0x31 | 0x32 | 0x33 => Some(
                    3,
                ),
                0x18 => Some(5),
                _ => Some(2),
            }
        }
    }

    /// The opcode byte of this instruction.
    pub open spec fn opcode(self) -> u8 {
        match self {
            Instruction::Nop => 0x00,
            Instruction::Syscall(..) => 0x01,
            Instruction::Ldb(..) => 0x02,
            Instruction::Ldi(..) => 0x03,
            Instruction::Ldf(..) => 0x04,
            Instruction::Mov(..) => 0x05,
            Instruction::Push(..) => 0x06,
            Instruction::Pop(..) => 0x07,
            Instruction::Sget(..) => 0x08,
            Instruction::Malloc(..) => 0x09,
            Instruction::Malloci(..) => 0x0a,
            Instruction::Free(..) => 0x0b,
            Instruction::Freea(..) => 0x0c,
            Instruction::Setb(..) => 0x0d,
            Instruction::Seti(..) => 0x0e,
            Instruction::Isetb(..) => 0x0f,
            Instruction::Iseti(..) => 0x10,
            Instruction::Getb(..) => 0x11,
            Instruction::Geti(..) => 0x12,
            Instruction::Igetb(..) => 0x13,
            Instruction::Igeti(..) => 0x14,
            Instruction::Last(..) => 0x15,
            Instruction::Length(..) => 0x16,
            Instruction::Clone(..) => 0x17,
            Instruction::Copy(..) => 0x18,
            Instruction::Copyi(..) => 0x19,
            Instruction::Addi(..) => 0x1a,
            Instruction::Subi(..) => 0x1b,
            Instruction::Muli(..) => 0x1c,
            Instruction::Divi(..) => 0x1d,
            Instruction::Modi(..) => 0x1e,
            Instruction::Addu(..) => 0x1f,
            Instruction::Subu(..) => 0x20,
            Instruction::Mulu(..) => 0x21,
            Instruction::Divu(..) => 0x22,
            Instruction::Modu(..) => 0x23,
            Instruction::Addf(..) => 0x24,
            Instruction::Subf(..) => 0x25,
            Instruction::Mulf(..) => 0x26,
            Instruction::Divf(..) => 0x27,
            Instruction::Rotl(..) => 0x28,
            Instruction::Rotli(..) => 0x29,
            Instruction::Rotr(..) => 0x2a,
            Instruction::Rotri(..) => 0x2b,
            Instruction::Sll(..) => 0x2c,
            Instruction::Slli(..) => 0x2d,
            Instruction::Srl(..) => 0x2e,
            Instruction::Srli(..) => 0x2f,
            Instruction::Not(..) => 0x30,
            Instruction::And(..) => 0x31,
            Instruction::Or(..) => 0x32,
            Instruction::Xor(..) => 0x33,
            Instruction::Cmp(..) => 0x34,
            Instruction::Cmpi(..) => 0x35,
            Instruction::Cmpf(..) => 0x36,
            Instruction::Jmp(..) => 0x37,
            Instruction::Jeq(..) => 0x38,
            Instruction::Jne(..) => 0x39,
            Instruction::Jge(..) => 0x3a,
            Instruction::Jgt(..) => 0x3b,
            Instruction::Jle(..) => 0x3c,
            Instruction::Jlt(..) => 0x3d,
            Instruction::I2f(..) => 0x3e,
            Instruction::F2i(..) => 0x3f,
            Instruction::Swpa(..) => 0x40,
            Instruction::Swpar(..) => 0x41,
            Instruction::Swpr(..) => 0x42,
            Instruction::Call(..) => 0x43,
            Instruction::Ret => 0x44,
            Instruction::Halt => 0x45,
        }
    }

    /// The immediates of this instruction, in encoding order.
    pub open spec fn imms(self) -> Seq<Immediate> {
        match self {
            Instruction::Syscall(i) => seq![i],
            Instruction::Ldb(i, _) => seq![i],
            Instruction::Ldi(i, _) => seq![i],
            Instruction::Ldf(i, _) => seq![i],
            Instruction::Malloci(i, _) => seq![i],
            Instruction::Isetb(i, _, _) => seq![i],
            Instruction::Iseti(i, _, _) => seq![i],
            Instruction::Igetb(i, _, _) => seq![i],
            Instruction::Igeti(i, _, _) => seq![i],
            Instruction::Copyi(i, i1, i2, _, _) => seq![i, i1, i2],
            Instruction::Rotli(i, _) => seq![i],
            Instruction::Rotri(i, _) => seq![i],
            Instruction::Slli(i, _) => seq![i],
            Instruction::Srli(i, _) => seq![i],
            _ => seq![],
        }
    }

    /// The addresses of this instruction, in encoding order.
    pub open spec fn addrs(self) -> Seq<Address> {
        match self {
            Instruction::Freea(a) => seq![a],
            Instruction::Jmp(a) => seq![a],
            Instruction::Jeq(a) => seq![a],
            Instruction::Jne(a) => seq![a],
            Instruction::Jge(a) => seq![a],
            Instruction::Jgt(a) => seq![a],
            Instruction::Jle(a) => seq![a],
            Instruction::Jlt(a) => seq![a],
            Instruction::Swpa(a, a1) => seq![a, a1],
            Instruction::Call(a) => seq![a],
            _ => seq![],
        }
    }

    /// The registers of this instruction, in encoding order.
    pub open spec fn regs(self) -> Seq<Register> {
        match self {
            Instruction::Ldb(_, r) => seq![r],
            Instruction::Ldi(_, r) => seq![r],
            Instruction::Ldf(_, r) => seq![r],
            Instruction::Mov(r, r1) => seq![r, r1],
            Instruction::Push(r) => seq![r],
            Instruction::Pop(r) => seq![r],
            Instruction::Sget(r, r1) => seq![r, r1],
            Instruction::Malloc(r, r1) => seq![r, r1],
            Instruction::Malloci(_, r) => seq![r],
            Instruction::Free(r) => seq![r],
            Instruction::Setb(r, r1, r2) => seq![r, r1, r2],
            Instruction::Seti(r, r1, r2) => seq![r, r1, r2],
            Instruction::Isetb(_, r, r1) => seq![r, r1],
            Instruction::Iseti(_, r, r1) => seq![r, r1],
            Instruction::Getb(r, r1, r2) => seq![r, r1, r2],
            Instruction::Geti(r, r1, r2) => seq![r, r1, r2],
            Instruction::Igetb(_, r, r1) => seq![r, r1],
            Instruction::Igeti(_, r, r1) => seq![r, r1],
            Instruction::Last(r, r1) => seq![r, r1],
            Instruction::Length(r, r1) => seq![r, r1],
            Instruction::Clone(r, r1) => seq![r, r1],
            Instruction::Copy(r, r1, r2, r3, r4) => seq![r, r1, r2, r3, r4],
            Instruction::Copyi(_, _, _, r, r1) => seq![r, r1],
            Instruction::Addi(r, r1, r2) => seq![r, r1, r2],
            Instruction::Subi(r, r1, r2) => seq![r, r1, r2],
            Instruction::Muli(r, r1, r2) => seq![r, r1, r2],
            Instruction::Divi(r, r1, r2) => seq![r, r1, r2],
            Instruction::Modi(r, r1, r2) => seq![r, r1, r2],
            Instruction::Addu(r, r1, r2) => seq![r, r1, r2],
            Instruction::Subu(r, r1, r2) => seq![r, r1, r2],
            Instruction::Mulu(r, r1, r2) => seq![r, r1, r2],
            Instruction::Divu(r, r1, r2) => seq![r, r1, r2],
            Instruction::Modu(r, r1, r2) => seq![r, r1, r2],
            Instruction::Addf(r, r1, r2) => seq![r, r1, r2],
            Instruction::Subf(r, r1, r2) => seq![r, r1, r2],
            Instruction::Mulf(r, r1, r2) => seq![r, r1, r2],
            Instruction::Divf(r, r1, r2) => seq![r, r1, r2],
            Instruction::Rotl(r, r1) => seq![r, r1],
            Instruction::Rotli(_, r) => seq![r],
            Instruction::Rotr(r, r1) => seq![r, r1],
            Instruction::Rotri(_, r) => seq![r],
            Instruction::Sll(r, r1) => seq![r, r1],
            Instruction::Slli(_, r) => seq![r],
            Instruction::Srl(r, r1) => seq![r, r1],
            Instruction::Srli(_, r) => seq![r],
            Instruction::Not(r) => seq![r],
            Instruction::And(r, r1, r2) => seq![r, r1, r2],
            Instruction::Or(r, r1, r2) => seq![r, r1, r2],
            Instruction::Xor(r, r1, r2) => seq![r, r1, r2],
            Instruction::Cmp(r, r1) => seq![r, r1],
            Instruction::Cmpi(r, r1) => seq![r, r1],
            Instruction::Cmpf(r, r1) => seq![r, r1],
            Instruction::I2f(r) => seq![r],
            Instruction::F2i(r) => seq![r],
            Instruction::Swpar(r, r1) => seq![r, r1],
            Instruction::Swpr(r, r1) => seq![r, r1],
            _ => seq![],
        }
    }

    /// The instruction built from an opcode and operand lists whose lengths
    /// match the opcode's table entry, or `None` when the opcode is unknown
    /// or a list has the wrong length.
    pub open spec fn spec_new(
        opcode: u8,
        registers: Seq<Register>,
        addresses: Seq<Address>,
        immediates: Seq<Immediate>,
    ) -> Option<Instruction> {
        if Instruction::spec_register_count(opcode) != Some(registers.len() as u8)
            || Instruction::spec_address_count(opcode) != Some(addresses.len() as u8)
            || Instruction::spec_immediate_count(opcode) != Some(immediates.len() as u8)
            || registers.len() > 5 || addresses.len() > 2 || immediates.len() > 3 {
            None
        } else {
            match opcode {
                0x00 => Some(Instruction::Nop),
                0x01 => Some(Instruction::Syscall(immediates[0])),
                0x02 => Some(Instruction::Ldb(immediates[0], registers[0])),
                0x03 => Some(Instruction::Ldi(immediates[0], registers[0])),
                0x04 => Some(Instruction::Ldf(immediates[0], registers[0])),
                0x05 => Some(Instruction::Mov(registers[0], registers[1])),
                0x06 => Some(Instruction::Push(registers[0])),
                0x07 => Some(Instruction::Pop(registers[0])),
                0x08 => Some(Instruction::Sget(registers[0], registers[1])),
                0x09 => Some(Instruction::Malloc(registers[0], registers[1])),
                0x0a => Some(Instruction::Malloci(immediates[0], registers[0])),
                0x0b => Some(Instruction::Free(registers[0])),
                0x0c => Some(Instruction::Freea(addresses[0])),
                0x0d => Some(Instruction::Setb(registers[0], registers[1], registers[2])),
                0x0e => Some(Instruction::Seti(registers[0], registers[1], registers[2])),
                0x0f => Some(Instruction::Isetb(immediates[0], registers[0], registers[1])),
                0x10 => Some(Instruction::Iseti(immediates[0], registers[0], registers[1])),
                0x11 => Some(Instruction::Getb(registers[0], registers[1], registers[2])),
                0x12 => Some(Instruction::Geti(registers[0], registers[1], registers[2])),
                0x13 => Some(Instruction::Igetb(immediates[0], registers[0], registers[1])),
                0x14 => Some(Instruction::Igeti(immediates[0], registers[0], registers[1])),
                0x15 => Some(Instruction::Last(registers[0], registers[1])),
                0x16 => Some(Instruction::Length(registers[0], registers[1])),
                0x17 => Some(Instruction::Clone(registers[0], registers[1])),
                0x18 => Some(
                    Instruction::Copy(
                        registers[0],
                        registers[1],
                        registers[2],
                        registers[3],
                        registers[4],
                    ),
                ),
                0x19 => Some(
                    Instruction::Copyi(
                        immediates[0],
                        immediates[1],
                        immediates[2],
                        registers[0],
                        registers[1],
                    ),
                ),
                0x1a => Some(Instruction::Addi(registers[0], registers[1], registers[2])),
                0x1b => Some(Instruction::Subi(registers[0], registers[1], registers[2])),
                0x1c => Some(Instruction::Muli(registers[0], registers[1], registers[2])),
                0x1d => Some(Instruction::Divi(registers[0], registers[1], registers[2])),
                0x1e => Some(Instruction::Modi(registers[0], registers[1], registers[2])),
                0x1f => Some(Instruction::Addu(registers[0], registers[1], registers[2])),
                0x20 => Some(Instruction::Subu(registers[0], registers[1], registers[2])),
                0x21 => Some(Instruction::Mulu(registers[0], registers[1], registers[2])),
                0x22 => Some(Instruction::Divu(registers[0], registers[1], registers[2])),
                0x23 => Some(Instruction::Modu(registers[0], registers[1], registers[2])),
                0x24 => Some(Instruction::Addf(registers[0], registers[1], registers[2])),
                0x25 => Some(Instruction::Subf(registers[0], registers[1], registers[2])),
                0x26 => Some(Instruction::Mulf(registers[0], registers[1], registers[2])),
                0x27 => Some(Instruction::Divf(registers[0], registers[1], registers[2])),
                0x28 => Some(Instruction::Rotl(registers[0], registers[1])),
                0x29 => Some(Instruction::Rotli(immediates[0], registers[0])),
                0x2a => Some(Instruction::Rotr(registers[0], registers[1])),
                0x2b => Some(Instruction::Rotri(immediates[0], registers[0])),
                0x2c => Some(Instruction::Sll(registers[0], registers[1])),
                0x2d => Some(Instruction::Slli(immediates[0], registers[0])),
                0x2e => Some(Instruction::Srl(registers[0], registers[1])),
                0x2f => Some(Instruction::Srli(immediates[0], registers[0])),
                0x30 => Some(Instruction::Not(registers[0])),
                0x31 => Some(Instruction::And(registers[0], registers[1], registers[2])),
                0x32 => Some(Instruction::Or(registers[0], registers[1], registers[2])),
                0x33 => Some(Instruction::Xor(registers[0], registers[1], registers[2])),
                0x34 => Some(Instruction::Cmp(registers[0], registers[1])),
                0x35 => Some(Instruction::Cmpi(registers[0], registers[1])),
                0x36 => Some(Instruction::Cmpf(registers[0], registers[1])),
                0x37 => Some(Instruction::Jmp(addresses[0])),
                0x38 => Some(Instruction::Jeq(addresses[0])),
                0x39 => Some(Instruction::Jne(addresses[0])),
                0x3a => Some(Instruction::Jge(addresses[0])),
                0x3b => Some(Instruction::Jgt(addresses[0])),
                0x3c => Some(Instruction::Jle(addresses[0])),
                0x3d => Some(Instruction::Jlt(addresses[0])),
                0x3e => Some(Instruction::I2f(registers[0])),
                0x3f => Some(Instruction::F2i(registers[0])),
                0x40 => Some(Instruction::Swpa(addresses[0], addresses[1])),
                0x41 => Some(Instruction::Swpar(registers[0], registers[1])),
                0x42 => Some(Instruction::Swpr(registers[0], registers[1])),
                0x43 => Some(Instruction::Call(addresses[0])),
                0x44 => Some(Instruction::Ret),
                0x45 => Some(Instruction::Halt),
                _ => None,
            }
        }
    }

    /// Builds the instruction for `opcode` from the given operand lists.
    ///
    /// Returns `None` when the opcode is unknown or when a list does not
    /// hold exactly the number of operands the opcode's table demands.
    pub fn new(
        opcode: u8,
        registers: Vec<Register>,
        addresses: Vec<Address>,
        immediates: Vec<Immediate>,
    ) -> (r: Option<Instruction>)
        ensures
            r == Instruction::spec_new(opcode, registers@, addresses@, immediates@),
    {
        let rc = Instruction::register_count(opcode);
        let ac = Instruction::address_count(opcode);
        let ic = Instruction::immediate_count(opcode);
        let shape_ok = registers.len() <= 5 && addresses.len() <= 2 && immediates.len() <= 3
            && rc == Some(registers.len() as u8) && ac == Some(addresses.len() as u8) && ic
            == Some(immediates.len() as u8);
        if !shape_ok {
            return None;
        }
        match opcode {
            0x00 => Some(Instruction::Nop),
            0x01 => Some(Instruction::Syscall(immediates[0])),
            0x02 => Some(Instruction::Ldb(immediates[0], registers[0])),
            0x03 => Some(Instruction::Ldi(immediates[0], registers[0])),
            0x04 => Some(Instruction::Ldf(immediates[0], registers[0])),
            0x05 => Some(Instruction::Mov(registers[0], registers[1])),
            0x06 => Some(Instruction::Push(registers[0])),
            0x07 => Some(Instruction::Pop(registers[0])),
            0x08 => Some(Instruction::Sget(registers[0], registers[1])),
            0x09 => Some(Instruction::Malloc(registers[0], registers[1])),
            0x0a => Some(Instruction::Malloci(immediates[0], registers[0])),
            0x0b => Some(Instruction::Free(registers[0])),
            0x0c => Some(Instruction::Freea(addresses[0])),
            0x0d => Some(Instruction::Setb(registers[0], registers[1], registers[2])),
            0x0e => Some(Instruction::Seti(registers[0], registers[1], registers[2])),
            0x0f => Some(Instruction::Isetb(immediates[0], registers[0], registers[1])),
            0x10 => Some(Instruction::Iseti(immediates[0], registers[0], registers[1])),
            0x11 => Some(Instruction::Getb(registers[0], registers[1], registers[2])),
            0x12 => Some(Instruction::Geti(registers[0], registers[1], registers[2])),
            0x13 => Some(Instruction::Igetb(immediates[0], registers[0], registers[1])),
            0x14 => Some(Instruction::Igeti(immediates[0], registers[0], registers[1])),
            0x15 => Some(Instruction::Last(registers[0], registers[1])),
            0x16 => Some(Instruction::Length(registers[0], registers[1])),
            0x17 => Some(Instruction::Clone(registers[0], registers[1])),
            0x18 => Some(
                Instruction::Copy(
                    registers[0],
                    registers[1],
                    registers[2],
                    registers[3],
                    registers[4],
                ),
            ),
            0x19 => Some(
                Instruction::Copyi(
                    immediates[0],
                    immediates[1],
                    immediates[2],
                    registers[0],
                    registers[1],
                ),
            ),
            0x1a => Some(Instruction::Addi(registers[0], registers[1], registers[2])),
            0x1b => Some(Instruction::Subi(registers[0], registers[1], registers[2])),
            0x1c => Some(Instruction::Muli(registers[0], registers[1], registers[2])),
            0x1d => Some(Instruction::Divi(registers[0], registers[1], registers[2])),
            0x1e => Some(Instruction::Modi(registers[0], registers[1], registers[2])),
            0x1f => Some(Instruction::Addu(registers[0], registers[1], registers[2])),
            0x20 => Some(Instruction::Subu(registers[0], registers[1], registers[2])),
            0x21 => Some(Instruction::Mulu(registers[0], registers[1], registers[2])),
            0x22 => Some(Instruction::Divu(registers[0], registers[1], registers[2])),
            0x23 => Some(Instruction::Modu(registers[0], registers[1], registers[2])),
            0x24 => Some(Instruction::Addf(registers[0], registers[1], registers[2])),
            0x25 => Some(Instruction::Subf(registers[0], registers[1], registers[2])),
            0x26 => Some(Instruction::Mulf(registers[0], registers[1], registers[2])),
            0x27 => Some(Instruction::Divf(registers[0], registers[1], registers[2])),
            0x28 => Some(Instruction::Rotl(registers[0], registers[1])),
            0x29 => Some(Instruction::Rotli(immediates[0], registers[0])),
            0x2a => Some(Instruction::Rotr(registers[0], registers[1])),
            0x2b => Some(Instruction::Rotri(immediates[0], registers[0])),
            0x2c => Some(Instruction::Sll(registers[0], registers[1])),
            0x2d => Some(Instruction::Slli(immediates[0], registers[0])),
            0x2e => Some(Instruction::Srl(registers[0], registers[1])),
            0x2f => Some(Instruction::Srli(immediates[0], registers[0])),
            0x30 => Some(Instruction::Not(registers[0])),
            0x31 => Some(Instruction::And(registers[0], registers[1], registers[2])),
            0x32 => Some(Instruction::Or(registers[0], registers[1], registers[2])),
            0x33 => Some(Instruction::Xor(registers[0], registers[1], registers[2])),
            0x34 => Some(Instruction::Cmp(registers[0], registers[1])),
            0x35 => Some(Instruction::Cmpi(registers[0], registers[1])),
            0x36 => Some(Instruction::Cmpf(registers[0], registers[1])),
            0x37 => Some(Instruction::Jmp(addresses[0])),
            0x38 => Some(Instruction::Jeq(addresses[0])),
            0x39 => Some(Instruction::Jne(addresses[0])),
            0x3a => Some(Instruction::Jge(addresses[0])),
            0x3b => Some(Instruction::Jgt(addresses[0])),
            0x3c => Some(Instruction::Jle(addresses[0])),
            0x3d => Some(Instruction::Jlt(addresses[0])),
            0x3e => Some(Instruction::I2f(registers[0])),
            0x3f => Some(Instruction::F2i(registers[0])),
            0x40 => Some(Instruction::Swpa(addresses[0], addresses[1])),
            0x41 => Some(Instruction::Swpar(registers[0], registers[1])),
            0x42 => Some(Instruction::Swpr(registers[0], registers[1])),
            0x43 => Some(Instruction::Call(addresses[0])),
            0x44 => Some(Instruction::Ret),
            0x45 => Some(Instruction::Halt),
            _ => None,
        }
    }
}

/// The bytes of a list of immediates, each 8 little-endian bytes.
pub open spec fn spec_encode_imms(s: Seq<Immediate>) -> Seq<u8>
    decreases s.len(),
{
    if s.len() == 0 {
        Seq::empty()
    } else {
        vstd::bytes::spec_u64_to_le_bytes(s[0].bits) + spec_encode_imms(s.skip(1))
    }
}

/// The bytes of a list of addresses, each 8 little-endian bytes.
pub open spec fn spec_encode_addrs(s: Seq<Address>) -> Seq<u8>
    decreases s.len(),
{
    if s.len() == 0 {
        Seq::empty()
    } else {
        vstd::bytes::spec_u64_to_le_bytes(s[0].bits) + spec_encode_addrs(s.skip(1))
    }
}

/// The bytes of a packed register list: two registers per byte, high
/// nibble first; with an odd count the low nibble of the last byte is
/// zero.
pub open spec fn spec_encode_regs(s: Seq<Register>) -> Seq<u8>
    decreases s.len(),
{
    if s.len() == 0 {
        Seq::empty()
    } else if s.len() == 1 {
        seq![(s[0].idx() << 4) as u8]
    } else {
        seq![((s[0].idx() << 4) | s[1].idx()) as u8] + spec_encode_regs(s.skip(2))
    }
}

/// The encoding of one instruction: its opcode byte, then its immediates,
/// addresses and packed registers.
pub open spec fn spec_encode(i: Instruction) -> Seq<u8> {
    seq![i.opcode()] + spec_encode_imms(i.imms()) + spec_encode_addrs(i.addrs())
        + spec_encode_regs(i.regs())
}

/// The encoding of an instruction list: each instruction's bytes in turn.
pub open spec fn spec_encode_list(l: Seq<Instruction>) -> Seq<u8>
    decreases l.len(),
{
    if l.len() == 0 {
        Seq::empty()
    } else {
        spec_encode(l[0]) + spec_encode_list(l.skip(1))
    }
}

impl Instruction {
    /// The opcode byte of this instruction.
    pub fn opcode_value(&self) -> (r: u8)
        ensures
            r == self.opcode(),
    {
        match self {
            Instruction::Nop => 0x00,
            Instruction::Syscall(..) => 0x01,
            Instruction::Ldb(..) => 0x02,
            Instruction::Ldi(..) => 0x03,
            Instruction::Ldf(..) => 0x04,
            Instruction::Mov(..) => 0x05,
            Instruction::Push(..) => 0x06,
            Instruction::Pop(..) => 0x07,
            Instruction::Sget(..) => 0x08,
            Instruction::Malloc(..) => 0x09,
            Instruction::Malloci(..) => 0x0a,
            Instruction::Free(..) => 0x0b,
            Instruction::Freea(..) => 0x0c,
            Instruction::Setb(..) => 0x0d,
            Instruction::Seti(..) => 0x0e,
            Instruction::Isetb(..) => 0x0f,
            Instruction::Iseti(..) => 0x10,
            Instruction::Getb(..) => 0x11,
            Instruction::Geti(..) => 0x12,
            Instruction::Igetb(..) => 0x13,
            Instruction::Igeti(..) => 0x14,
            Instruction::Last(..) => 0x15,
            Instruction::Length(..) => 0x16,
            Instruction::Clone(..) => 0x17,
            Instruction::Copy(..) => 0x18,
            Instruction::Copyi(..) => 0x19,
            Instruction::Addi(..) => 0x1a,
            Instruction::Subi(..) => 0x1b,
            Instruction::Muli(..) => 0x1c,
            Instruction::Divi(..) => 0x1d,
            Instruction::Modi(..) => 0x1e,
            Instruction::Addu(..) => 0x1f,
            Instruction::Subu(..) => 0x20,
            Instruction::Mulu(..) => 0x21,
            Instruction::Divu(..) => 0x22,
            Instruction::Modu(..) => 0x23,
            Instruction::Addf(..) => 0x24,
            Instruction::Subf(..) => 0x25,
            Instruction::Mulf(..) => 0x26,
            Instruction::Divf(..) => 0x27,
            Instruction::Rotl(..) => 0x28,
            Instruction::Rotli(..) => 0x29,
            Instruction::Rotr(..) => 0x2a,
            Instruction::Rotri(..) => 0x2b,
            Instruction::Sll(..) => 0x2c,
            Instruction::Slli(..) => 0x2d,
            Instruction::Srl(..) => 0x2e,
            Instruction::Srli(..) => 0x2f,
            Instruction::Not(..) => 0x30,
            Instruction::And(..) => 0x31,
            Instruction::Or(..) => 0x32,
            Instruction::Xor(..) => 0x33,
            Instruction::Cmp(..) => 0x34,
            Instruction::Cmpi(..) => 0x35,
            Instruction::Cmpf(..) => 0x36,
            Instruction::Jmp(..) => 0x37,
            Instruction::Jeq(..) => 0x38,
            Instruction::Jne(..) => 0x39,
            Instruction::Jge(..) => 0x3a,
            Instruction::Jgt(..) => 0x3b,
            Instruction::Jle(..) => 0x3c,
            Instruction::Jlt(..) => 0x3d,
            Instruction::I2f(..) => 0x3e,
            Instruction::F2i(..) => 0x3f,
            Instruction::Swpa(..) => 0x40,
            Instruction::Swpar(..) => 0x41,
            Instruction::Swpr(..) => 0x42,
            Instruction::Call(..) => 0x43,
            Instruction::Ret => 0x44,
            Instruction::Halt => 0x45,
        }
    }

    /// The immediates of this instruction, in encoding order.
    pub fn immediates(&self) -> (r: Vec<Immediate>)
        ensures
            r@ == self.imms(),
    {
        let r = match self {
            Instruction::Nop => Vec::new(),
            Instruction::Syscall(i) => vec![*i],
            Instruction::Ldb(i, _) => vec![*i],
            Instruction::Ldi(i, _) => vec![*i],
            Instruction::Ldf(i, _) => vec![*i],
            Instruction::Mov(_, _) => Vec::new(),
            Instruction::Push(_) => Vec::new(),
            Instruction::Pop(_) => Vec::new(),
            Instruction::Sget(_, _) => Vec::new(),
            Instruction::Malloc(_, _) => Vec::new(),
            Instruction::Malloci(i, _) => vec![*i],
            Instruction::Free(_) => Vec::new(),
            Instruction::Freea(_) => Vec::new(),
            Instruction::Setb(_, _, _) => Vec::new(),
            Instruction::Seti(_, _, _) => Vec::new(),
            Instruction::Isetb(i, _, _) => vec![*i],
            Instruction::Iseti(i, _, _) => vec![*i],
            Instruction::Getb(_, _, _) => Vec::new(),
            Instruction::Geti(_, _, _) => Vec::new(),
            Instruction::Igetb(i, _, _) => vec![*i],
            Instruction::Igeti(i, _, _) => vec![*i],
            Instruction::Last(_, _) => Vec::new(),
            Instruction::Length(_, _) => Vec::new(),
            Instruction::Clone(_, _) => Vec::new(),
            Instruction::Copy(_, _, _, _, _) => Vec::new(),
            Instruction::Copyi(i, i1, i2, _, _) => vec![*i, *i1, *i2],
            Instruction::Addi(_, _, _) => Vec::new(),
            Instruction::Subi(_, _, _) => Vec::new(),
            Instruction::Muli(_, _, _) => Vec::new(),
            Instruction::Divi(_, _, _) => Vec::new(),
            Instruction::Modi(_, _, _) => Vec::new(),
            Instruction::Addu(_, _, _) => Vec::new(),
            Instruction::Subu(_, _, _) => Vec::new(),
            Instruction::Mulu(_, _, _) => Vec::new(),
            Instruction::Divu(_, _, _) => Vec::new(),
            Instruction::Modu(_, _, _) => Vec::new(),
            Instruction::Addf(_, _, _) => Vec::new(),
            Instruction::Subf(_, _, _) => Vec::new(),
            Instruction::Mulf(_, _, _) => Vec::new(),
            Instruction::Divf(_, _, _) => Vec::new(),
            Instruction::Rotl(_, _) => Vec::new(),
            Instruction::Rotli(i, _) => vec![*i],
            Instruction::Rotr(_, _) => Vec::new(),
            Instruction::Rotri(i, _) => vec![*i],
            Instruction::Sll(_, _) => Vec::new(),
            Instruction::Slli(i, _) => vec![*i],
            Instruction::Srl(_, _) => Vec::new(),
            Instruction::Srli(i, _) => vec![*i],
            Instruction::Not(_) => Vec::new(),
            Instruction::And(_, _, _) => Vec::new(),
            Instruction::Or(_, _, _) => Vec::new(),
            Instruction::Xor(_, _, _) => Vec::new(),
            Instruction::Cmp(_, _) => Vec::new(),
            Instruction::Cmpi(_, _) => Vec::new(),
            Instruction::Cmpf(_, _) => Vec::new(),
            Instruction::Jmp(_) => Vec::new(),
            Instruction::Jeq(_) => Vec::new(),
            Instruction::Jne(_) => Vec::new(),
            Instruction::Jge(_) => Vec::new(),
            Instruction::Jgt(_) => Vec::new(),
            Instruction::Jle(_) => Vec::new(),
            Instruction::Jlt(_) => Vec::new(),
            Instruction::I2f(_) => Vec::new(),
            Instruction::F2i(_) => Vec::new(),
            Instruction::Swpa(_, _) => Vec::new(),
            Instruction::Swpar(_, _) => Vec::new(),
            Instruction::Swpr(_, _) => Vec::new(),
            Instruction::Call(_) => Vec::new(),
            Instruction::Ret => Vec::new(),
            Instruction::Halt => Vec::new(),
        };
        proof {
            assert(r@ =~= self.imms());
        }
        r
    }

    /// The addresses of this instruction, in encoding order.
    pub fn addresses(&self) -> (r: Vec<Address>)
        ensures
            r@ == self.addrs(),
    {
        let r = match self {
            Instruction::Nop => Vec::new(),
            Instruction::Syscall(_) => Vec::new(),
            Instruction::Ldb(_, _) => Vec::new(),
            Instruction::Ldi(_, _) => Vec::new(),
            Instruction::Ldf(_, _) => Vec::new(),
            Instruction::Mov(_, _) => Vec::new(),
            Instruction::Push(_) => Vec::new(),
            Instruction::Pop(_) => Vec::new(),
            Instruction::Sget(_, _) => Vec::new(),
            Instruction::Malloc(_, _) => Vec::new(),
            Instruction::Malloci(_, _) => Vec::new(),
            Instruction::Free(_) => Vec::new(),
            Instruction::Freea(a) => vec![*a],
            Instruction::Setb(_, _, _) => Vec::new(),
            Instruction::Seti(_, _, _) => Vec::new(),
            Instruction::Isetb(_, _, _) => Vec::new(),
            Instruction::Iseti(_, _, _) => Vec::new(),
            Instruction::Getb(_, _, _) => Vec::new(),
            Instruction::Geti(_, _, _) => Vec::new(),
            Instruction::Igetb(_, _, _) => Vec::new(),
            Instruction::Igeti(_, _, _) => Vec::new(),
            Instruction::Last(_, _) => Vec::new(),
            Instruction::Length(_, _) => Vec::new(),
            Instruction::Clone(_, _) => Vec::new(),
            Instruction::Copy(_, _, _, _, _) => Vec::new(),
            Instruction::Copyi(_, _, _, _, _) => Vec::new(),
            Instruction::Addi(_, _, _) => Vec::new(),
            Instruction::Subi(_, _, _) => Vec::new(),
            Instruction::Muli(_, _, _) => Vec::new(),
            Instruction::Divi(_, _, _) => Vec::new(),
            Instruction::Modi(_, _, _) => Vec::new(),
            Instruction::Addu(_, _, _) => Vec::new(),
            Instruction::Subu(_, _, _) => Vec::new(),
            Instruction::Mulu(_, _, _) => Vec::new(),
            Instruction::Divu(_, _, _) => Vec::new(),
            Instruction::Modu(_, _, _) => Vec::new(),
            Instruction::Addf(_, _, _) => Vec::new(),
            Instruction::Subf(_, _, _) => Vec::new(),
            Instruction::Mulf(_, _, _) => Vec::new(),
            Instruction::Divf(_, _, _) => Vec::new(),
            Instruction::Rotl(_, _) => Vec::new(),
            Instruction::Rotli(_, _) => Vec::new(),
            Instruction::Rotr(_, _) => Vec::new(),
            Instruction::Rotri(_, _) => Vec::new(),
            Instruction::Sll(_, _) => Vec::new(),
            Instruction::Slli(_, _) => Vec::new(),
            Instruction::Srl(_, _) => Vec::new(),
            Instruction::Srli(_, _) => Vec::new(),
            Instruction::Not(_) => Vec::new(),
            Instruction::And(_, _, _) => Vec::new(),
            Instruction::Or(_, _, _) => Vec::new(),
            Instruction::Xor(_, _, _) => Vec::new(),
            Instruction::Cmp(_, _) => Vec::new(),
            Instruction::Cmpi(_, _) => Vec::new(),
            Instruction::Cmpf(_, _) => Vec::new(),
            Instruction::Jmp(a) => vec![*a],
            Instruction::Jeq(a) => vec![*a],
            Instruction::Jne(a) => vec![*a],
            Instruction::Jge(a) => vec![*a],
            Instruction::Jgt(a) => vec![*a],
            Instruction::Jle(a) => vec![*a],
            Instruction::Jlt(a) => vec![*a],
            Instruction::I2f(_) => Vec::new(),
            Instruction::F2i(_) => Vec::new(),
            Instruction::Swpa(a, a1) => vec![*a, *a1],
            Instruction::Swpar(_, _) => Vec::new(),
            Instruction::Swpr(_, _) => Vec::new(),
            Instruction::Call(a) => vec![*a],
            Instruction::Ret => Vec::new(),
            Instruction::Halt => Vec::new(),
        };
        proof {
            assert(r@ =~= self.addrs());
        }
        r
    }

    /// The registers of this instruction, in encoding order.
    pub fn registers(&self) -> (r: Vec<Register>)
        ensures
            r@ == self.regs(),
    {
        let r = match self {
            Instruction::Nop => Vec::new(),
            Instruction::Syscall(_) => Vec::new(),
            Instruction::Ldb(_, r) => vec![*r],
            Instruction::Ldi(_, r) => vec![*r],
            Instruction::Ldf(_, r) => vec![*r],
            Instruction::Mov(r, r1) => vec![*r, *r1],
            Instruction::Push(r) => vec![*r],
            Instruction::Pop(r) => vec![*r],
            Instruction::Sget(r, r1) => vec![*r, *r1],
            Instruction::Malloc(r, r1) => vec![*r, *r1],
            Instruction::Malloci(_, r) => vec![*r],
            Instruction::Free(r) => vec![*r],
            Instruction::Freea(_) => Vec::new(),
            Instruction::Setb(r, r1, r2) => vec![*r, *r1, *r2],
            Instruction::Seti(r, r1, r2) => vec![*r, *r1, *r2],
            Instruction::Isetb(_, r, r1) => vec![*r, *r1],
            Instruction::Iseti(_, r, r1) => vec![*r, *r1],
            Instruction::Getb(r, r1, r2) => vec![*r, *r1, *r2],
            Instruction::Geti(r, r1, r2) => vec![*r, *r1, *r2],
            Instruction::Igetb(_, r, r1) => vec![*r, *r1],
            Instruction::Igeti(_, r, r1) => vec![*r, *r1],
            Instruction::Last(r, r1) => vec![*r, *r1],
            Instruction::Length(r, r1) => vec![*r, *r1],
            Instruction::Clone(r, r1) => vec![*r, *r1],
            Instruction::Copy(r, r1, r2, r3, r4) => vec![*r, *r1, *r2, *r3, *r4],
            Instruction::Copyi(_, _, _, r, r1) => vec![*r, *r1],
            Instruction::Addi(r, r1, r2) => vec![*r, *r1, *r2],
            Instruction::Subi(r, r1, r2) => vec![*r, *r1, *r2],
            Instruction::Muli(r, r1, r2) => vec![*r, *r1, *r2],
            Instruction::Divi(r, r1, r2) => vec![*r, *r1, *r2],
            Instruction::Modi(r, r1, r2) => vec![*r, *r1, *r2],
            Instruction::Addu(r, r1, r2) => vec![*r, *r1, *r2],
            Instruction::Subu(r, r1, r2) => vec![*r, *r1, *r2],
            Instruction::Mulu(r, r1, r2) => vec![*r, *r1, *r2],
            Instruction::Divu(r, r1, r2) => vec![*r, *r1, *r2],
            Instruction::Modu(r, r1, r2) => vec![*r, *r1, *r2],
            Instruction::Addf(r, r1, r2) => vec![*r, *r1, *r2],
            Instruction::Subf(r, r1, r2) => vec![*r, *r1, *r2],
            Instruction::Mulf(r, r1, r2) => vec![*r, *r1, *r2],
            Instruction::Divf(r, r1, r2) => vec![*r, *r1, *r2],
            Instruction::Rotl(r, r1) => vec![*r, *r1],
            Instruction::Rotli(_, r) => vec![*r],
            Instruction::Rotr(r, r1) => vec![*r, *r1],
            Instruction::Rotri(_, r) => vec![*r],
            Instruction::Sll(r, r1) => vec![*r, *r1],
            Instruction::Slli(_, r) => vec![*r],
            Instruction::Srl(r, r1) => vec![*r, *r1],
            Instruction::Srli(_, r) => vec![*r],
            Instruction::Not(r) => vec![*r],
            Instruction::And(r, r1, r2) => vec![*r, *r1, *r2],
            Instruction::Or(r, r1, r2) => vec![*r, *r1, *r2],
            Instruction::Xor(r, r1, r2) => vec![*r, *r1, *r2],
            Instruction::Cmp(r, r1) => vec![*r, *r1],
            Instruction::Cmpi(r, r1) => vec![*r, *r1],
            Instruction::Cmpf(r, r1) => vec![*r, *r1],
            Instruction::Jmp(_) => Vec::new(),
            Instruction::Jeq(_) => Vec::new(),
            Instruction::Jne(_) => Vec::new(),
            Instruction::Jge(_) => Vec::new(),
            Instruction::Jgt(_) => Vec::new(),
            Instruction::Jle(_) => Vec::new(),
            Instruction::Jlt(_) => Vec::new(),
            Instruction::I2f(r) => vec![*r],
            Instruction::F2i(r) => vec![*r],
            Instruction::Swpa(_, _) => Vec::new(),
            Instruction::Swpar(r, r1) => vec![*r, *r1],
            Instruction::Swpr(r, r1) => vec![*r, *r1],
            Instruction::Call(_) => Vec::new(),
            Instruction::Ret => Vec::new(),
            Instruction::Halt => Vec::new(),
        };
        proof {
            assert(r@ =~= self.regs());
        }
        r
    }
}

/// Appending one immediate extends the encoding by its 8 bytes.
pub proof fn lemma_encode_imms_snoc(s: Seq<Immediate>, x: Immediate)
    ensures
        spec_encode_imms(s.push(x)) == spec_encode_imms(s) + vstd::bytes::spec_u64_to_le_bytes(
            x.bits,
        ),
    decreases s.len(),
{
    vstd::bytes::lemma_auto_spec_u64_to_from_le_bytes();
    if s.len() == 0 {
        assert(s.push(x).skip(1) =~= Seq::<Immediate>::empty());
        assert(spec_encode_imms(Seq::<Immediate>::empty()) =~= Seq::<u8>::empty());
        assert(spec_encode_imms(s) =~= Seq::<u8>::empty());
        assert(spec_encode_imms(s.push(x)) =~= spec_encode_imms(s)
            + vstd::bytes::spec_u64_to_le_bytes(x.bits));
    } else {
        assert(s.push(x).skip(1) =~= s.skip(1).push(x));
        lemma_encode_imms_snoc(s.skip(1), x);
        assert(s.push(x)[0] == s[0]);
        assert(spec_encode_imms(s.push(x)) == vstd::bytes::spec_u64_to_le_bytes(s[0].bits)
            + spec_encode_imms(s.skip(1).push(x)));
        assert(vstd::bytes::spec_u64_to_le_bytes(s[0].bits) + (spec_encode_imms(s.skip(1))
            + vstd::bytes::spec_u64_to_le_bytes(x.bits)) =~= (vstd::bytes::spec_u64_to_le_bytes(
            s[0].bits,
        ) + spec_encode_imms(s.skip(1))) + vstd::bytes::spec_u64_to_le_bytes(x.bits));
    }
}

/// Appending one address extends the encoding by its 8 bytes.
pub proof fn lemma_encode_addrs_snoc(s: Seq<Address>, x: Address)
    ensures
        spec_encode_addrs(s.push(x)) == spec_encode_addrs(s) + vstd::bytes::spec_u64_to_le_bytes(
            x.bits,
        ),
    decreases s.len(),
{
    vstd::bytes::lemma_auto_spec_u64_to_from_le_bytes();
    if s.len() == 0 {
        assert(s.push(x).skip(1) =~= Seq::<Address>::empty());
        assert(spec_encode_addrs(Seq::<Address>::empty()) =~= Seq::<u8>::empty());
        assert(spec_encode_addrs(s) =~= Seq::<u8>::empty());
        assert(spec_encode_addrs(s.push(x)) =~= spec_encode_addrs(s)
            + vstd::bytes::spec_u64_to_le_bytes(x.bits));
    } else {
        assert(s.push(x).skip(1) =~= s.skip(1).push(x));
        lemma_encode_addrs_snoc(s.skip(1), x);
        assert(s.push(x)[0] == s[0]);
        assert(spec_encode_addrs(s.push(x)) == vstd::bytes::spec_u64_to_le_bytes(s[0].bits)
            + spec_encode_addrs(s.skip(1).push(x)));
        assert(vstd::bytes::spec_u64_to_le_bytes(s[0].bits) + (spec_encode_addrs(s.skip(1))
            + vstd::bytes::spec_u64_to_le_bytes(x.bits)) =~= (vstd::bytes::spec_u64_to_le_bytes(
            s[0].bits,
        ) + spec_encode_addrs(s.skip(1))) + vstd::bytes::spec_u64_to_le_bytes(x.bits));
    }
}

/// The byte a packed register list holds at position `j`: the register at
/// `2 j` in the high nibble, the one after it — or zero — in the low.
pub open spec fn reg_byte(s: Seq<Register>, j: int) -> u8 {
    (s[2 * j].idx() << 4) | (if 2 * j + 1 < s.len() {
        s[2 * j + 1].idx()
    } else {
        0
    })
}

/// The packed register bytes, one by one.
pub proof fn lemma_encode_regs_bytes(s: Seq<Register>)
    ensures
        spec_encode_regs(s).len() == (s.len() + 1) / 2,
        forall|j: int| 0 <= j < (s.len() + 1) / 2 ==> #[trigger] spec_encode_regs(s)[j]
            == reg_byte(s, j),
    decreases s.len(),
{
    if s.len() == 0 {
    } else if s.len() == 1 {
        let h = s[0].idx();
        assert(spec_encode_regs(s)[0] == (h << 4) as u8);
        assert((h << 4) as u8 == (h << 4) | 0) by (bit_vector);
    } else {
        lemma_encode_regs_bytes(s.skip(2));
        assert forall|j: int| 0 <= j < (s.len() + 1) / 2 implies #[trigger] spec_encode_regs(
            s,
        )[j] == reg_byte(s, j) by {
            if j == 0 {
            } else {
                assert(spec_encode_regs(s)[j] == spec_encode_regs(s.skip(2))[j - 1]);
                assert(spec_encode_regs(s.skip(2))[j - 1] == reg_byte(s.skip(2), j - 1));
                assert(s.skip(2)[2 * (j - 1)] == s[2 * j]);
                assert(2 * (j - 1) + 1 < s.skip(2).len() ==> s.skip(2)[2 * (j - 1) + 1] == s[2 * j
                    + 1]);
            }
        }
    }
}

/// Every register index fits a nibble, and the nibble names it back.
pub proof fn lemma_reg_nibble(r: Register)
    ensures
        r.idx() < 16,
        Register::spec_from_bits(r.idx()) == r,
{
    assert(0u8 & 0xF == 0 && 1u8 & 0xF == 1 && 2u8 & 0xF == 2 && 3u8 & 0xF == 3 && 4u8 & 0xF == 4
        && 5u8 & 0xF == 5 && 6u8 & 0xF == 6 && 7u8 & 0xF == 7 && 8u8 & 0xF == 8 && 9u8 & 0xF == 9
        && 10u8 & 0xF == 10 && 11u8 & 0xF == 11 && 12u8 & 0xF == 12 && 13u8 & 0xF == 13 && 14u8
        & 0xF == 14 && 15u8 & 0xF == 15) by (bit_vector);
}

/// Each register is recovered from its nibble of the packed bytes.
pub proof fn lemma_encode_regs_extract(s: Seq<Register>, k: int)
    requires
        0 <= k < s.len(),
    ensures
        Register::spec_from_bits(
            if k % 2 == 0 {
                spec_encode_regs(s)[k / 2] >> 4
            } else {
                spec_encode_regs(s)[k / 2] & 0xF
            },
        ) == s[k],
{
    lemma_encode_regs_bytes(s);
    let j = k / 2;
    let hi = s[2 * j].idx();
    let lo: u8 = if 2 * j + 1 < s.len() {
        s[2 * j + 1].idx()
    } else {
        0
    };
    lemma_reg_nibble(s[2 * j]);
    if 2 * j + 1 < s.len() {
        lemma_reg_nibble(s[2 * j + 1]);
    }
    let byte = spec_encode_regs(s)[j];
    assert(byte == (hi << 4) | lo);
    assert(hi < 16 && lo < 16 ==> ((hi << 4) | lo) >> 4 == hi && ((hi << 4) | lo) & 0xF == lo)
        by (bit_vector);
    if k % 2 == 0 {
        assert(Register::spec_from_bits(hi) == s[k]);
    } else {
        assert(2 * j + 1 == k);
        assert(Register::spec_from_bits(lo) == s[k]);
    }
}

/// The operand counts of every instruction match its opcode's table entry.
#[verifier::spinoff_prover]
#[verifier::rlimit(100)]
pub proof fn lemma_operand_counts(i: Instruction)
    ensures
        Instruction::spec_immediate_count(i.opcode()) == Some(i.imms().len() as u8),
        Instruction::spec_address_count(i.opcode()) == Some(i.addrs().len() as u8),
        Instruction::spec_register_count(i.opcode()) == Some(i.regs().len() as u8),
{
    match i {
        Instruction::Nop => {
            assert(Instruction::spec_immediate_count(i.opcode()) == Some(i.imms().len() as u8));
            assert(Instruction::spec_address_count(i.opcode()) == Some(i.addrs().len() as u8));
            assert(Instruction::spec_register_count(i.opcode()) == Some(i.regs().len() as u8));
        },
        Instruction::Syscall(..) => {
            assert(Instruction::spec_immediate_count(i.opcode()) == Some(i.imms().len() as u8));
            assert(Instruction::spec_address_count(i.opcode()) == Some(i.addrs().len() as u8));
            assert(Instruction::spec_register_count(i.opcode()) == Some(i.regs().len() as u8));
        },
        Instruction::Ldb(..) => {
            assert(Instruction::spec_immediate_count(i.opcode()) == Some(i.imms().len() as u8));
            assert(Instruction::spec_address_count(i.opcode()) == Some(i.addrs().len() as u8));
            assert(Instruction::spec_register_count(i.opcode()) == Some(i.regs().len() as u8));
        },
        Instruction::Ldi(..) => {
            assert(Instruction::spec_immediate_count(i.opcode()) == Some(i.imms().len() as u8));
            assert(Instruction::spec_address_count(i.opcode()) == Some(i.addrs().len() as u8));
            assert(Instruction::spec_register_count(i.opcode()) == Some(i.regs().len() as u8));
        },
        Instruction::Ldf(..) => {
            assert(Instruction::spec_immediate_count(i.opcode()) == Some(i.imms().len() as u8));
            assert(Instruction::spec_address_count(i.opcode()) == Some(i.addrs().len() as u8));
            assert(Instruction::spec_register_count(i.opcode()) == Some(i.regs().len() as u8));
        },
        Instruction::Mov(..) => {
            assert(Instruction::spec_immediate_count(i.opcode()) == Some(i.imms().len() as u8));
            assert(Instruction::spec_address_count(i.opcode()) == Some(i.addrs().len() as u8));
            assert(Instruction::spec_register_count(i.opcode()) == Some(i.regs().len() as u8));
        },
        Instruction::Push(..) => {
            assert(Instruction::spec_immediate_count(i.opcode()) == Some(i.imms().len() as u8));
            assert(Instruction::spec_address_count(i.opcode()) == Some(i.addrs().len() as u8));
            assert(Instruction::spec_register_count(i.opcode()) == Some(i.regs().len() as u8));
        },
        Instruction::Pop(..) => {
            assert(Instruction::spec_immediate_count(i.opcode()) == Some(i.imms().len() as u8));
            assert(Instruction::spec_address_count(i.opcode()) == Some(i.addrs().len() as u8));
            assert(Instruction::spec_register_count(i.opcode()) == Some(i.regs().len() as u8));
        },
        Instruction::Sget(..) => {
            assert(Instruction::spec_immediate_count(i.opcode()) == Some(i.imms().len() as u8));
            assert(Instruction::spec_address_count(i.opcode()) == Some(i.addrs().len() as u8));
            assert(Instruction::spec_register_count(i.opcode()) == Some(i.regs().len() as u8));
        },
        Instruction::Malloc(..) => {
            assert(Instruction::spec_immediate_count(i.opcode()) == Some(i.imms().len() as u8));
            assert(Instruction::spec_address_count(i.opcode()) == Some(i.addrs().len() as u8));
            assert(Instruction::spec_register_count(i.opcode()) == Some(i.regs().len() as u8));
        },
        Instruction::Malloci(..) => {
            assert(Instruction::spec_immediate_count(i.opcode()) == Some(i.imms().len() as u8));
            assert(Instruction::spec_address_count(i.opcode()) == Some(i.addrs().len() as u8));
            assert(Instruction::spec_register_count(i.opcode()) == Some(i.regs().len() as u8));
        },
        Instruction::Free(..) => {
            assert(Instruction::spec_immediate_count(i.opcode()) == Some(i.imms().len() as u8));
            assert(Instruction::spec_address_count(i.opcode()) == Some(i.addrs().len() as u8));
            assert(Instruction::spec_register_count(i.opcode()) == Some(i.regs().len() as u8));
        },
        Instruction::Freea(..) => {
            assert(Instruction::spec_immediate_count(i.opcode()) == Some(i.imms().len() as u8));
            assert(Instruction::spec_address_count(i.opcode()) == Some(i.addrs().len() as u8));
            assert(Instruction::spec_register_count(i.opcode()) == Some(i.regs().len() as u8));
        },
        Instruction::Setb(..) => {
            assert(Instruction::spec_immediate_count(i.opcode()) == Some(i.imms().len() as u8));
            assert(Instruction::spec_address_count(i.opcode()) == Some(i.addrs().len() as u8));
            assert(Instruction::spec_register_count(i.opcode()) == Some(i.regs().len() as u8));
        },
        Instruction::Seti(..) => {
            assert(Instruction::spec_immediate_count(i.opcode()) == Some(i.imms().len() as u8));
            assert(Instruction::spec_address_count(i.opcode()) == Some(i.addrs().len() as u8));
            assert(Instruction::spec_register_count(i.opcode()) == Some(i.regs().len() as u8));
        },
        Instruction::Isetb(..) => {
            assert(Instruction::spec_immediate_count(i.opcode()) == Some(i.imms().len() as u8));
            assert(Instruction::spec_address_count(i.opcode()) == Some(i.addrs().len() as u8));
            assert(Instruction::spec_register_count(i.opcode()) == Some(i.regs().len() as u8));
        },
        Instruction::Iseti(..) => {
            assert(Instruction::spec_immediate_count(i.opcode()) == Some(i.imms().len() as u8));
            assert(Instruction::spec_address_count(i.opcode()) == Some(i.addrs().len() as u8));
            assert(Instruction::spec_register_count(i.opcode()) == Some(i.regs().len() as u8));
        },
        Instruction::Getb(..) => {
            assert(Instruction::spec_immediate_count(i.opcode()) == Some(i.imms().len() as u8));
            assert(Instruction::spec_address_count(i.opcode()) == Some(i.addrs().len() as u8));
            assert(Instruction::spec_register_count(i.opcode()) == Some(i.regs().len() as u8));
        },
        Instruction::Geti(..) => {
            assert(Instruction::spec_immediate_count(i.opcode()) == Some(i.imms().len() as u8));
            assert(Instruction::spec_address_count(i.opcode()) == Some(i.addrs().len() as u8));
            assert(Instruction::spec_register_count(i.opcode()) == Some(i.regs().len() as u8));
        },
        Instruction::Igetb(..) => {
            assert(Instruction::spec_immediate_count(i.opcode()) == Some(i.imms().len() as u8));
            assert(Instruction::spec_address_count(i.opcode()) == Some(i.addrs().len() as u8));
            assert(Instruction::spec_register_count(i.opcode()) == Some(i.regs().len() as u8));
        },
        Instruction::Igeti(..) => {
            assert(Instruction::spec_immediate_count(i.opcode()) == Some(i.imms().len() as u8));
            assert(Instruction::spec_address_count(i.opcode()) == Some(i.addrs().len() as u8));
            assert(Instruction::spec_register_count(i.opcode()) == Some(i.regs().len() as u8));
        },
        Instruction::Last(..) => {
            assert(Instruction::spec_immediate_count(i.opcode()) == Some(i.imms().len() as u8));
            assert(Instruction::spec_address_count(i.opcode()) == Some(i.addrs().len() as u8));
            assert(Instruction::spec_register_count(i.opcode()) == Some(i.regs().len() as u8));
        },
        Instruction::Length(..) => {
            assert(Instruction::spec_immediate_count(i.opcode()) == Some(i.imms().len() as u8));
            assert(Instruction::spec_address_count(i.opcode()) == Some(i.addrs().len() as u8));
            assert(Instruction::spec_register_count(i.opcode()) == Some(i.regs().len() as u8));
        },
        Instruction::Clone(..) => {
            assert(Instruction::spec_immediate_count(i.opcode()) == Some(i.imms().len() as u8));
            assert(Instruction::spec_address_count(i.opcode()) == Some(i.addrs().len() as u8));
            assert(Instruction::spec_register_count(i.opcode()) == Some(i.regs().len() as u8));
        },
        Instruction::Copy(..) => {
            assert(Instruction::spec_immediate_count(i.opcode()) == Some(i.imms().len() as u8));
            assert(Instruction::spec_address_count(i.opcode()) == Some(i.addrs().len() as u8));
            assert(Instruction::spec_register_count(i.opcode()) == Some(i.regs().len() as u8));
        },
        Instruction::Copyi(..) => {
            assert(Instruction::spec_immediate_count(i.opcode()) == Some(i.imms().len() as u8));
            assert(Instruction::spec_address_count(i.opcode()) == Some(i.addrs().len() as u8));
            assert(Instruction::spec_register_count(i.opcode()) == Some(i.regs().len() as u8));
        },
        Instruction::Addi(..) => {
            assert(Instruction::spec_immediate_count(i.opcode()) == Some(i.imms().len() as u8));
            assert(Instruction::spec_address_count(i.opcode()) == Some(i.addrs().len() as u8));
            assert(Instruction::spec_register_count(i.opcode()) == Some(i.regs().len() as u8));
        },
        Instruction::Subi(..) => {
            assert(Instruction::spec_immediate_count(i.opcode()) == Some(i.imms().len() as u8));
            assert(Instruction::spec_address_count(i.opcode()) == Some(i.addrs().len() as u8));
            assert(Instruction::spec_register_count(i.opcode()) == Some(i.regs().len() as u8));
        },
        Instruction::Muli(..) => {
            assert(Instruction::spec_immediate_count(i.opcode()) == Some(i.imms().len() as u8));
            assert(Instruction::spec_address_count(i.opcode()) == Some(i.addrs().len() as u8));
            assert(Instruction::spec_register_count(i.opcode()) == Some(i.regs().len() as u8));
        },
        Instruction::Divi(..) => {
            assert(Instruction::spec_immediate_count(i.opcode()) == Some(i.imms().len() as u8));
            assert(Instruction::spec_address_count(i.opcode()) == Some(i.addrs().len() as u8));
            assert(Instruction::spec_register_count(i.opcode()) == Some(i.regs().len() as u8));
        },
        Instruction::Modi(..) => {
            assert(Instruction::spec_immediate_count(i.opcode()) == Some(i.imms().len() as u8));
            assert(Instruction::spec_address_count(i.opcode()) == Some(i.addrs().len() as u8));
            assert(Instruction::spec_register_count(i.opcode()) == Some(i.regs().len() as u8));
        },
        Instruction::Addu(..) => {
            assert(Instruction::spec_immediate_count(i.opcode()) == Some(i.imms().len() as u8));
            assert(Instruction::spec_address_count(i.opcode()) == Some(i.addrs().len() as u8));
            assert(Instruction::spec_register_count(i.opcode()) == Some(i.regs().len() as u8));
        },
        Instruction::Subu(..) => {
            assert(Instruction::spec_immediate_count(i.opcode()) == Some(i.imms().len() as u8));
            assert(Instruction::spec_address_count(i.opcode()) == Some(i.addrs().len() as u8));
            assert(Instruction::spec_register_count(i.opcode()) == Some(i.regs().len() as u8));
        },
        Instruction::Mulu(..) => {
            assert(Instruction::spec_immediate_count(i.opcode()) == Some(i.imms().len() as u8));
            assert(Instruction::spec_address_count(i.opcode()) == Some(i.addrs().len() as u8));
            assert(Instruction::spec_register_count(i.opcode()) == Some(i.regs().len() as u8));
        },
        Instruction::Divu(..) => {
            assert(Instruction::spec_immediate_count(i.opcode()) == Some(i.imms().len() as u8));
            assert(Instruction::spec_address_count(i.opcode()) == Some(i.addrs().len() as u8));
            assert(Instruction::spec_register_count(i.opcode()) == Some(i.regs().len() as u8));
        },
        Instruction::Modu(..) => {
            assert(Instruction::spec_immediate_count(i.opcode()) == Some(i.imms().len() as u8));
            assert(Instruction::spec_address_count(i.opcode()) == Some(i.addrs().len() as u8));
            assert(Instruction::spec_register_count(i.opcode()) == Some(i.regs().len() as u8));
        },
        Instruction::Addf(..) => {
            assert(Instruction::spec_immediate_count(i.opcode()) == Some(i.imms().len() as u8));
            assert(Instruction::spec_address_count(i.opcode()) == Some(i.addrs().len() as u8));
            assert(Instruction::spec_register_count(i.opcode()) == Some(i.regs().len() as u8));
        },
        Instruction::Subf(..) => {
            assert(Instruction::spec_immediate_count(i.opcode()) == Some(i.imms().len() as u8));
            assert(Instruction::spec_address_count(i.opcode()) == Some(i.addrs().len() as u8));
            assert(Instruction::spec_register_count(i.opcode()) == Some(i.regs().len() as u8));
        },
        Instruction::Mulf(..) => {
            assert(Instruction::spec_immediate_count(i.opcode()) == Some(i.imms().len() as u8));
            assert(Instruction::spec_address_count(i.opcode()) == Some(i.addrs().len() as u8));
            assert(Instruction::spec_register_count(i.opcode()) == Some(i.regs().len() as u8));
        },
        Instruction::Divf(..) => {
            assert(Instruction::spec_immediate_count(i.opcode()) == Some(i.imms().len() as u8));
            assert(Instruction::spec_address_count(i.opcode()) == Some(i.addrs().len() as u8));
            assert(Instruction::spec_register_count(i.opcode()) == Some(i.regs().len() as u8));
        },
        Instruction::Rotl(..) => {
            assert(Instruction::spec_immediate_count(i.opcode()) == Some(i.imms().len() as u8));
            assert(Instruction::spec_address_count(i.opcode()) == Some(i.addrs().len() as u8));
            assert(Instruction::spec_register_count(i.opcode()) == Some(i.regs().len() as u8));
        },
        Instruction::Rotli(..) => {
            assert(Instruction::spec_immediate_count(i.opcode()) == Some(i.imms().len() as u8));
            assert(Instruction::spec_address_count(i.opcode()) == Some(i.addrs().len() as u8));
            assert(Instruction::spec_register_count(i.opcode()) == Some(i.regs().len() as u8));
        },
        Instruction::Rotr(..) => {
            assert(Instruction::spec_immediate_count(i.opcode()) == Some(i.imms().len() as u8));
            assert(Instruction::spec_address_count(i.opcode()) == Some(i.addrs().len() as u8));
            assert(Instruction::spec_register_count(i.opcode()) == Some(i.regs().len() as u8));
        },
        Instruction::Rotri(..) => {
            assert(Instruction::spec_immediate_count(i.opcode()) == Some(i.imms().len() as u8));
            assert(Instruction::spec_address_count(i.opcode()) == Some(i.addrs().len() as u8));
            assert(Instruction::spec_register_count(i.opcode()) == Some(i.regs().len() as u8));
        },
        Instruction::Sll(..) => {
            assert(Instruction::spec_immediate_count(i.opcode()) == Some(i.imms().len() as u8));
            assert(Instruction::spec_address_count(i.opcode()) == Some(i.addrs().len() as u8));
            assert(Instruction::spec_register_count(i.opcode()) == Some(i.regs().len() as u8));
        },
        Instruction::Slli(..) => {
            assert(Instruction::spec_immediate_count(i.opcode()) == Some(i.imms().len() as u8));
            assert(Instruction::spec_address_count(i.opcode()) == Some(i.addrs().len() as u8));
            assert(Instruction::spec_register_count(i.opcode()) == Some(i.regs().len() as u8));
        },
        Instruction::Srl(..) => {
            assert(Instruction::spec_immediate_count(i.opcode()) == Some(i.imms().len() as u8));
            assert(Instruction::spec_address_count(i.opcode()) == Some(i.addrs().len() as u8));
            assert(Instruction::spec_register_count(i.opcode()) == Some(i.regs().len() as u8));
        },
        Instruction::Srli(..) => {
            assert(Instruction::spec_immediate_count(i.opcode()) == Some(i.imms().len() as u8));
            assert(Instruction::spec_address_count(i.opcode()) == Some(i.addrs().len() as u8));
            assert(Instruction::spec_register_count(i.opcode()) == Some(i.regs().len() as u8));
        },
        Instruction::Not(..) => {
            assert(Instruction::spec_immediate_count(i.opcode()) == Some(i.imms().len() as u8));
            assert(Instruction::spec_address_count(i.opcode()) == Some(i.addrs().len() as u8));
            assert(Instruction::spec_register_count(i.opcode()) == Some(i.regs().len() as u8));
        },
        Instruction::And(..) => {
            assert(Instruction::spec_immediate_count(i.opcode()) == Some(i.imms().len() as u8));
            assert(Instruction::spec_address_count(i.opcode()) == Some(i.addrs().len() as u8));
            assert(Instruction::spec_register_count(i.opcode()) == Some(i.regs().len() as u8));
        },
        Instruction::Or(..) => {
            assert(Instruction::spec_immediate_count(i.opcode()) == Some(i.imms().len() as u8));
            assert(Instruction::spec_address_count(i.opcode()) == Some(i.addrs().len() as u8));
            assert(Instruction::spec_register_count(i.opcode()) == Some(i.regs().len() as u8));
        },
        Instruction::Xor(..) => {
            assert(Instruction::spec_immediate_count(i.opcode()) == Some(i.imms().len() as u8));
            assert(Instruction::spec_address_count(i.opcode()) == Some(i.addrs().len() as u8));
            assert(Instruction::spec_register_count(i.opcode()) == Some(i.regs().len() as u8));
        },
        Instruction::Cmp(..) => {
            assert(Instruction::spec_immediate_count(i.opcode()) == Some(i.imms().len() as u8));
            assert(Instruction::spec_address_count(i.opcode()) == Some(i.addrs().len() as u8));
            assert(Instruction::spec_register_count(i.opcode()) == Some(i.regs().len() as u8));
        },
        Instruction::Cmpi(..) => {
            assert(Instruction::spec_immediate_count(i.opcode()) == Some(i.imms().len() as u8));
            assert(Instruction::spec_address_count(i.opcode()) == Some(i.addrs().len() as u8));
            assert(Instruction::spec_register_count(i.opcode()) == Some(i.regs().len() as u8));
        },
        Instruction::Cmpf(..) => {
            assert(Instruction::spec_immediate_count(i.opcode()) == Some(i.imms().len() as u8));
            assert(Instruction::spec_address_count(i.opcode()) == Some(i.addrs().len() as u8));
            assert(Instruction::spec_register_count(i.opcode()) == Some(i.regs().len() as u8));
        },
        Instruction::Jmp(..) => {
            assert(Instruction::spec_immediate_count(i.opcode()) == Some(i.imms().len() as u8));
            assert(Instruction::spec_address_count(i.opcode()) == Some(i.addrs().len() as u8));
            assert(Instruction::spec_register_count(i.opcode()) == Some(i.regs().len() as u8));
        },
        Instruction::Jeq(..) => {
            assert(Instruction::spec_immediate_count(i.opcode()) == Some(i.imms().len() as u8));
            assert(Instruction::spec_address_count(i.opcode()) == Some(i.addrs().len() as u8));
            assert(Instruction::spec_register_count(i.opcode()) == Some(i.regs().len() as u8));
        },
        Instruction::Jne(..) => {
            assert(Instruction::spec_immediate_count(i.opcode()) == Some(i.imms().len() as u8));
            assert(Instruction::spec_address_count(i.opcode()) == Some(i.addrs().len() as u8));
            assert(Instruction::spec_register_count(i.opcode()) == Some(i.regs().len() as u8));
        },
        Instruction::Jge(..) => {
            assert(Instruction::spec_immediate_count(i.opcode()) == Some(i.imms().len() as u8));
            assert(Instruction::spec_address_count(i.opcode()) == Some(i.addrs().len() as u8));
            assert(Instruction::spec_register_count(i.opcode()) == Some(i.regs().len() as u8));
        },
        Instruction::Jgt(..) => {
            assert(Instruction::spec_immediate_count(i.opcode()) == Some(i.imms().len() as u8));
            assert(Instruction::spec_address_count(i.opcode()) == Some(i.addrs().len() as u8));
            assert(Instruction::spec_register_count(i.opcode()) == Some(i.regs().len() as u8));
        },
        Instruction::Jle(..) => {
            assert(Instruction::spec_immediate_count(i.opcode()) == Some(i.imms().len() as u8));
            assert(Instruction::spec_address_count(i.opcode()) == Some(i.addrs().len() as u8));
            assert(Instruction::spec_register_count(i.opcode()) == Some(i.regs().len() as u8));
        },
        Instruction::Jlt(..) => {
            assert(Instruction::spec_immediate_count(i.opcode()) == Some(i.imms().len() as u8));
            assert(Instruction::spec_address_count(i.opcode()) == Some(i.addrs().len() as u8));
            assert(Instruction::spec_register_count(i.opcode()) == Some(i.regs().len() as u8));
        },
        Instruction::I2f(..) => {
            assert(Instruction::spec_immediate_count(i.opcode()) == Some(i.imms().len() as u8));
            assert(Instruction::spec_address_count(i.opcode()) == Some(i.addrs().len() as u8));
            assert(Instruction::spec_register_count(i.opcode()) == Some(i.regs().len() as u8));
        },
        Instruction::F2i(..) => {
            assert(Instruction::spec_immediate_count(i.opcode()) == Some(i.imms().len() as u8));
            assert(Instruction::spec_address_count(i.opcode()) == Some(i.addrs().len() as u8));
            assert(Instruction::spec_register_count(i.opcode()) == Some(i.regs().len() as u8));
        },
        Instruction::Swpa(..) => {
            assert(Instruction::spec_immediate_count(i.opcode()) == Some(i.imms().len() as u8));
            assert(Instruction::spec_address_count(i.opcode()) == Some(i.addrs().len() as u8));
            assert(Instruction::spec_register_count(i.opcode()) == Some(i.regs().len() as u8));
        },
        Instruction::Swpar(..) => {
            assert(Instruction::spec_immediate_count(i.opcode()) == Some(i.imms().len() as u8));
            assert(Instruction::spec_address_count(i.opcode()) == Some(i.addrs().len() as u8));
            assert(Instruction::spec_register_count(i.opcode()) == Some(i.regs().len() as u8));
        },
        Instruction::Swpr(..) => {
            assert(Instruction::spec_immediate_count(i.opcode()) == Some(i.imms().len() as u8));
            assert(Instruction::spec_address_count(i.opcode()) == Some(i.addrs().len() as u8));
            assert(Instruction::spec_register_count(i.opcode()) == Some(i.regs().len() as u8));
        },
        Instruction::Call(..) => {
            assert(Instruction::spec_immediate_count(i.opcode()) == Some(i.imms().len() as u8));
            assert(Instruction::spec_address_count(i.opcode()) == Some(i.addrs().len() as u8));
            assert(Instruction::spec_register_count(i.opcode()) == Some(i.regs().len() as u8));
        },
        Instruction::Ret => {
            assert(Instruction::spec_immediate_count(i.opcode()) == Some(i.imms().len() as u8));
            assert(Instruction::spec_address_count(i.opcode()) == Some(i.addrs().len() as u8));
            assert(Instruction::spec_register_count(i.opcode()) == Some(i.regs().len() as u8));
        },
        Instruction::Halt => {
            assert(Instruction::spec_immediate_count(i.opcode()) == Some(i.imms().len() as u8));
            assert(Instruction::spec_address_count(i.opcode()) == Some(i.addrs().len() as u8));
            assert(Instruction::spec_register_count(i.opcode()) == Some(i.regs().len() as u8));
        },
    }
}

/// Rebuilding an instruction from its own opcode and operands yields it
/// back.
#[verifier::spinoff_prover]
#[verifier::rlimit(100)]
pub proof fn lemma_new_inverse(i: Instruction)
    ensures
        Instruction::spec_new(i.opcode(), i.regs(), i.addrs(), i.imms()) == Some(i),
{
    lemma_operand_counts(i);
    match i {
        Instruction::Nop => {
            assert(Instruction::spec_new(i.opcode(), i.regs(), i.addrs(), i.imms()) == Some(i));
        },
        Instruction::Syscall(..) => {
            assert(Instruction::spec_new(i.opcode(), i.regs(), i.addrs(), i.imms()) == Some(i));
        },
        Instruction::Ldb(..) => {
            assert(Instruction::spec_new(i.opcode(), i.regs(), i.addrs(), i.imms()) == Some(i));
        },
        Instruction::Ldi(..) => {
            assert(Instruction::spec_new(i.opcode(), i.regs(), i.addrs(), i.imms()) == Some(i));
        },
        Instruction::Ldf(..) => {
            assert(Instruction::spec_new(i.opcode(), i.regs(), i.addrs(), i.imms()) == Some(i));
        },
        Instruction::Mov(..) => {
            assert(Instruction::spec_new(i.opcode(), i.regs(), i.addrs(), i.imms()) == Some(i));
        },
        Instruction::Push(..) => {
            assert(Instruction::spec_new(i.opcode(), i.regs(), i.addrs(), i.imms()) == Some(i));
        },
        Instruction::Pop(..) => {
            assert(Instruction::spec_new(i.opcode(), i.regs(), i.addrs(), i.imms()) == Some(i));
        },
        Instruction::Sget(..) => {
            assert(Instruction::spec_new(i.opcode(), i.regs(), i.addrs(), i.imms()) == Some(i));
        },
        Instruction::Malloc(..) => {
            assert(Instruction::spec_new(i.opcode(), i.regs(), i.addrs(), i.imms()) == Some(i));
        },
        Instruction::Malloci(..) => {
            assert(Instruction::spec_new(i.opcode(), i.regs(), i.addrs(), i.imms()) == Some(i));
        },
        Instruction::Free(..) => {
            assert(Instruction::spec_new(i.opcode(), i.regs(), i.addrs(), i.imms()) == Some(i));
        },
        Instruction::Freea(..) => {
            assert(Instruction::spec_new(i.opcode(), i.regs(), i.addrs(), i.imms()) == Some(i));
        },
        Instruction::Setb(..) => {
            assert(Instruction::spec_new(i.opcode(), i.regs(), i.addrs(), i.imms()) == Some(i));
        },
        Instruction::Seti(..) => {
            assert(Instruction::spec_new(i.opcode(), i.regs(), i.addrs(), i.imms()) == Some(i));
        },
        Instruction::Isetb(..) => {
            assert(Instruction::spec_new(i.opcode(), i.regs(), i.addrs(), i.imms()) == Some(i));
        },
        Instruction::Iseti(..) => {
            assert(Instruction::spec_new(i.opcode(), i.regs(), i.addrs(), i.imms()) == Some(i));
        },
        Instruction::Getb(..) => {
            assert(Instruction::spec_new(i.opcode(), i.regs(), i.addrs(), i.imms()) == Some(i));
        },
        Instruction::Geti(..) => {
            assert(Instruction::spec_new(i.opcode(), i.regs(), i.addrs(), i.imms()) == Some(i));
        },
        Instruction::Igetb(..) => {
            assert(Instruction::spec_new(i.opcode(), i.regs(), i.addrs(), i.imms()) == Some(i));
        },
        Instruction::Igeti(..) => {
            assert(Instruction::spec_new(i.opcode(), i.regs(), i.addrs(), i.imms()) == Some(i));
        },
        Instruction::Last(..) => {
            assert(Instruction::spec_new(i.opcode(), i.regs(), i.addrs(), i.imms()) == Some(i));
        },
        Instruction::Length(..) => {
            assert(Instruction::spec_new(i.opcode(), i.regs(), i.addrs(), i.imms()) == Some(i));
        },
        Instruction::Clone(..) => {
            assert(Instruction::spec_new(i.opcode(), i.regs(), i.addrs(), i.imms()) == Some(i));
        },
        Instruction::Copy(..) => {
            assert(Instruction::spec_new(i.opcode(), i.regs(), i.addrs(), i.imms()) == Some(i));
        },
        Instruction::Copyi(..) => {
            assert(Instruction::spec_new(i.opcode(), i.regs(), i.addrs(), i.imms()) == Some(i));
        },
        Instruction::Addi(..) => {
            assert(Instruction::spec_new(i.opcode(), i.regs(), i.addrs(), i.imms()) == Some(i));
        },
        Instruction::Subi(..) => {
            assert(Instruction::spec_new(i.opcode(), i.regs(), i.addrs(), i.imms()) == Some(i));
        },
        Instruction::Muli(..) => {
            assert(Instruction::spec_new(i.opcode(), i.regs(), i.addrs(), i.imms()) == Some(i));
        },
        Instruction::Divi(..) => {
            assert(Instruction::spec_new(i.opcode(), i.regs(), i.addrs(), i.imms()) == Some(i));
        },
        Instruction::Modi(..) => {
            assert(Instruction::spec_new(i.opcode(), i.regs(), i.addrs(), i.imms()) == Some(i));
        },
        Instruction::Addu(..) => {
            assert(Instruction::spec_new(i.opcode(), i.regs(), i.addrs(), i.imms()) == Some(i));
        },
        Instruction::Subu(..) => {
            assert(Instruction::spec_new(i.opcode(), i.regs(), i.addrs(), i.imms()) == Some(i));
        },
        Instruction::Mulu(..) => {
            assert(Instruction::spec_new(i.opcode(), i.regs(), i.addrs(), i.imms()) == Some(i));
        },
        Instruction::Divu(..) => {
            assert(Instruction::spec_new(i.opcode(), i.regs(), i.addrs(), i.imms()) == Some(i));
        },
        Instruction::Modu(..) => {
            assert(Instruction::spec_new(i.opcode(), i.regs(), i.addrs(), i.imms()) == Some(i));
        },
        Instruction::Addf(..) => {
            assert(Instruction::spec_new(i.opcode(), i.regs(), i.addrs(), i.imms()) == Some(i));
        },
        Instruction::Subf(..) => {
            assert(Instruction::spec_new(i.opcode(), i.regs(), i.addrs(), i.imms()) == Some(i));
        },
        Instruction::Mulf(..) => {
            assert(Instruction::spec_new(i.opcode(), i.regs(), i.addrs(), i.imms()) == Some(i));
        },
        Instruction::Divf(..) => {
            assert(Instruction::spec_new(i.opcode(), i.regs(), i.addrs(), i.imms()) == Some(i));
        },
        Instruction::Rotl(..) => {
            assert(Instruction::spec_new(i.opcode(), i.regs(), i.addrs(), i.imms()) == Some(i));
        },
        Instruction::Rotli(..) => {
            assert(Instruction::spec_new(i.opcode(), i.regs(), i.addrs(), i.imms()) == Some(i));
        },
        Instruction::Rotr(..) => {
            assert(Instruction::spec_new(i.opcode(), i.regs(), i.addrs(), i.imms()) == Some(i));
        },
        Instruction::Rotri(..) => {
            assert(Instruction::spec_new(i.opcode(), i.regs(), i.addrs(), i.imms()) == Some(i));
        },
        Instruction::Sll(..) => {
            assert(Instruction::spec_new(i.opcode(), i.regs(), i.addrs(), i.imms()) == Some(i));
        },
        Instruction::Slli(..) => {
            assert(Instruction::spec_new(i.opcode(), i.regs(), i.addrs(), i.imms()) == Some(i));
        },
        Instruction::Srl(..) => {
            assert(Instruction::spec_new(i.opcode(), i.regs(), i.addrs(), i.imms()) == Some(i));
        },
        Instruction::Srli(..) => {
            assert(Instruction::spec_new(i.opcode(), i.regs(), i.addrs(), i.imms()) == Some(i));
        },
        Instruction::Not(..) => {
            assert(Instruction::spec_new(i.opcode(), i.regs(), i.addrs(), i.imms()) == Some(i));
        },
        Instruction::And(..) => {
            assert(Instruction::spec_new(i.opcode(), i.regs(), i.addrs(), i.imms()) == Some(i));
        },
        Instruction::Or(..) => {
            assert(Instruction::spec_new(i.opcode(), i.regs(), i.addrs(), i.imms()) == Some(i));
        },
        Instruction::Xor(..) => {
            assert(Instruction::spec_new(i.opcode(), i.regs(), i.addrs(), i.imms()) == Some(i));
        },
        Instruction::Cmp(..) => {
            assert(Instruction::spec_new(i.opcode(), i.regs(), i.addrs(), i.imms()) == Some(i));
        },
        Instruction::Cmpi(..) => {
            assert(Instruction::spec_new(i.opcode(), i.regs(), i.addrs(), i.imms()) == Some(i));
        },
        Instruction::Cmpf(..) => {
            assert(Instruction::spec_new(i.opcode(), i.regs(), i.addrs(), i.imms()) == Some(i));
        },
        Instruction::Jmp(..) => {
            assert(Instruction::spec_new(i.opcode(), i.regs(), i.addrs(), i.imms()) == Some(i));
        },
        Instruction::Jeq(..) => {
            assert(Instruction::spec_new(i.opcode(), i.regs(), i.addrs(), i.imms()) == Some(i));
        },
        Instruction::Jne(..) => {
            assert(Instruction::spec_new(i.opcode(), i.regs(), i.addrs(), i.imms()) == Some(i));
        },
        Instruction::Jge(..) => {
            assert(Instruction::spec_new(i.opcode(), i.regs(), i.addrs(), i.imms()) == Some(i));
        },
        Instruction::Jgt(..) => {
            assert(Instruction::spec_new(i.opcode(), i.regs(), i.addrs(), i.imms()) == Some(i));
        },
        Instruction::Jle(..) => {
            assert(Instruction::spec_new(i.opcode(), i.regs(), i.addrs(), i.imms()) == Some(i));
        },
        Instruction::Jlt(..) => {
            assert(Instruction::spec_new(i.opcode(), i.regs(), i.addrs(), i.imms()) == Some(i));
        },
        Instruction::I2f(..) => {
            assert(Instruction::spec_new(i.opcode(), i.regs(), i.addrs(), i.imms()) == Some(i));
        },
        Instruction::F2i(..) => {
            assert(Instruction::spec_new(i.opcode(), i.regs(), i.addrs(), i.imms()) == Some(i));
        },
        Instruction::Swpa(..) => {
            assert(Instruction::spec_new(i.opcode(), i.regs(), i.addrs(), i.imms()) == Some(i));
        },
        Instruction::Swpar(..) => {
            assert(Instruction::spec_new(i.opcode(), i.regs(), i.addrs(), i.imms()) == Some(i));
        },
        Instruction::Swpr(..) => {
            assert(Instruction::spec_new(i.opcode(), i.regs(), i.addrs(), i.imms()) == Some(i));
        },
        Instruction::Call(..) => {
            assert(Instruction::spec_new(i.opcode(), i.regs(), i.addrs(), i.imms()) == Some(i));
        },
        Instruction::Ret => {
            assert(Instruction::spec_new(i.opcode(), i.regs(), i.addrs(), i.imms()) == Some(i));
        },
        Instruction::Halt => {
            assert(Instruction::spec_new(i.opcode(), i.regs(), i.addrs(), i.imms()) == Some(i));
        },
    }
}

impl Instruction {
    /// The byte encoding of this instruction: its opcode byte, immediates,
    /// addresses and packed registers.
    pub fn encode(&self) -> (r: Vec<u8>)
        ensures
            r@ == spec_encode(*self),
    {
        let imms = self.immediates();
        let addrs = self.addresses();
        let regs = self.registers();
        let mut out: Vec<u8> = Vec::new();
        out.push(self.opcode_value());
        proof {
            assert(out@ =~= seq![self.opcode()] + spec_encode_imms(imms@.take(0)));
        }
        let mut k: usize = 0;
        #[verifier::loop_isolation(false)]
        while k < imms.len()
            invariant
                k <= imms@.len(),
                out@ == seq![self.opcode()] + spec_encode_imms(imms@.take(k as int)),
            decreases imms@.len() - k,
        {
            let mut b = vstd::bytes::u64_to_le_bytes(imms[k].bits);
            proof {
                lemma_encode_imms_snoc(imms@.take(k as int), imms@[k as int]);
                assert(imms@.take(k + 1) =~= imms@.take(k as int).push(imms@[k as int]));
            }
            out.append(&mut b);
            proof {
                assert(out@ =~= seq![self.opcode()] + spec_encode_imms(imms@.take(k + 1)));
            }
            k = k + 1;
        }
        proof {
            assert(imms@.take(imms@.len() as int) =~= imms@);
        }
        let ghost base1 = seq![self.opcode()] + spec_encode_imms(self.imms());
        let mut k: usize = 0;
        #[verifier::loop_isolation(false)]
        while k < addrs.len()
            invariant
                k <= addrs@.len(),
                out@ == base1 + spec_encode_addrs(addrs@.take(k as int)),
            decreases addrs@.len() - k,
        {
            let mut b = vstd::bytes::u64_to_le_bytes(addrs[k].bits);
            proof {
                lemma_encode_addrs_snoc(addrs@.take(k as int), addrs@[k as int]);
                assert(addrs@.take(k + 1) =~= addrs@.take(k as int).push(addrs@[k as int]));
            }
            out.append(&mut b);
            proof {
                assert(out@ =~= base1 + spec_encode_addrs(addrs@.take(k + 1)));
            }
            k = k + 1;
        }
        proof {
            assert(addrs@.take(addrs@.len() as int) =~= addrs@);
        }
        let ghost base2 = base1 + spec_encode_addrs(self.addrs());
        let reg_count = regs.len();
        let reg_bytes = (reg_count + 1) / 2;
        proof {
            lemma_encode_regs_bytes(regs@);
        }
        let mut j: usize = 0;
        #[verifier::loop_isolation(false)]
        while j < reg_bytes
            invariant
                j <= reg_bytes,
                reg_bytes == (regs@.len() + 1) / 2,
                out@.len() == base2.len() + j,
                out@.subrange(0, base2.len() as int) == base2,
                forall|j2: int| 0 <= j2 < j ==> out@[base2.len() + j2] == reg_byte(regs@, j2),
            decreases reg_bytes - j,
        {
            proof {
                lemma_reg_nibble(regs@[2 * j as int]);
            }
            let hi = regs[2 * j].index();
            let lo: u8 = if 2 * j + 1 < reg_count {
                proof {
                    lemma_reg_nibble(regs@[2 * j + 1]);
                }
                regs[2 * j + 1].index()
            } else {
                0
            };
            let ghost pre = out@;
            out.push((hi << 4u8) | lo);
            proof {
                assert(out@.subrange(0, base2.len() as int) =~= base2);
            }
            j = j + 1;
        }
        proof {
            assert(out@ =~= base2 + spec_encode_regs(regs@));
            assert(out@ =~= spec_encode(*self));
        }
        out
    }
}

/// The byte encoding of a whole instruction list.
pub fn encode_program(instructions: &Vec<Instruction>) -> (r: Vec<u8>)
    ensures
        r@ == spec_encode_list(instructions@),
{
    let mut out: Vec<u8> = Vec::new();
    let mut k: usize = 0;
    #[verifier::loop_isolation(false)]
    while k < instructions.len()
        invariant
            k <= instructions@.len(),
            out@ == spec_encode_list(instructions@.take(k as int)),
        decreases instructions@.len() - k,
    {
        let mut b = instructions[k].encode();
        proof {
            lemma_encode_list_snoc(instructions@.take(k as int), instructions@[k as int]);
            assert(instructions@.take(k + 1) =~= instructions@.take(k as int).push(
                instructions@[k as int],
            ));
        }
        out.append(&mut b);
        proof {
            assert(out@ =~= spec_encode_list(instructions@.take(k + 1)));
        }
        k = k + 1;
    }
    proof {
        assert(instructions@.take(instructions@.len() as int) =~= instructions@);
    }
    out
}

/// Appending one instruction extends the list encoding by its bytes.
pub proof fn lemma_encode_list_snoc(l: Seq<Instruction>, x: Instruction)
    ensures
        spec_encode_list(l.push(x)) == spec_encode_list(l) + spec_encode(x),
    decreases l.len(),
{
    if l.len() == 0 {
        assert(l.push(x).skip(1) =~= Seq::<Instruction>::empty());
        assert(spec_encode_list(Seq::<Instruction>::empty()) =~= Seq::<u8>::empty());
        assert(spec_encode_list(l) =~= Seq::<u8>::empty());
        assert(spec_encode_list(l.push(x)) =~= spec_encode_list(l) + spec_encode(x));
    } else {
        assert(l.push(x).skip(1) =~= l.skip(1).push(x));
        lemma_encode_list_snoc(l.skip(1), x);
        assert(l.push(x)[0] == l[0]);
        assert(spec_encode_list(l.push(x)) == spec_encode(l[0]) + spec_encode_list(
            l.skip(1).push(x),
        ));
        assert(spec_encode(l[0]) + (spec_encode_list(l.skip(1)) + spec_encode(x)) =~= (spec_encode(
            l[0],
        ) + spec_encode_list(l.skip(1))) + spec_encode(x));
    }
}

/// Where each immediate's bytes sit in the encoded immediate area.
pub proof fn lemma_encode_imms_props(s: Seq<Immediate>)
    ensures
        spec_encode_imms(s).len() == 8 * s.len(),
        forall|k: int|
            0 <= k < s.len() ==> #[trigger] spec_encode_imms(s).subrange(8 * k, 8 * k + 8)
                == vstd::bytes::spec_u64_to_le_bytes(s[k].bits),
    decreases s.len(),
{
    vstd::bytes::lemma_auto_spec_u64_to_from_le_bytes();
    if s.len() > 0 {
        lemma_encode_imms_props(s.skip(1));
        let e = spec_encode_imms(s);
        assert forall|k: int| 0 <= k < s.len() implies #[trigger] e.subrange(8 * k, 8 * k + 8)
            == vstd::bytes::spec_u64_to_le_bytes(s[k].bits) by {
            if k == 0 {
                assert(e.subrange(0, 8) =~= vstd::bytes::spec_u64_to_le_bytes(s[0].bits));
            } else {
                assert(e.subrange(8 * k, 8 * k + 8) =~= spec_encode_imms(s.skip(1)).subrange(
                    8 * (k - 1),
                    8 * (k - 1) + 8,
                ));
                assert(s.skip(1)[k - 1] == s[k]);
            }
        }
    }
}

/// Where each address's bytes sit in the encoded address area.
pub proof fn lemma_encode_addrs_props(s: Seq<Address>)
    ensures
        spec_encode_addrs(s).len() == 8 * s.len(),
        forall|k: int|
            0 <= k < s.len() ==> #[trigger] spec_encode_addrs(s).subrange(8 * k, 8 * k + 8)
                == vstd::bytes::spec_u64_to_le_bytes(s[k].bits),
    decreases s.len(),
{
    vstd::bytes::lemma_auto_spec_u64_to_from_le_bytes();
    if s.len() > 0 {
        lemma_encode_addrs_props(s.skip(1));
        let e = spec_encode_addrs(s);
        assert forall|k: int| 0 <= k < s.len() implies #[trigger] e.subrange(8 * k, 8 * k + 8)
            == vstd::bytes::spec_u64_to_le_bytes(s[k].bits) by {
            if k == 0 {
                assert(e.subrange(0, 8) =~= vstd::bytes::spec_u64_to_le_bytes(s[0].bits));
            } else {
                assert(e.subrange(8 * k, 8 * k + 8) =~= spec_encode_addrs(s.skip(1)).subrange(
                    8 * (k - 1),
                    8 * (k - 1) + 8,
                ));
                assert(s.skip(1)[k - 1] == s[k]);
            }
        }
    }
}

} // verus!
